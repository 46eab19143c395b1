use rrn_station::market::{
    availability_for, close_outcome, draft_contract, draft_listing, draft_proposal, edit_patch,
    in_station_community, parse_surface, recurring_terms_from, reindex, requested_terms,
    require_community, require_contract_party, require_inquiry_party, require_on_offer,
    search_surface, select_needs, settle_inquiry, stake_refusal, state_name, suggest_oracle_tier,
    termination_side, tracks_stock, whoami, AnnouncedNeed, Availability, AvailabilityStatus,
    ContractTerms, CreateListingParams, CurrentListing, EditListingParams, ExpiryPatch, Frequency,
    InquiryOutcome, InquiryRecords, LedgerTx, ListingDraft, ListingPatch, ListingState, Pricing, PricingModel, ProposalDraft,
    RecurringTerms, Reindex, Settlement, Surface, TerminatedBy, TransactionState,
    PROPOSAL_TTL_SECS, VOUCH_COMMUNITY,
};
use rrn_station::rpc::{invalid_params, ErrorCode, RpcError};
use rrn_station::tables::Id;
use rrn_station::text::hex;

const NOW: i64 = 1_000;

fn id(n: u8) -> Id {
    Id { bytes: [n; 32] }
}

fn me() -> String {
    "rrn1station".to_string()
}

fn create_params(title: &str) -> CreateListingParams {
    CreateListingParams {
        surface: "goods".into(),
        category: "food".into(),
        title: title.into(),
        description: "Picked this week.".into(),
        amount_centi: 250,
        negotiable: false,
        capacity: Some(12),
        next_slot: None,
        min_reputation_bits: 1.5f32.to_bits(),
        community_member_only: false,
        oracle_tier: None,
        expires_at: Some(NOW + 10_000),
        every: None,
        periods: None,
        notice_days: None,
        penalty_centi: None,
    }
}

fn no_edit() -> EditListingParams {
    EditListingParams {
        amount_centi: None,
        negotiable: None,
        description: None,
        capacity: None,
        next_slot: None,
        clear_expiry: None,
        expires_at: None,
    }
}

#[test]
fn a_created_listing_is_the_stations_own() {
    let d = draft_listing(&create_params("Squash"), &me(), NOW).unwrap();
    assert_eq!(d.provider, me());
    assert_eq!(d.community, VOUCH_COMMUNITY);
    assert_eq!(d.title, "Squash");
    assert_eq!(d.description, "Picked this week.");
    assert_eq!(d.availability.capacity, Some(12));
    assert_eq!(f32::from_bits(d.min_reputation_bits), 1.5);
    assert_eq!(d.created_at, NOW);
    assert_eq!(d.expires_at, Some(NOW + 10_000));
    assert_eq!(
        d.pricing,
        Pricing { amount_centi: 250, model: PricingModel::Fixed, negotiable: false }
    );
}

#[test]
fn an_unknown_surface_is_refused_by_name() {
    let mut params = create_params("Squash");
    params.surface = "livestock".into();
    let err = draft_listing(&params, &me(), NOW).unwrap_err();
    assert_eq!(err.code, ErrorCode::InvalidParams);
    assert!(err.message.contains("livestock"), "{}", err.message);
    assert_eq!(
        parse_surface("livestock"),
        Err(invalid_params("unknown surface: livestock (goods, services, or commons)"))
    );
    assert_eq!(search_surface(&None), Ok(None));
    assert_eq!(search_surface(&Some("commons".into())), Ok(Some(Surface::Commons)));
    assert!(search_surface(&Some("x".into())).is_err());
}

/// A market that holds listings to its own rules, as the station finds it.
struct Market {
    listings: Vec<ListingDraft>,
}

impl Market {
    fn new() -> Self {
        Market { listings: vec![] }
    }

    fn valid(d: &ListingDraft) -> Result<(), String> {
        if !["food", "tools"].contains(&d.category.as_str()) {
            return Err(format!("unknown category: {}", d.category));
        }
        if !(1..=2).contains(&d.oracle_tier) {
            return Err(format!("oracle tier {} is not 1 or 2", d.oracle_tier));
        }
        if d.pricing.amount_centi < 0 && d.surface != Surface::Commons {
            return Err("a negative price is a subsidy".into());
        }
        Ok(())
    }

    /// Publishes a listing; its place in the market stands for its id.
    fn create(&mut self, p: &CreateListingParams) -> Result<(usize, u8), RpcError> {
        let d = draft_listing(p, &me(), NOW)?;
        Self::valid(&d).map_err(|e| invalid_params(&e))?;
        let tier = d.oracle_tier;
        self.listings.push(d);
        Ok((self.listings.len() - 1, tier))
    }

    fn edit(&mut self, at: usize, p: EditListingParams) -> Result<usize, RpcError> {
        let current = self.listings.get(at).map(|d| CurrentListing {
            surface: d.surface,
            pricing: d.pricing,
            availability: d.availability,
        });
        let patch = edit_patch(p, "id", current)?;
        let nothing = ListingPatch {
            pricing: None,
            description: None,
            availability: None,
            expires_at: ExpiryPatch::Unchanged,
        };
        if patch == nothing {
            return Err(invalid_params("an update must change something"));
        }
        let d = &mut self.listings[at];
        d.pricing = patch.pricing.unwrap_or(d.pricing);
        d.availability = patch.availability.unwrap_or(d.availability);
        d.description = patch.description.unwrap_or(d.description.clone());
        Ok(at)
    }

    fn search(&self, surface: Option<&str>) -> Result<Vec<&ListingDraft>, RpcError> {
        let wanted = search_surface(&surface.map(|s| s.to_string()))?;
        Ok(self.listings.iter().filter(|d| wanted.is_none() || wanted == Some(d.surface)).collect())
    }
}

#[test]
fn a_created_listings_oracle_tier_follows_the_price_unless_it_is_given() {
    let mut core = Market::new();
    // Under 5 Commons → tier 1; at or above → tier 2.
    let mut params = create_params("Cheap squash");
    params.amount_centi = 499;
    assert_eq!(core.create(&params).unwrap().1, 1);

    let mut params = create_params("Dear squash");
    params.amount_centi = 500;
    assert_eq!(core.create(&params).unwrap().1, 2);

    // An explicit tier overrides the suggestion.
    let mut params = create_params("Squash, tier by hand");
    params.amount_centi = 100;
    params.oracle_tier = Some(2);
    assert_eq!(core.create(&params).unwrap().1, 2);

    // And one outside the range is the caller's mistake.
    let mut params = create_params("Squash, tier 9");
    params.oracle_tier = Some(9);
    assert_eq!(core.create(&params).unwrap_err().code, ErrorCode::InvalidParams);
}

#[test]
fn creating_a_listing_refuses_a_bad_surface_category_and_price() {
    let mut core = Market::new();

    let mut params = create_params("Squash");
    params.surface = "livestock".into();
    let err = core.create(&params).unwrap_err();
    assert_eq!(err.code, ErrorCode::InvalidParams);
    assert!(err.message.contains("livestock"), "{}", err.message);

    let mut params = create_params("Squash");
    params.category = "cryptocurrency".into();
    let err = core.create(&params).unwrap_err();
    assert_eq!(err.code, ErrorCode::InvalidParams);
    assert!(err.message.contains("cryptocurrency"), "{}", err.message);

    // A negative price is a subsidy, legal only on the Commons surface.
    let mut params = create_params("Squash, but we pay you");
    params.amount_centi = -250;
    assert_eq!(core.create(&params).unwrap_err().code, ErrorCode::InvalidParams);

    let mut params = create_params("Watch the grain store");
    params.surface = "commons".into();
    params.amount_centi = -250;
    assert!(core.create(&params).is_ok());
}

#[test]
fn marketplace_search_filters_by_surface_and_refuses_an_unknown_one() {
    let mut core = Market::new();
    core.create(&create_params("Winter squash")).unwrap();

    // The listing is Goods, so a Services tab must not show it.
    assert!(core.search(Some("services")).unwrap().is_empty());
    assert_eq!(core.search(Some("goods")).unwrap().len(), 1);
    assert_eq!(core.search(None).unwrap().len(), 1);

    // An unknown surface is an error, not a silently-dropped filter: the
    // caller would otherwise get an answer to a question they did not ask.
    let err = core.search(Some("livestock")).unwrap_err();
    assert_eq!(err.code, ErrorCode::InvalidParams);
    assert!(err.message.contains("livestock"), "{}", err.message);
}

#[test]
fn cli_edits_a_listing_and_the_id_holds_while_the_fields_change() {
    let mut core = Market::new();
    let (listing_id, _) = core.create(&create_params("Squash")).unwrap();

    // Patch price and description; leave capacity and everything else alone.
    let mut edit = no_edit();
    edit.amount_centi = Some(999);
    edit.description = Some("Now half price.".into());
    // A listing's content address is its identity — an edit never moves it.
    assert_eq!(core.edit(listing_id, edit), Ok(listing_id));

    let detail = &core.listings[listing_id];
    assert_eq!(detail.pricing.amount_centi, 999);
    assert_eq!(detail.description, "Now half price.");
    // A field the patch did not name is carried from the current listing.
    assert_eq!(detail.availability.capacity, Some(12));
    assert_eq!(core.listings.len(), 1);

    // An empty patch is refused rather than written as a no-op.
    let err = core.edit(listing_id, no_edit()).unwrap_err();
    assert_eq!(err.code, ErrorCode::InvalidParams);

    // So is editing a listing that does not exist.
    let mut edit = no_edit();
    edit.amount_centi = Some(100);
    let err = core.edit(7, edit).unwrap_err();
    assert_eq!(err.code, ErrorCode::InvalidParams);
}

#[test]
fn surfaces_answer_to_their_tags() {
    for s in [Surface::Goods, Surface::Services, Surface::Commons] {
        assert_eq!(Surface::from_tag(s.tag()), Some(s));
    }
    assert_eq!(Surface::from_tag("Goods"), None);
}

#[test]
fn the_oracle_tier_follows_the_price_unless_it_is_given() {
    let tier = |amount, given| {
        let mut p = create_params("Squash");
        p.amount_centi = amount;
        p.oracle_tier = given;
        draft_listing(&p, &me(), NOW).unwrap().oracle_tier
    };
    // Under 5 Commons → tier 1; at or above → tier 2.
    assert_eq!(tier(499, None), 1);
    assert_eq!(tier(500, None), 2);
    // An explicit tier overrides the suggestion.
    assert_eq!(tier(100, Some(2)), 2);
    assert_eq!(suggest_oracle_tier(-499), 1);
    assert_eq!(suggest_oracle_tier(-500), 2);
    assert_eq!(suggest_oracle_tier(i64::MIN), 2);
}

#[test]
fn editing_a_price_alone_keeps_the_pricing_model() {
    // A negotiable listing, edited with only a new price, stays negotiable —
    // the untouched half of pricing is carried from the current listing.
    let mut params = create_params("Firewood, make an offer");
    params.negotiable = true;
    let listed = draft_listing(&params, &me(), NOW).unwrap();
    let current = CurrentListing {
        surface: listed.surface,
        pricing: listed.pricing,
        availability: listed.availability,
    };
    let mut edit = no_edit();
    edit.amount_centi = Some(250);
    let patch = edit_patch(edit, "id", Some(current)).unwrap();
    let pricing = patch.pricing.unwrap();
    assert_eq!(pricing.amount_centi, 250);
    assert_eq!(pricing.model, PricingModel::Negotiable);
    assert!(pricing.negotiable);
}

#[test]
fn an_edit_carries_what_it_does_not_name() {
    let current = CurrentListing {
        surface: Surface::Goods,
        pricing: Pricing { amount_centi: 250, model: PricingModel::Fixed, negotiable: false },
        availability: Availability {
            status: AvailabilityStatus::Available,
            capacity: Some(12),
            next_slot: None,
        },
    };
    let mut edit = no_edit();
    edit.negotiable = Some(true);
    edit.capacity = Some(3);
    edit.expires_at = Some(9);
    let patch = edit_patch(edit, "id", Some(current)).unwrap();
    assert_eq!(
        patch.pricing,
        Some(Pricing { amount_centi: 250, model: PricingModel::Negotiable, negotiable: true })
    );
    assert_eq!(patch.availability.unwrap().capacity, Some(3));
    assert_eq!(patch.description, None);
    assert_eq!(patch.expires_at, ExpiryPatch::Until { at: 9 });

    let nothing = edit_patch(no_edit(), "id", Some(current)).unwrap();
    assert_eq!(nothing.pricing, None);
    assert_eq!(nothing.availability, None);
    assert_eq!(nothing.expires_at, ExpiryPatch::Unchanged);

    let mut cleared = no_edit();
    cleared.clear_expiry = Some(true);
    cleared.expires_at = Some(9);
    assert_eq!(
        edit_patch(cleared, "id", Some(current)).unwrap().expires_at,
        ExpiryPatch::Clear
    );
    assert_eq!(edit_patch(no_edit(), "id", None), Err(invalid_params("no such listing: id")));
}

#[test]
fn availability_keeps_only_what_the_surface_means_by_it() {
    // A Services listing's capacity is dropped and its slot kept; the Goods
    // case is covered by the create test above.
    let mut params = create_params("Cart repair, by appointment");
    params.surface = "services".into();
    params.category = "tools".into();
    params.next_slot = Some(NOW + 3_600);
    let detail = draft_listing(&params, &me(), NOW).unwrap();
    assert!(detail.availability.capacity.is_none());
    assert_eq!(detail.availability.next_slot, Some(NOW + 3_600));

    // Zero units is a provider saying "sold out", not an error.
    let mut params = create_params("Squash, all gone");
    params.capacity = Some(0);
    let detail = draft_listing(&params, &me(), NOW).unwrap();
    assert_eq!(detail.availability.status, AvailabilityStatus::Unavailable);

    assert_eq!(
        availability_for(Surface::Commons, Some(0), Some(1)),
        Availability {
            status: AvailabilityStatus::Available,
            capacity: None,
            next_slot: None
        }
    );
}

#[test]
fn recurring_terms_need_a_cadence_and_a_length() {
    assert_eq!(
        recurring_terms_from("weekly", Some(4), None, Some(300)),
        Ok(RecurringTerms {
            frequency: Frequency::Weekly,
            duration_periods: 4,
            notice_period_days: 0,
            early_termination_penalty_centi: 300
        })
    );
    assert_eq!(
        recurring_terms_from("hourly", Some(4), None, None),
        Err(invalid_params("unknown cadence \"hourly\" (daily, weekly, or monthly)"))
    );
    assert_eq!(
        recurring_terms_from("daily", None, None, None),
        Err(invalid_params("a recurring listing needs --periods"))
    );
    assert_eq!(requested_terms(&create_params("x")), Ok(None));
    let mut p = create_params("x");
    p.every = Some("monthly".into());
    p.periods = Some(2);
    assert_eq!(requested_terms(&p).unwrap().unwrap().frequency, Frequency::Monthly);
}

#[test]
fn needs_are_selected_by_their_place_on_the_log() {
    let need = |seq| AnnouncedNeed {
        seq,
        category: "food".into(),
        quantity_needed: 1,
        max_price_centi: None,
        valid_until: NOW,
    };
    let all = vec![need(3), need(5)];
    assert_eq!(select_needs(all.clone(), None), Ok(all.clone()));
    assert_eq!(select_needs(all.clone(), Some(5)), Ok(vec![need(5)]));
    assert_eq!(
        select_needs(all, Some(4)),
        Err(invalid_params("no need announced by this station at log seq 4"))
    );
    assert_eq!(select_needs(vec![], None), Ok(vec![]));
}

#[test]
fn only_an_active_listing_is_on_offer() {
    let active = ListingState::Active { capacity: Some(2) };
    assert_eq!(require_on_offer(Some(active)), Ok(()));
    assert_eq!(
        require_on_offer(Some(ListingState::Expired)),
        Err(invalid_params("listing is not on offer"))
    );
    assert_eq!(
        require_on_offer(None),
        Err(invalid_params("no such listing on this station"))
    );
    assert_eq!(reindex(Some(active)), Reindex::Upsert);
    assert_eq!(reindex(Some(ListingState::Closed)), Reindex::Remove);
    assert!(tracks_stock(Some(active)));
    assert!(!tracks_stock(Some(ListingState::Active { capacity: None })));
    assert!(!tracks_stock(Some(ListingState::Closed)));
    assert!(!tracks_stock(None));
}

#[test]
fn listings_belong_to_the_stations_community() {
    assert!(in_station_community("rrn-phase0"));
    assert_eq!(require_community("rrn-phase0"), Ok(()));
    assert_eq!(
        require_community("other"),
        Err(invalid_params("listing community \"other\" is not this station's community"))
    );
}

fn inquiry(buyer: &str, closed: Option<InquiryOutcome>) -> Option<InquiryRecords> {
    Some(InquiryRecords {
        inquiry_id: id(0xab),
        listing_id: id(2),
        listing_title: "Seed potatoes".into(),
        listed_price_centi: 250,
        oracle_tier: 1,
        recurring: None,
        buyer: buyer.into(),
        provider: "rrn1provider".into(),
        closed,
    })
}

fn agreed(price: i64) -> Option<InquiryOutcome> {
    Some(InquiryOutcome::Agreed { final_price_centi: price })
}

fn pay(s: Settlement) -> ProposalDraft {
    match s {
        Settlement::Pay(p) => p,
        other => panic!("{other:?}"),
    }
}

#[test]
fn settling_an_agreed_inquiry_pays_the_provider_at_the_agreed_price() {
    let proposal =
        pay(settle_inquiry(&inquiry("rrn1station", agreed(400)), &me(), &vec![], 7, NOW).unwrap());

    // From the station, to the provider, at the granted price, and linked to the
    // listing so settlement can attest the sale.
    assert_eq!(proposal.sender, me());
    assert_eq!(proposal.receiver, "rrn1provider");
    assert_eq!(proposal.amount_centi, 400);
    assert_eq!(proposal.listing, Some(id(2)));
    assert!(proposal.memo.as_deref().unwrap().starts_with("Seed potatoes · #"));
    assert_eq!(proposal.memo.as_deref(), Some("Seed potatoes · #abababab"));
    assert_eq!(proposal.nonce, 7);
    assert_eq!(proposal.expires_at, NOW + PROPOSAL_TTL_SECS);
    assert_eq!(proposal.tier, Some(1));
}

#[test]
fn settling_the_same_agreement_twice_returns_the_one_payment() {
    let q = inquiry("rrn1station", agreed(400));
    let first = pay(settle_inquiry(&q, &me(), &vec![], 0, NOW).unwrap());
    let log = vec![
        LedgerTx { id: id(8), memo: None, listing: None, state: TransactionState::Settled },
        LedgerTx {
            id: id(9),
            memo: first.memo,
            listing: first.listing,
            state: TransactionState::Proposed,
        },
    ];
    // The second call finds the first payment and proposes none.
    assert_eq!(
        settle_inquiry(&q, &me(), &log, 1, NOW),
        Ok(Settlement::Paid { tx_id: hex(&[9; 32]), state: "Proposed".into() })
    );
}

#[test]
fn an_inquiry_that_is_not_agreed_cannot_be_settled() {
    for closed in [None, Some(InquiryOutcome::Expired), Some(InquiryOutcome::DeclinedByBuyer)] {
        let err =
            settle_inquiry(&inquiry("rrn1station", closed), &me(), &vec![], 0, NOW).unwrap_err();
        assert!(err.message.contains("not agreed"), "{}", err.message);
    }
}

#[test]
fn only_the_inquirys_buyer_may_settle_it() {
    // Here the buyer is a third party, not the station wallet.
    let err =
        settle_inquiry(&inquiry("rrn1buyer", agreed(400)), &me(), &vec![], 0, NOW).unwrap_err();
    assert!(err.message.contains("buyer"), "{}", err.message);
    assert_eq!(
        settle_inquiry(&None, &me(), &vec![], 0, NOW),
        Err(invalid_params("no such inquiry on this station"))
    );
}

#[test]
fn closing_an_inquiry_agrees_or_declines_the_own_side() {
    let q = inquiry("rrn1station", None);
    assert_eq!(
        close_outcome(&q, "agreed", Some(300), &me()),
        Ok(InquiryOutcome::Agreed { final_price_centi: 300 })
    );
    // At the listed price where none is given.
    assert_eq!(
        close_outcome(&q, "agreed", None, &me()),
        Ok(InquiryOutcome::Agreed { final_price_centi: 250 })
    );
    assert_eq!(close_outcome(&q, "declined", None, &me()), Ok(InquiryOutcome::DeclinedByBuyer));
    assert_eq!(
        close_outcome(&q, "declined", None, &"rrn1provider".to_string()),
        Ok(InquiryOutcome::DeclinedBySeller)
    );
    assert_eq!(
        close_outcome(&q, "declined", None, &"rrn1other".to_string()),
        Err(invalid_params("not a party to this inquiry"))
    );
    assert_eq!(
        close_outcome(&q, "expired", None, &me()),
        Err(invalid_params("unknown outcome \"expired\" (agreed or declined)"))
    );
    assert!(close_outcome(&None, "agreed", None, &me()).is_err());
}

#[test]
fn a_contract_takes_the_listings_cadence_at_the_granted_price() {
    let metrics = || {
        vec![
            ("rooms".to_string(), "three".to_string()),
            ("windows".to_string(), "inside only".to_string()),
        ]
    };
    let mut q = inquiry("rrn1station", agreed(500)).unwrap();
    assert_eq!(
        draft_contract(&Some(q.clone()), &me(), metrics(), NOW),
        Err(invalid_params("that inquiry's listing is not a recurring service"))
    );
    q.recurring = Some(RecurringTerms {
        frequency: Frequency::Weekly,
        duration_periods: 4,
        notice_period_days: 7,
        early_termination_penalty_centi: 300,
    });
    let c = draft_contract(&Some(q.clone()), &me(), metrics(), NOW).unwrap();
    assert_eq!(
        c.terms,
        ContractTerms {
            frequency: Frequency::Weekly,
            duration_periods: 4,
            commons_per_period_centi: 500,
            performance_metrics: metrics(),
            notice_period_days: 7,
            early_termination_penalty_centi: 300
        }
    );
    assert_eq!(c.buyer, me());
    assert_eq!(c.provider, "rrn1provider");
    assert_eq!(c.started_at, NOW);
    q.closed = None;
    assert_eq!(
        draft_contract(&Some(q), &me(), metrics(), NOW),
        Err(invalid_params("that inquiry is not agreed"))
    );
    assert!(draft_contract(&None, &me(), metrics(), NOW).is_err());
}

#[test]
fn a_contract_is_ended_by_a_party() {
    let parties = Some((me(), "rrn1provider".to_string()));
    assert_eq!(termination_side(&parties, &me()), Ok(TerminatedBy::Buyer));
    assert_eq!(
        termination_side(&parties, &"rrn1provider".to_string()),
        Ok(TerminatedBy::Provider)
    );
    let stranger = "rrn1x".to_string();
    assert_eq!(
        termination_side(&parties, &stranger),
        Err(invalid_params("not a party to this contract"))
    );
    assert_eq!(
        termination_side(&None, &stranger),
        Err(invalid_params("no such contract on this station"))
    );
    assert_eq!(require_contract_party(&parties, &me()), Ok(()));
    assert_eq!(
        require_contract_party(&parties, &stranger),
        Err(invalid_params("no such contract for this member"))
    );
    assert_eq!(require_inquiry_party(&parties, &me()), Ok(()));
    // A stranger learns nothing more than where there is no inquiry.
    assert_eq!(
        require_inquiry_party(&parties, &stranger),
        require_inquiry_party(&None, &stranger)
    );
}

#[test]
fn a_proposal_lives_for_a_day() {
    let p = draft_proposal(me(), "rrn1b".into(), 500, Some("m".into()), 3, NOW, Some(2));
    assert_eq!(p.created_at, NOW);
    assert_eq!(p.expires_at, NOW + 86_400);
    assert_eq!(p.listing, None);
    assert_eq!(p.tier, Some(2));
    assert_eq!(state_name(&TransactionState::Confirmed), "Confirmed");
    assert_eq!(state_name(&TransactionState::Cancelled), "Cancelled");
}

#[test]
fn whoami_reports_bootstrap_grace_for_a_fresh_community() {
    let who = whoami(&me(), 0, 20);
    // A brand-new station has no established members, so the community is in
    // bootstrap grace and the phone will show its "new community" banner.
    assert_eq!(who.bootstrap_in_grace, true);
    assert_eq!(who.established_members, 0);
    assert_eq!(who.grace_threshold, 20);
    assert_eq!(who.community, VOUCH_COMMUNITY);
    assert!(!whoami(&me(), 20, 20).bootstrap_in_grace);
}

#[test]
fn a_refused_stake_says_what_is_missing() {
    let e = stake_refusal("12.50", "30.0", 21);
    assert_eq!(e.code, ErrorCode::InvalidParams);
    assert_eq!(
        e.message,
        "cannot confirm a Tier-2 payment: your standing is 12.50, below the Member band (30.0) \
         the community now requires (21 members are established, so the bootstrap grace has ended)"
    );
}
