use rrn_station::contract_view;
use rrn_station::contract_view::{
    frequency_tag, my_contracts, state_after_termination, ContractStanding, ContractState, EndReason, ServiceContract,
};
use rrn_station::dispute_view;
use rrn_station::dispute_view::{
    dispute_view, disputes_view, escalation_closes_at, later_by, Dispute, DisputeTallyView,
    Escalation, Response, Seat,
};
use rrn_station::governance::{
    begin_ceremony, draft_charter, genesis_founders, is_listed, no_dispute, no_proposal,
    pending_charter_view, require_charter, require_open_ceremony, Ceremony,
};
use rrn_station::governance_view::{
    charter_view, enacted_ids, kind_name, proposal_view, proposals_view, statutes_view,
    tally_view, Charter, GovernanceViewError, ProposalOutcome, ProposalPhase, ProposalRecords,
    Statute, Thresholds, VoteTally,
};
use rrn_station::inquiry_view::{
    latest_offer, my_inquiries, outcome_tag, thread, Inquiry, InquiryMessageRow, InquiryState,
};
use rrn_station::market::{
    require_contract_party, Availability, AvailabilityStatus, ContractTerms, Frequency,
    InquiryOutcome, LedgerTx, Pricing, PricingModel, Surface, TerminatedBy, TransactionState,
};
use rrn_station::marketplace_view;
use rrn_station::marketplace_view::{
    card_of, clamp_limit, close_reason_name, lifecycle_name, provider_composite, search,
    search_window, CachedProfile, CloseReason,
    Lifecycle, Listing, SearchHit, Standing, MAX_SEARCH_LIMIT,
};
use rrn_station::params::{parse_tx_id, EscalationReason, ProposalKind};
use rrn_station::rpc::{
    internal, invalid_params, ledger_err, DisputeError, ErrorCode, LedgerError, LedgerErrorKind,
};
use rrn_station::sweeps::{
    linked_listing, marked, resolution_name, resolve_answer, resolved_count, successes, Due,
    Resolution, Resolved, ResolvedRow, SettleSweep,
};
use rrn_station::tables::Id;
use rrn_station::text::hex;

const NOW: i64 = 1_000;
const WEEK_SECS: i64 = 7 * 86_400;

fn id(n: u8) -> Id {
    Id { bytes: [n; 32] }
}

fn text(s: &str) -> String {
    s.to_string()
}

// --- contracts ---------------------------------------------------------------

fn service() -> ServiceContract {
    ServiceContract {
        contract_id: id(3),
        inquiry_id: id(4),
        listing_id: id(5),
        listing_title: text("Weekly house clean"),
        buyer: text("buyer"),
        provider: text("provider"),
        terms: ContractTerms {
            frequency: Frequency::Weekly,
            duration_periods: 4,
            commons_per_period_centi: 500,
            performance_metrics: vec![(text("rooms"), text("three"))],
            notice_period_days: 7,
            early_termination_penalty_centi: 300,
        },
        period_secs: WEEK_SECS,
        total_periods: 4,
        started_at: NOW,
    }
}

fn active(next: i64, left: u32) -> ContractState {
    ContractState::Active { next_charge_due: next, periods_remaining: left }
}

#[test]
fn contract_reads_shape_detail_and_list_and_scope_to_a_party() {
    let cid = hex(&[3; 32]);

    // Detail, before any charge: active, four periods to run, next due now.
    let detail = contract_view::detail(&service(), 0, active(NOW, 4));
    assert_eq!(detail.contract_id, cid);
    assert_eq!(detail.state, "active");
    assert_eq!(detail.performance_metrics, vec![(text("rooms"), text("three"))]);
    assert_eq!(detail.frequency, "weekly");
    assert_eq!(detail.commons_per_period_centi, 500);
    assert_eq!(detail.periods_charged, 0);
    assert_eq!(detail.periods_remaining, 4);
    assert_eq!(detail.next_charge_due, Some(NOW));

    // The list shows the one contract, with the viewer's role on it.
    let all = vec![ContractStanding {
        contract: service(),
        periods_charged: 0,
        state: active(NOW, 4),
    }];
    let rows = my_contracts(&all, &text("buyer"));
    assert_eq!(rows.len(), 1);
    assert_eq!(rows[0].role, "buyer");
    assert_eq!(rows[0].periods_charged, 0);

    // After the sweep bills period 0, the read reflects the ledger's count —
    // one charged, three left, next due a week out.
    let detail = contract_view::detail(&service(), 1, active(NOW + WEEK_SECS, 3));
    assert_eq!(detail.periods_charged, 1);
    assert_eq!(detail.periods_remaining, 4 - 1);
    assert_eq!(detail.next_charge_due, Some(NOW + WEEK_SECS));

    // Once the contract has ended, no period is still to run, in the list or in
    // the detail.
    let ended = ContractState::Ended {
        reason: EndReason::Terminated { by: TerminatedBy::Buyer, early: true },
        at: NOW,
    };
    let over = vec![ContractStanding { contract: service(), periods_charged: 1, state: ended }];
    assert_eq!(my_contracts(&over, &text("buyer"))[0].periods_remaining, 0);
    assert_eq!(contract_view::detail(&service(), 1, ended).periods_remaining, 0);
    let running = vec![ContractStanding {
        contract: service(),
        periods_charged: 1,
        state: active(NOW + WEEK_SECS, 3),
    }];
    assert_eq!(my_contracts(&running, &text("buyer"))[0].periods_remaining, 3);

    // A contract is private to its two parties: a stranger sees neither the
    // detail nor a row for it.
    let parties = Some((text("buyer"), text("provider")));
    assert!(require_contract_party(&parties, &text("stranger")).is_err());
    assert!(my_contracts(&all, &text("stranger")).is_empty());
}

#[test]
fn contracts_that_end_say_how() {
    let ending = contract_view::detail(
        &service(),
        1,
        ContractState::Terminating { effective_at: NOW + 9 },
    );
    assert_eq!(ending.state, "terminating");
    assert_eq!(ending.terminating_effective_at, Some(NOW + 9));
    assert_eq!(ending.periods_remaining, 3);
    let done =
        contract_view::detail(&service(), 4, ContractState::Ended { reason: EndReason::Completed, at: 5 });
    assert_eq!(done.ended_reason, Some("completed"));
    assert_eq!(done.ended_at, Some(5));
    assert_eq!(done.terminated_by, None);
    let quit = contract_view::detail(
        &service(),
        2,
        ContractState::Ended {
            reason: EndReason::Terminated { by: TerminatedBy::Provider, early: true },
            at: 6,
        },
    );
    assert_eq!(quit.ended_reason, Some("terminated"));
    assert_eq!(quit.terminated_by, Some("provider"));
    assert_eq!(quit.ended_early, Some(true));
    assert_eq!(quit.periods_remaining, 0);
    assert_eq!(frequency_tag(Frequency::Custom { days: 3 }), "custom");
    assert_eq!(
        state_after_termination(Some(ContractState::Terminating { effective_at: 1 })),
        Ok("terminating")
    );
    assert_eq!(
        state_after_termination(None),
        Err(internal("contract vanished after termination"))
    );
}

#[test]
fn the_newest_contract_comes_first() {
    let standing = |n: u8, at: i64| {
        let mut c = service();
        c.contract_id = id(n);
        c.started_at = at;
        ContractStanding { contract: c, periods_charged: 0, state: active(at, 4) }
    };
    let rows = my_contracts(&vec![standing(1, 10), standing(2, 30), standing(3, 20)], &text("provider"));
    let starts: Vec<i64> = rows.iter().map(|r| r.started_at).collect();
    assert_eq!(starts, vec![30, 20, 10]);
    assert_eq!(rows[0].role, "provider");
    assert_eq!(rows[0].counterparty, "buyer");
}

// --- inquiries ---------------------------------------------------------------

fn inquiry() -> Inquiry {
    Inquiry {
        inquiry_id: id(1),
        listing_id: id(2),
        listing_title: text("Squash"),
        listed_amount_centi: 250,
        negotiable: true,
        buyer: text("buyer"),
        provider: text("provider"),
        initial_message: text("hello"),
        initial_offer_centi: Some(200),
        opened_at: 10,
        messages: vec![],
        closed: None,
        state: InquiryState::Open,
        last_activity_at: 10,
    }
}

fn message(offer: Option<i64>) -> InquiryMessageRow {
    InquiryMessageRow {
        sender: text("provider"),
        body: text("hm"),
        counter_offer_centi: offer,
        sent_at: 11,
    }
}

#[test]
fn the_latest_offer_is_the_last_one_made() {
    let mut q = inquiry();
    assert_eq!(latest_offer(&q), Some(200));
    q.messages = vec![message(Some(230)), message(None)];
    assert_eq!(latest_offer(&q), Some(230));
    q.closed = Some(InquiryOutcome::Agreed { final_price_centi: 220 });
    assert_eq!(latest_offer(&q), Some(220));
    q.closed = Some(InquiryOutcome::Expired);
    assert_eq!(latest_offer(&q), Some(230));
    q.initial_offer_centi = None;
    q.messages = vec![];
    assert_eq!(latest_offer(&q), None);
}

#[test]
fn a_thread_shows_its_messages_and_its_end() {
    let mut q = inquiry();
    q.messages = vec![message(Some(230))];
    let open = thread(&q);
    assert_eq!(open.inquiry_id, hex(&[1; 32]));
    assert_eq!(open.state, "open");
    assert_eq!(open.outcome, None);
    assert_eq!(open.messages, q.messages);
    assert_eq!(open.final_price_centi, None);
    q.state = InquiryState::Closed {
        outcome: InquiryOutcome::Agreed { final_price_centi: 230 },
        closed_at: 20,
    };
    let closed = thread(&q);
    assert_eq!(closed.state, "closed");
    assert_eq!(closed.outcome, Some("agreed"));
    assert_eq!(closed.final_price_centi, Some(230));
    assert_eq!(closed.closed_at, Some(20));
    assert_eq!(outcome_tag(InquiryOutcome::DeclinedBySeller), "declined_by_seller");
    assert_eq!(InquiryState::ExpiredPending.tag(), "expired_pending");
}

#[test]
fn a_member_sees_only_their_own_inquiries_most_recent_first() {
    let mut late = inquiry();
    late.last_activity_at = 50;
    let mut other = inquiry();
    other.buyer = text("x");
    other.provider = text("y");
    let rows = my_inquiries(&vec![inquiry(), other, late], &text("buyer"));
    let times: Vec<i64> = rows.iter().map(|r| r.last_activity_at).collect();
    assert_eq!(times, vec![50, 10]);
    assert_eq!(rows[0].role, "buyer");
    assert_eq!(rows[0].counterparty, "provider");
    assert_eq!(rows[0].latest_offer_centi, Some(200));
}

// --- disputes ----------------------------------------------------------------

fn seat(juror: &str, verdict: Option<bool>) -> Seat {
    Seat { juror: text(juror), seated_at: 1, verdict }
}

fn dispute(n: u8, opened_at: i64) -> Dispute {
    Dispute {
        tx_id: id(n),
        sender: text("a"),
        receiver: text("b"),
        raiser: text("a"),
        reason: text("broken"),
        evidence: Some(id(9)),
        opened_at,
        window_seconds: 100,
        seats: vec![seat("j", Some(true)), seat("k", Some(false)), seat("l", None)],
        panel_size: 3,
        resolution: Resolution::Pending,
    }
}

#[test]
fn a_dispute_is_summed_up_seat_by_seat() {
    let s = dispute_view::summarize(&dispute(1, 50));
    assert_eq!(s.tx_id, hex(&[1; 32]));
    assert_eq!(s.window_ends_at, 150);
    assert_eq!(s.evidence_hash, Some(hex(&[9; 32])));
    assert_eq!(s.tally, DisputeTallyView { uphold: 1, reject: 1, awaiting: 1, panel_size: 3 });
    assert_eq!(s.resolution, "pending");
}

#[test]
fn a_dispute_in_detail_shows_panel_responses_and_escalation() {
    assert_eq!(dispute_view(&None, &vec![], 0, &None), None);
    let responses = vec![Response {
        responder: text("b"),
        statement: text("no"),
        evidence: None,
        responded_at: 60,
    }];
    let escalation = Some(Escalation {
        reason: EscalationReason::Appeal,
        initiator: text("a"),
        opened_at: 70,
        window_seconds: 1_000,
        uphold: 2,
        reject: 1,
        eligible: 9,
        quorum_met: false,
        approval_met: true,
    });
    let d = dispute_view(&Some(dispute(1, 50)), &responses, 7, &escalation).unwrap();
    let seats: Vec<&str> = d.panel.iter().map(|p| p.verdict.as_str()).collect();
    assert_eq!(seats, vec!["uphold", "reject", "awaiting"]);
    assert_eq!(d.responses[0].statement, "no");
    assert_eq!(d.eligible_pool_size, 7);
    let e = d.escalation.unwrap();
    assert_eq!(e.reason, "appeal");
    // It ends with the dispute's own window.
    assert_eq!(e.closes_at, 150);
    assert_eq!(escalation_closes_at(70, 30, 50, 100), 100);
    assert_eq!(later_by(i64::MAX, 1), i64::MAX);
}

#[test]
fn reading_a_dispute_that_does_not_exist_is_rejected() {
    let tx_id = "00".repeat(32);
    assert!(parse_tx_id(&tx_id).is_ok());
    assert_eq!(dispute_view(&None, &vec![], 0, &None), None);
    let err = no_dispute(&tx_id);
    assert_eq!(err.code, ErrorCode::InvalidParams);
}

#[test]
fn raising_a_dispute_on_an_unknown_transaction_is_rejected() {
    let tx_id = "00".repeat(32);
    assert!(parse_tx_id(&tx_id).is_ok());
    let err = ledger_err(LedgerError {
        kind: LedgerErrorKind::UnknownTransaction,
        message: text("unknown transaction"),
    });
    assert_eq!(err.code, ErrorCode::InvalidParams);
}

#[test]
fn disputes_are_listed_in_order() {
    let rows = disputes_view(&vec![dispute(1, 10), dispute(2, 30), dispute(3, 20)]);
    assert_eq!(rows.len(), 3);
    let opened: Vec<i64> = rows.iter().map(|r| r.opened_at).collect();
    assert_eq!(opened, vec![30, 20, 10]);
    // Opened at one time, the later on the log comes first.
    let rows = disputes_view(&vec![dispute(1, 10), dispute(2, 10), dispute(3, 5)]);
    let ids: Vec<String> = rows.into_iter().map(|r| r.tx_id).collect();
    assert_eq!(ids, vec![hex(&[2; 32]), hex(&[1; 32]), hex(&[3; 32])]);
}

#[test]
fn resolving_one_dispute_reports_its_error_and_resolving_all_skips_it() {
    let good = || Resolved { tx_id: id(1), outcome: Ok(Resolution::Upheld) };
    let bad =
        || Resolved { tx_id: id(2), outcome: Err(DisputeError::MissingAdmission(text("gone"))) };
    assert_eq!(
        resolve_answer(vec![bad(), good()], false),
        Ok(vec![ResolvedRow { tx_id: hex(&[1; 32]), resolution: text("upheld") }])
    );
    assert_eq!(resolve_answer(vec![bad()], true), Err(internal("gone")));
    assert_eq!(resolve_answer(vec![good()], true).unwrap().len(), 1);
    let pending = Resolved { tx_id: id(3), outcome: Ok(Resolution::Pending) };
    assert_eq!(resolved_count(&vec![good(), bad(), pending]), 1);
    let outcome = |r: Resolution| resolved_count(&vec![Resolved { tx_id: id(4), outcome: Ok(r) }]);
    assert_eq!(outcome(Resolution::AwaitingAppeal), 0);
    assert_eq!(outcome(Resolution::EscalationPending), 0);
    assert_eq!(outcome(Resolution::Rejected), 1);
    assert_eq!(outcome(Resolution::Lapsed), 1);
    assert_eq!(outcome(Resolution::EscalationUpheld), 1);
    assert_eq!(outcome(Resolution::EscalationRejected), 1);
    assert_eq!(outcome(Resolution::EscalationLapsed), 1);
    assert_eq!(resolution_name(Resolution::EscalationLapsed), "escalation_lapsed");
}

// --- sweeps ------------------------------------------------------------------

#[test]
fn a_settled_sale_attests_its_listing() {
    let tx = |n: u8, listing: Option<Id>| LedgerTx {
        id: id(n),
        memo: None,
        listing,
        state: TransactionState::Confirmed,
    };
    let snapshot = vec![tx(1, Some(id(7))), tx(2, None)];
    assert_eq!(linked_listing(&snapshot, &id(1)), Some(id(7)));
    assert_eq!(linked_listing(&snapshot, &id(2)), None);
    assert_eq!(linked_listing(&snapshot, &id(3)), None);
    let mut sweep = SettleSweep::begin(&vec![id(1), id(2), id(1)], &snapshot);
    assert_eq!(sweep.current(), Some(Due { tx_id: id(1), listing: Some(id(7)) }));
    assert_eq!(sweep.record(true), Some((id(7), id(1))));
    assert_eq!(sweep.record(true), None);
    // A settlement that failed attests nothing.
    assert_eq!(sweep.record(false), None);
    assert_eq!(sweep.current(), None);
    assert_eq!(sweep.settled(), 2);
}

#[test]
fn a_sweep_closes_what_is_marked_and_counts_what_worked() {
    assert_eq!(marked(&vec![(id(1), false), (id(2), true), (id(3), true)]), vec![id(2), id(3)]);
    assert_eq!(successes(&vec![true, false, true]), 2);
    assert_eq!(successes(&vec![]), 0);
}

// --- governance --------------------------------------------------------------

fn charter() -> Charter {
    Charter {
        version: 1,
        hash: "ab".repeat(32),
        community_id: text("commons"),
        founding_principles: vec![],
        rights_floor: vec![],
        founders: vec![text("rrn1station")],
        thresholds: Thresholds {
            statute_quorum_pct: 30,
            statute_approval_pct: 60,
            deliberation_window_days: 14,
            implementation_delay_days: 30,
            emergency_threshold_pct: 80,
            charter_quorum_pct: 50,
            charter_approval_pct: 75,
            charter_deliberation_window_days: 30,
        },
    }
}

#[test]
fn governance_charter_is_unpublished_before_init() {
    let v = charter_view(&None, 3);
    assert_eq!(v.published, false);
    assert_eq!(v.charter_hash, None);
}

#[test]
fn governance_charter_init_solo_publishes_and_reads_back() {
    // The station wallet is the sole founder of a solo bootstrap.
    let founders = genesis_founders(vec![], &text("rrn1station"));
    let draft = draft_charter(text("commons"), vec![], vec![], founders, NOW);
    assert_eq!(draft.version, 1);

    let mut published = charter();
    published.version = draft.version;
    published.community_id = draft.community_id;
    published.founders = draft.founders;
    let c = charter_view(&Some(published), 3);
    assert_eq!(c.published, true);
    assert_eq!(c.version, 1);
    assert_eq!(c.community_id, "commons");
    assert_eq!(c.statute_quorum_pct, 30);
    assert_eq!(c.cosign_threshold, 3);
    assert_eq!(c.charter_hash.unwrap().len(), 64);
    assert_eq!(c.founders.len(), 1);
    assert_eq!(c.founders[0], "rrn1station");
}

#[test]
fn governance_charter_begin_refuses_a_second_ceremony() {
    let me = text("rrn1station");
    let founders = vec![me.clone()];
    // The coordinator signs at once where it is a founder itself.
    assert_eq!(begin_ceremony(false, &founders, &me), Ok(true));
    assert_eq!(begin_ceremony(false, &vec![text("rrn1x")], &me), Ok(false));
    let err = begin_ceremony(true, &founders, &me).unwrap_err();
    assert_eq!(err.code, ErrorCode::InvalidParams);
    assert!(is_listed(&founders, &me));
}

#[test]
fn governance_propose_without_a_charter_is_refused() {
    let err = require_charter(false).unwrap_err();
    assert_eq!(err.code, ErrorCode::InvalidParams);
    assert_eq!(err.message, "no charter published; run governance charter-init");
    assert_eq!(require_charter(true), Ok(()));
}

#[test]
fn a_ceremony_takes_signatures_until_it_publishes() {
    assert_eq!(require_open_ceremony(Some(false)), Ok(()));
    assert_eq!(
        require_open_ceremony(None),
        Err(invalid_params("no founding charter in progress; run governance charter-begin"))
    );
    assert_eq!(
        require_open_ceremony(Some(true)),
        Err(invalid_params("the charter has already published; no more signatures are needed"))
    );
    let founders = genesis_founders(vec![text("a"), text("b")], &text("me"));
    assert_eq!(founders, vec![text("a"), text("b")]);
    let view = pending_charter_view(&Ceremony {
        published: false,
        charter_hash: text("h"),
        charter: draft_charter(text("pilot"), vec![text("p")], vec![], founders, NOW),
        signed_founders: vec![text("a")],
        threshold: 2,
        body_hex: text("00"),
    });
    assert!(view.exists);
    assert!(!view.published);
    assert_eq!(view.threshold, 2);
    assert_eq!(view.signed_founders, vec![text("a")]);
    assert_eq!(view.founders.len(), 2);
    assert_eq!(view.founding_principles, vec![text("p")]);
    assert_eq!(view.created_at, NOW);
    assert_eq!(no_proposal("ab"), invalid_params("no proposal ab"));
    assert_eq!(no_dispute("ab"), invalid_params("no live dispute for transaction ab"));
}

fn proposal(n: u8, created_at: i64) -> ProposalRecords {
    ProposalRecords {
        proposal_id: id(n),
        author: text("a"),
        title: text("Quiet hours"),
        body: text("No power tools after 9pm."),
        kind: ProposalKind::AdministrativeRule { scope: text("tools") },
        created_at,
        voting_ends_at: created_at + 1,
        implementation_at: created_at + 2,
        phase: Some(ProposalPhase::Voting),
        published: true,
        cosigner_count: 1,
        cosigners: vec![text("b")],
        tally: Some(VoteTally {
            yes_count: 3,
            no_count: 1,
            abstain_count: 2,
            eligible_voters: 9,
            quorum_met: true,
            approval_met: true,
            outcome: Some(ProposalOutcome::Passed),
        }),
    }
}

#[test]
fn proposals_are_listed_as_they_come_with_their_tally() {
    let rows = proposals_view(&vec![proposal(2, 30), proposal(3, 20), proposal(1, 10)], &vec![id(3)]);
    let created: Vec<i64> = rows.iter().map(|r| r.created_at).collect();
    assert_eq!(created, vec![30, 20, 10]);
    assert_eq!(rows[0].phase, "voting");
    assert_eq!(rows[0].kind, "administrative_rule");
    assert_eq!(rows[0].scope.as_deref(), Some("tools"));
    assert_eq!(rows[0].tally.outcome.as_deref(), Some("passed"));
    assert!(!rows[0].enacted);
    assert!(rows[1].enacted);
}

#[test]
fn a_proposal_in_full_has_its_body_and_cosigners() {
    assert_eq!(proposal_view(&None, &vec![]), None);
    let d = proposal_view(&Some(proposal(1, 10)), &vec![]).unwrap();
    assert_eq!(d.body, "No power tools after 9pm.");
    assert_eq!(d.cosigners, vec![text("b")]);
    assert_eq!(d.summary.proposal_id, hex(&[1; 32]));
    let empty = tally_view(&None);
    assert_eq!((empty.yes, empty.no, empty.abstain, empty.eligible_voters), (0, 0, 0, 0));
    assert_eq!(empty.outcome, None);
    assert_eq!(kind_name(&ProposalKind::CharterAmendment), "charter_amendment");
}

#[test]
fn statutes_keep_their_proposal() {
    let all = vec![Statute {
        proposal_id: id(1),
        title: text("t"),
        kind: ProposalKind::Statute,
        implemented_at: 9,
    }];
    let rows = statutes_view(&all);
    assert_eq!(rows[0].proposal_id, hex(&[1; 32]));
    assert_eq!(rows[0].kind, "statute");
    assert_eq!(rows[0].implemented_at, 9);
    assert_eq!(enacted_ids(&all), vec![id(1)]);
    assert_eq!(GovernanceViewError::Tally(text("x")).message(), "tally: x");
    assert_eq!(GovernanceViewError::Proposal(text("x")).message(), "proposal: x");
    assert_eq!(GovernanceViewError::Statute(text("x")).message(), "statute: x");
}

// --- marketplace -------------------------------------------------------------

fn listing() -> Listing {
    Listing {
        id: id(6),
        provider: text("rrn1p"),
        community: text("rrn-phase0"),
        surface: Surface::Goods,
        category: text("food"),
        title: text("Squash"),
        description: text("Picked this week."),
        pricing: Pricing { amount_centi: 250, model: PricingModel::Fixed, negotiable: false },
        availability: Availability {
            status: AvailabilityStatus::LimitedStock,
            capacity: Some(2),
            next_slot: None,
        },
        min_reputation_bits: 1.5f32.to_bits(),
        community_member_only: true,
        oracle_tier: 1,
        created_at: NOW,
        expires_at: None,
    }
}

fn standing() -> Standing {
    Standing { composite_bits: 42.0f32.to_bits(), band: "member" }
}

#[test]
fn marketplace_search_clamps_an_oversized_limit() {
    assert_eq!(clamp_limit(100_000), MAX_SEARCH_LIMIT);
    assert_eq!(clamp_limit(0), 1);
    assert_eq!(clamp_limit(20), 20);
    let w = search_window(Some(100_000), None, 20, 0);
    assert_eq!(w.limit, MAX_SEARCH_LIMIT);
    assert_eq!(w.offset, 0);
    assert_eq!(search_window(None, Some(5), 20, 0).limit, 20);
    assert_eq!(search_window(None, Some(5), 20, 0).offset, 5);
}

#[test]
fn browse_over_the_socket_clamps_an_oversized_limit_too() {
    let on_offer: Vec<SearchHit> = (0..MAX_SEARCH_LIMIT + 1)
        .map(|i| {
            let mut l = listing();
            l.title = format!("Crate {i} of squash");
            SearchHit { listing: l, standing: standing() }
        })
        .collect();
    let window = search_window(Some(100_000), None, 20, 0);
    let page: Vec<SearchHit> =
        on_offer.into_iter().skip(window.offset).take(window.limit).collect();
    assert_eq!(search(&page).len(), MAX_SEARCH_LIMIT);
}

#[test]
fn a_card_shows_the_listing_and_its_providers_band() {
    let card = card_of(&listing(), standing());
    assert_eq!(card.listing_id, hex(&[6; 32]));
    assert_eq!(card.surface, "goods");
    assert_eq!(card.pricing_model, "fixed");
    assert_eq!(card.availability.status, "limited_stock");
    assert_eq!(card.provider_band, "member");
    assert_eq!(f32::from_bits(card.provider_composite_bits), 42.0);
    let hits = vec![SearchHit { listing: listing(), standing: standing() }];
    assert_eq!(search(&hits), vec![card]);
}

#[test]
fn an_aged_standing_counts_as_none() {
    let bits = 42.0f32.to_bits();
    let cached = Some(CachedProfile { composite_bits: bits, last_updated: NOW });
    assert_eq!(provider_composite(cached, NOW + 60, 60), bits);
    assert_eq!(f32::from_bits(provider_composite(cached, NOW + 61, 60)), 0.0);
    assert_eq!(f32::from_bits(provider_composite(None, NOW, 60)), 0.0);
}

#[test]
fn a_closed_listing_says_why() {
    let view = |state| {
        marketplace_view::detail(&Some(listing()), state, standing(), Some(4)).unwrap()
    };
    let open = view(Lifecycle::Active);
    assert_eq!(open.state, "active");
    assert_eq!(open.description, "Picked this week.");
    assert_eq!(open.provider_vouches_received, 4);
    assert_eq!(open.close_reason, None);
    let closed = view(Lifecycle::Closed { reason: CloseReason::ProviderClosed, closed_at: 8 });
    assert_eq!(closed.state, "closed");
    assert_eq!(closed.close_reason, Some("provider_closed"));
    assert_eq!(closed.closed_at, Some(8));
    assert_eq!(marketplace_view::detail(&None, Lifecycle::Active, standing(), None), None);
    assert_eq!(lifecycle_name(Lifecycle::Draft), "draft");
    assert_eq!(close_reason_name(CloseReason::ExpirationReached), "expiration_reached");
}
