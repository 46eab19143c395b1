//! The operator's marketplace: publishing and editing listings, answering needs,
//! negotiating inquiries, paying for what was agreed, and signing up to recurring
//! services.
//!
//! The station signs and records; the marketplace layer checks every record again.
//! What is decided here is what the station asks it to record.

use vstd::prelude::*;
use vstd::string::*;

use crate::order::lemma_filter_picks;
use crate::rpc::{invalid_params, ErrorCode, RpcError};
use crate::tables::{Id, Key};
use crate::text::{
    debug_of, debug_text, decimal, decimal_u64, hex, hex_text, join2, join3, same_text,
};

verus! {

/// The community that this station serves.
pub const VOUCH_COMMUNITY: &'static str = "rrn-phase0";

/// How long a proposal stays valid before it expires, in seconds.
pub const PROPOSAL_TTL_SECS: i64 = 86400;

/// From this price on, in hundredths, a listing is suggested the second oracle tier.
pub const TIER_2_FROM_CENTI: i64 = 500;

/// What a listing offers.
#[derive(Clone, Copy, Debug, PartialEq, Eq, Structural)]
pub enum Surface {
    /// Things, of which there is a count.
    Goods,
    /// Work, which has a next slot.
    Services,
    /// What is held in common.
    Commons,
}

/// The wire tag of a surface.
pub open spec fn surface_text(s: Surface) -> Seq<char> {
    match s {
        Surface::Goods => "goods"@,
        Surface::Services => "services"@,
        Surface::Commons => "commons"@,
    }
}

impl Surface {
    /// The wire tag.
    pub fn tag(self) -> (r: &'static str)
        ensures
            r@ == surface_text(self),
    {
        match self {
            Surface::Goods => "goods",
            Surface::Services => "services",
            Surface::Commons => "commons",
        }
    }

    /// The surface that a tag stands for.
    pub fn from_tag(tag: &str) -> (r: Option<Surface>)
        ensures
            match r {
                Some(s) => tag@ == surface_text(s),
                None => forall|s: Surface| tag@ != #[trigger] surface_text(s),
            },
    {
        if same_text(tag, "goods") {
            Some(Surface::Goods)
        } else if same_text(tag, "services") {
            Some(Surface::Services)
        } else if same_text(tag, "commons") {
            Some(Surface::Commons)
        } else {
            None
        }
    }
}

/// Surfaces are told apart by their tags.
pub proof fn law_surfaces_are_told_apart(a: Surface, b: Surface)
    ensures
        surface_text(a) == surface_text(b) <==> a == b,
{
    reveal_strlit("goods");
    reveal_strlit("services");
    reveal_strlit("commons");
    assert("goods"@.len() == 5 && "services"@.len() == 8 && "commons"@.len() == 7);
}

/// Why a surface's tag is refused.
pub open spec fn unknown_surface(tag: Seq<char>) -> Seq<char> {
    "unknown surface: "@ + tag + " (goods, services, or commons)"@
}

/// Whether a tag stands for a surface.
pub open spec fn is_surface(tag: Seq<char>) -> bool {
    exists|s: Surface| tag == #[trigger] surface_text(s)
}

/// The surface that a caller named.
pub fn parse_surface(tag: &str) -> (r: Result<Surface, RpcError>)
    ensures
        match r {
            Ok(s) => tag@ == surface_text(s),
            Err(e) => !is_surface(tag@) && e.is_invalid(unknown_surface(tag@)),
        },
{
    match Surface::from_tag(tag) {
        Some(s) => Ok(s),
        None => Err(
            RpcError {
                code: ErrorCode::InvalidParams,
                message: join3("unknown surface: ", tag, " (goods, services, or commons)"),
            },
        ),
    }
}

/// The surface that a search is narrowed to: an unknown one is refused, not ignored.
pub fn search_surface(tag: &Option<String>) -> (r: Result<Option<Surface>, RpcError>)
    ensures
        match tag {
            None => r == Ok::<Option<Surface>, RpcError>(None),
            Some(t) => match r {
                Ok(s) => s is Some && t@ == surface_text(s->0),
                Err(e) => !is_surface(t@) && e.is_invalid(unknown_surface(t@)),
            },
        },
{
    match tag {
        None => Ok(None),
        Some(t) => match parse_surface(t.as_str()) {
            Ok(s) => Ok(Some(s)),
            Err(e) => Err(e),
        },
    }
}

/// How a price is meant.
#[derive(Clone, Copy, Debug, PartialEq, Eq, Structural)]
pub enum PricingModel {
    /// As it stands.
    Fixed,
    /// As a starting point.
    Negotiable,
}

/// A listing's price.
#[derive(Clone, Copy, Debug, PartialEq, Eq, Structural)]
pub struct Pricing {
    /// The amount, in hundredths.
    pub amount_centi: i64,
    /// How it is meant.
    pub model: PricingModel,
    /// Whether offers are invited.
    pub negotiable: bool,
}

/// A price that says the same in both places.
pub open spec fn coherent(p: Pricing) -> bool {
    p.negotiable <==> p.model == PricingModel::Negotiable
}

/// The price of a listing that invites offers or does not.
pub open spec fn pricing_of(amount_centi: i64, negotiable: bool) -> Pricing {
    Pricing {
        amount_centi,
        model: if negotiable {
            PricingModel::Negotiable
        } else {
            PricingModel::Fixed
        },
        negotiable,
    }
}

fn make_pricing(amount_centi: i64, negotiable: bool) -> (r: Pricing)
    ensures
        r == pricing_of(amount_centi, negotiable),
{
    Pricing {
        amount_centi,
        model: if negotiable {
            PricingModel::Negotiable
        } else {
            PricingModel::Fixed
        },
        negotiable,
    }
}

/// Whether something can be had.
#[derive(Clone, Copy, Debug, PartialEq, Eq, Structural)]
pub enum AvailabilityStatus {
    /// It can.
    Available,
    /// It can, while there is some.
    LimitedStock,
    /// It cannot.
    Unavailable,
}

/// A listing's availability.
#[derive(Clone, Copy, Debug, PartialEq, Eq, Structural)]
pub struct Availability {
    /// Whether it can be had.
    pub status: AvailabilityStatus,
    /// How many there are.
    pub capacity: Option<u32>,
    /// When the next slot is.
    pub next_slot: Option<i64>,
}

/// The availability that a surface records: goods keep a count, services a next slot,
/// commons neither. A count of zero is sold out.
pub open spec fn availability_of(
    surface: Surface,
    capacity: Option<u32>,
    next_slot: Option<i64>,
) -> Availability {
    let kept = if surface == Surface::Goods {
        capacity
    } else {
        None
    };
    Availability {
        status: if kept == Some(0u32) {
            AvailabilityStatus::Unavailable
        } else {
            AvailabilityStatus::Available
        },
        capacity: kept,
        next_slot: if surface == Surface::Services {
            next_slot
        } else {
            None
        },
    }
}

/// The availability a listing records, given what the caller supplied: each surface
/// keeps only the field that means something to it.
pub fn availability_for(
    surface: Surface,
    capacity: Option<u32>,
    next_slot: Option<i64>,
) -> (r: Availability)
    ensures
        r == availability_of(surface, capacity, next_slot),
{
    let (capacity, next_slot) = match surface {
        Surface::Goods => (capacity, None),
        Surface::Services => (None, next_slot),
        Surface::Commons => (None, None),
    };
    let status = match capacity {
        Some(0) => AvailabilityStatus::Unavailable,
        _ => AvailabilityStatus::Available,
    };
    Availability { status, capacity, next_slot }
}

/// The oracle tier suggested for a price: the first under five commons in either
/// direction, the second from there on.
pub open spec fn suggested_tier(amount_centi: i64) -> u8 {
    if -TIER_2_FROM_CENTI < amount_centi < TIER_2_FROM_CENTI {
        1
    } else {
        2
    }
}

/// The oracle tier a listing at this price defaults to.
pub fn suggest_oracle_tier(amount_centi: i64) -> (r: u8)
    ensures
        r == suggested_tier(amount_centi),
{
    if -TIER_2_FROM_CENTI < amount_centi && amount_centi < TIER_2_FROM_CENTI {
        1
    } else {
        2
    }
}

/// How often a recurring service is charged.
#[derive(Clone, Copy, Debug, PartialEq, Eq, Structural)]
pub enum Frequency {
    /// Every day.
    Daily,
    /// Every week.
    Weekly,
    /// Every month.
    Monthly,
    /// Every so many days.
    Custom {
        /// How many.
        days: u32,
    },
}

/// The standing terms of a recurring service.
#[derive(Clone, Copy, Debug, PartialEq, Eq, Structural)]
pub struct RecurringTerms {
    /// How often it is charged.
    pub frequency: Frequency,
    /// How many times.
    pub duration_periods: u32,
    /// The notice that ending it early takes, in days.
    pub notice_period_days: u32,
    /// What ending it early costs, in hundredths.
    pub early_termination_penalty_centi: i64,
}

/// The cadence that a word names.
pub open spec fn cadence(every: Seq<char>) -> Option<Frequency> {
    if every == "daily"@ {
        Some(Frequency::Daily)
    } else if every == "weekly"@ {
        Some(Frequency::Weekly)
    } else if every == "monthly"@ {
        Some(Frequency::Monthly)
    } else {
        None
    }
}

/// Builds a listing's recurring terms from what a create request carried. Notice and
/// penalty default to none.
pub fn recurring_terms_from(
    every: &str,
    periods: Option<u32>,
    notice_days: Option<u32>,
    penalty_centi: Option<i64>,
) -> (r: Result<RecurringTerms, RpcError>)
    ensures
        match (cadence(every@), periods) {
            (Some(frequency), Some(duration_periods)) => r == Ok::<RecurringTerms, RpcError>(
                RecurringTerms {
                    frequency,
                    duration_periods,
                    notice_period_days: match notice_days {
                        Some(d) => d,
                        None => 0,
                    },
                    early_termination_penalty_centi: match penalty_centi {
                        Some(p) => p,
                        None => 0,
                    },
                },
            ),
            (Some(_), None) => r matches Err(e) && e.is_invalid(
                "a recurring listing needs --periods"@,
            ),
            (None, _) => r matches Err(e) && e.is_invalid(
                "unknown cadence "@ + debug_text(every@) + " (daily, weekly, or monthly)"@,
            ),
        },
{
    let frequency = if same_text(every, "daily") {
        Frequency::Daily
    } else if same_text(every, "weekly") {
        Frequency::Weekly
    } else if same_text(every, "monthly") {
        Frequency::Monthly
    } else {
        let shown = debug_of(every);
        return Err(
            RpcError {
                code: ErrorCode::InvalidParams,
                message: join3(
                    "unknown cadence ",
                    shown.as_str(),
                    " (daily, weekly, or monthly)",
                ),
            },
        );
    };
    match periods {
        Some(duration_periods) => Ok(
            RecurringTerms {
                frequency,
                duration_periods,
                notice_period_days: match notice_days {
                    Some(d) => d,
                    None => 0,
                },
                early_termination_penalty_centi: match penalty_centi {
                    Some(p) => p,
                    None => 0,
                },
            },
        ),
        None => Err(invalid_params("a recurring listing needs --periods")),
    }
}

/// What a create request carries.
#[derive(Clone, Debug, PartialEq, Eq)]
pub struct CreateListingParams {
    /// The surface's tag.
    pub surface: String,
    /// The category.
    pub category: String,
    /// The title.
    pub title: String,
    /// The description.
    pub description: String,
    /// The price, in hundredths.
    pub amount_centi: i64,
    /// Whether offers are invited.
    pub negotiable: bool,
    /// How many there are.
    pub capacity: Option<u32>,
    /// When the next slot is.
    pub next_slot: Option<i64>,
    /// The standing that inquiring takes, as the bits of a float.
    pub min_reputation_bits: u32,
    /// Whether only members of the community may inquire.
    pub community_member_only: bool,
    /// The oracle tier, where the caller chooses it.
    pub oracle_tier: Option<u8>,
    /// When the listing ends.
    pub expires_at: Option<i64>,
    /// How often a recurring service is charged.
    pub every: Option<String>,
    /// How many times.
    pub periods: Option<u32>,
    /// The notice that ending it takes, in days.
    pub notice_days: Option<u32>,
    /// What ending it early costs, in hundredths.
    pub penalty_centi: Option<i64>,
}

/// A listing as the station asks for it to be recorded.
#[derive(Clone, Debug, PartialEq, Eq)]
pub struct ListingDraft {
    /// Who offers it.
    pub provider: String,
    /// The community it is offered to.
    pub community: String,
    /// The surface.
    pub surface: Surface,
    /// The category.
    pub category: String,
    /// The title.
    pub title: String,
    /// The description.
    pub description: String,
    /// The price.
    pub pricing: Pricing,
    /// The availability.
    pub availability: Availability,
    /// The standing that inquiring takes, as the bits of a float.
    pub min_reputation_bits: u32,
    /// Whether only members of the community may inquire.
    pub community_member_only: bool,
    /// The oracle tier.
    pub oracle_tier: u8,
    /// When it was published.
    pub created_at: i64,
    /// When it ends.
    pub expires_at: Option<i64>,
}

/// The listing that a create request asks for: the provider and the community are the
/// station's, not the caller's to choose.
pub fn draft_listing(p: &CreateListingParams, me: &String, now: i64) -> (r: Result<
    ListingDraft,
    RpcError,
>)
    ensures
        match r {
            Ok(d) => {
                &&& p.surface@ == surface_text(d.surface)
                &&& d.provider == *me
                &&& d.community@ == VOUCH_COMMUNITY@
                &&& d.category == p.category
                &&& d.title == p.title
                &&& d.description == p.description
                &&& d.pricing == pricing_of(p.amount_centi, p.negotiable)
                &&& d.availability == availability_of(d.surface, p.capacity, p.next_slot)
                &&& d.min_reputation_bits == p.min_reputation_bits
                &&& d.community_member_only == p.community_member_only
                &&& d.oracle_tier == match p.oracle_tier {
                    Some(t) => t,
                    None => suggested_tier(p.amount_centi),
                }
                &&& d.created_at == now
                &&& d.expires_at == p.expires_at
            },
            Err(e) => !is_surface(p.surface@) && e.is_invalid(unknown_surface(p.surface@)),
        },
{
    let surface = match parse_surface(p.surface.as_str()) {
        Ok(s) => s,
        Err(e) => {
            return Err(e);
        },
    };
    Ok(
        ListingDraft {
            provider: me.clone(),
            community: String::from_str(VOUCH_COMMUNITY),
            surface,
            category: p.category.clone(),
            title: p.title.clone(),
            description: p.description.clone(),
            pricing: make_pricing(p.amount_centi, p.negotiable),
            availability: availability_for(surface, p.capacity, p.next_slot),
            min_reputation_bits: p.min_reputation_bits,
            community_member_only: p.community_member_only,
            oracle_tier: match p.oracle_tier {
                Some(t) => t,
                None => suggest_oracle_tier(p.amount_centi),
            },
            created_at: now,
            expires_at: p.expires_at,
        },
    )
}

/// The recurring terms that a create request asks for, if it asks for any. They are
/// read once the listing itself has been found valid.
pub fn requested_terms(p: &CreateListingParams) -> (r: Result<Option<RecurringTerms>, RpcError>)
    ensures
        match p.every {
            None => r == Ok::<Option<RecurringTerms>, RpcError>(None),
            Some(every) => match r {
                Ok(t) => t is Some && cadence(every@) == Some(t->0.frequency) && p.periods == Some(
                    t->0.duration_periods,
                ) && t->0.notice_period_days == (match p.notice_days {
                    Some(d) => d,
                    None => 0,
                }) && t->0.early_termination_penalty_centi == (match p.penalty_centi {
                    Some(c) => c,
                    None => 0,
                }),
                Err(e) => if cadence(every@) is None {
                    e.is_invalid(
                        "unknown cadence "@ + debug_text(every@) + " (daily, weekly, or monthly)"@,
                    )
                } else {
                    p.periods is None && e.is_invalid("a recurring listing needs --periods"@)
                },
            },
        },
{
    match &p.every {
        None => Ok(None),
        Some(every) => match recurring_terms_from(
            every.as_str(),
            p.periods,
            p.notice_days,
            p.penalty_centi,
        ) {
            Ok(t) => Ok(Some(t)),
            Err(e) => Err(e),
        },
    }
}

/// What an edit request carries: only what is to change.
#[derive(Clone, Debug, PartialEq, Eq)]
pub struct EditListingParams {
    /// The new price, in hundredths.
    pub amount_centi: Option<i64>,
    /// Whether offers are invited from now on.
    pub negotiable: Option<bool>,
    /// The new description.
    pub description: Option<String>,
    /// The new count.
    pub capacity: Option<u32>,
    /// The new next slot.
    pub next_slot: Option<i64>,
    /// Whether the end is taken away.
    pub clear_expiry: Option<bool>,
    /// The new end.
    pub expires_at: Option<i64>,
}

/// What an edit does to a listing's end.
#[derive(Clone, Copy, Debug, PartialEq, Eq, Structural)]
pub enum ExpiryPatch {
    /// It takes it away.
    Clear,
    /// It sets it.
    Until {
        /// To this.
        at: i64,
    },
    /// It leaves it.
    Unchanged,
}

/// What an edit changes.
#[derive(Clone, Debug, PartialEq, Eq)]
pub struct ListingPatch {
    /// The new price.
    pub pricing: Option<Pricing>,
    /// The new description.
    pub description: Option<String>,
    /// The new availability.
    pub availability: Option<Availability>,
    /// What becomes of the end.
    pub expires_at: ExpiryPatch,
}

/// What an edit reads of the listing as it stands.
#[derive(Clone, Copy, Debug, PartialEq, Eq, Structural)]
pub struct CurrentListing {
    /// The surface.
    pub surface: Surface,
    /// The price.
    pub pricing: Pricing,
    /// The availability.
    pub availability: Availability,
}

/// The price that an edit leads to; none where it changes neither half.
pub open spec fn patched_pricing(p: EditListingParams, current: Pricing) -> Option<Pricing> {
    if p.amount_centi is None && p.negotiable is None {
        None
    } else {
        Some(
            pricing_of(
                match p.amount_centi {
                    Some(a) => a,
                    None => current.amount_centi,
                },
                match p.negotiable {
                    Some(n) => n,
                    None => current.negotiable,
                },
            ),
        )
    }
}

/// The availability that an edit leads to; none where it changes neither half.
pub open spec fn patched_availability(
    p: EditListingParams,
    surface: Surface,
    current: Availability,
) -> Option<Availability> {
    if p.capacity is None && p.next_slot is None {
        None
    } else {
        Some(
            availability_of(
                surface,
                if p.capacity is Some {
                    p.capacity
                } else {
                    current.capacity
                },
                if p.next_slot is Some {
                    p.next_slot
                } else {
                    current.next_slot
                },
            ),
        )
    }
}

/// What an edit does to the end: taking it away wins over setting it.
pub open spec fn patched_expiry(p: EditListingParams) -> ExpiryPatch {
    if p.clear_expiry == Some(true) {
        ExpiryPatch::Clear
    } else {
        match p.expires_at {
            Some(at) => ExpiryPatch::Until { at },
            None => ExpiryPatch::Unchanged,
        }
    }
}

/// The patch that an edit request asks for. A field that the caller did not mention is
/// carried from the listing as it stands. `current` is nothing where there is no such
/// listing.
pub fn edit_patch(
    p: EditListingParams,
    listing_id: &str,
    current: Option<CurrentListing>,
) -> (r: Result<ListingPatch, RpcError>)
    ensures
        match current {
            Some(c) => r == Ok::<ListingPatch, RpcError>(
                ListingPatch {
                    pricing: patched_pricing(p, c.pricing),
                    description: p.description,
                    availability: patched_availability(p, c.surface, c.availability),
                    expires_at: patched_expiry(p),
                },
            ),
            None => r matches Err(e) && e.is_invalid("no such listing: "@ + listing_id@),
        },
{
    let c = match current {
        Some(c) => c,
        None => {
            return Err(
                RpcError {
                    code: ErrorCode::InvalidParams,
                    message: join2("no such listing: ", listing_id),
                },
            );
        },
    };
    let pricing = if p.amount_centi.is_some() || p.negotiable.is_some() {
        let negotiable = match p.negotiable {
            Some(n) => n,
            None => c.pricing.negotiable,
        };
        let amount_centi: i64 = match p.amount_centi {
            Some(a) => a,
            None => c.pricing.amount_centi,
        };
        Some(make_pricing(amount_centi, negotiable))
    } else {
        None
    };
    let availability = if p.capacity.is_some() || p.next_slot.is_some() {
        let capacity = match p.capacity {
            Some(n) => Some(n),
            None => c.availability.capacity,
        };
        let next_slot = match p.next_slot {
            Some(t) => Some(t),
            None => c.availability.next_slot,
        };
        Some(availability_for(c.surface, capacity, next_slot))
    } else {
        None
    };
    let clear = match p.clear_expiry {
        Some(c) => c,
        None => false,
    };
    let expires_at = if clear {
        ExpiryPatch::Clear
    } else {
        match p.expires_at {
            Some(at) => ExpiryPatch::Until { at },
            None => ExpiryPatch::Unchanged,
        }
    };
    Ok(ListingPatch { pricing, description: p.description, availability, expires_at })
}

/// A price that the station records says the same in both places.
pub proof fn law_recorded_prices_are_coherent(
    amount_centi: i64,
    negotiable: bool,
    p: EditListingParams,
    current: Pricing,
)
    ensures
        coherent(pricing_of(amount_centi, negotiable)),
        patched_pricing(p, current) matches Some(q) ==> coherent(q),
{
}

/// A new price alone keeps how the price is meant, and a new meaning alone keeps the
/// price.
pub proof fn law_half_an_edit_keeps_the_other_half(p: EditListingParams, current: Pricing)
    requires
        coherent(current),
    ensures
        p.amount_centi is Some && p.negotiable is None ==> patched_pricing(p, current) == Some(
            Pricing { amount_centi: p.amount_centi->0, ..current },
        ),
        p.amount_centi is None && p.negotiable is Some ==> patched_pricing(
            p,
            current,
        )->0.amount_centi == current.amount_centi,
{
}

/// A listing's record keeps only what its surface means: no count on services or
/// commons, no slot on goods or commons, and sold out exactly at a count of zero.
pub proof fn law_availability_fits_the_surface(
    surface: Surface,
    capacity: Option<u32>,
    next_slot: Option<i64>,
)
    ensures
        ({
            let a = availability_of(surface, capacity, next_slot);
            &&& a.capacity is Some ==> surface == Surface::Goods
            &&& a.next_slot is Some ==> surface == Surface::Services
            &&& a.status == AvailabilityStatus::Unavailable <==> a.capacity == Some(0u32)
        }),
{
}

/// A need that the station has announced.
#[derive(Clone, Debug, PartialEq, Eq)]
pub struct AnnouncedNeed {
    /// The sequence number that names it.
    pub seq: u64,
    /// What is needed.
    pub category: String,
    /// How many.
    pub quantity_needed: u32,
    /// At what price at most, in hundredths.
    pub max_price_centi: Option<i64>,
    /// Until when.
    pub valid_until: i64,
}

/// The needs to match: all of them, or the one that the caller names. A number that
/// names none of the station's needs is the caller's mistake.
pub fn select_needs(announced: Vec<AnnouncedNeed>, seq: Option<u64>) -> (r: Result<
    Vec<AnnouncedNeed>,
    RpcError,
>)
    ensures
        match seq {
            None => r == Ok::<Vec<AnnouncedNeed>, RpcError>(announced),
            Some(n) => {
                let kept = announced@.filter(|a: AnnouncedNeed| a.seq == n);
                match r {
                    Ok(v) => v@ == kept && kept.len() > 0,
                    Err(e) => kept.len() == 0 && e.is_invalid(
                        "no need announced by this station at log seq "@ + decimal(n as nat),
                    ),
                }
            },
        },
{
    let n: u64 = match seq {
        None => {
            return Ok(announced);
        },
        Some(n) => n,
    };
    let ghost keep = |a: AnnouncedNeed| a.seq == n;
    let mut out: Vec<AnnouncedNeed> = Vec::new();
    let mut i: usize = 0;
    proof {
        reveal(Seq::filter);
        assert(out@ =~= announced@.take(0).filter(keep));
    }
    while i < announced.len()
        invariant
            i <= announced.len(),
            keep == (|a: AnnouncedNeed| a.seq == n),
            out@ == announced@.take(i as int).filter(keep),
        decreases announced.len() - i,
    {
        proof {
            reveal(Seq::filter);
            assert(announced@.take(i as int + 1).drop_last() =~= announced@.take(i as int));
        }
        if announced[i].seq == n {
            out.push(copy_need(&announced[i]));
        }
        i = i + 1;
    }
    assert(announced@.take(i as int) =~= announced@);
    if out.len() == 0 {
        let shown = decimal_u64(n);
        return Err(
            RpcError {
                code: ErrorCode::InvalidParams,
                message: join2("no need announced by this station at log seq ", shown.as_str()),
            },
        );
    }
    Ok(out)
}

fn copy_need(a: &AnnouncedNeed) -> (r: AnnouncedNeed)
    ensures
        r == *a,
{
    AnnouncedNeed {
        seq: a.seq,
        category: a.category.clone(),
        quantity_needed: a.quantity_needed,
        max_price_centi: a.max_price_centi,
        valid_until: a.valid_until,
    }
}

/// Where a listing stands.
#[derive(Clone, Copy, Debug, PartialEq, Eq, Structural)]
pub enum ListingState {
    /// On offer; how many are left, where stock is kept.
    Active {
        /// How many.
        capacity: Option<u32>,
    },
    /// Past its end.
    Expired,
    /// Sold out or withdrawn.
    Closed,
}

/// Lets an inquiry through only against a listing on offer right now; `None` is a
/// listing that this station has never seen.
pub fn require_on_offer(state: Option<ListingState>) -> (r: Result<(), RpcError>)
    ensures
        match state {
            Some(ListingState::Active { .. }) => r is Ok,
            Some(_) => r matches Err(e) && e.is_invalid("listing is not on offer"@),
            None => r matches Err(e) && e.is_invalid("no such listing on this station"@),
        },
{
    match state {
        Some(ListingState::Active { .. }) => Ok(()),
        Some(_) => Err(invalid_params("listing is not on offer")),
        None => Err(invalid_params("no such listing on this station")),
    }
}

/// What bringing a listing's index entry in step means.
#[derive(Clone, Copy, Debug, PartialEq, Eq, Structural)]
pub enum Reindex {
    /// Nothing valid is known of it: leave the index alone.
    Leave,
    /// It is on offer: put it in.
    Upsert,
    /// It is not: take it out.
    Remove,
}

/// What to do with a listing's index entry: the index answers "what can I buy".
pub fn reindex(state: Option<ListingState>) -> (r: Reindex)
    ensures
        r == match state {
            None => Reindex::Leave,
            Some(ListingState::Active { .. }) => Reindex::Upsert,
            Some(_) => Reindex::Remove,
        },
{
    match state {
        None => Reindex::Leave,
        Some(ListingState::Active { .. }) => Reindex::Upsert,
        Some(_) => Reindex::Remove,
    }
}

/// Whether a sale takes a unit of stock: only from a listing on offer that keeps a
/// count.
pub fn tracks_stock(state: Option<ListingState>) -> (r: bool)
    ensures
        r == (state matches Some(ListingState::Active { capacity: Some(_) })),
{
    match state {
        Some(ListingState::Active { capacity: Some(_) }) => true,
        _ => false,
    }
}

/// Whether a listing belongs to the community that this station serves.
pub fn in_station_community(community: &str) -> (r: bool)
    ensures
        r == (community@ == VOUCH_COMMUNITY@),
{
    same_text(community, VOUCH_COMMUNITY)
}

/// Lets a member's listing through only into the community that this station serves.
pub fn require_community(community: &str) -> (r: Result<(), RpcError>)
    ensures
        match r {
            Ok(_) => community@ == VOUCH_COMMUNITY@,
            Err(e) => community@ != VOUCH_COMMUNITY@ && e.is_invalid(
                "listing community "@ + debug_text(community@)
                    + " is not this station's community"@,
            ),
        },
{
    if in_station_community(community) {
        Ok(())
    } else {
        let shown = debug_of(community);
        Err(
            RpcError {
                code: ErrorCode::InvalidParams,
                message: join3(
                    "listing community ",
                    shown.as_str(),
                    " is not this station's community",
                ),
            },
        )
    }
}

/// How an inquiry ends.
#[derive(Clone, Copy, Debug, PartialEq, Eq, Structural)]
pub enum InquiryOutcome {
    /// The parties agreed.
    Agreed {
        /// On this price, in hundredths.
        final_price_centi: i64,
    },
    /// The buyer declined.
    DeclinedByBuyer,
    /// The provider declined.
    DeclinedBySeller,
    /// It went quiet.
    Expired,
}

/// What an inquiry's log records say of it.
#[derive(Clone, Debug, PartialEq, Eq)]
pub struct InquiryRecords {
    /// The inquiry.
    pub inquiry_id: Id,
    /// The listing it is about.
    pub listing_id: Id,
    /// The listing's title.
    pub listing_title: String,
    /// The listed price, in hundredths.
    pub listed_price_centi: i64,
    /// The listing's oracle tier.
    pub oracle_tier: u8,
    /// The listing's recurring terms.
    pub recurring: Option<RecurringTerms>,
    /// Who asks.
    pub buyer: String,
    /// Who offers.
    pub provider: String,
    /// How it ended.
    pub closed: Option<InquiryOutcome>,
}

/// Said where the log has no such inquiry.
pub const NO_INQUIRY: &'static str = "no such inquiry on this station";

/// How the station closes an inquiry that it is a party to: agreeing, at the listed
/// price where none is given, or declining its own side. That an inquiry expired is not
/// a party's to say.
pub fn close_outcome(
    inquiry: &Option<InquiryRecords>,
    outcome: &str,
    final_price_centi: Option<i64>,
    me: &String,
) -> (r: Result<InquiryOutcome, RpcError>)
    ensures
        match inquiry {
            None => r matches Err(e) && e.is_invalid(NO_INQUIRY@),
            Some(q) => if outcome@ == "agreed"@ {
                r == Ok::<InquiryOutcome, RpcError>(
                    InquiryOutcome::Agreed {
                        final_price_centi: match final_price_centi {
                            Some(p) => p,
                            None => q.listed_price_centi,
                        },
                    },
                )
            } else if outcome@ == "declined"@ {
                if q.buyer@ == me@ {
                    r == Ok::<InquiryOutcome, RpcError>(InquiryOutcome::DeclinedByBuyer)
                } else if q.provider@ == me@ {
                    r == Ok::<InquiryOutcome, RpcError>(InquiryOutcome::DeclinedBySeller)
                } else {
                    r matches Err(e) && e.is_invalid("not a party to this inquiry"@)
                }
            } else {
                r matches Err(e) && e.is_invalid(
                    "unknown outcome "@ + debug_text(outcome@) + " (agreed or declined)"@,
                )
            },
        },
{
    match inquiry {
        None => Err(invalid_params(NO_INQUIRY)),
        Some(q) => if same_text(outcome, "agreed") {
            Ok(
                InquiryOutcome::Agreed {
                    final_price_centi: match final_price_centi {
                        Some(p) => p,
                        None => q.listed_price_centi,
                    },
                },
            )
        } else if same_text(outcome, "declined") {
            if same_text(q.buyer.as_str(), me.as_str()) {
                Ok(InquiryOutcome::DeclinedByBuyer)
            } else if same_text(q.provider.as_str(), me.as_str()) {
                Ok(InquiryOutcome::DeclinedBySeller)
            } else {
                Err(invalid_params("not a party to this inquiry"))
            }
        } else {
            let shown = debug_of(outcome);
            Err(
                RpcError {
                    code: ErrorCode::InvalidParams,
                    message: join3("unknown outcome ", shown.as_str(), " (agreed or declined)"),
                },
            )
        },
    }
}

/// Where a transaction stands.
#[derive(Clone, Copy, Debug, PartialEq, Eq, Structural)]
pub enum TransactionState {
    /// Proposed and not answered.
    Proposed,
    /// Confirmed by the receiver.
    Confirmed,
    /// Settled.
    Settled,
    /// Withdrawn, rejected or expired.
    Cancelled,
    /// Contested.
    Disputed,
}

/// The name of a transaction's state.
pub open spec fn state_text(s: TransactionState) -> Seq<char> {
    match s {
        TransactionState::Proposed => "Proposed"@,
        TransactionState::Confirmed => "Confirmed"@,
        TransactionState::Settled => "Settled"@,
        TransactionState::Cancelled => "Cancelled"@,
        TransactionState::Disputed => "Disputed"@,
    }
}

/// A transaction's state as a short string.
pub fn state_name(state: &TransactionState) -> (r: &'static str)
    ensures
        r@ == state_text(*state),
{
    match state {
        TransactionState::Proposed => "Proposed",
        TransactionState::Confirmed => "Confirmed",
        TransactionState::Settled => "Settled",
        TransactionState::Cancelled => "Cancelled",
        TransactionState::Disputed => "Disputed",
    }
}

/// A transaction of the ledger's snapshot, with what its proposal says.
#[derive(Clone, Debug, PartialEq, Eq)]
pub struct LedgerTx {
    /// The transaction.
    pub id: Id,
    /// The proposal's memo.
    pub memo: Option<String>,
    /// The listing that it pays for.
    pub listing: Option<Id>,
    /// Where it stands.
    pub state: TransactionState,
}

/// A payment as the station asks for it to be proposed.
#[derive(Clone, Debug, PartialEq, Eq)]
pub struct ProposalDraft {
    /// Who pays.
    pub sender: String,
    /// Who is paid.
    pub receiver: String,
    /// How much, in hundredths.
    pub amount_centi: i64,
    /// What for.
    pub memo: Option<String>,
    /// The sender's next nonce.
    pub nonce: u64,
    /// When it was proposed.
    pub created_at: i64,
    /// When it expires.
    pub expires_at: i64,
    /// The listing that it pays for.
    pub listing: Option<Id>,
    /// The oracle tier asked for; one that is no genuine lift has no effect.
    pub tier: Option<u8>,
}

/// A direct payment by the station.
pub fn draft_proposal(
    sender: String,
    receiver: String,
    amount_centi: i64,
    memo: Option<String>,
    nonce: u64,
    now: i64,
    tier: Option<u8>,
) -> (r: ProposalDraft)
    requires
        now + PROPOSAL_TTL_SECS <= i64::MAX,
    ensures
        r == (ProposalDraft {
            sender,
            receiver,
            amount_centi,
            memo,
            nonce,
            created_at: now,
            expires_at: (now + PROPOSAL_TTL_SECS) as i64,
            listing: None,
            tier,
        }),
{
    ProposalDraft {
        sender,
        receiver,
        amount_centi,
        memo,
        nonce,
        created_at: now,
        expires_at: now + PROPOSAL_TTL_SECS,
        listing: None,
        tier,
    }
}

/// The memo of a payment for an agreement: the listing's title and the first eight hex
/// digits of the inquiry's id. It is what a second payment is recognised by.
pub open spec fn settle_memo(q: InquiryRecords) -> Seq<char> {
    q.listing_title@ + " · #"@ + hex_text(q.inquiry_id@.take(4))
}

fn make_settle_memo(q: &InquiryRecords) -> (r: String)
    ensures
        r@ == settle_memo(*q),
{
    let head = vstd::slice::slice_subrange(q.inquiry_id.bytes.as_slice(), 0, 4);
    assert(head@ =~= q.inquiry_id@.take(4));
    let short = hex(head);
    join3(q.listing_title.as_str(), " · #", short.as_str())
}

/// The first transaction with a memo.
pub open spec fn paid_under(snapshot: Seq<LedgerTx>, memo: Seq<char>) -> Option<LedgerTx>
    decreases snapshot.len(),
{
    if snapshot.len() == 0 {
        None
    } else {
        match snapshot[0].memo {
            Some(m) => if m@ == memo {
                Some(snapshot[0])
            } else {
                paid_under(snapshot.skip(1), memo)
            },
            None => paid_under(snapshot.skip(1), memo),
        }
    }
}

fn find_paid<'a>(snapshot: &'a Vec<LedgerTx>, memo: &String) -> (r: Option<&'a LedgerTx>)
    ensures
        match r {
            Some(t) => paid_under(snapshot@, memo@) == Some(*t),
            None => paid_under(snapshot@, memo@) is None,
        },
{
    let mut i: usize = 0;
    assert(snapshot@.skip(0) =~= snapshot@);
    while i < snapshot.len()
        invariant
            i <= snapshot.len(),
            paid_under(snapshot@, memo@) == paid_under(snapshot@.skip(i as int), memo@),
        decreases snapshot.len() - i,
    {
        assert(snapshot@.skip(i as int).skip(1) =~= snapshot@.skip(i as int + 1));
        match &snapshot[i].memo {
            Some(m) => {
                if same_text(m.as_str(), memo.as_str()) {
                    return Some(&snapshot[i]);
                }
            },
            None => {},
        }
        i = i + 1;
    }
    None
}

/// How the station settles an agreement.
#[derive(Clone, Debug, PartialEq, Eq)]
pub enum Settlement {
    /// It was paid before: the payment that stands.
    Paid {
        /// Its id, in hex.
        tx_id: String,
        /// Where it stands.
        state: String,
    },
    /// It is to be paid.
    Pay(ProposalDraft),
}

/// Pays for an agreed inquiry: only its buyer pays, only the price that was granted, to
/// the provider, linked to the listing and carrying its oracle tier. A payment for the
/// agreement that is on the log already is given back in place of a second one.
pub fn settle_inquiry(
    inquiry: &Option<InquiryRecords>,
    me: &String,
    snapshot: &Vec<LedgerTx>,
    nonce: u64,
    now: i64,
) -> (r: Result<Settlement, RpcError>)
    requires
        now + PROPOSAL_TTL_SECS <= i64::MAX,
    ensures
        match inquiry {
            None => r matches Err(e) && e.is_invalid(NO_INQUIRY@),
            Some(q) => if q.buyer@ != me@ {
                r matches Err(e) && e.is_invalid("only the inquiry's buyer can settle it"@)
            } else {
                match q.closed {
                    Some(InquiryOutcome::Agreed { final_price_centi }) => match paid_under(
                        snapshot@,
                        settle_memo(*q),
                    ) {
                        Some(t) => r matches Ok(Settlement::Paid { tx_id, state }) && tx_id@
                            == hex_text(t.id@) && state@ == state_text(t.state),
                        None => r matches Ok(Settlement::Pay(d)) && {
                            &&& d.sender == *me
                            &&& d.receiver == q.provider
                            &&& d.amount_centi == final_price_centi
                            &&& d.memo is Some
                            &&& d.memo->0@ == settle_memo(*q)
                            &&& d.nonce == nonce
                            &&& d.created_at == now
                            &&& d.expires_at == now + PROPOSAL_TTL_SECS
                            &&& d.listing == Some(q.listing_id)
                            &&& d.tier == Some(q.oracle_tier)
                        },
                    },
                    _ => r matches Err(e) && e.is_invalid("that inquiry is not agreed"@),
                }
            },
        },
{
    let q = match inquiry {
        None => {
            return Err(invalid_params(NO_INQUIRY));
        },
        Some(q) => q,
    };
    if !same_text(q.buyer.as_str(), me.as_str()) {
        return Err(invalid_params("only the inquiry's buyer can settle it"));
    }
    let amount_centi: i64 = match q.closed {
        Some(InquiryOutcome::Agreed { final_price_centi }) => final_price_centi,
        _ => {
            return Err(invalid_params("that inquiry is not agreed"));
        },
    };
    let memo = make_settle_memo(q);
    match find_paid(snapshot, &memo) {
        Some(t) => Ok(
            Settlement::Paid {
                tx_id: hex(t.id.bytes.as_slice()),
                state: String::from_str(state_name(&t.state)),
            },
        ),
        None => Ok(
            Settlement::Pay(
                ProposalDraft {
                    sender: me.clone(),
                    receiver: q.provider.clone(),
                    amount_centi,
                    memo: Some(memo),
                    nonce,
                    created_at: now,
                    expires_at: now + PROPOSAL_TTL_SECS,
                    listing: Some(q.listing_id),
                    tier: Some(q.oracle_tier),
                },
            ),
        ),
    }
}

/// An agreement is paid for once: while a payment with its memo is on the ledger,
/// whatever stands around it, settling finds a payment and proposes none.
pub proof fn law_an_agreement_is_paid_once(
    before: Seq<LedgerTx>,
    payment: LedgerTx,
    after: Seq<LedgerTx>,
    q: InquiryRecords,
)
    requires
        payment.memo is Some,
        payment.memo->0@ == settle_memo(q),
    ensures
        paid_under(before.push(payment) + after, settle_memo(q)) is Some,
    decreases before.len(),
{
    let all = before.push(payment) + after;
    if before.len() == 0 {
        assert(all[0] == payment);
    } else {
        law_an_agreement_is_paid_once(before.skip(1), payment, after, q);
        assert(all.skip(1) =~= before.skip(1).push(payment) + after);
        assert(all[0] == before[0]);
    }
}

proof fn lemma_paid_under(snapshot: Seq<LedgerTx>, memo: Seq<char>)
    ensures
        match paid_under(snapshot, memo) {
            Some(t) => exists|i: int|
                0 <= i < snapshot.len() && #[trigger] snapshot[i] == t && t.memo is Some
                    && t.memo->0@ == memo && forall|j: int|
                    0 <= j < i ==> !((#[trigger] snapshot[j]).memo matches Some(m) && m@ == memo),
            None => forall|j: int|
                0 <= j < snapshot.len() ==> !((#[trigger] snapshot[j]).memo matches Some(m) && m@
                    == memo),
        },
    decreases snapshot.len(),
{
    if snapshot.len() > 0 {
        let rest = snapshot.skip(1);
        lemma_paid_under(rest, memo);
        if !(snapshot[0].memo matches Some(m) && m@ == memo) {
            match paid_under(rest, memo) {
                Some(t) => {
                    let i = choose|i: int|
                        0 <= i < rest.len() && #[trigger] rest[i] == t && t.memo is Some
                            && t.memo->0@ == memo && forall|j: int|
                            0 <= j < i ==> !((#[trigger] rest[j]).memo matches Some(m) && m@
                                == memo);
                    assert(snapshot[i + 1] == t);
                    assert forall|j: int| 0 <= j < i + 1 implies !((
                    #[trigger] snapshot[j]).memo matches Some(m) && m@ == memo) by {
                        if j > 0 {
                            assert(rest[j - 1] == snapshot[j]);
                        }
                    }
                },
                None => {
                    assert forall|j: int| 0 <= j < snapshot.len() implies !((
                    #[trigger] snapshot[j]).memo matches Some(m) && m@ == memo) by {
                        if j > 0 {
                            assert(rest[j - 1] == snapshot[j]);
                        }
                    }
                },
            }
        } else {
            assert(snapshot[0] == paid_under(snapshot, memo)->0);
        }
    }
}

/// Settling takes a payment for the agreement's own only where it carries the agreement's
/// memo, the listing's title and the first four bytes of the inquiry's id in hex: then the
/// first such payment is given back, and where there is none the granted price is
/// proposed to the provider under that memo.
pub proof fn law_only_a_payment_for_the_agreement_settles_it(
    q: InquiryRecords,
    price: i64,
    me: &String,
    snapshot: &Vec<LedgerTx>,
    nonce: u64,
    now: i64,
    r: Result<Settlement, RpcError>,
)
    requires
        call_ensures(settle_inquiry, (&Some(q), me, snapshot, nonce, now), r),
        q.buyer@ == me@,
        q.closed == Some(InquiryOutcome::Agreed { final_price_centi: price }),
    ensures
        r is Ok,
        ({
            let memo = q.listing_title@ + " · #"@ + hex_text(q.inquiry_id@.take(4));
            match r->Ok_0 {
                Settlement::Paid { tx_id, state } => exists|i: int|
                    0 <= i < snapshot@.len() && (#[trigger] snapshot@[i]).memo is Some
                        && snapshot@[i].memo->0@ == memo && tx_id@ == hex_text(snapshot@[i].id@)
                        && state@ == state_text(snapshot@[i].state) && forall|j: int|
                        0 <= j < i ==> !((#[trigger] snapshot@[j]).memo matches Some(m) && m@
                            == memo),
                Settlement::Pay(d) => {
                    &&& forall|j: int|
                        0 <= j < snapshot@.len() ==> !((#[trigger] snapshot@[j]).memo matches Some(
                            m,
                        ) && m@ == memo)
                    &&& d.sender@ == q.buyer@
                    &&& d.receiver@ == q.provider@
                    &&& d.amount_centi == price
                    &&& d.memo is Some
                    &&& d.memo->0@ == memo
                    &&& d.listing == Some(q.listing_id)
                    &&& d.nonce == nonce
                    &&& d.created_at == now
                    &&& d.expires_at > now
                    &&& d.tier == Some(q.oracle_tier)
                },
            }
        }),
{
    lemma_paid_under(snapshot@, settle_memo(q));
}

/// Settling twice pays once: a proposal that settling asked for, once it is on the ledger
/// behind whatever else was there, is what settling gives back from then on.
pub proof fn law_settling_again_gives_the_payment_back(
    q: InquiryRecords,
    price: i64,
    me: &String,
    before: &Vec<LedgerTx>,
    nonce: u64,
    now: i64,
    draft: ProposalDraft,
    paid: LedgerTx,
    after: &Vec<LedgerTx>,
    later_nonce: u64,
    later: i64,
    again: Result<Settlement, RpcError>,
)
    requires
        q.buyer@ == me@,
        q.closed == Some(InquiryOutcome::Agreed { final_price_centi: price }),
        call_ensures(
            settle_inquiry,
            (&Some(q), me, before, nonce, now),
            Ok::<Settlement, RpcError>(Settlement::Pay(draft)),
        ),
        paid.memo == draft.memo,
        after@ == before@.push(paid),
        call_ensures(settle_inquiry, (&Some(q), me, after, later_nonce, later), again),
    ensures
        again matches Ok(Settlement::Paid { tx_id, state }) && tx_id@ == hex_text(paid.id@)
            && state@ == state_text(paid.state),
{
    law_only_a_payment_for_the_agreement_settles_it(
        q,
        price,
        me,
        before,
        nonce,
        now,
        Ok(Settlement::Pay(draft)),
    );
    law_only_a_payment_for_the_agreement_settles_it(
        q,
        price,
        me,
        after,
        later_nonce,
        later,
        again,
    );
    let n = before@.len() as int;
    assert(after@[n] == paid);
    assert forall|j: int| 0 <= j < n implies !((#[trigger] after@[j]).memo matches Some(m) && m@
        == draft.memo->0@) by {
        assert(after@[j] == before@[j]);
    }
}

/// The terms that a contract commits to.
#[derive(Clone, Debug, PartialEq, Eq)]
pub struct ContractTerms {
    /// How often it is charged.
    pub frequency: Frequency,
    /// How many times.
    pub duration_periods: u32,
    /// The price of a period, in hundredths.
    pub commons_per_period_centi: i64,
    /// The buyer's notes on performance, by name.
    pub performance_metrics: Vec<(String, String)>,
    /// The notice that ending it takes, in days.
    pub notice_period_days: u32,
    /// What ending it early costs, in hundredths.
    pub early_termination_penalty_centi: i64,
}

/// A contract as the station asks for it to be recorded.
#[derive(Clone, Debug, PartialEq, Eq)]
pub struct ContractDraft {
    /// The inquiry that it was born from.
    pub inquiry_id: Id,
    /// The listing.
    pub listing_id: Id,
    /// Who buys.
    pub buyer: String,
    /// Who provides.
    pub provider: String,
    /// The terms.
    pub terms: ContractTerms,
    /// When it starts.
    pub started_at: i64,
}

/// The contract born from an agreed inquiry: the listing's standing cadence at the
/// price that was granted, with the caller's metrics as they gave them. The caller
/// chooses nothing else of it.
pub fn draft_contract(
    inquiry: &Option<InquiryRecords>,
    me: &String,
    metrics: Vec<(String, String)>,
    now: i64,
) -> (r: Result<ContractDraft, RpcError>)
    ensures
        match inquiry {
            None => r matches Err(e) && e.is_invalid(NO_INQUIRY@),
            Some(q) => match q.recurring {
                None => r matches Err(e) && e.is_invalid(
                    "that inquiry's listing is not a recurring service"@,
                ),
                Some(t) => match q.closed {
                    Some(InquiryOutcome::Agreed { final_price_centi }) => r == Ok::<
                        ContractDraft,
                        RpcError,
                    >(
                        ContractDraft {
                            inquiry_id: q.inquiry_id,
                            listing_id: q.listing_id,
                            buyer: *me,
                            provider: q.provider,
                            terms: ContractTerms {
                                frequency: t.frequency,
                                duration_periods: t.duration_periods,
                                commons_per_period_centi: final_price_centi,
                                performance_metrics: metrics,
                                notice_period_days: t.notice_period_days,
                                early_termination_penalty_centi: t.early_termination_penalty_centi,
                            },
                            started_at: now,
                        },
                    ),
                    _ => r matches Err(e) && e.is_invalid("that inquiry is not agreed"@),
                },
            },
        },
{
    let q = match inquiry {
        None => {
            return Err(invalid_params(NO_INQUIRY));
        },
        Some(q) => q,
    };
    let t = match q.recurring {
        None => {
            return Err(invalid_params("that inquiry's listing is not a recurring service"));
        },
        Some(t) => t,
    };
    let price: i64 = match q.closed {
        Some(InquiryOutcome::Agreed { final_price_centi }) => final_price_centi,
        _ => {
            return Err(invalid_params("that inquiry is not agreed"));
        },
    };
    Ok(
        ContractDraft {
            inquiry_id: q.inquiry_id,
            listing_id: q.listing_id,
            buyer: me.clone(),
            provider: q.provider.clone(),
            terms: ContractTerms {
                frequency: t.frequency,
                duration_periods: t.duration_periods,
                commons_per_period_centi: price,
                performance_metrics: metrics,
                notice_period_days: t.notice_period_days,
                early_termination_penalty_centi: t.early_termination_penalty_centi,
            },
            started_at: now,
        },
    )
}

/// Which side ended a contract.
#[derive(Clone, Copy, Debug, PartialEq, Eq, Structural)]
pub enum TerminatedBy {
    /// The buyer.
    Buyer,
    /// The provider.
    Provider,
}

/// The side of a contract that the station is on; `None` is a contract that it does not
/// know.
pub fn termination_side(parties: &Option<(String, String)>, me: &String) -> (r: Result<
    TerminatedBy,
    RpcError,
>)
    ensures
        match parties {
            None => r matches Err(e) && e.is_invalid("no such contract on this station"@),
            Some(p) => if p.0@ == me@ {
                r == Ok::<TerminatedBy, RpcError>(TerminatedBy::Buyer)
            } else if p.1@ == me@ {
                r == Ok::<TerminatedBy, RpcError>(TerminatedBy::Provider)
            } else {
                r matches Err(e) && e.is_invalid("not a party to this contract"@)
            },
        },
{
    match parties {
        None => Err(invalid_params("no such contract on this station")),
        Some(p) => if same_text(p.0.as_str(), me.as_str()) {
            Ok(TerminatedBy::Buyer)
        } else if same_text(p.1.as_str(), me.as_str()) {
            Ok(TerminatedBy::Provider)
        } else {
            Err(invalid_params("not a party to this contract"))
        },
    }
}

/// Whether a member is one of two parties.
pub open spec fn is_party(buyer: Seq<char>, provider: Seq<char>, member: Seq<char>) -> bool {
    buyer == member || provider == member
}

/// Lets only the two parties read an inquiry; for anyone else it does not exist.
pub fn require_inquiry_party(parties: &Option<(String, String)>, viewer: &String) -> (r: Result<
    (),
    RpcError,
>)
    ensures
        match r {
            Ok(_) => parties matches Some(p) && is_party(p.0@, p.1@, viewer@),
            Err(e) => !(parties matches Some(p) && is_party(p.0@, p.1@, viewer@)) && e.is_invalid(
                "no such inquiry for this member"@,
            ),
        },
{
    match parties {
        Some(p) => if same_text(p.0.as_str(), viewer.as_str()) || same_text(
            p.1.as_str(),
            viewer.as_str(),
        ) {
            Ok(())
        } else {
            Err(invalid_params("no such inquiry for this member"))
        },
        None => Err(invalid_params("no such inquiry for this member")),
    }
}

/// Lets only the two parties read a contract; for anyone else it does not exist.
pub fn require_contract_party(parties: &Option<(String, String)>, viewer: &String) -> (r: Result<
    (),
    RpcError,
>)
    ensures
        match r {
            Ok(_) => parties matches Some(p) && is_party(p.0@, p.1@, viewer@),
            Err(e) => !(parties matches Some(p) && is_party(p.0@, p.1@, viewer@)) && e.is_invalid(
                "no such contract for this member"@,
            ),
        },
{
    match parties {
        Some(p) => if same_text(p.0.as_str(), viewer.as_str()) || same_text(
            p.1.as_str(),
            viewer.as_str(),
        ) {
            Ok(())
        } else {
            Err(invalid_params("no such contract for this member"))
        },
        None => Err(invalid_params("no such contract for this member")),
    }
}

/// Why a Tier-2 confirmation is refused.
pub open spec fn stake_message(
    composite: Seq<char>,
    member_floor: Seq<char>,
    established: u64,
) -> Seq<char> {
    "cannot confirm a Tier-2 payment: your standing is "@ + composite
        + ", below the Member band ("@ + member_floor + ") the community now requires ("@
        + decimal(established as nat)
        + " members are established, so the bootstrap grace has ended)"@
}

/// The refusal of a Tier-2 confirmation, given the confirmer's standing and the band's
/// floor as text.
pub fn stake_refusal(composite: &str, member_floor: &str, established: u64) -> (r: RpcError)
    ensures
        r.is_invalid(stake_message(composite@, member_floor@, established)),
{
    let mut m = join3(
        "cannot confirm a Tier-2 payment: your standing is ",
        composite,
        ", below the Member band (",
    );
    m.append(member_floor);
    m.append(") the community now requires (");
    let n = decimal_u64(established);
    m.append(n.as_str());
    m.append(" members are established, so the bootstrap grace has ended)");
    RpcError { code: ErrorCode::InvalidParams, message: m }
}

/// What the station says of itself and its community.
#[derive(Clone, Debug, PartialEq, Eq)]
pub struct WhoamiResult {
    /// The station's address.
    pub address: String,
    /// The community.
    pub community: String,
    /// Whether the community is still in its bootstrap grace.
    pub bootstrap_in_grace: bool,
    /// How many members are established.
    pub established_members: u64,
    /// How many it takes.
    pub grace_threshold: u64,
}

/// The station's answer to who it is: a community is in its bootstrap grace while fewer
/// members are established than the threshold.
pub fn whoami(address: &String, established: u64, threshold: u64) -> (r: WhoamiResult)
    ensures
        r.address == *address,
        r.community@ == VOUCH_COMMUNITY@,
        r.bootstrap_in_grace == (established < threshold),
        r.established_members == established,
        r.grace_threshold == threshold,
{
    WhoamiResult {
        address: address.clone(),
        community: String::from_str(VOUCH_COMMUNITY),
        bootstrap_in_grace: established < threshold,
        established_members: established,
        grace_threshold: threshold,
    }
}

/// A listing is drafted with what the caller asked for, in the station's own name: its price
/// as they gave it, meant as they said, the count or the slot that its surface keeps, and the
/// tier they chose or, where they chose none, the first for less than five commons in either
/// direction and the second from there on. It is refused only for its surface.
pub proof fn law_a_draft_is_what_was_asked_for(
    p: &CreateListingParams,
    me: &String,
    now: i64,
    r: Result<ListingDraft, RpcError>,
)
    requires
        call_ensures(draft_listing, (p, me, now), r),
    ensures
        r is Ok <==> p.surface@ == "goods"@ || p.surface@ == "services"@ || p.surface@
            == "commons"@,
        r matches Ok(d) ==> {
            &&& p.surface@ == "goods"@ ==> d.surface == Surface::Goods
            &&& p.surface@ == "services"@ ==> d.surface == Surface::Services
            &&& p.surface@ == "commons"@ ==> d.surface == Surface::Commons
            &&& d.provider@ == me@
            &&& d.category@ == p.category@
            &&& d.title@ == p.title@
            &&& d.description@ == p.description@
            &&& d.pricing.amount_centi == p.amount_centi
            &&& d.pricing.negotiable == p.negotiable
            &&& d.pricing.model == PricingModel::Negotiable <==> p.negotiable
            &&& d.surface == Surface::Goods ==> d.availability.capacity == p.capacity
            &&& d.surface != Surface::Goods ==> d.availability.capacity is None
            &&& d.surface == Surface::Services ==> d.availability.next_slot == p.next_slot
            &&& d.surface != Surface::Services ==> d.availability.next_slot is None
            &&& d.availability.status == AvailabilityStatus::Unavailable <==> d.surface
                == Surface::Goods && p.capacity == Some(0u32)
            &&& d.availability.status != AvailabilityStatus::LimitedStock
            &&& d.min_reputation_bits == p.min_reputation_bits
            &&& d.community_member_only == p.community_member_only
            &&& p.oracle_tier matches Some(t) ==> d.oracle_tier == t
            &&& p.oracle_tier is None && -500 < p.amount_centi < 500 ==> d.oracle_tier == 1
            &&& p.oracle_tier is None && !(-500 < p.amount_centi < 500) ==> d.oracle_tier == 2
            &&& d.created_at == now
            &&& d.expires_at == p.expires_at
        },
{
    law_surfaces_are_told_apart(Surface::Goods, Surface::Services);
    law_surfaces_are_told_apart(Surface::Goods, Surface::Commons);
    law_surfaces_are_told_apart(Surface::Services, Surface::Commons);
    assert(surface_text(Surface::Goods) == "goods"@);
    assert(surface_text(Surface::Services) == "services"@);
    assert(surface_text(Surface::Commons) == "commons"@);
    reveal_strlit("goods");
    reveal_strlit("services");
    reveal_strlit("commons");
    assert("goods"@.len() == 5 && "services"@.len() == 8 && "commons"@.len() == 7);
    assert(is_surface("goods"@) && is_surface("services"@) && is_surface("commons"@));
}

/// An edit changes what it mentions and nothing else: a price keeps the half that is not
/// mentioned, a count or a slot is kept where the other is set, and an end is taken away,
/// set or left. What an edit does not mention at all it does not touch.
pub proof fn law_an_edit_changes_what_it_mentions(
    p: EditListingParams,
    listing_id: &str,
    c: CurrentListing,
    r: Result<ListingPatch, RpcError>,
)
    requires
        call_ensures(edit_patch, (p, listing_id, Some(c)), r),
    ensures
        r matches Ok(d) && {
            &&& d.pricing is Some <==> p.amount_centi is Some || p.negotiable is Some
            &&& d.pricing matches Some(x) ==> {
                &&& p.amount_centi matches Some(a) ==> x.amount_centi == a
                &&& p.amount_centi is None ==> x.amount_centi == c.pricing.amount_centi
                &&& p.negotiable matches Some(n) ==> x.negotiable == n
                &&& p.negotiable is None ==> x.negotiable == c.pricing.negotiable
                &&& x.negotiable <==> x.model == PricingModel::Negotiable
            }
            &&& d.description == p.description
            &&& d.availability is Some <==> p.capacity is Some || p.next_slot is Some
            &&& d.availability matches Some(x) ==> {
                &&& c.surface == Surface::Goods ==> x.capacity == if p.capacity is Some {
                    p.capacity
                } else {
                    c.availability.capacity
                }
                &&& c.surface != Surface::Goods ==> x.capacity is None
                &&& c.surface == Surface::Services ==> x.next_slot == if p.next_slot is Some {
                    p.next_slot
                } else {
                    c.availability.next_slot
                }
                &&& c.surface != Surface::Services ==> x.next_slot is None
                &&& x.status == AvailabilityStatus::Unavailable <==> x.capacity == Some(0u32)
            }
            &&& p.clear_expiry == Some(true) ==> d.expires_at == ExpiryPatch::Clear
            &&& p.clear_expiry != Some(true) ==> (p.expires_at matches Some(at) ==> d.expires_at
                == (ExpiryPatch::Until { at }))
            &&& p.clear_expiry != Some(true) && p.expires_at is None ==> d.expires_at
                == ExpiryPatch::Unchanged
        },
{
}

/// Recurring terms come out as they were asked for: the cadence that the word names, and
/// every number under its own name.
pub proof fn law_terms_are_what_was_asked_for(
    p: &CreateListingParams,
    r: Result<Option<RecurringTerms>, RpcError>,
)
    requires
        call_ensures(requested_terms, (p,), r),
    ensures
        p.every is None ==> r == Ok::<Option<RecurringTerms>, RpcError>(None),
        p.every matches Some(e) ==> {
            &&& r is Ok <==> (e@ == "daily"@ || e@ == "weekly"@ || e@ == "monthly"@)
                && p.periods is Some
            &&& r is Ok ==> r->Ok_0 is Some
            &&& r matches Ok(Some(t)) ==> {
                &&& e@ == "daily"@ ==> t.frequency == Frequency::Daily
                &&& e@ == "weekly"@ ==> t.frequency == Frequency::Weekly
                &&& e@ == "monthly"@ ==> t.frequency == Frequency::Monthly
                &&& p.periods == Some(t.duration_periods)
                &&& p.notice_days matches Some(d) ==> t.notice_period_days == d
                &&& p.notice_days is None ==> t.notice_period_days == 0
                &&& p.penalty_centi matches Some(c) ==> t.early_termination_penalty_centi == c
                &&& p.penalty_centi is None ==> t.early_termination_penalty_centi == 0
            }
        },
{
    reveal_strlit("daily");
    reveal_strlit("weekly");
    reveal_strlit("monthly");
    assert("daily"@.len() == 5 && "weekly"@.len() == 6 && "monthly"@.len() == 7);
}

/// An inquiry or a contract is open to its buyer and its provider and to no one else.
pub proof fn law_only_the_parties_may_read(
    buyer: String,
    provider: String,
    viewer: &String,
    inquiry: Result<(), RpcError>,
    contract: Result<(), RpcError>,
)
    requires
        call_ensures(require_inquiry_party, (&Some((buyer, provider)), viewer), inquiry),
        call_ensures(require_contract_party, (&Some((buyer, provider)), viewer), contract),
    ensures
        inquiry is Ok <==> viewer@ == buyer@ || viewer@ == provider@,
        contract is Ok <==> viewer@ == buyer@ || viewer@ == provider@,
{
}

/// Asking for one need by its number gives every announced need with that number, and all
/// of them are given where none is asked for.
pub proof fn law_the_needs_asked_for_are_given(
    announced: Vec<AnnouncedNeed>,
    n: u64,
    i: int,
    r: Result<Vec<AnnouncedNeed>, RpcError>,
)
    requires
        call_ensures(select_needs, (announced, Some(n)), r),
    ensures
        r is Ok <==> exists|j: int| 0 <= j < announced@.len() && (#[trigger] announced@[j]).seq == n,
        r matches Ok(v) ==> (forall|j: int|
            0 <= j < v@.len() ==> (#[trigger] v@[j]).seq == n && announced@.contains(v@[j])),
        r is Ok && 0 <= i < announced@.len() && announced@[i].seq == n ==> r->Ok_0@.contains(
            announced@[i],
        ),
{
    let keep = |a: AnnouncedNeed| a.seq == n;
    let at = lemma_filter_picks(announced@, keep);
    let kept = announced@.filter(keep);
    assert forall|j: int| 0 <= j < kept.len() implies (#[trigger] kept[j]).seq == n
        && announced@.contains(kept[j]) by {
        let k = at[j];
        assert(announced@[k] == kept[j]);
    }
    if exists|j: int| 0 <= j < announced@.len() && (#[trigger] announced@[j]).seq == n {
        let j = choose|j: int| 0 <= j < announced@.len() && (#[trigger] announced@[j]).seq == n;
        assert(keep(announced@[j]));
        assert(at.contains(j));
        assert(kept.len() > 0);
    }
    if kept.len() > 0 {
        let k = at[0];
        assert(announced@[k].seq == n);
    }
    if 0 <= i < announced@.len() && announced@[i].seq == n {
        assert(keep(announced@[i]));
        let k = choose|k: int| 0 <= k < at.len() && at[k] == i;
        assert(kept[k] == announced@[i]);
    }
}

/// A contract is drafted only from an agreed inquiry on a recurring listing, at the price
/// that was agreed and on the listing's own terms, from the one who asks to the one who
/// offers.
pub proof fn law_a_contract_keeps_to_the_agreement(
    inquiry: &Option<InquiryRecords>,
    me: &String,
    metrics: Vec<(String, String)>,
    now: i64,
    r: Result<ContractDraft, RpcError>,
)
    requires
        call_ensures(draft_contract, (inquiry, me, metrics, now), r),
    ensures
        r is Ok <==> (inquiry matches Some(q) && q.recurring is Some && q.closed matches Some(
            InquiryOutcome::Agreed { .. },
        )),
        r matches Ok(d) ==> {
            let q = inquiry->0;
            &&& q.closed == Some(
                InquiryOutcome::Agreed { final_price_centi: d.terms.commons_per_period_centi },
            )
            &&& d.terms.frequency == q.recurring->0.frequency
            &&& d.terms.duration_periods == q.recurring->0.duration_periods
            &&& d.terms.notice_period_days == q.recurring->0.notice_period_days
            &&& d.terms.early_termination_penalty_centi
                == q.recurring->0.early_termination_penalty_centi
            &&& d.terms.performance_metrics@ == metrics@
            &&& d.buyer@ == me@
            &&& d.provider@ == q.provider@
            &&& d.inquiry_id == q.inquiry_id
            &&& d.listing_id == q.listing_id
            &&& d.started_at == now
        },
{
}

} // verus!
