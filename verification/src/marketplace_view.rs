//! Marketplace reads: the cards of a browse list, and one listing in full.
//!
//! A card carries its provider's standing, so that a page is drawn from one answer. The
//! size of a page is bounded: a caller who asks for too much gets a page, not a failure.

use vstd::prelude::*;
use vstd::string::*;

use crate::market::{
    surface_text, Availability, AvailabilityStatus, Pricing, PricingModel, Surface,
};
use crate::contract_view::named;
use crate::dtn_sync::{elapsed, elapsed_secs};
use crate::tables::Id;
use crate::text::{hex, hex_text};

verus! {

/// The most listings one search may return, however large a limit the caller sends.
pub const MAX_SEARCH_LIMIT: usize = 100;

/// A page's size for a limit that was asked for: at least one, at most the maximum.
pub open spec fn page_size(limit: usize) -> usize {
    if limit < 1 {
        1
    } else if limit > MAX_SEARCH_LIMIT {
        MAX_SEARCH_LIMIT
    } else {
        limit
    }
}

/// Clamps the limit that a caller asked for.
pub fn clamp_limit(limit: usize) -> (r: usize)
    ensures
        r == page_size(limit),
        1 <= r <= MAX_SEARCH_LIMIT,
{
    if limit < 1 {
        1
    } else if limit > MAX_SEARCH_LIMIT {
        MAX_SEARCH_LIMIT
    } else {
        limit
    }
}

/// What a search is asked for, before its surface is read.
#[derive(Debug, Clone, PartialEq, Eq)]
pub struct SearchWindow {
    /// How many listings.
    pub limit: usize,
    /// Behind how many.
    pub offset: usize,
}

/// The window of a search: the defaults where the caller gave none, and never more than
/// the maximum.
pub fn search_window(
    limit: Option<usize>,
    offset: Option<usize>,
    default_limit: usize,
    default_offset: usize,
) -> (r: SearchWindow)
    ensures
        r.limit == page_size(
            match limit {
                Some(l) => l,
                None => default_limit,
            },
        ),
        r.offset == match offset {
            Some(o) => o,
            None => default_offset,
        },
{
    let asked: usize = match limit {
        Some(l) => l,
        None => default_limit,
    };
    SearchWindow {
        limit: clamp_limit(asked),
        offset: match offset {
            Some(o) => o,
            None => default_offset,
        },
    }
}

/// What a listing's availability says.
#[derive(Debug, Clone, Copy, PartialEq, Eq)]
pub struct AvailabilityRow {
    /// `available`, `limited_stock`, or `unavailable`.
    pub status: &'static str,
    /// Units left, for goods.
    pub capacity: Option<u32>,
    /// Unix seconds of the next open slot, for services.
    pub next_slot: Option<i64>,
}

/// The wire tag of an availability's status.
pub open spec fn status_text(s: AvailabilityStatus) -> Seq<char> {
    match s {
        AvailabilityStatus::Available => "available"@,
        AvailabilityStatus::LimitedStock => "limited_stock"@,
        AvailabilityStatus::Unavailable => "unavailable"@,
    }
}

fn status_tag(s: AvailabilityStatus) -> (r: &'static str)
    ensures
        r@ == status_text(s),
{
    match s {
        AvailabilityStatus::Available => "available",
        AvailabilityStatus::LimitedStock => "limited_stock",
        AvailabilityStatus::Unavailable => "unavailable",
    }
}

/// The wire tag of a pricing model.
pub open spec fn model_text(m: PricingModel) -> Seq<char> {
    match m {
        PricingModel::Fixed => "fixed"@,
        PricingModel::Negotiable => "negotiable"@,
    }
}

fn model_tag(m: PricingModel) -> (r: &'static str)
    ensures
        r@ == model_text(m),
{
    match m {
        PricingModel::Fixed => "fixed",
        PricingModel::Negotiable => "negotiable",
    }
}

/// A listing as its records have it.
#[derive(Debug, Clone, PartialEq, Eq)]
pub struct Listing {
    /// The listing.
    pub id: Id,
    /// Who offers it.
    pub provider: String,
    /// The community.
    pub community: String,
    /// The surface.
    pub surface: Surface,
    /// The category.
    pub category: String,
    /// The title.
    pub title: String,
    /// The description.
    pub description: String,
    /// The price.
    pub pricing: Pricing,
    /// The availability.
    pub availability: Availability,
    /// The least standing an inquirer must have, as the bits of the number.
    pub min_reputation_bits: u32,
    /// Whether only members of the community may inquire.
    pub community_member_only: bool,
    /// The oracle tier.
    pub oracle_tier: u8,
    /// When it was published.
    pub created_at: i64,
    /// When it ends.
    pub expires_at: Option<i64>,
}

/// A provider's standing: the composite, as the bits of the number, and the band it
/// falls in.
#[derive(Debug, Clone, Copy, PartialEq, Eq)]
pub struct Standing {
    /// The composite's bits.
    pub composite_bits: u32,
    /// The band.
    pub band: &'static str,
}

/// A member's cached standing.
#[derive(Debug, Clone, Copy, PartialEq, Eq, Structural)]
pub struct CachedProfile {
    /// The composite standing, as the bits of the float that carries it.
    pub composite_bits: u32,
    /// When it was worked out.
    pub last_updated: i64,
}

/// The composite standing that a card shows: the cached one while it is fresh enough, and
/// zero where there is none or it has aged.
pub fn provider_composite(cached: Option<CachedProfile>, now: i64, max_age_secs: i64) -> (r: u32)
    ensures
        r == match cached {
            Some(p) => if elapsed(now, p.last_updated) <= max_age_secs {
                p.composite_bits
            } else {
                0
            },
            None => 0,
        },
{
    match cached {
        Some(p) => if elapsed_secs(now, p.last_updated) <= max_age_secs {
            p.composite_bits
        } else {
            0
        },
        None => 0,
    }
}

/// One row in the browse list.
#[derive(Debug, Clone, PartialEq, Eq)]
pub struct ListingCard {
    /// Content address, hex.
    pub listing_id: String,
    /// The provider's address.
    pub provider: String,
    /// `goods`, `services`, or `commons`.
    pub surface: &'static str,
    /// The category.
    pub category: String,
    /// The listing's title.
    pub title: String,
    /// The price, in hundredths. Negative is a subsidy.
    pub amount_centi: i64,
    /// `fixed` or `negotiable`.
    pub pricing_model: &'static str,
    /// Whether offers are invited.
    pub negotiable: bool,
    /// Availability, per surface.
    pub availability: AvailabilityRow,
    /// The provider's current composite, as the bits of the number.
    pub provider_composite_bits: u32,
    /// The band that composite falls in.
    pub provider_band: &'static str,
    /// Unix seconds the listing was published.
    pub created_at: i64,
    /// Unix seconds it stops being on offer, if it does.
    pub expires_at: Option<i64>,
}

/// A listing in full.
#[derive(Debug, Clone, PartialEq, Eq)]
pub struct ListingDetailView {
    /// The same fields the card carries.
    pub card: ListingCard,
    /// The community the listing was published in.
    pub community: String,
    /// The full description.
    pub description: String,
    /// The minimum standing an inquirer must have, as the bits of the number.
    pub min_reputation_bits: u32,
    /// Whether the provider will deal only with members of the community.
    pub community_member_only: bool,
    /// The dispute tier a sale would run under.
    pub oracle_tier: u8,
    /// `draft`, `active`, `closed`, or `expired`.
    pub state: &'static str,
    /// Why it closed, once it has.
    pub close_reason: Option<&'static str>,
    /// Unix seconds it closed, once it has.
    pub closed_at: Option<i64>,
    /// How many members have vouched for the provider.
    pub provider_vouches_received: u64,
}

/// Why a listing was closed.
#[derive(Debug, Clone, Copy, PartialEq, Eq, Structural)]
pub enum CloseReason {
    /// Its end came.
    ExpirationReached,
    /// The provider withdrew it.
    ProviderClosed,
    /// The station cleaned up.
    StationCleanup,
}

/// Where a listing is in its life.
#[derive(Debug, Clone, Copy, PartialEq, Eq, Structural)]
pub enum Lifecycle {
    /// It is not published.
    Draft,
    /// It is on offer.
    Active,
    /// It is closed.
    Closed {
        /// Why.
        reason: CloseReason,
        /// When.
        closed_at: i64,
    },
    /// It is past its end, and the sweep has not closed it yet.
    Expired,
}

/// The wire name of a lifecycle state.
pub open spec fn lifecycle_text(s: Lifecycle) -> Seq<char> {
    match s {
        Lifecycle::Draft => "draft"@,
        Lifecycle::Active => "active"@,
        Lifecycle::Closed { .. } => "closed"@,
        Lifecycle::Expired => "expired"@,
    }
}

/// The wire name of a lifecycle state.
pub fn lifecycle_name(s: Lifecycle) -> (r: &'static str)
    ensures
        r@ == lifecycle_text(s),
{
    match s {
        Lifecycle::Draft => "draft",
        Lifecycle::Active => "active",
        Lifecycle::Closed { .. } => "closed",
        Lifecycle::Expired => "expired",
    }
}

/// The wire name of a close reason.
pub open spec fn close_reason_text(r: CloseReason) -> Seq<char> {
    match r {
        CloseReason::ExpirationReached => "expiration_reached"@,
        CloseReason::ProviderClosed => "provider_closed"@,
        CloseReason::StationCleanup => "station_cleanup"@,
    }
}

/// The wire name of a close reason.
pub fn close_reason_name(reason: CloseReason) -> (r: &'static str)
    ensures
        r@ == close_reason_text(reason),
{
    match reason {
        CloseReason::ExpirationReached => "expiration_reached",
        CloseReason::ProviderClosed => "provider_closed",
        CloseReason::StationCleanup => "station_cleanup",
    }
}

/// Whether a card shows a listing and its provider's standing.
pub open spec fn shows_card(v: ListingCard, l: Listing, s: Standing) -> bool {
    &&& v.listing_id@ == hex_text(l.id@)
    &&& v.provider == l.provider
    &&& v.surface@ == surface_text(l.surface)
    &&& v.category == l.category
    &&& v.title == l.title
    &&& v.amount_centi == l.pricing.amount_centi
    &&& v.pricing_model@ == model_text(l.pricing.model)
    &&& v.negotiable == l.pricing.negotiable
    &&& v.availability.status@ == status_text(l.availability.status)
    &&& v.availability.capacity == l.availability.capacity
    &&& v.availability.next_slot == l.availability.next_slot
    &&& v.provider_composite_bits == s.composite_bits
    &&& v.provider_band == s.band
    &&& v.created_at == l.created_at
    &&& v.expires_at == l.expires_at
}

/// Shapes a listing plus its provider's standing into a card.
pub fn card_of(l: &Listing, s: Standing) -> (r: ListingCard)
    ensures
        shows_card(r, *l, s),
{
    ListingCard {
        listing_id: hex(l.id.bytes.as_slice()),
        provider: l.provider.clone(),
        surface: l.surface.tag(),
        category: l.category.clone(),
        title: l.title.clone(),
        amount_centi: l.pricing.amount_centi,
        pricing_model: model_tag(l.pricing.model),
        negotiable: l.pricing.negotiable,
        availability: AvailabilityRow {
            status: status_tag(l.availability.status),
            capacity: l.availability.capacity,
            next_slot: l.availability.next_slot,
        },
        provider_composite_bits: s.composite_bits,
        provider_band: s.band,
        created_at: l.created_at,
        expires_at: l.expires_at,
    }
}

/// A listing that a search found, with its provider's standing as ranking saw it.
#[derive(Clone, Debug, PartialEq, Eq)]
pub struct SearchHit {
    /// The listing.
    pub listing: Listing,
    /// The standing.
    pub standing: Standing,
}

/// Shapes the hits of a search into cards, in order.
pub fn search(hits: &Vec<SearchHit>) -> (r: Vec<ListingCard>)
    ensures
        r@.len() == hits@.len(),
        forall|i: int|
            0 <= i < r@.len() ==> shows_card(#[trigger] r@[i], hits@[i].listing, hits@[i].standing),
{
    let mut cards: Vec<ListingCard> = Vec::new();
    let mut i: usize = 0;
    while i < hits.len()
        invariant
            i <= hits.len(),
            cards@.len() == i,
            forall|j: int|
                0 <= j < i ==> shows_card(
                    #[trigger] cards@[j],
                    hits@[j].listing,
                    hits@[j].standing,
                ),
        decreases hits.len() - i,
    {
        cards.push(card_of(&hits[i].listing, hits[i].standing));
        i = i + 1;
    }
    cards
}

/// The full view of one listing, or `None` when the log has never seen it created. The
/// provider's vouches count as none where they could not be read.
pub fn detail(
    listing: &Option<Listing>,
    state: Lifecycle,
    standing: Standing,
    vouches_received: Option<u64>,
) -> (r: Option<ListingDetailView>)
    ensures
        match listing {
            None => r is None,
            Some(l) => r matches Some(v) && {
                &&& shows_card(v.card, *l, standing)
                &&& v.community == l.community
                &&& v.description == l.description
                &&& v.min_reputation_bits == l.min_reputation_bits
                &&& v.community_member_only == l.community_member_only
                &&& v.oracle_tier == l.oracle_tier
                &&& v.state@ == lifecycle_text(state)
                &&& named(v.close_reason) == match state {
                    Lifecycle::Closed { reason, .. } => Some(close_reason_text(reason)),
                    _ => None,
                }
                &&& v.closed_at == match state {
                    Lifecycle::Closed { closed_at, .. } => Some(closed_at),
                    _ => None,
                }
                &&& v.provider_vouches_received == match vouches_received {
                    Some(n) => n,
                    None => 0,
                }
            },
        },
{
    match listing {
        None => None,
        Some(l) => Some(
            ListingDetailView {
                card: card_of(l, standing),
                community: l.community.clone(),
                description: l.description.clone(),
                min_reputation_bits: l.min_reputation_bits,
                community_member_only: l.community_member_only,
                oracle_tier: l.oracle_tier,
                state: lifecycle_name(state),
                close_reason: match state {
                    Lifecycle::Closed { reason, .. } => Some(close_reason_name(reason)),
                    _ => None,
                },
                closed_at: match state {
                    Lifecycle::Closed { closed_at, .. } => Some(closed_at),
                    _ => None,
                },
                provider_vouches_received: match vouches_received {
                    Some(n) => n,
                    None => 0,
                },
            },
        ),
    }
}

/// No search returns an unbounded page, whatever was asked for, and none an empty one.
pub proof fn law_pages_are_bounded(limit: usize)
    ensures
        1 <= page_size(limit) <= MAX_SEARCH_LIMIT,
        1 <= limit <= MAX_SEARCH_LIMIT ==> page_size(limit) == limit,
{
}

/// A search shows every listing that it found, once, in the order found, each with its own
/// provider, price, availability and times, and its provider's standing.
pub proof fn law_every_hit_is_shown(hits: &Vec<SearchHit>, r: Vec<ListingCard>, i: int)
    requires
        call_ensures(search, (hits,), r),
    ensures
        r@.len() == hits@.len(),
        0 <= i < hits@.len() ==> {
            let l = hits@[i].listing;
            &&& r@[i].listing_id@ == hex_text(l.id@)
            &&& r@[i].provider@ == l.provider@
            &&& r@[i].surface@ == surface_text(l.surface)
            &&& r@[i].category@ == l.category@
            &&& r@[i].title@ == l.title@
            &&& r@[i].amount_centi == l.pricing.amount_centi
            &&& r@[i].negotiable == l.pricing.negotiable
            &&& r@[i].availability.capacity == l.availability.capacity
            &&& r@[i].availability.next_slot == l.availability.next_slot
            &&& r@[i].created_at == l.created_at
            &&& r@[i].expires_at == l.expires_at
            &&& r@[i].provider_composite_bits == hits@[i].standing.composite_bits
            &&& r@[i].provider_band@ == hits@[i].standing.band@
        },
{
    if 0 <= i < hits@.len() {
        assert(shows_card(r@[i], hits@[i].listing, hits@[i].standing));
    }
}

/// A listing in full shows the same of it as a search does.
pub proof fn law_a_detail_carries_the_card(
    l: Listing,
    state: Lifecycle,
    standing: Standing,
    vouches_received: Option<u64>,
    hits: &Vec<SearchHit>,
    cards: Vec<ListingCard>,
    i: int,
    r: Option<ListingDetailView>,
)
    requires
        call_ensures(detail, (&Some(l), state, standing, vouches_received), r),
        call_ensures(search, (hits,), cards),
        0 <= i < hits@.len(),
        hits@[i].listing == l,
        hits@[i].standing == standing,
    ensures
        r matches Some(v) && {
            &&& v.card.listing_id@ == cards@[i].listing_id@
            &&& v.card.provider@ == cards@[i].provider@
            &&& v.card.title@ == cards@[i].title@
            &&& v.card.amount_centi == cards@[i].amount_centi
            &&& v.card.created_at == cards@[i].created_at
            &&& v.card.expires_at == cards@[i].expires_at
            &&& v.card.provider_composite_bits == cards@[i].provider_composite_bits
            &&& v.description@ == l.description@
            &&& v.community@ == l.community@
            &&& v.oracle_tier == l.oracle_tier
            &&& v.closed_at is Some <==> state is Closed
        },
{
    assert(shows_card(cards@[i], hits@[i].listing, hits@[i].standing));
}

/// A search returns as many listings as were asked for, between one and a hundred, behind as
/// many as were asked to be passed over; the defaults stand where nothing was asked.
pub proof fn law_a_search_keeps_to_its_window(
    limit: Option<usize>,
    offset: Option<usize>,
    default_limit: usize,
    default_offset: usize,
    r: SearchWindow,
)
    requires
        call_ensures(search_window, (limit, offset, default_limit, default_offset), r),
    ensures
        (limit matches Some(l) && 1 <= l <= 100) ==> r.limit == limit->0,
        (limit matches Some(l) && l > 100) ==> r.limit == 100,
        limit == Some(0usize) ==> r.limit == 1,
        limit is None && 1 <= default_limit <= 100 ==> r.limit == default_limit,
        offset matches Some(o) ==> r.offset == o,
        offset is None ==> r.offset == default_offset,
{
}

} // verus!
