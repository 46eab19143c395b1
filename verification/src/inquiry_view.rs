//! Inquiry reads: one negotiation's full thread, and a member's inbox.
//!
//! A thread is private to its buyer and provider: the inbox keeps only the viewer's own.

use vstd::prelude::*;

use crate::contract_view::named;
use crate::dtn_sync::lemma_filter_membership;
use crate::market::{is_party, InquiryOutcome};
use crate::order::{
    lemma_sorted_picks, lemma_text_rank, sort_by_rank, sorted_by_rank, stable_sort, text_before,
    text_precedes, Ranked,
};
use crate::tables::Id;
use crate::text::{hex, hex_text, same_text};

verus! {

/// Where an inquiry stands.
#[derive(Clone, Copy, Debug, PartialEq, Eq, Structural)]
pub enum InquiryState {
    /// It is being negotiated.
    Open,
    /// It went quiet, and the sweep has not closed it yet.
    ExpiredPending,
    /// It is over.
    Closed {
        /// How it ended.
        outcome: InquiryOutcome,
        /// When.
        closed_at: i64,
    },
}

/// The wire tag of an inquiry's state.
pub open spec fn inquiry_state_text(s: InquiryState) -> Seq<char> {
    match s {
        InquiryState::Open => "open"@,
        InquiryState::ExpiredPending => "expired_pending"@,
        InquiryState::Closed { .. } => "closed"@,
    }
}

impl InquiryState {
    /// The wire tag.
    pub fn tag(self) -> (r: &'static str)
        ensures
            r@ == inquiry_state_text(self),
    {
        match self {
            InquiryState::Open => "open",
            InquiryState::ExpiredPending => "expired_pending",
            InquiryState::Closed { .. } => "closed",
        }
    }
}

/// The wire tag of an outcome.
pub open spec fn outcome_text(o: InquiryOutcome) -> Seq<char> {
    match o {
        InquiryOutcome::Agreed { .. } => "agreed"@,
        InquiryOutcome::DeclinedByBuyer => "declined_by_buyer"@,
        InquiryOutcome::DeclinedBySeller => "declined_by_seller"@,
        InquiryOutcome::Expired => "expired"@,
    }
}

/// The wire tag of an outcome.
pub fn outcome_tag(o: InquiryOutcome) -> (r: &'static str)
    ensures
        r@ == outcome_text(o),
{
    match o {
        InquiryOutcome::Agreed { .. } => "agreed",
        InquiryOutcome::DeclinedByBuyer => "declined_by_buyer",
        InquiryOutcome::DeclinedBySeller => "declined_by_seller",
        InquiryOutcome::Expired => "expired",
    }
}

/// One message in a thread.
#[derive(Debug, Clone, PartialEq, Eq)]
pub struct InquiryMessageRow {
    /// The sender's address.
    pub sender: String,
    /// The message body (may be empty when the move is a bare counter-offer).
    pub body: String,
    /// A revised price, in hundredths, if this message carried one.
    pub counter_offer_centi: Option<i64>,
    /// Unix seconds the message was sent.
    pub sent_at: i64,
}

/// An inquiry as its records have it.
#[derive(Clone, Debug, PartialEq, Eq)]
pub struct Inquiry {
    /// The inquiry.
    pub inquiry_id: Id,
    /// The listing.
    pub listing_id: Id,
    /// The listing's title.
    pub listing_title: String,
    /// The listed price, in hundredths.
    pub listed_amount_centi: i64,
    /// Whether the listing invites offers.
    pub negotiable: bool,
    /// Who asks.
    pub buyer: String,
    /// Who offers.
    pub provider: String,
    /// The opening message.
    pub initial_message: String,
    /// The opening offer, in hundredths.
    pub initial_offer_centi: Option<i64>,
    /// When it was opened.
    pub opened_at: i64,
    /// The messages, in log order.
    pub messages: Vec<InquiryMessageRow>,
    /// How it ended.
    pub closed: Option<InquiryOutcome>,
    /// Where it stands now.
    pub state: InquiryState,
    /// When something last happened.
    pub last_activity_at: i64,
}

/// One inquiry in full.
#[derive(Debug, Clone, PartialEq, Eq)]
pub struct InquiryThreadView {
    /// The inquiry's content address, hex.
    pub inquiry_id: String,
    /// The listing being negotiated, hex.
    pub listing_id: String,
    /// The listing's title.
    pub listing_title: String,
    /// The listing's listed price, in hundredths.
    pub listed_amount_centi: i64,
    /// Whether the listing invites offers.
    pub negotiable: bool,
    /// The buyer's address.
    pub buyer: String,
    /// The provider's address.
    pub provider: String,
    /// The buyer's opening message (may be empty).
    pub initial_message: String,
    /// The buyer's opening offer, if they made one.
    pub initial_offer_centi: Option<i64>,
    /// Unix seconds the inquiry was opened.
    pub opened_at: i64,
    /// The messages, in log order.
    pub messages: Vec<InquiryMessageRow>,
    /// `open`, `expired_pending`, or `closed`.
    pub state: &'static str,
    /// How it ended, once it is closed.
    pub outcome: Option<&'static str>,
    /// The agreed price, where it was agreed.
    pub final_price_centi: Option<i64>,
    /// Unix seconds it closed, once it is closed.
    pub closed_at: Option<i64>,
    /// Unix seconds of the latest activity.
    pub last_activity_at: i64,
}

/// One inquiry as an inbox row: enough to list and route, not the whole thread.
#[derive(Debug, Clone, PartialEq, Eq)]
pub struct MyInquiryRow {
    /// The inquiry's content address, hex.
    pub inquiry_id: String,
    /// The listing, hex.
    pub listing_id: String,
    /// The listing's title.
    pub listing_title: String,
    /// The viewer's role in this inquiry: `buyer` or `provider`.
    pub role: &'static str,
    /// The other party's address.
    pub counterparty: String,
    /// `open`, `expired_pending`, or `closed`.
    pub state: &'static str,
    /// How it ended, once it is closed.
    pub outcome: Option<&'static str>,
    /// The most recent offer on the table, in hundredths.
    pub latest_offer_centi: Option<i64>,
    /// Unix seconds of the latest activity; the rows sort by this, newest first.
    pub last_activity_at: i64,
}

/// The last counter-offer among messages, or the opening offer.
pub open spec fn last_counter(messages: Seq<InquiryMessageRow>, initial: Option<i64>) -> Option<i64>
    decreases messages.len(),
{
    if messages.len() == 0 {
        initial
    } else {
        match messages.last().counter_offer_centi {
            Some(c) => Some(c),
            None => last_counter(messages.drop_last(), initial),
        }
    }
}

/// The most recent offer on the table: the agreed price, the last counter-offer, or the
/// opening offer.
pub open spec fn latest_offer_of(q: Inquiry) -> Option<i64> {
    match q.closed {
        Some(InquiryOutcome::Agreed { final_price_centi }) => Some(final_price_centi),
        _ => last_counter(q.messages@, q.initial_offer_centi),
    }
}

/// The most recent offer on the table; none where no number has been named.
pub fn latest_offer(q: &Inquiry) -> (r: Option<i64>)
    ensures
        r == latest_offer_of(*q),
{
    match q.closed {
        Some(InquiryOutcome::Agreed { final_price_centi }) => {
            return Some(final_price_centi);
        },
        _ => {},
    }
    let mut i: usize = q.messages.len();
    assert(q.messages@.take(i as int) =~= q.messages@);
    while i > 0
        invariant
            i <= q.messages@.len(),
            last_counter(q.messages@, q.initial_offer_centi) == last_counter(
                q.messages@.take(i as int),
                q.initial_offer_centi,
            ),
            latest_offer_of(*q) == last_counter(q.messages@, q.initial_offer_centi),
        decreases i,
    {
        assert(q.messages@.take(i as int).drop_last() =~= q.messages@.take(i - 1));
        i = i - 1;
        if q.messages[i].counter_offer_centi.is_some() {
            return q.messages[i].counter_offer_centi;
        }
    }
    q.initial_offer_centi
}

/// How an inquiry ended, for the wire.
pub open spec fn ended_text(s: InquiryState) -> Option<Seq<char>> {
    match s {
        InquiryState::Closed { outcome, .. } => Some(outcome_text(outcome)),
        _ => None,
    }
}

fn ended_tag(s: InquiryState) -> (r: Option<&'static str>)
    ensures
        named(r) == ended_text(s),
{
    match s {
        InquiryState::Closed { outcome, .. } => Some(outcome_tag(outcome)),
        _ => None,
    }
}

/// Whether a view shows an inquiry's thread.
pub open spec fn shows_thread(v: InquiryThreadView, q: Inquiry) -> bool {
    &&& v.inquiry_id@ == hex_text(q.inquiry_id@)
    &&& v.listing_id@ == hex_text(q.listing_id@)
    &&& v.listing_title == q.listing_title
    &&& v.listed_amount_centi == q.listed_amount_centi
    &&& v.negotiable == q.negotiable
    &&& v.buyer == q.buyer
    &&& v.provider == q.provider
    &&& v.initial_message == q.initial_message
    &&& v.initial_offer_centi == q.initial_offer_centi
    &&& v.opened_at == q.opened_at
    &&& v.messages@ == q.messages@
    &&& v.state@ == inquiry_state_text(q.state)
    &&& named(v.outcome) == ended_text(q.state)
    &&& v.final_price_centi == match q.state {
        InquiryState::Closed {
            outcome: InquiryOutcome::Agreed { final_price_centi },
            ..
        } => Some(final_price_centi),
        _ => None,
    }
    &&& v.closed_at == match q.state {
        InquiryState::Closed { closed_at, .. } => Some(closed_at),
        _ => None,
    }
    &&& v.last_activity_at == q.last_activity_at
}

fn copy_messages(m: &Vec<InquiryMessageRow>) -> (r: Vec<InquiryMessageRow>)
    ensures
        r@ == m@,
{
    let mut out: Vec<InquiryMessageRow> = Vec::new();
    let mut i: usize = 0;
    while i < m.len()
        invariant
            i <= m.len(),
            out@ == m@.take(i as int),
        decreases m.len() - i,
    {
        out.push(
            InquiryMessageRow {
                sender: m[i].sender.clone(),
                body: m[i].body.clone(),
                counter_offer_centi: m[i].counter_offer_centi,
                sent_at: m[i].sent_at,
            },
        );
        i = i + 1;
        assert(out@ =~= m@.take(i as int));
    }
    assert(m@.take(i as int) =~= m@);
    out
}

/// Shapes one inquiry into the thread view. The caller has checked that the viewer is a
/// party.
pub fn thread(q: &Inquiry) -> (r: InquiryThreadView)
    ensures
        shows_thread(r, *q),
{
    let final_price_centi = match q.state {
        InquiryState::Closed { outcome: InquiryOutcome::Agreed { final_price_centi }, .. } => Some(
            final_price_centi,
        ),
        _ => None,
    };
    let closed_at = match q.state {
        InquiryState::Closed { closed_at, .. } => Some(closed_at),
        _ => None,
    };
    InquiryThreadView {
        inquiry_id: hex(q.inquiry_id.bytes.as_slice()),
        listing_id: hex(q.listing_id.bytes.as_slice()),
        listing_title: q.listing_title.clone(),
        listed_amount_centi: q.listed_amount_centi,
        negotiable: q.negotiable,
        buyer: q.buyer.clone(),
        provider: q.provider.clone(),
        initial_message: q.initial_message.clone(),
        initial_offer_centi: q.initial_offer_centi,
        opened_at: q.opened_at,
        messages: copy_messages(&q.messages),
        state: q.state.tag(),
        outcome: ended_tag(q.state),
        final_price_centi,
        closed_at,
        last_activity_at: q.last_activity_at,
    }
}

/// Whether a row shows an inquiry to a viewer.
pub open spec fn shows_inquiry_row(w: MyInquiryRow, q: Inquiry, viewer: Seq<char>) -> bool {
    &&& w.inquiry_id@ == hex_text(q.inquiry_id@)
    &&& w.listing_id@ == hex_text(q.listing_id@)
    &&& w.listing_title == q.listing_title
    &&& w.role@ == if q.buyer@ == viewer {
        "buyer"@
    } else {
        "provider"@
    }
    &&& w.counterparty == if q.buyer@ == viewer {
        q.provider
    } else {
        q.buyer
    }
    &&& w.state@ == inquiry_state_text(q.state)
    &&& named(w.outcome) == ended_text(q.state)
    &&& w.latest_offer_centi == latest_offer_of(q)
    &&& w.last_activity_at == q.last_activity_at
}

impl Ranked for MyInquiryRow {
    /// Newest activity first; ties by id.
    open spec fn before(&self, other: &Self) -> bool {
        self.last_activity_at > other.last_activity_at || (self.last_activity_at
            == other.last_activity_at && text_before(self.inquiry_id@, other.inquiry_id@))
    }

    fn precedes(&self, other: &Self) -> (r: bool) {
        self.last_activity_at > other.last_activity_at || (self.last_activity_at
            == other.last_activity_at && text_precedes(
            self.inquiry_id.as_str(),
            other.inquiry_id.as_str(),
        ))
    }

    proof fn lemma_order(a: &Self, b: &Self, c: &Self) {
        lemma_text_rank(a.inquiry_id@, b.inquiry_id@, c.inquiry_id@);
    }
}

/// The inquiries that a viewer is a party to.
pub open spec fn own_inquiries(all: Seq<Inquiry>, viewer: Seq<char>) -> Seq<Inquiry> {
    all.filter(|q: Inquiry| is_party(q.buyer@, q.provider@, viewer))
}

/// Whether rows show inquiries one for one.
pub open spec fn shows_inquiry_rows(
    rows: Seq<MyInquiryRow>,
    own: Seq<Inquiry>,
    viewer: Seq<char>,
) -> bool {
    &&& rows.len() == own.len()
    &&& forall|i: int| 0 <= i < rows.len() ==> shows_inquiry_row(#[trigger] rows[i], own[i], viewer)
}

fn inquiry_row(q: &Inquiry, is_buyer: bool, viewer: &String) -> (r: MyInquiryRow)
    requires
        is_buyer == (q.buyer@ == viewer@),
    ensures
        shows_inquiry_row(r, *q, viewer@),
{
    let role = if is_buyer {
        "buyer"
    } else {
        "provider"
    };
    let counterparty = if is_buyer {
        q.provider.clone()
    } else {
        q.buyer.clone()
    };
    MyInquiryRow {
        inquiry_id: hex(q.inquiry_id.bytes.as_slice()),
        listing_id: hex(q.listing_id.bytes.as_slice()),
        listing_title: q.listing_title.clone(),
        role,
        counterparty,
        state: q.state.tag(),
        outcome: ended_tag(q.state),
        latest_offer_centi: latest_offer(q),
        last_activity_at: q.last_activity_at,
    }
}

/// Shapes the inquiries `viewer` is a party to into inbox rows, newest activity first.
/// Inquiries the viewer is neither buyer nor provider of are left out.
pub fn my_inquiries(all: &Vec<Inquiry>, viewer: &String) -> (r: Vec<MyInquiryRow>)
    ensures
        sorted_by_rank(r@),
        exists|rows: Seq<MyInquiryRow>|
            #![trigger stable_sort(rows)]
            shows_inquiry_rows(rows, own_inquiries(all@, viewer@), viewer@) && r@ == stable_sort(
                rows,
            ),
{
    let ghost mine = |q: Inquiry| is_party(q.buyer@, q.provider@, viewer@);
    let mut rows: Vec<MyInquiryRow> = Vec::new();
    let mut i: usize = 0;
    proof {
        reveal(Seq::filter);
    }
    while i < all.len()
        invariant
            i <= all.len(),
            mine == (|q: Inquiry| is_party(q.buyer@, q.provider@, viewer@)),
            shows_inquiry_rows(rows@, all@.take(i as int).filter(mine), viewer@),
        decreases all.len() - i,
    {
        proof {
            reveal(Seq::filter);
            assert(all@.take(i as int + 1).drop_last() =~= all@.take(i as int));
            assert(all@.take(i as int + 1).last() == all@[i as int]);
        }
        let q = &all[i];
        let is_buyer = same_text(q.buyer.as_str(), viewer.as_str());
        let is_provider = same_text(q.provider.as_str(), viewer.as_str());
        if is_buyer || is_provider {
            rows.push(inquiry_row(q, is_buyer, viewer));
        }
        i = i + 1;
    }
    assert(all@.take(i as int) =~= all@);
    let ghost unsorted = rows@;
    let r = sort_by_rank(rows);
    assert(shows_inquiry_rows(unsorted, own_inquiries(all@, viewer@), viewer@) && r@
        == stable_sort(unsorted));
    r
}

/// A member sees only inquiries that they are a party to, and a stranger sees none.
pub proof fn law_inquiries_are_private(all: Seq<Inquiry>, viewer: Seq<char>)
    ensures
        forall|i: int|
            0 <= i < own_inquiries(all, viewer).len() ==> is_party(
                (#[trigger] own_inquiries(all, viewer)[i]).buyer@,
                own_inquiries(all, viewer)[i].provider@,
                viewer,
            ),
        (forall|i: int|
            0 <= i < all.len() ==> !is_party((#[trigger] all[i]).buyer@, all[i].provider@, viewer))
            ==> own_inquiries(all, viewer).len() == 0,
{
    let mine = |q: Inquiry| is_party(q.buyer@, q.provider@, viewer);
    assert forall|i: int| 0 <= i < all.filter(mine).len() implies mine(
        #[trigger] all.filter(mine)[i],
    ) && all.contains(all.filter(mine)[i]) by {
        let x = all.filter(mine)[i];
        assert(all.filter(mine).contains(x));
        lemma_filter_membership(all, mine, x);
    }
    if own_inquiries(all, viewer).len() > 0 {
        let x = own_inquiries(all, viewer)[0];
        assert(all.contains(x));
        let j = choose|j: int| 0 <= j < all.len() && all[j] == x;
        assert(all[j] == x);
    }
}

/// An agreed price is the latest offer, whatever was offered before.
pub proof fn law_an_agreed_price_is_the_latest_offer(q: Inquiry, price: i64)
    requires
        q.closed == Some(InquiryOutcome::Agreed { final_price_centi: price }),
    ensures
        latest_offer_of(q) == Some(price),
{
}

/// The offer on the table is the agreed price once there is one; before that it is the last
/// offer that a message named, and the opening offer where no message named one. `i` is the
/// place of that last message.
pub proof fn law_the_last_offer_is_on_the_table(q: &Inquiry, i: int, r: Option<i64>)
    requires
        call_ensures(latest_offer, (q,), r),
    ensures
        q.closed matches Some(InquiryOutcome::Agreed { final_price_centi }) ==> r == Some(
            final_price_centi,
        ),
        !(q.closed matches Some(InquiryOutcome::Agreed { .. })) && 0 <= i < q.messages@.len()
            && q.messages@[i].counter_offer_centi is Some && (forall|j: int|
            i < j < q.messages@.len() ==> (#[trigger] q.messages@[j]).counter_offer_centi is None)
            ==> r == q.messages@[i].counter_offer_centi,
        !(q.closed matches Some(InquiryOutcome::Agreed { .. })) && (forall|j: int|
            0 <= j < q.messages@.len() ==> (#[trigger] q.messages@[j]).counter_offer_centi is None)
            ==> r == q.initial_offer_centi,
{
    lemma_last_counter(q.messages@, q.initial_offer_centi, i);
    lemma_last_counter(q.messages@, q.initial_offer_centi, -1);
}

proof fn lemma_last_counter(messages: Seq<InquiryMessageRow>, initial: Option<i64>, i: int)
    ensures
        0 <= i < messages.len() && messages[i].counter_offer_centi is Some && (forall|j: int|
            i < j < messages.len() ==> (#[trigger] messages[j]).counter_offer_centi is None)
            ==> last_counter(messages, initial) == messages[i].counter_offer_centi,
        (forall|j: int|
            0 <= j < messages.len() ==> (#[trigger] messages[j]).counter_offer_centi is None)
            ==> last_counter(messages, initial) == initial,
    decreases messages.len(),
{
    if messages.len() > 0 {
        let front = messages.drop_last();
        let n = messages.len() - 1;
        lemma_last_counter(front, initial, i);
        assert(forall|j: int| 0 <= j < n ==> #[trigger] front[j] == messages[j]);
        if messages[n].counter_offer_centi is None {
            if forall|j: int|
                0 <= j < messages.len() ==> (#[trigger] messages[j]).counter_offer_centi is None {
                assert forall|j: int| 0 <= j < front.len() implies (
                #[trigger] front[j]).counter_offer_centi is None by {
                    assert(front[j] == messages[j]);
                }
            }
            if forall|j: int|
                i < j < messages.len() ==> (#[trigger] messages[j]).counter_offer_centi is None {
                if 0 <= i {
                    assert forall|j: int| i < j < front.len() implies (
                    #[trigger] front[j]).counter_offer_centi is None by {
                        assert(front[j] == messages[j]);
                    }
                }
            }
        } else {
            assert(messages[n] == messages.last());
        }
    }
}

/// A member's inbox shows every inquiry that they ask or offer in, once, and no other: with
/// their own side of it, the other party, where it stands, how it ended, and the offer on
/// the table; the latest activity comes first, and of two that are as late the one with the
/// lesser id. The result says which inquiry each row shows.
pub proof fn law_a_member_sees_all_of_their_inquiries(
    all: &Vec<Inquiry>,
    viewer: &String,
    r: Vec<MyInquiryRow>,
) -> (at: Seq<int>)
    requires
        call_ensures(my_inquiries, (all, viewer), r),
    ensures
        at.len() == r@.len(),
        forall|k: int|
            0 <= k < at.len() ==> {
                let q = all@[#[trigger] at[k]];
                &&& 0 <= at[k] < all@.len()
                &&& q.buyer@ == viewer@ || q.provider@ == viewer@
                &&& r@[k].inquiry_id@ == hex_text(q.inquiry_id@)
                &&& r@[k].listing_id@ == hex_text(q.listing_id@)
                &&& r@[k].listing_title@ == q.listing_title@
                &&& q.buyer@ == viewer@ ==> r@[k].role@ == "buyer"@ && r@[k].counterparty@
                    == q.provider@
                &&& q.buyer@ != viewer@ ==> r@[k].role@ == "provider"@ && r@[k].counterparty@
                    == q.buyer@
                &&& r@[k].outcome is Some <==> q.state is Closed
                &&& forall|o: Option<i64>| #[trigger]
                    call_ensures(latest_offer, (&q,), o) ==> r@[k].latest_offer_centi == o
                &&& r@[k].last_activity_at == q.last_activity_at
            },
        forall|j: int, k: int| 0 <= j < k < at.len() ==> at[j] != at[k],
        forall|i: int|
            0 <= i < all@.len() && ((#[trigger] all@[i]).buyer@ == viewer@ || all@[i].provider@
                == viewer@) ==> at.contains(i),
        forall|j: int, k: int|
            #![trigger r@[j], r@[k]]
            0 <= j < k < r@.len() ==> r@[j].last_activity_at > r@[k].last_activity_at || (
            r@[j].last_activity_at == r@[k].last_activity_at && !text_before(
                r@[k].inquiry_id@,
                r@[j].inquiry_id@,
            )),
{
    let mine = |q: Inquiry| is_party(q.buyer@, q.provider@, viewer@);
    let rows = choose|rows: Seq<MyInquiryRow>|
        #![trigger stable_sort(rows)]
        shows_inquiry_rows(rows, own_inquiries(all@, viewer@), viewer@) && r@ == stable_sort(rows);
    let at = lemma_sorted_picks(all@, mine, rows);
    assert forall|k: int| 0 <= k < at.len() implies shows_inquiry_row(
        r@[k],
        all@[#[trigger] at[k]],
        viewer@,
    ) && mine(all@[at[k]]) by {
        let j = choose|j: int|
            0 <= j < rows.len() && #[trigger] rows[j] == stable_sort(rows)[k] && all@.filter(
                mine,
            )[j] == all@[at[k]];
        assert(shows_inquiry_row(rows[j], own_inquiries(all@, viewer@)[j], viewer@));
    }
    assert forall|i: int|
        0 <= i < all@.len() && ((#[trigger] all@[i]).buyer@ == viewer@ || all@[i].provider@
            == viewer@) implies at.contains(i) by {
        assert(mine(all@[i]));
    }
    assert forall|j: int, k: int|
        #![trigger r@[j], r@[k]]
        0 <= j < k < r@.len() implies r@[j].last_activity_at > r@[k].last_activity_at || (
    r@[j].last_activity_at == r@[k].last_activity_at && !text_before(
        r@[k].inquiry_id@,
        r@[j].inquiry_id@,
    )) by {
        assert(!r@[k].before(&r@[j]));
    }
    at
}

/// A thread shows the inquiry's own listing, parties, opening and messages, and once it is
/// closed when that was and, where it was agreed, at what price.
pub proof fn law_a_thread_shows_the_inquiry(q: &Inquiry, v: InquiryThreadView)
    requires
        call_ensures(thread, (q,), v),
    ensures
        v.inquiry_id@ == hex_text(q.inquiry_id@),
        v.listing_id@ == hex_text(q.listing_id@),
        v.listing_title@ == q.listing_title@,
        v.listed_amount_centi == q.listed_amount_centi,
        v.negotiable == q.negotiable,
        v.buyer@ == q.buyer@,
        v.provider@ == q.provider@,
        v.initial_message@ == q.initial_message@,
        v.initial_offer_centi == q.initial_offer_centi,
        v.opened_at == q.opened_at,
        v.messages@ == q.messages@,
        v.last_activity_at == q.last_activity_at,
        v.closed_at == match q.state {
            InquiryState::Closed { closed_at, .. } => Some(closed_at),
            _ => None,
        },
        v.final_price_centi == match q.state {
            InquiryState::Closed {
                outcome: InquiryOutcome::Agreed { final_price_centi },
                ..
            } => Some(final_price_centi),
            _ => None,
        },
        v.outcome is Some <==> q.state is Closed,
{
}

} // verus!
