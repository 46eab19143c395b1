//! Service-contract reads: one contract's full status, and the list of a member's
//! contracts.
//!
//! Where a contract stands follows from how many periods the ledger has billed and from
//! the clock; the contract layer derives it and hands it in. A contract is private to
//! its buyer and provider: the list keeps only the viewer's own.

use vstd::prelude::*;

use crate::dtn_sync::lemma_filter_membership;
use crate::market::{is_party, ContractTerms, Frequency, TerminatedBy};
use crate::order::{
    lemma_sorted_picks, lemma_text_rank, sort_by_rank, sorted_by_rank, stable_sort, text_before,
    text_precedes, Ranked,
};
use crate::rpc::{internal, RpcError};
use crate::tables::Id;
use crate::text::{hex, hex_text, same_text};

verus! {

/// Why a contract is over.
#[derive(Clone, Copy, Debug, PartialEq, Eq, Structural)]
pub enum EndReason {
    /// It ran its course.
    Completed,
    /// A side ended it.
    Terminated {
        /// Which.
        by: TerminatedBy,
        /// Whether before its natural end.
        early: bool,
    },
}

/// Where a contract stands.
#[derive(Clone, Copy, Debug, PartialEq, Eq, Structural)]
pub enum ContractState {
    /// It is billing.
    Active {
        /// When the next period falls due.
        next_charge_due: i64,
        /// How many are still to run.
        periods_remaining: u32,
    },
    /// A side has ended it, and its notice is running.
    Terminating {
        /// Until when.
        effective_at: i64,
    },
    /// It is over.
    Ended {
        /// Why.
        reason: EndReason,
        /// Since when.
        at: i64,
    },
}

/// The wire tag of a contract's state.
pub open spec fn contract_state_text(s: ContractState) -> Seq<char> {
    match s {
        ContractState::Active { .. } => "active"@,
        ContractState::Terminating { .. } => "terminating"@,
        ContractState::Ended { .. } => "ended"@,
    }
}

impl ContractState {
    /// The wire tag.
    pub fn tag(self) -> (r: &'static str)
        ensures
            r@ == contract_state_text(self),
    {
        match self {
            ContractState::Active { .. } => "active",
            ContractState::Terminating { .. } => "terminating",
            ContractState::Ended { .. } => "ended",
        }
    }
}

/// Where a contract stands once its termination is on the log; a contract that cannot be
/// read back is the station's own failure.
pub fn state_after_termination(state: Option<ContractState>) -> (r: Result<&'static str, RpcError>)
    ensures
        match state {
            Some(s) => r matches Ok(tag) && tag@ == contract_state_text(s),
            None => r matches Err(e) && e.is_internal("contract vanished after termination"@),
        },
{
    match state {
        Some(s) => Ok(s.tag()),
        None => Err(internal("contract vanished after termination")),
    }
}

/// The wire tag of the side that ended a contract.
pub open spec fn side_text(by: TerminatedBy) -> Seq<char> {
    match by {
        TerminatedBy::Buyer => "buyer"@,
        TerminatedBy::Provider => "provider"@,
    }
}

fn side_tag(by: TerminatedBy) -> (r: &'static str)
    ensures
        r@ == side_text(by),
{
    match by {
        TerminatedBy::Buyer => "buyer",
        TerminatedBy::Provider => "provider",
    }
}

/// The wire tag of a frequency.
pub open spec fn frequency_text(f: Frequency) -> Seq<char> {
    match f {
        Frequency::Daily => "daily"@,
        Frequency::Weekly => "weekly"@,
        Frequency::Monthly => "monthly"@,
        Frequency::Custom { .. } => "custom"@,
    }
}

/// The wire tag of a frequency.
pub fn frequency_tag(f: Frequency) -> (r: &'static str)
    ensures
        r@ == frequency_text(f),
{
    match f {
        Frequency::Daily => "daily",
        Frequency::Weekly => "weekly",
        Frequency::Monthly => "monthly",
        Frequency::Custom { .. } => "custom",
    }
}

/// A contract as its records have it.
#[derive(Clone, Debug, PartialEq, Eq)]
pub struct ServiceContract {
    /// The contract.
    pub contract_id: Id,
    /// The inquiry that it was born from.
    pub inquiry_id: Id,
    /// The listing.
    pub listing_id: Id,
    /// The listing's title.
    pub listing_title: String,
    /// Who buys.
    pub buyer: String,
    /// Who provides.
    pub provider: String,
    /// The terms.
    pub terms: ContractTerms,
    /// The length of a period, in seconds.
    pub period_secs: i64,
    /// How many periods there are.
    pub total_periods: u32,
    /// When it began.
    pub started_at: i64,
}

/// One contract in full.
#[derive(Debug, Clone, PartialEq, Eq)]
pub struct ContractDetailView {
    /// The contract's content address, hex.
    pub contract_id: String,
    /// The agreed inquiry this contract was born from, hex.
    pub inquiry_id: String,
    /// The listing subscribed to, hex.
    pub listing_id: String,
    /// The listing's title, for the header.
    pub listing_title: String,
    /// The subscriber's address.
    pub buyer: String,
    /// The provider's address.
    pub provider: String,
    /// How often a period falls due: `daily`, `weekly`, `monthly`, or `custom`.
    pub frequency: &'static str,
    /// The period length in seconds.
    pub period_secs: i64,
    /// How many periods the commitment runs for.
    pub duration_periods: u32,
    /// The per-period charge, in hundredths.
    pub commons_per_period_centi: i64,
    /// Days of notice either side must give to end it early.
    pub notice_period_days: u32,
    /// The penalty, in hundredths, on whoever ends it before its natural end.
    pub early_termination_penalty_centi: i64,
    /// The buyer's free-form notes recorded on the contract.
    pub performance_metrics: Vec<(String, String)>,
    /// Unix seconds the contract began.
    pub started_at: i64,
    /// `active`, `terminating`, or `ended`.
    pub state: &'static str,
    /// How many periods the ledger has charged.
    pub periods_charged: u32,
    /// How many periods are still to run.
    pub periods_remaining: u32,
    /// When the next unbilled period falls due, while the contract is billing.
    pub next_charge_due: Option<i64>,
    /// When a pending termination takes effect, while it is terminating.
    pub terminating_effective_at: Option<i64>,
    /// Why it ended, once it has: `completed` or `terminated`.
    pub ended_reason: Option<&'static str>,
    /// Which party ended it, where one did: `buyer` or `provider`.
    pub terminated_by: Option<&'static str>,
    /// Whether it ended before its natural end, where a party ended it.
    pub ended_early: Option<bool>,
    /// Unix seconds it ended, once it has.
    pub ended_at: Option<i64>,
}

/// One contract as a list row: enough to list and route, not the full status.
#[derive(Debug, Clone, PartialEq, Eq)]
pub struct ContractRow {
    /// The contract's content address, hex.
    pub contract_id: String,
    /// The listing's title.
    pub listing_title: String,
    /// The viewer's role: `buyer` or `provider`.
    pub role: &'static str,
    /// The other party's address.
    pub counterparty: String,
    /// `active`, `terminating`, or `ended`.
    pub state: &'static str,
    /// The per-period charge, in hundredths.
    pub commons_per_period_centi: i64,
    /// How many periods have been charged.
    pub periods_charged: u32,
    /// How many are still to run.
    pub periods_remaining: u32,
    /// When the next unbilled period falls due, while billing.
    pub next_charge_due: Option<i64>,
    /// Unix seconds the contract began; the rows sort by this, newest first.
    pub started_at: i64,
}

/// An optional name.
pub open spec fn named(o: Option<&'static str>) -> Option<Seq<char>> {
    match o {
        Some(s) => Some(s@),
        None => None,
    }
}

/// How many periods are left of a total.
pub open spec fn left_of(total: u32, charged: u32) -> u32 {
    if total > charged {
        (total - charged) as u32
    } else {
        0
    }
}

/// Whether a view shows where the contract stands: what belongs to its state and
/// nothing else.
pub open spec fn shows_state(
    v: ContractDetailView,
    total: u32,
    charged: u32,
    state: ContractState,
) -> bool {
    &&& v.state@ == contract_state_text(state)
    &&& v.periods_charged == charged
    &&& match state {
        ContractState::Active { next_charge_due, periods_remaining } => {
            &&& v.next_charge_due == Some(next_charge_due)
            &&& v.periods_remaining == periods_remaining
            &&& v.terminating_effective_at is None
            &&& v.ended_at is None
            &&& v.ended_reason is None
            &&& v.terminated_by is None
            &&& v.ended_early is None
        },
        ContractState::Terminating { effective_at } => {
            &&& v.next_charge_due is None
            &&& v.periods_remaining == left_of(total, charged)
            &&& v.terminating_effective_at == Some(effective_at)
            &&& v.ended_at is None
            &&& v.ended_reason is None
            &&& v.terminated_by is None
            &&& v.ended_early is None
        },
        ContractState::Ended { reason, at } => {
            &&& v.next_charge_due is None
            &&& v.periods_remaining == 0
            &&& v.terminating_effective_at is None
            &&& v.ended_at == Some(at)
            &&& match reason {
                EndReason::Completed => {
                    &&& named(v.ended_reason) == Some("completed"@)
                    &&& v.terminated_by is None
                    &&& v.ended_early is None
                },
                EndReason::Terminated { by, early } => {
                    &&& named(v.ended_reason) == Some("terminated"@)
                    &&& named(v.terminated_by) == Some(side_text(by))
                    &&& v.ended_early == Some(early)
                },
            }
        },
    }
}

/// Whether a view shows a contract's terms and parties.
pub open spec fn shows_contract(v: ContractDetailView, c: ServiceContract) -> bool {
    &&& v.contract_id@ == hex_text(c.contract_id@)
    &&& v.inquiry_id@ == hex_text(c.inquiry_id@)
    &&& v.listing_id@ == hex_text(c.listing_id@)
    &&& v.listing_title == c.listing_title
    &&& v.buyer == c.buyer
    &&& v.provider == c.provider
    &&& v.frequency@ == frequency_text(c.terms.frequency)
    &&& v.period_secs == c.period_secs
    &&& v.duration_periods == c.terms.duration_periods
    &&& v.commons_per_period_centi == c.terms.commons_per_period_centi
    &&& v.notice_period_days == c.terms.notice_period_days
    &&& v.early_termination_penalty_centi == c.terms.early_termination_penalty_centi
    &&& v.performance_metrics@ == c.terms.performance_metrics@
    &&& v.started_at == c.started_at
}

fn copy_metrics(m: &Vec<(String, String)>) -> (r: Vec<(String, String)>)
    ensures
        r@ == m@,
{
    let mut out: Vec<(String, String)> = Vec::new();
    let mut i: usize = 0;
    while i < m.len()
        invariant
            i <= m.len(),
            out@ == m@.take(i as int),
        decreases m.len() - i,
    {
        out.push((m[i].0.clone(), m[i].1.clone()));
        i = i + 1;
        assert(out@ =~= m@.take(i as int));
    }
    assert(m@.take(i as int) =~= m@);
    out
}

/// Shapes one contract into the detail view, given how many periods the ledger has
/// charged and where the contract stands. The caller has checked that the viewer is a
/// party.
pub fn detail(c: &ServiceContract, periods_charged: u32, state: ContractState) -> (r:
    ContractDetailView)
    ensures
        shows_contract(r, *c),
        shows_state(r, c.total_periods, periods_charged, state),
{
    let left: u32 = if c.total_periods > periods_charged {
        c.total_periods - periods_charged
    } else {
        0
    };
    let mut view = ContractDetailView {
        contract_id: hex(c.contract_id.bytes.as_slice()),
        inquiry_id: hex(c.inquiry_id.bytes.as_slice()),
        listing_id: hex(c.listing_id.bytes.as_slice()),
        listing_title: c.listing_title.clone(),
        buyer: c.buyer.clone(),
        provider: c.provider.clone(),
        frequency: frequency_tag(c.terms.frequency),
        period_secs: c.period_secs,
        duration_periods: c.terms.duration_periods,
        commons_per_period_centi: c.terms.commons_per_period_centi,
        notice_period_days: c.terms.notice_period_days,
        early_termination_penalty_centi: c.terms.early_termination_penalty_centi,
        performance_metrics: copy_metrics(&c.terms.performance_metrics),
        started_at: c.started_at,
        state: state.tag(),
        periods_charged,
        periods_remaining: left,
        next_charge_due: None,
        terminating_effective_at: None,
        ended_reason: None,
        terminated_by: None,
        ended_early: None,
        ended_at: None,
    };
    match state {
        ContractState::Active { next_charge_due, periods_remaining } => {
            view.next_charge_due = Some(next_charge_due);
            view.periods_remaining = periods_remaining;
        },
        ContractState::Terminating { effective_at } => {
            view.terminating_effective_at = Some(effective_at);
        },
        ContractState::Ended { reason, at } => {
            view.ended_at = Some(at);
            view.periods_remaining = 0;
            match reason {
                EndReason::Completed => {
                    view.ended_reason = Some("completed");
                },
                EndReason::Terminated { by, early } => {
                    view.ended_reason = Some("terminated");
                    view.terminated_by = Some(side_tag(by));
                    view.ended_early = Some(early);
                },
            }
        },
    }
    view
}

/// A contract with what the list needs to know of it.
#[derive(Clone, Debug, PartialEq, Eq)]
pub struct ContractStanding {
    /// The contract.
    pub contract: ServiceContract,
    /// How many periods the ledger has charged.
    pub periods_charged: u32,
    /// Where it stands.
    pub state: ContractState,
}

/// Whether a row shows a contract to a viewer: the viewer's role, the other party, and
/// where the contract stands.
pub open spec fn shows_row(w: ContractRow, s: ContractStanding, viewer: Seq<char>) -> bool {
    let c = s.contract;
    &&& w.contract_id@ == hex_text(c.contract_id@)
    &&& w.listing_title == c.listing_title
    &&& w.role@ == if c.buyer@ == viewer {
        "buyer"@
    } else {
        "provider"@
    }
    &&& w.counterparty == if c.buyer@ == viewer {
        c.provider
    } else {
        c.buyer
    }
    &&& w.state@ == contract_state_text(s.state)
    &&& w.commons_per_period_centi == c.terms.commons_per_period_centi
    &&& w.periods_charged == s.periods_charged
    &&& w.periods_remaining == match s.state {
        ContractState::Ended { .. } => 0,
        _ => left_of(c.total_periods, s.periods_charged),
    }
    &&& w.next_charge_due == match s.state {
        ContractState::Active { next_charge_due, .. } => Some(next_charge_due),
        _ => None,
    }
    &&& w.started_at == c.started_at
}

impl Ranked for ContractRow {
    /// Newest first; ties by id.
    open spec fn before(&self, other: &Self) -> bool {
        self.started_at > other.started_at || (self.started_at == other.started_at && text_before(
            self.contract_id@,
            other.contract_id@,
        ))
    }

    fn precedes(&self, other: &Self) -> (r: bool) {
        self.started_at > other.started_at || (self.started_at == other.started_at
            && text_precedes(self.contract_id.as_str(), other.contract_id.as_str()))
    }

    proof fn lemma_order(a: &Self, b: &Self, c: &Self) {
        lemma_text_rank(a.contract_id@, b.contract_id@, c.contract_id@);
    }
}

/// The contracts that a viewer is a party to.
pub open spec fn own_contracts(all: Seq<ContractStanding>, viewer: Seq<char>) -> Seq<
    ContractStanding,
> {
    all.filter(|s: ContractStanding| is_party(s.contract.buyer@, s.contract.provider@, viewer))
}

/// Whether rows show contracts one for one.
pub open spec fn shows_rows(
    rows: Seq<ContractRow>,
    own: Seq<ContractStanding>,
    viewer: Seq<char>,
) -> bool {
    &&& rows.len() == own.len()
    &&& forall|i: int| 0 <= i < rows.len() ==> shows_row(#[trigger] rows[i], own[i], viewer)
}

fn row(s: &ContractStanding, is_buyer: bool, viewer: &String) -> (r: ContractRow)
    requires
        is_buyer == (s.contract.buyer@ == viewer@),
    ensures
        shows_row(r, *s, viewer@),
{
    let c = &s.contract;
    let role = if is_buyer {
        "buyer"
    } else {
        "provider"
    };
    let counterparty = if is_buyer {
        c.provider.clone()
    } else {
        c.buyer.clone()
    };
    let left: u32 = match s.state {
        ContractState::Ended { .. } => 0,
        _ => if c.total_periods > s.periods_charged {
            c.total_periods - s.periods_charged
        } else {
            0
        },
    };
    ContractRow {
        contract_id: hex(c.contract_id.bytes.as_slice()),
        listing_title: c.listing_title.clone(),
        role,
        counterparty,
        state: s.state.tag(),
        commons_per_period_centi: c.terms.commons_per_period_centi,
        periods_charged: s.periods_charged,
        periods_remaining: left,
        next_charge_due: match s.state {
            ContractState::Active { next_charge_due, .. } => Some(next_charge_due),
            _ => None,
        },
        started_at: c.started_at,
    }
}

/// Shapes the contracts `viewer` is a party to into list rows, newest first. Contracts
/// the viewer is neither buyer nor provider of are left out.
pub fn my_contracts(all: &Vec<ContractStanding>, viewer: &String) -> (r: Vec<ContractRow>)
    ensures
        sorted_by_rank(r@),
        exists|rows: Seq<ContractRow>|
            #![trigger stable_sort(rows)]
            shows_rows(rows, own_contracts(all@, viewer@), viewer@) && r@ == stable_sort(rows),
{
    let ghost mine = |s: ContractStanding|
        is_party(s.contract.buyer@, s.contract.provider@, viewer@);
    let mut rows: Vec<ContractRow> = Vec::new();
    let mut i: usize = 0;
    proof {
        reveal(Seq::filter);
    }
    while i < all.len()
        invariant
            i <= all.len(),
            mine == (|s: ContractStanding|
                is_party(s.contract.buyer@, s.contract.provider@, viewer@)),
            shows_rows(rows@, all@.take(i as int).filter(mine), viewer@),
        decreases all.len() - i,
    {
        proof {
            reveal(Seq::filter);
            assert(all@.take(i as int + 1).drop_last() =~= all@.take(i as int));
            assert(all@.take(i as int + 1).last() == all@[i as int]);
        }
        let s = &all[i];
        let is_buyer = same_text(s.contract.buyer.as_str(), viewer.as_str());
        let is_provider = same_text(s.contract.provider.as_str(), viewer.as_str());
        if is_buyer || is_provider {
            rows.push(row(s, is_buyer, viewer));
        }
        i = i + 1;
    }
    assert(all@.take(i as int) =~= all@);
    let ghost unsorted = rows@;
    let r = sort_by_rank(rows);
    assert(shows_rows(unsorted, own_contracts(all@, viewer@), viewer@) && r@ == stable_sort(
        unsorted,
    ));
    r
}

/// A member sees only contracts that they are a party to, and a stranger sees none.
pub proof fn law_contracts_are_private(all: Seq<ContractStanding>, viewer: Seq<char>)
    ensures
        forall|i: int|
            0 <= i < own_contracts(all, viewer).len() ==> is_party(
                (#[trigger] own_contracts(all, viewer)[i]).contract.buyer@,
                own_contracts(all, viewer)[i].contract.provider@,
                viewer,
            ),
        (forall|i: int|
            0 <= i < all.len() ==> !is_party(
                (#[trigger] all[i]).contract.buyer@,
                all[i].contract.provider@,
                viewer,
            )) ==> own_contracts(all, viewer).len() == 0,
{
    let mine = |s: ContractStanding| is_party(s.contract.buyer@, s.contract.provider@, viewer);
    assert forall|i: int| 0 <= i < all.filter(mine).len() implies mine(
        #[trigger] all.filter(mine)[i],
    ) && all.contains(all.filter(mine)[i]) by {
        let x = all.filter(mine)[i];
        assert(all.filter(mine).contains(x));
        lemma_filter_membership(all, mine, x);
    }
    if own_contracts(all, viewer).len() > 0 {
        let x = own_contracts(all, viewer)[0];
        assert(all.contains(x));
        let j = choose|j: int| 0 <= j < all.len() && all[j] == x;
        assert(all[j] == x);
    }
}

/// A member's list shows every contract that they buy or provide under, once, and no other:
/// with their own side of it, the other party, its price, and where it stands; those that
/// began last come first, and of two that began at once the one with the lesser id. The
/// result says which contract each row shows.
pub proof fn law_a_member_sees_all_of_their_contracts(
    all: &Vec<ContractStanding>,
    viewer: &String,
    r: Vec<ContractRow>,
) -> (at: Seq<int>)
    requires
        call_ensures(my_contracts, (all, viewer), r),
    ensures
        at.len() == r@.len(),
        forall|k: int|
            0 <= k < at.len() ==> {
                let s = all@[#[trigger] at[k]];
                let c = s.contract;
                &&& 0 <= at[k] < all@.len()
                &&& c.buyer@ == viewer@ || c.provider@ == viewer@
                &&& r@[k].contract_id@ == hex_text(c.contract_id@)
                &&& r@[k].listing_title@ == c.listing_title@
                &&& c.buyer@ == viewer@ ==> r@[k].role@ == "buyer"@ && r@[k].counterparty@
                    == c.provider@
                &&& c.buyer@ != viewer@ ==> r@[k].role@ == "provider"@ && r@[k].counterparty@
                    == c.buyer@
                &&& r@[k].commons_per_period_centi == c.terms.commons_per_period_centi
                &&& r@[k].periods_charged == s.periods_charged
                &&& r@[k].started_at == c.started_at
                &&& match s.state {
                    ContractState::Active { next_charge_due, .. } => {
                        &&& r@[k].state@ == "active"@
                        &&& r@[k].next_charge_due == Some(next_charge_due)
                    },
                    ContractState::Terminating { .. } => {
                        &&& r@[k].state@ == "terminating"@
                        &&& r@[k].next_charge_due is None
                    },
                    ContractState::Ended { .. } => {
                        &&& r@[k].state@ == "ended"@
                        &&& r@[k].next_charge_due is None
                        &&& r@[k].periods_remaining == 0
                    },
                }
                &&& !(s.state is Ended) && c.total_periods >= s.periods_charged
                    ==> r@[k].periods_remaining == c.total_periods - s.periods_charged
                &&& c.total_periods <= s.periods_charged ==> r@[k].periods_remaining == 0
            },
        forall|j: int, k: int| 0 <= j < k < at.len() ==> at[j] != at[k],
        forall|i: int|
            0 <= i < all@.len() && ((#[trigger] all@[i]).contract.buyer@ == viewer@
                || all@[i].contract.provider@ == viewer@) ==> at.contains(i),
        forall|j: int, k: int|
            #![trigger r@[j], r@[k]]
            0 <= j < k < r@.len() ==> r@[j].started_at > r@[k].started_at || (r@[j].started_at
                == r@[k].started_at && !text_before(r@[k].contract_id@, r@[j].contract_id@)),
{
    let mine = |s: ContractStanding|
        is_party(s.contract.buyer@, s.contract.provider@, viewer@);
    let rows = choose|rows: Seq<ContractRow>|
        #![trigger stable_sort(rows)]
        shows_rows(rows, own_contracts(all@, viewer@), viewer@) && r@ == stable_sort(rows);
    let at = lemma_sorted_picks(all@, mine, rows);
    assert forall|k: int| 0 <= k < at.len() implies shows_row(
        r@[k],
        all@[#[trigger] at[k]],
        viewer@,
    ) && mine(all@[at[k]]) by {
        let j = choose|j: int|
            0 <= j < rows.len() && #[trigger] rows[j] == stable_sort(rows)[k] && all@.filter(
                mine,
            )[j] == all@[at[k]];
        assert(shows_row(rows[j], own_contracts(all@, viewer@)[j], viewer@));
    }
    assert forall|i: int|
        0 <= i < all@.len() && ((#[trigger] all@[i]).contract.buyer@ == viewer@
            || all@[i].contract.provider@ == viewer@) implies at.contains(i) by {
        assert(mine(all@[i]));
    }
    assert forall|j: int, k: int|
        #![trigger r@[j], r@[k]]
        0 <= j < k < r@.len() implies r@[j].started_at > r@[k].started_at || (r@[j].started_at
        == r@[k].started_at && !text_before(r@[k].contract_id@, r@[j].contract_id@)) by {
        assert(!r@[k].before(&r@[j]));
    }
    at
}

/// A contract's detail shows the contract's own parties, terms and metrics, and of its state
/// what belongs to it: when the next period falls due while it bills, when its notice ends
/// while that runs, and why, by whom and since when it is over once it is.
pub proof fn law_a_detail_shows_the_contract(
    c: &ServiceContract,
    periods_charged: u32,
    state: ContractState,
    v: ContractDetailView,
)
    requires
        call_ensures(detail, (c, periods_charged, state), v),
    ensures
        v.contract_id@ == hex_text(c.contract_id@),
        v.inquiry_id@ == hex_text(c.inquiry_id@),
        v.listing_id@ == hex_text(c.listing_id@),
        v.listing_title@ == c.listing_title@,
        v.buyer@ == c.buyer@,
        v.provider@ == c.provider@,
        v.period_secs == c.period_secs,
        v.duration_periods == c.terms.duration_periods,
        v.commons_per_period_centi == c.terms.commons_per_period_centi,
        v.notice_period_days == c.terms.notice_period_days,
        v.early_termination_penalty_centi == c.terms.early_termination_penalty_centi,
        v.performance_metrics@ == c.terms.performance_metrics@,
        v.started_at == c.started_at,
        v.periods_charged == periods_charged,
        v.next_charge_due == match state {
            ContractState::Active { next_charge_due, .. } => Some(next_charge_due),
            _ => None,
        },
        v.terminating_effective_at == match state {
            ContractState::Terminating { effective_at } => Some(effective_at),
            _ => None,
        },
        v.ended_at == match state {
            ContractState::Ended { at, .. } => Some(at),
            _ => None,
        },
        v.ended_early == match state {
            ContractState::Ended { reason: EndReason::Terminated { early, .. }, .. } => Some(early),
            _ => None,
        },
        v.terminated_by matches Some(side) ==> (state matches ContractState::Ended {
            reason: EndReason::Terminated { by, .. },
            ..
        } && side@ == match by {
            TerminatedBy::Buyer => "buyer"@,
            TerminatedBy::Provider => "provider"@,
        }),
        v.terminated_by is Some <==> (state matches ContractState::Ended {
            reason: EndReason::Terminated { .. },
            ..
        }),
        v.ended_reason is Some <==> state is Ended,
        state is Terminating && c.total_periods >= periods_charged ==> v.periods_remaining
            == c.total_periods - periods_charged,
        state matches ContractState::Active { periods_remaining, .. } ==> v.periods_remaining
            == periods_remaining,
        state is Ended ==> v.periods_remaining == 0,
{
}

} // verus!
