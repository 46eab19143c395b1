//! The station's periodic sweeps: settling transactions whose window has closed, closing
//! what has expired, and resolving disputes.

use vstd::prelude::*;
use vstd::string::*;

use crate::log::lemma_filter_map_picks;
use crate::market::LedgerTx;
use crate::rpc::{dispute_err, DisputeError, ErrorCode, RpcError};
use crate::tables::{Id, Key};
use crate::text::{hex, hex_text};

verus! {

/// A transaction that is due to settle, and the listing that it pays for.
#[derive(Clone, Copy, Debug, PartialEq, Eq)]
pub struct Due {
    /// The transaction.
    pub tx_id: Id,
    /// The listing, for a marketplace payment.
    pub listing: Option<Id>,
}

/// The listing that a transaction pays for.
pub open spec fn linked(snapshot: Seq<LedgerTx>, id: Seq<u8>) -> Option<Id>
    decreases snapshot.len(),
{
    if snapshot.len() == 0 {
        None
    } else if snapshot[0].id@ == id {
        snapshot[0].listing
    } else {
        linked(snapshot.skip(1), id)
    }
}

/// The listing that a transaction pays for, if it is a marketplace payment; none for a
/// direct one.
pub fn linked_listing(snapshot: &Vec<LedgerTx>, id: &Id) -> (r: Option<Id>)
    ensures
        r == linked(snapshot@, id@),
{
    let mut i: usize = 0;
    assert(snapshot@.skip(0) =~= snapshot@);
    while i < snapshot.len()
        invariant
            i <= snapshot.len(),
            linked(snapshot@, id@) == linked(snapshot@.skip(i as int), id@),
        decreases snapshot.len() - i,
    {
        assert(snapshot@.skip(i as int).skip(1) =~= snapshot@.skip(i as int + 1));
        if snapshot[i].id.same(id) {
            return snapshot[i].listing;
        }
        i = i + 1;
    }
    None
}

/// A sweep over the transactions that are due, with their listings as they stood before
/// anything was settled.
pub struct SettleSweep {
    due: Vec<Due>,
    next: usize,
    settled: usize,
}

impl SettleSweep {
    /// The transactions that are due.
    pub closed spec fn list(&self) -> Seq<Due> {
        self.due@
    }

    /// How many were tried.
    pub closed spec fn tried(&self) -> nat {
        self.next as nat
    }

    /// How many were settled.
    pub closed spec fn count(&self) -> nat {
        self.settled as nat
    }

    /// Not more were settled than tried, and not more tried than are due.
    pub open spec fn wf(&self) -> bool {
        self.count() <= self.tried() <= self.list().len()
    }

    /// Begins a sweep over the transactions that the settler found eligible.
    pub fn begin(ids: &Vec<Id>, snapshot: &Vec<LedgerTx>) -> (r: Self)
        ensures
            r.wf(),
            r.tried() == 0,
            r.count() == 0,
            r.list() == ids@.map_values(
                |id: Id| Due { tx_id: id, listing: linked(snapshot@, id@) },
            ),
    {
        let mut due: Vec<Due> = Vec::new();
        let mut i: usize = 0;
        let ghost f = |id: Id| Due { tx_id: id, listing: linked(snapshot@, id@) };
        while i < ids.len()
            invariant
                i <= ids.len(),
                f == (|id: Id| Due { tx_id: id, listing: linked(snapshot@, id@) }),
                due@ == ids@.take(i as int).map_values(f),
            decreases ids.len() - i,
        {
            let tx_id = ids[i];
            due.push(Due { tx_id, listing: linked_listing(snapshot, &tx_id) });
            i = i + 1;
            assert(due@ =~= ids@.take(i as int).map_values(f));
        }
        assert(ids@.take(i as int) =~= ids@);
        SettleSweep { due, next: 0, settled: 0 }
    }

    /// The transaction to settle next.
    pub fn current(&self) -> (r: Option<Due>)
        requires
            self.wf(),
        ensures
            r == if self.tried() < self.list().len() {
                Some(self.list()[self.tried() as int])
            } else {
                None
            },
    {
        if self.next < self.due.len() {
            Some(self.due[self.next])
        } else {
            None
        }
    }

    /// Takes whether the current transaction settled, and gives back the sale to attest:
    /// one unit of the listing, for a settled payment that names one.
    pub fn record(&mut self, settled: bool) -> (r: Option<(Id, Id)>)
        requires
            old(self).wf(),
            old(self).tried() < old(self).list().len(),
        ensures
            final(self).wf(),
            final(self).list() == old(self).list(),
            final(self).tried() == old(self).tried() + 1,
            final(self).count() == old(self).count() + (if settled {
                1int
            } else {
                0
            }),
            r == {
                let d = old(self).list()[old(self).tried() as int];
                match d.listing {
                    Some(listing) => if settled {
                        Some((listing, d.tx_id))
                    } else {
                        None
                    },
                    None => None,
                }
            },
    {
        let d = self.due[self.next];
        assert(self.next < self.due.len());
        self.next = self.next + 1;
        if !settled {
            return None;
        }
        self.settled = self.settled + 1;
        match d.listing {
            Some(listing) => Some((listing, d.tx_id)),
            None => None,
        }
    }

    /// How many were settled.
    pub fn settled(&self) -> (r: usize)
        ensures
            r == self.count(),
    {
        self.settled
    }
}

/// The items that are marked, in order.
pub open spec fn marked_in(all: Seq<(Id, bool)>) -> Seq<Id> {
    all.filter_map(
        |p: (Id, bool)|
            if p.1 {
                Some(p.0)
            } else {
                None
            },
    )
}

/// The listings or inquiries that a sweep closes: those past their end, or gone quiet.
pub fn marked(all: &Vec<(Id, bool)>) -> (r: Vec<Id>)
    ensures
        r@ == marked_in(all@),
{
    let ghost f = |p: (Id, bool)|
        if p.1 {
            Some(p.0)
        } else {
            None
        };
    let mut out: Vec<Id> = Vec::new();
    let mut i: usize = 0;
    assert(out@ =~= all@.take(0).filter_map(f));
    while i < all.len()
        invariant
            i <= all.len(),
            f == (|p: (Id, bool)|
                if p.1 {
                    Some(p.0)
                } else {
                    None
                }),
            out@ == all@.take(i as int).filter_map(f),
        decreases all.len() - i,
    {
        proof {
            all@.lemma_filter_map_take_succ(f, i as int);
        }
        if all[i].1 {
            out.push(all[i].0);
        }
        i = i + 1;
        assert(out@ =~= all@.take(i as int).filter_map(f));
    }
    assert(all@.take(i as int) =~= all@);
    out
}

/// How many of the outcomes are good.
pub open spec fn successes_in(outcomes: Seq<bool>) -> nat
    decreases outcomes.len(),
{
    if outcomes.len() == 0 {
        0
    } else if outcomes.last() {
        successes_in(outcomes.drop_last()) + 1
    } else {
        successes_in(outcomes.drop_last())
    }
}

/// How many closes landed.
pub fn successes(outcomes: &Vec<bool>) -> (r: usize)
    ensures
        r == successes_in(outcomes@),
{
    let mut n: usize = 0;
    let mut i: usize = 0;
    while i < outcomes.len()
        invariant
            n <= i <= outcomes.len(),
            n == successes_in(outcomes@.take(i as int)),
        decreases outcomes.len() - i,
    {
        assert(outcomes@.take(i as int + 1).drop_last() =~= outcomes@.take(i as int));
        if outcomes[i] {
            n = n + 1;
        }
        i = i + 1;
    }
    assert(outcomes@.take(i as int) =~= outcomes@);
    n
}

/// What became of a dispute.
#[derive(Clone, Copy, Debug, PartialEq, Eq, Structural)]
pub enum Resolution {
    /// The jury has no majority yet.
    Pending,
    /// It ruled, and its ruling can be appealed.
    AwaitingAppeal,
    /// The dispute was upheld.
    Upheld,
    /// It was rejected.
    Rejected,
    /// It lapsed without a ruling.
    Lapsed,
    /// The electorate has no majority yet.
    EscalationPending,
    /// The electorate upheld the dispute.
    EscalationUpheld,
    /// It rejected it.
    EscalationRejected,
    /// It let it lapse.
    EscalationLapsed,
}

/// The wire name of a resolution.
pub open spec fn resolution_text(r: Resolution) -> Seq<char> {
    match r {
        Resolution::Pending => "pending"@,
        Resolution::AwaitingAppeal => "awaiting_appeal"@,
        Resolution::Upheld => "upheld"@,
        Resolution::Rejected => "rejected"@,
        Resolution::Lapsed => "lapsed"@,
        Resolution::EscalationPending => "escalation_pending"@,
        Resolution::EscalationUpheld => "escalation_upheld"@,
        Resolution::EscalationRejected => "escalation_rejected"@,
        Resolution::EscalationLapsed => "escalation_lapsed"@,
    }
}

/// The wire name for a resolution outcome.
pub fn resolution_name(r: Resolution) -> (s: &'static str)
    ensures
        s@ == resolution_text(r),
{
    match r {
        Resolution::Pending => "pending",
        Resolution::AwaitingAppeal => "awaiting_appeal",
        Resolution::Upheld => "upheld",
        Resolution::Rejected => "rejected",
        Resolution::Lapsed => "lapsed",
        Resolution::EscalationPending => "escalation_pending",
        Resolution::EscalationUpheld => "escalation_upheld",
        Resolution::EscalationRejected => "escalation_rejected",
        Resolution::EscalationLapsed => "escalation_lapsed",
    }
}

/// Resolutions are told apart by their names.
pub proof fn law_resolutions_are_told_apart(a: Resolution, b: Resolution)
    ensures
        resolution_text(a) == resolution_text(b) <==> a == b,
{
    reveal_strlit("pending");
    reveal_strlit("awaiting_appeal");
    reveal_strlit("upheld");
    reveal_strlit("rejected");
    reveal_strlit("lapsed");
    reveal_strlit("escalation_pending");
    reveal_strlit("escalation_upheld");
    reveal_strlit("escalation_rejected");
    reveal_strlit("escalation_lapsed");
    assert("pending"@.len() == 7 && "awaiting_appeal"@.len() == 15 && "upheld"@.len() == 6
        && "rejected"@.len() == 8 && "lapsed"@.len() == 6 && "escalation_pending"@.len() == 18
        && "escalation_upheld"@.len() == 17 && "escalation_rejected"@.len() == 19
        && "escalation_lapsed"@.len() == 17);
    assert("upheld"@[0] != "lapsed"@[0]);
    assert("escalation_upheld"@[11] != "escalation_lapsed"@[11]);
}

/// A dispute that was looked at, and how that went.
#[derive(Debug, PartialEq, Eq)]
pub struct Resolved {
    /// The disputed transaction.
    pub tx_id: Id,
    /// What became of it.
    pub outcome: Result<Resolution, DisputeError>,
}

/// A row of the answer: the transaction, in hex, and the resolution's name.
#[derive(Clone, Debug, PartialEq, Eq)]
pub struct ResolvedRow {
    /// The transaction.
    pub tx_id: String,
    /// The resolution.
    pub resolution: String,
}

/// The rows of the disputes that could be resolved.
pub open spec fn resolved_rows(all: Seq<Resolved>) -> Seq<(Seq<char>, Seq<char>)> {
    all.filter_map(
        |d: Resolved|
            match d.outcome {
                Ok(r) => Some((hex_text(d.tx_id@), resolution_text(r))),
                Err(_) => None,
            },
    )
}

/// Whether every dispute could be resolved.
pub open spec fn all_resolved(all: Seq<Resolved>) -> bool {
    forall|i: int| 0 <= i < all.len() ==> (#[trigger] all[i]).outcome is Ok
}

/// The answer to a call to resolve disputes. A call for one transaction gives its error
/// back; a sweep passes over what it could not resolve, so that one bad dispute does not
/// hold up the others.
pub fn resolve_answer(all: Vec<Resolved>, targeted: bool) -> (r: Result<Vec<ResolvedRow>, RpcError>)
    requires
        targeted ==> all@.len() <= 1,
    ensures
        match r {
            Ok(rows) => {
                &&& targeted ==> all_resolved(all@)
                &&& rows@.map_values(|w: ResolvedRow| (w.tx_id@, w.resolution@)) == resolved_rows(
                    all@,
                )
            },
            Err(e) => targeted && all@.len() == 1 && (all@[0].outcome matches Err(d) && match d {
                DisputeError::Storage(m)
                | DisputeError::Reputation(m)
                | DisputeError::MissingAdmission(m) => e.is_internal(m@),
                DisputeError::Ledger(l) => e.message == l.message && e.code
                    == if crate::rpc::ledger_fault(l.kind) {
                    ErrorCode::InternalError
                } else {
                    ErrorCode::InvalidParams
                },
                DisputeError::Refused(m) => e.is_invalid(m@),
            }),
        },
{
    let ghost f = |d: Resolved|
        match d.outcome {
            Ok(r) => Some((hex_text(d.tx_id@), resolution_text(r))),
            Err(_) => None,
        };
    let ghost shown = |w: ResolvedRow| (w.tx_id@, w.resolution@);
    let ghost whole = all@;
    let mut rest = all;
    let n: usize = rest.len();
    let mut rows: Vec<ResolvedRow> = Vec::new();
    let mut i: usize = 0;
    assert(whole.skip(0) =~= whole);
    assert(rows@.map_values(shown) =~= whole.take(0).filter_map(f));
    while i < n
        invariant
            i <= n,
            n == whole.len(),
            whole == all@,
            rest@ == whole.skip(i as int),
            targeted ==> whole.len() <= 1,
            targeted ==> forall|j: int| 0 <= j < i ==> (#[trigger] whole[j]).outcome is Ok,
            f == (|d: Resolved|
                match d.outcome {
                    Ok(r) => Some((hex_text(d.tx_id@), resolution_text(r))),
                    Err(_) => None,
                }),
            shown == (|w: ResolvedRow| (w.tx_id@, w.resolution@)),
            rows@.map_values(shown) == whole.take(i as int).filter_map(f),
        decreases n - i,
    {
        let ghost before = rows@;
        proof {
            whole.lemma_filter_map_take_succ(f, i as int);
        }
        let d = rest.remove(0);
        assert(d == whole[i as int]);
        assert(rest@ =~= whole.skip(i as int + 1));
        match d.outcome {
            Ok(r) => {
                let row = ResolvedRow {
                    tx_id: hex(d.tx_id.bytes.as_slice()),
                    resolution: String::from_str(resolution_name(r)),
                };
                rows.push(row);
                assert(rows@.map_values(shown) =~= before.map_values(shown).push(shown(row)));
            },
            Err(e) => {
                if targeted {
                    return Err(dispute_err(e));
                }
            },
        }
        i = i + 1;
        assert(rows@.map_values(shown) =~= whole.take(i as int).filter_map(f));
    }
    assert(whole.take(n as int) =~= whole);
    Ok(rows)
}

/// Whether a resolution ends its dispute. A dispute that is pending, that awaits an
/// appeal or whose escalation is pending may still go either way.
pub open spec fn terminal(r: Resolution) -> bool {
    match r {
        Resolution::Upheld
        | Resolution::Rejected
        | Resolution::Lapsed
        | Resolution::EscalationUpheld
        | Resolution::EscalationRejected
        | Resolution::EscalationLapsed => true,
        Resolution::Pending | Resolution::AwaitingAppeal | Resolution::EscalationPending => false,
    }
}

/// Whether a look at a dispute ended it.
pub open spec fn concluded(d: Resolved) -> bool {
    d.outcome matches Ok(r) && terminal(r)
}

/// How many disputes were given a terminal outcome; those that stay open, and those
/// that failed, do not count.
pub fn resolved_count(all: &Vec<Resolved>) -> (r: usize)
    ensures
        r == all@.filter(|d: Resolved| concluded(d)).len(),
{
    let ghost done = |d: Resolved| concluded(d);
    let mut n: usize = 0;
    let mut i: usize = 0;
    proof {
        reveal(Seq::filter);
    }
    while i < all.len()
        invariant
            n <= i <= all.len(),
            done == (|d: Resolved| concluded(d)),
            n == all@.take(i as int).filter(done).len(),
        decreases all.len() - i,
    {
        proof {
            reveal(Seq::filter);
            assert(all@.take(i as int + 1).drop_last() =~= all@.take(i as int));
            assert(all@.take(i as int + 1).last() == all@[i as int]);
        }
        match &all[i].outcome {
            Ok(
                Resolution::Upheld
                | Resolution::Rejected
                | Resolution::Lapsed
                | Resolution::EscalationUpheld
                | Resolution::EscalationRejected
                | Resolution::EscalationLapsed,
            ) => {
                n = n + 1;
            },
            _ => {},
        }
        i = i + 1;
    }
    assert(all@.take(i as int) =~= all@);
    n
}

/// Disputes are counted one by one: one that fails, or that stays open, neither adds to
/// the count nor keeps the others from it.
pub proof fn law_disputes_count_alone(front: Seq<Resolved>, d: Resolved, back: Seq<Resolved>)
    ensures
        (front + seq![d] + back).filter(|x: Resolved| concluded(x)).len() == (front + back).filter(
            |x: Resolved| concluded(x),
        ).len() + if concluded(d) {
            1int
        } else {
            0
        },
{
    let done = |x: Resolved| concluded(x);
    Seq::filter_distributes_over_add(front + seq![d], back, done);
    Seq::filter_distributes_over_add(front, seq![d], done);
    Seq::filter_distributes_over_add(front, back, done);
    reveal_with_fuel(Seq::filter, 2);
    assert(seq![d].drop_last() =~= Seq::empty());
}

proof fn lemma_linked(snapshot: Seq<LedgerTx>, id: Seq<u8>, k: int)
    requires
        forall|j: int| 0 <= j < snapshot.len() && j != k ==> (#[trigger] snapshot[j]).id@ != id,
    ensures
        linked(snapshot, id) == if 0 <= k < snapshot.len() && snapshot[k].id@ == id {
            snapshot[k].listing
        } else {
            None
        },
    decreases snapshot.len(),
{
    if snapshot.len() > 0 {
        let rest = snapshot.skip(1);
        assert forall|j: int| 0 <= j < rest.len() && j != k - 1 implies (#[trigger] rest[j]).id@
            != id by {
            assert(rest[j] == snapshot[j + 1]);
        }
        lemma_linked(rest, id, k - 1);
        if k != 0 {
            assert(snapshot[0].id@ != id);
            if 0 < k < snapshot.len() {
                assert(rest[k - 1] == snapshot[k]);
            }
        } else if snapshot[0].id@ != id {
            if linked(rest, id) is Some {
                lemma_linked(rest, id, -1);
            }
        }
    }
}

/// The listing that a transaction pays for is its own: that of the one transaction of the
/// snapshot with its id, and none where the snapshot has no such transaction.
pub proof fn law_a_linked_listing_is_the_transactions_own(
    snapshot: &Vec<LedgerTx>,
    id: &Id,
    k: int,
    r: Option<Id>,
)
    requires
        call_ensures(linked_listing, (snapshot, id), r),
        forall|j: int| 0 <= j < snapshot@.len() && j != k ==> (#[trigger] snapshot@[j]).id@ != id@,
    ensures
        0 <= k < snapshot@.len() && snapshot@[k].id@ == id@ ==> r == snapshot@[k].listing,
        !(0 <= k < snapshot@.len() && snapshot@[k].id@ == id@) ==> r is None,
{
    lemma_linked(snapshot@, id@, k);
}

/// A sweep tries every eligible transaction, once, in order: as many results as there were
/// eligible transactions take it to its end, and before the one at a place it is that
/// transaction which it hands out, with the listing that it pays for. `sweep` is the sweep
/// that began with them, once it took `i` results; `d` is what it hands out then.
pub proof fn law_a_sweep_tries_every_eligible_transaction(
    ids: &Vec<Id>,
    snapshot: &Vec<LedgerTx>,
    begun: SettleSweep,
    sweep: SettleSweep,
    i: int,
    k: int,
    d: Option<Due>,
)
    requires
        call_ensures(SettleSweep::begin, (ids, snapshot), begun),
        sweep.list() == begun.list(),
        sweep.tried() == begun.tried() + i,
        call_ensures(SettleSweep::current, (&sweep,), d),
        0 <= i <= ids@.len(),
    ensures
        i == ids@.len() ==> d is None,
        i < ids@.len() ==> (d matches Some(due) && due.tx_id == ids@[i]),
        i < ids@.len() && 0 <= k < snapshot@.len() && snapshot@[k].id@ == ids@[i]@ && (forall|j: int|
            0 <= j < snapshot@.len() && j != k ==> (#[trigger] snapshot@[j]).id@ != ids@[i]@)
            ==> d->0.listing == snapshot@[k].listing,
{
    if i < ids@.len() && 0 <= k < snapshot@.len() && snapshot@[k].id@ == ids@[i]@ && (forall|j: int|
        0 <= j < snapshot@.len() && j != k ==> (#[trigger] snapshot@[j]).id@ != ids@[i]@) {
        lemma_linked(snapshot@, ids@[i]@, k);
    }
}

/// A sweep closes every item that is marked and no other, in order. The result says where
/// each one stands.
pub proof fn law_every_marked_item_is_closed(all: &Vec<(Id, bool)>, r: Vec<Id>) -> (at: Seq<int>)
    requires
        call_ensures(marked, (all,), r),
    ensures
        at.len() == r@.len(),
        forall|k: int|
            0 <= k < at.len() ==> 0 <= #[trigger] at[k] < all@.len() && all@[at[k]] == (
                r@[k],
                true,
            ),
        forall|j: int, k: int| 0 <= j < k < at.len() ==> at[j] < at[k],
        forall|i: int| 0 <= i < all@.len() && (#[trigger] all@[i]).1 ==> at.contains(i),
{
    let f = |p: (Id, bool)|
        if p.1 {
            Some(p.0)
        } else {
            None
        };
    assert(r@ == all@.filter_map(f));
    let at = lemma_filter_map_picks(all@, f);
    assert forall|i: int| 0 <= i < all@.len() && (#[trigger] all@[i]).1 implies at.contains(i) by {
        assert(f(all@[i]) is Some);
    }
    at
}

/// The count of closes is that of the good outcomes.
pub proof fn law_every_good_outcome_counts(outcomes: &Vec<bool>, r: usize)
    requires
        call_ensures(successes, (outcomes,), r),
    ensures
        r == outcomes@.filter(|b: bool| b).len(),
{
    lemma_successes(outcomes@);
}

proof fn lemma_successes(outcomes: Seq<bool>)
    ensures
        successes_in(outcomes) == outcomes.filter(|b: bool| b).len(),
    decreases outcomes.len(),
{
    reveal(Seq::filter);
    if outcomes.len() > 0 {
        lemma_successes(outcomes.drop_last());
    }
}

/// A sweep over disputes answers for every one that could be looked at, in order, with its
/// transaction and what became of it, and for no other. The result says where each stands.
pub proof fn law_every_resolved_dispute_is_answered(
    all: Vec<Resolved>,
    targeted: bool,
    rows: Vec<ResolvedRow>,
) -> (at: Seq<int>)
    requires
        call_ensures(resolve_answer, (all, targeted), Ok::<Vec<ResolvedRow>, RpcError>(rows)),
    ensures
        at.len() == rows@.len(),
        forall|k: int|
            0 <= k < at.len() ==> 0 <= #[trigger] at[k] < all@.len() && rows@[k].tx_id@ == hex_text(
                all@[at[k]].tx_id@,
            ) && (all@[at[k]].outcome matches Ok(x) && rows@[k].resolution@ == resolution_text(x)),
        forall|j: int, k: int| 0 <= j < k < at.len() ==> at[j] < at[k],
        forall|i: int|
            0 <= i < all@.len() && (#[trigger] all@[i]).outcome is Ok ==> at.contains(i),
        targeted ==> forall|i: int| 0 <= i < all@.len() ==> (#[trigger] all@[i]).outcome is Ok,
{
    let f = |d: Resolved|
        match d.outcome {
            Ok(r) => Some((hex_text(d.tx_id@), resolution_text(r))),
            Err(_) => None,
        };
    let shown = rows@.map_values(|w: ResolvedRow| (w.tx_id@, w.resolution@));
    assert(shown == all@.filter_map(f));
    let at = lemma_filter_map_picks(all@, f);
    assert forall|k: int| 0 <= k < at.len() implies 0 <= #[trigger] at[k] < all@.len()
        && rows@[k].tx_id@ == hex_text(all@[at[k]].tx_id@) && (all@[at[k]].outcome matches Ok(x)
        && rows@[k].resolution@ == resolution_text(x)) by {
        assert(shown[k] == (rows@[k].tx_id@, rows@[k].resolution@));
    }
    assert forall|i: int| 0 <= i < all@.len() && (#[trigger] all@[i]).outcome is Ok implies at.contains(
        i,
    ) by {
        assert(f(all@[i]) is Some);
    }
    at
}

/// A dispute counts as resolved exactly where it was ruled on for good: it is neither
/// pending, before the jury or the electorate, nor open to an appeal, and looking at it did
/// not fail.
pub proof fn law_only_ended_disputes_count(all: &Vec<Resolved>, r: usize)
    requires
        call_ensures(resolved_count, (all,), r),
    ensures
        r == all@.filter(
            |d: Resolved|
                (d.outcome matches Ok(x) && x != Resolution::Pending && x
                    != Resolution::AwaitingAppeal && x != Resolution::EscalationPending),
        ).len(),
{
    let p = |d: Resolved|
        (d.outcome matches Ok(x) && x != Resolution::Pending && x != Resolution::AwaitingAppeal
            && x != Resolution::EscalationPending);
    let q = |d: Resolved| concluded(d);
    assert(p =~= q);
}

} // verus!
