//! The records that the station reads back from its append-only log, as plain
//! values.

use vstd::prelude::*;

use crate::tables::Id;

verus! {

/// Why a proposal was cancelled.
#[derive(Clone, Copy, Debug, PartialEq, Eq, Structural)]
pub enum CancelReason {
    /// The sender took it back.
    WithdrawnBySender,
    /// The receiver turned it down.
    RejectedByReceiver,
    /// Its time was over.
    Expired,
}

/// A proposed payment.
#[derive(Clone, Debug, PartialEq, Eq)]
pub struct ProposalRecord {
    /// The transaction.
    pub id: Id,
    /// Who pays.
    pub sender: String,
    /// Who is paid.
    pub receiver: String,
    /// How much, in hundredths.
    pub amount_centi: i64,
}

/// A confirmation of a proposal by its receiver.
#[derive(Clone, Debug, PartialEq, Eq)]
pub struct ConfirmationRecord {
    /// The transaction.
    pub proposal_id: Id,
    /// Who confirmed it.
    pub confirmer: String,
}

/// A settled payment.
#[derive(Clone, Debug, PartialEq, Eq)]
pub struct SettlementRecord {
    /// The transaction.
    pub proposal_id: Id,
    /// Who paid.
    pub sender: String,
    /// Who was paid.
    pub receiver: String,
    /// How much, in hundredths.
    pub amount_centi: i64,
}

/// A cancelled proposal.
#[derive(Clone, Copy, Debug, PartialEq, Eq)]
pub struct CancellationRecord {
    /// The transaction.
    pub proposal_id: Id,
    /// Why it was cancelled.
    pub reason: CancelReason,
}

/// A vouch of one member for another.
#[derive(Clone, Debug, PartialEq, Eq)]
pub struct VouchRecord {
    /// Who is vouched for.
    pub subject: String,
    /// The community the vouch was stamped into.
    pub community: String,
    /// What is said of the subject.
    pub statement: String,
    /// Reputation staked, in hundredths of a point.
    pub stake_centi: u64,
    /// Unix seconds when the vouch was issued.
    pub issued_at: i64,
}

/// A charge of a service contract: the buyer pays the provider.
#[derive(Clone, Debug, PartialEq, Eq)]
pub struct ContractCharge {
    /// The contract.
    pub contract_ref: Id,
    /// Who is debited.
    pub buyer: String,
    /// Who is credited.
    pub provider: String,
    /// How much, in hundredths; negative where the provider pays the buyer.
    pub amount_centi: i64,
    /// The charged period.
    pub period_index: u32,
    /// When it was charged.
    pub charged_at: i64,
}

/// A signed record, decoded.
#[derive(Clone, Debug, PartialEq, Eq)]
pub enum LogRecord {
    /// A proposed payment.
    Proposal(ProposalRecord),
    /// A confirmation.
    Confirmation(ConfirmationRecord),
    /// A settlement.
    Settlement(SettlementRecord),
    /// A cancellation.
    Cancellation(CancellationRecord),
    /// A vouch.
    Vouch(VouchRecord),
    /// A contract charge.
    Charge(ContractCharge),
    /// Any other record.
    Other,
}

/// An entry of the log.
#[derive(Clone, Debug, PartialEq, Eq)]
pub struct LogEntry {
    /// Its sequence number.
    pub seq: u64,
    /// When it was admitted.
    pub created_at: i64,
    /// The signer's address.
    pub signer: String,
    /// The hash of the payload, in hex.
    pub hash_hex: String,
    /// The canonical bytes of the payload.
    pub bytes: Vec<u8>,
    /// The record that they hold.
    pub record: LogRecord,
}

/// Whether the log's entries stand in order of their sequence numbers.
pub open spec fn ascending(entries: Seq<LogEntry>) -> bool {
    forall|i: int, j: int| 0 <= i < j < entries.len() ==> entries[i].seq < entries[j].seq
}

/// The entries that a reader gets before the first one that cannot be read.
pub open spec fn readable<A>(read: Seq<Option<A>>) -> Seq<A>
    decreases read.len(),
{
    if read.len() == 0 {
        Seq::empty()
    } else {
        match read[0] {
            Some(e) => seq![e] + readable(read.skip(1)),
            None => Seq::empty(),
        }
    }
}

/// How many entries can be read before the first one that cannot.
pub fn readable_len<A>(read: &Vec<Option<A>>) -> (r: usize)
    ensures
        r <= read@.len(),
        r == readable(read@).len(),
        forall|i: int| 0 <= i < r ==> #[trigger] read@[i] == Some(readable(read@)[i]),
{
    let mut i: usize = 0;
    assert(read@.skip(0) =~= read@);
    while i < read.len()
        invariant
            i <= read@.len(),
            readable(read@).len() == i + readable(read@.skip(i as int)).len(),
            readable(read@).skip(i as int) == readable(read@.skip(i as int)),
            forall|j: int| 0 <= j < i ==> #[trigger] read@[j] == Some(readable(read@)[j]),
        decreases read.len() - i,
    {
        assert(read@.skip(i as int).skip(1) =~= read@.skip(i as int + 1));
        if read[i].is_none() {
            return i;
        }
        proof {
            let all = readable(read@);
            assert(all.skip(i as int)[0] == all[i as int]);
            assert(readable(read@.skip(i as int)).skip(1) =~= readable(read@.skip(i as int + 1)));
            assert(all.skip(i as int + 1) =~= all.skip(i as int).skip(1));
        }
        i = i + 1;
    }
    i
}

/// The entries before the first one that cannot be read are what a reader gets.
pub proof fn lemma_readable_prefix<A>(read: Seq<Option<A>>, n: int)
    requires
        0 <= n <= read.len(),
        forall|i: int| 0 <= i < n ==> (#[trigger] read[i]) is Some,
        n < read.len() ==> read[n] is None,
    ensures
        readable(read).len() == n,
        forall|i: int| 0 <= i < n ==> #[trigger] read[i] == Some(readable(read)[i]),
    decreases read.len(),
{
    if n > 0 {
        let rest = read.skip(1);
        assert(read[0] is Some);
        assert forall|i: int| 0 <= i < n - 1 implies (#[trigger] rest[i]) is Some by {
            assert(rest[i] == read[i + 1]);
        }
        lemma_readable_prefix(rest, n - 1);
        assert forall|i: int| 0 <= i < n implies #[trigger] read[i] == Some(readable(read)[i]) by {
            if i > 0 {
                assert(rest[i - 1] == read[i]);
            }
        }
    }
}

/// A partial map over a sequence keeps the images that there are, in order. The result
/// says where each image comes from.
pub proof fn lemma_filter_map_picks<A, B>(s: Seq<A>, f: spec_fn(A) -> Option<B>) -> (at: Seq<int>)
    ensures
        at.len() == s.filter_map(f).len(),
        forall|k: int|
            0 <= k < at.len() ==> 0 <= #[trigger] at[k] < s.len() && f(s[at[k]]) == Some(
                s.filter_map(f)[k],
            ),
        forall|j: int, k: int| 0 <= j < k < at.len() ==> at[j] < at[k],
        forall|i: int| 0 <= i < s.len() && f(#[trigger] s[i]) is Some ==> at.contains(i),
    decreases s.len(),
{
    if s.len() == 0 {
        assert(s.filter_map(f) =~= Seq::<B>::empty());
        Seq::empty()
    } else {
        let n = s.len() - 1;
        let front = s.take(n);
        let at = lemma_filter_map_picks(front, f);
        s.lemma_filter_map_take_succ(f, n);
        assert(s.take(n + 1) =~= s);
        if f(s[n]) is Some {
            let all = at.push(n);
            assert forall|i: int| 0 <= i < s.len() && f(#[trigger] s[i]) is Some implies all.contains(
                i,
            ) by {
                if i < n {
                    assert(front[i] == s[i]);
                    let k = choose|k: int| 0 <= k < at.len() && at[k] == i;
                    assert(all[k] == i);
                } else {
                    assert(all[at.len() as int] == n);
                }
            }
            all
        } else {
            assert forall|i: int| 0 <= i < s.len() && f(#[trigger] s[i]) is Some implies at.contains(
                i,
            ) by {
                assert(front[i] == s[i]);
            }
            at
        }
    }
}

/// A partial map over two sequences in a row is the partial maps over each in a row.
pub proof fn lemma_filter_map_add<A, B>(a: Seq<A>, b: Seq<A>, f: spec_fn(A) -> Option<B>)
    ensures
        (a + b).filter_map(f) == a.filter_map(f) + b.filter_map(f),
    decreases b.len(),
{
    if b.len() == 0 {
        assert(a + b =~= a);
        assert(b.filter_map(f) =~= Seq::<B>::empty());
        assert(a.filter_map(f) + b.filter_map(f) =~= a.filter_map(f));
    } else {
        let n = b.len() - 1;
        let front = b.take(n);
        lemma_filter_map_add(a, front, f);
        b.lemma_filter_map_take_succ(f, n);
        (a + b).lemma_filter_map_take_succ(f, a.len() + n);
        assert(b.take(n + 1) =~= b);
        assert((a + b).take(a.len() + n + 1) =~= a + b);
        assert((a + b).take(a.len() + n) =~= a + front);
        assert((a + b).filter_map(f) =~= a.filter_map(f) + b.filter_map(f));
    }
}

/// What a reader gets of two readings in a row, the first of which met nothing that could
/// not be read, is what they give in a row.
pub proof fn lemma_readable_add<A>(a: Seq<Option<A>>, b: Seq<Option<A>>)
    requires
        forall|i: int| 0 <= i < a.len() ==> (#[trigger] a[i]) is Some,
    ensures
        readable(a + b) == readable(a) + readable(b),
    decreases a.len(),
{
    if a.len() == 0 {
        assert(a + b =~= b);
        assert(readable(a) + readable(b) =~= readable(b));
    } else {
        let rest = a.skip(1);
        assert(a[0] is Some);
        assert forall|i: int| 0 <= i < rest.len() implies (#[trigger] rest[i]) is Some by {
            assert(rest[i] == a[i + 1]);
        }
        lemma_readable_add(rest, b);
        assert((a + b).skip(1) =~= rest + b);
        assert(readable(a + b) =~= readable(a) + readable(b));
    }
}

} // verus!
