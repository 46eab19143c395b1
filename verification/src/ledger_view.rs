//! Deriving balances from the log, the way two replicas can agree on.
//!
//! A settlement may reach the log more than once: two stations may each author a
//! record for the same transaction. So a balance is a fold over the log that
//! applies each settled transaction once, however many records name it, and each
//! period of a contract once, however many charges name it.

use vstd::prelude::*;

use crate::log::{ContractCharge, LogEntry, LogRecord, SettlementRecord};
use crate::tables::{Id, Key, KeySet};
use crate::text::same_text;

verus! {

/// What makes a balance record count once: its transaction, or its contract and
/// period.
#[verifier::ext_equal]
pub enum BalanceKey {
    Settled(Seq<u8>),
    Charged(Seq<u8>, u32),
}

/// A balance record's movement: who pays whom how much, and under what key.
pub struct Movement {
    pub key: BalanceKey,
    pub payer: Seq<char>,
    pub payee: Seq<char>,
    pub amount: int,
}

/// The movement of a record; none where it moves nothing.
pub open spec fn movement(r: LogRecord) -> Option<Movement> {
    match r {
        LogRecord::Settlement(s) => Some(
            Movement {
                key: BalanceKey::Settled(s.proposal_id@),
                payer: s.sender@,
                payee: s.receiver@,
                amount: s.amount_centi as int,
            },
        ),
        LogRecord::Charge(c) => Some(
            Movement {
                key: BalanceKey::Charged(c.contract_ref@, c.period_index),
                payer: c.buyer@,
                payee: c.provider@,
                amount: c.amount_centi as int,
            },
        ),
        _ => None,
    }
}

/// Whether a movement with this key stands among the entries.
pub open spec fn moved_before(entries: Seq<LogEntry>, key: BalanceKey) -> bool {
    exists|i: int|
        0 <= i < entries.len() && (#[trigger] movement(entries[i].record)) is Some && movement(
            entries[i].record,
        )->0.key == key
}

/// The movement that an entry adds behind the entries before it: none where its
/// key has counted already.
pub open spec fn fresh_movement(before: Seq<LogEntry>, e: LogEntry) -> Option<Movement> {
    match movement(e.record) {
        Some(m) => if moved_before(before, m.key) {
            None
        } else {
            Some(m)
        },
        None => None,
    }
}

/// A number held within the range of a signed 64-bit integer.
pub open spec fn saturated(i: int) -> int {
    if i > i64::MAX {
        i64::MAX as int
    } else if i < i64::MIN {
        i64::MIN as int
    } else {
        i
    }
}

/// What a movement debits a member.
pub open spec fn debit(m: Movement, who: Seq<char>) -> int {
    if m.payer == who {
        m.amount
    } else {
        0
    }
}

/// What a movement credits a member.
pub open spec fn credit(m: Movement, who: Seq<char>) -> int {
    if m.payee == who {
        m.amount
    } else {
        0
    }
}

/// The balance of a member, held within the range of the number that carries it at
/// every step.
pub open spec fn balance(entries: Seq<LogEntry>, who: Seq<char>) -> int
    decreases entries.len(),
{
    if entries.len() == 0 {
        0
    } else {
        let before = entries.drop_last();
        match fresh_movement(before, entries.last()) {
            Some(m) => saturated(
                saturated(balance(before, who) - debit(m, who)) + credit(m, who),
            ),
            None => balance(before, who),
        }
    }
}

/// A contract's period.
#[derive(Clone, Copy, Debug, PartialEq, Eq)]
pub struct ChargeKey {
    /// The contract.
    pub contract_ref: Id,
    /// The period.
    pub period_index: u32,
}

impl View for ChargeKey {
    type V = (Seq<u8>, u32);

    open spec fn view(&self) -> (Seq<u8>, u32) {
        (self.contract_ref@, self.period_index)
    }
}

impl Key for ChargeKey {
    fn same(&self, other: &Self) -> (r: bool) {
        self.period_index == other.period_index && self.contract_ref.same(&other.contract_ref)
    }

    fn copy_key(&self) -> (r: Self) {
        *self
    }
}

fn saturating_sum(a: i64, b: i64) -> (r: i64)
    ensures
        r == saturated(a + b),
{
    match a.checked_add(b) {
        Some(v) => v,
        None => if a < 0 {
            i64::MIN
        } else {
            i64::MAX
        },
    }
}

fn saturating_difference(a: i64, b: i64) -> (r: i64)
    ensures
        r == saturated(a - b),
{
    match a.checked_sub(b) {
        Some(v) => v,
        None => if a < 0 {
            i64::MIN
        } else {
            i64::MAX
        },
    }
}

fn apply(total: i64, payer: &String, payee: &String, amount: i64, who: &String) -> (r: i64)
    ensures
        r == saturated(
            saturated(
                total - if payer@ == who@ {
                    amount as int
                } else {
                    0
                },
            ) + if payee@ == who@ {
                amount as int
            } else {
                0
            },
        ),
{
    let mut t: i64 = total;
    if same_text(payer.as_str(), who.as_str()) {
        t = saturating_difference(t, amount);
    }
    if same_text(payee.as_str(), who.as_str()) {
        t = saturating_sum(t, amount);
    }
    t
}

/// The balance of `who`, in hundredths, derived from the log's balance records,
/// settlements and contract charges. Positive is net credit, negative net debt.
pub fn balance_of(entries: &Vec<LogEntry>, who: &String) -> (r: i64)
    ensures
        r == balance(entries@, who@),
{
    let mut settled: KeySet<Id> = KeySet::new();
    let mut charged: KeySet<ChargeKey> = KeySet::new();
    let mut total: i64 = 0;
    let mut i: usize = 0;
    while i < entries.len()
        invariant
            i <= entries.len(),
            settled.wf(),
            charged.wf(),
            total == balance(entries@.take(i as int), who@),
            forall|id: Seq<u8>|
                #![trigger settled@.contains(id)]
                settled@.contains(id) <==> moved_before(
                    entries@.take(i as int),
                    BalanceKey::Settled(id),
                ),
            forall|k: (Seq<u8>, u32)|
                #![trigger charged@.contains(k)]
                charged@.contains(k) <==> moved_before(
                    entries@.take(i as int),
                    BalanceKey::Charged(k.0, k.1),
                ),
        decreases entries.len() - i,
    {
        let ghost before = entries@.take(i as int);
        let ghost after = entries@.take(i as int + 1);
        proof {
            assert(after.drop_last() =~= before);
            assert(after.last() == entries@[i as int]);
            lemma_moved_before_push(before, entries@[i as int]);
            assert(after =~= before.push(entries@[i as int]));
        }
        match &entries[i].record {
            LogRecord::Settlement(s) => {
                if settled.insert(s.proposal_id) {
                    total = apply(total, &s.sender, &s.receiver, s.amount_centi, who);
                }
            },
            LogRecord::Charge(c) => {
                let key = ChargeKey { contract_ref: c.contract_ref, period_index: c.period_index };
                if charged.insert(key) {
                    total = apply(total, &c.buyer, &c.provider, c.amount_centi, who);
                }
            },
            _ => {},
        }
        i = i + 1;
    }
    assert(entries@.take(i as int) =~= entries@);
    total
}

proof fn lemma_moved_before_push(before: Seq<LogEntry>, e: LogEntry)
    ensures
        forall|key: BalanceKey| #[trigger]
            moved_before(before.push(e), key) <==> moved_before(before, key) || (movement(
                e.record,
            ) is Some && movement(e.record)->0.key == key),
{
    let after = before.push(e);
    assert forall|key: BalanceKey| #[trigger]
        moved_before(after, key) <==> moved_before(before, key) || (movement(e.record) is Some
            && movement(e.record)->0.key == key) by {
        if moved_before(before, key) {
            let i = choose|i: int|
                0 <= i < before.len() && (#[trigger] movement(before[i].record)) is Some
                    && movement(before[i].record)->0.key == key;
            assert(movement(after[i].record) is Some);
        }
        if movement(e.record) is Some && movement(e.record)->0.key == key {
            assert(movement(after[before.len() as int].record) is Some);
        }
    }
}

/// A record whose transaction, or contract period, has counted already changes no
/// one's balance.
pub proof fn law_duplicates_are_inert(entries: Seq<LogEntry>, e: LogEntry, who: Seq<char>)
    requires
        movement(e.record) matches Some(m) ==> moved_before(entries, m.key),
    ensures
        balance(entries.push(e), who) == balance(entries, who),
{
    assert(entries.push(e).drop_last() =~= entries);
}

/// A member's balance as an unbounded number.
pub open spec fn net(entries: Seq<LogEntry>, who: Seq<char>) -> int
    decreases entries.len(),
{
    if entries.len() == 0 {
        0
    } else {
        let before = entries.drop_last();
        match fresh_movement(before, entries.last()) {
            Some(m) => net(before, who) - debit(m, who) + credit(m, who),
            None => net(before, who),
        }
    }
}

/// Whether a member's balance stays within the number that carries it at every
/// step.
pub open spec fn in_range(entries: Seq<LogEntry>, who: Seq<char>) -> bool
    decreases entries.len(),
{
    if entries.len() == 0 {
        true
    } else {
        let before = entries.drop_last();
        &&& in_range(before, who)
        &&& match fresh_movement(before, entries.last()) {
            Some(m) => {
                &&& i64::MIN <= net(before, who) - debit(m, who) <= i64::MAX
                &&& i64::MIN <= net(before, who) - debit(m, who) + credit(m, who) <= i64::MAX
            },
            None => true,
        }
    }
}

/// Where no step leaves the range, the balance is the plain sum.
pub proof fn law_balance_is_the_sum_in_range(entries: Seq<LogEntry>, who: Seq<char>)
    requires
        in_range(entries, who),
    ensures
        balance(entries, who) == net(entries, who),
    decreases entries.len(),
{
    if entries.len() > 0 {
        law_balance_is_the_sum_in_range(entries.drop_last(), who);
    }
}

/// The sum of several members' balances.
pub open spec fn sum_of(entries: Seq<LogEntry>, members: Seq<Seq<char>>) -> int
    decreases members.len(),
{
    if members.len() == 0 {
        0
    } else {
        sum_of(entries, members.drop_last()) + net(entries, members.last())
    }
}

/// The sum of what a movement does to several members.
pub open spec fn shift(m: Movement, members: Seq<Seq<char>>) -> int
    decreases members.len(),
{
    if members.len() == 0 {
        0
    } else {
        shift(m, members.drop_last()) - debit(m, members.last()) + credit(m, members.last())
    }
}

proof fn lemma_shift(m: Movement, members: Seq<Seq<char>>)
    requires
        members.no_duplicates(),
    ensures
        shift(m, members) == (if members.contains(m.payee) {
            m.amount
        } else {
            0
        }) - (if members.contains(m.payer) {
            m.amount
        } else {
            0
        }),
    decreases members.len(),
{
    if members.len() > 0 {
        let rest = members.drop_last();
        lemma_shift(m, rest);
        assert forall|x: Seq<char>| #[trigger]
            members.contains(x) <==> rest.contains(x) || x == members.last() by {
            if rest.contains(x) {
                let i = choose|i: int| 0 <= i < rest.len() && rest[i] == x;
                assert(members[i] == x);
            }
            if members.contains(x) {
                let i = choose|i: int| 0 <= i < members.len() && members[i] == x;
                if i < rest.len() {
                    assert(rest[i] == x);
                }
            }
            assert(members[members.len() - 1] == members.last());
        }
        if rest.contains(members.last()) {
            let i = choose|i: int| 0 <= i < rest.len() && rest[i] == members.last();
            assert(members[i] == members[members.len() - 1]);
        }
    }
}

proof fn lemma_sum_step(before: Seq<LogEntry>, e: LogEntry, members: Seq<Seq<char>>)
    ensures
        sum_of(before.push(e), members) == sum_of(before, members) + match fresh_movement(
            before,
            e,
        ) {
            Some(m) => shift(m, members),
            None => 0,
        },
    decreases members.len(),
{
    assert(before.push(e).drop_last() =~= before);
    if members.len() > 0 {
        lemma_sum_step(before, e, members.drop_last());
    }
}

/// Whether every party to a movement is among the members.
pub open spec fn covers(entries: Seq<LogEntry>, members: Seq<Seq<char>>) -> bool {
    forall|i: int|
        0 <= i < entries.len() && (#[trigger] movement(entries[i].record)) is Some
            ==> members.contains(movement(entries[i].record)->0.payer) && members.contains(
            movement(entries[i].record)->0.payee,
        )
}

/// Credit is mutual: over all members the sums of what each is owed and owes come to
/// zero.
pub proof fn law_credit_is_conserved(entries: Seq<LogEntry>, members: Seq<Seq<char>>)
    requires
        members.no_duplicates(),
        covers(entries, members),
    ensures
        sum_of(entries, members) == 0,
    decreases entries.len(), members.len(),
{
    if entries.len() == 0 {
        if members.len() > 0 {
            let rest = members.drop_last();
            assert(rest.no_duplicates());
            law_credit_is_conserved(entries, rest);
        }
    } else {
        let before = entries.drop_last();
        assert forall|i: int|
            0 <= i < before.len() && (#[trigger] movement(before[i].record)) is Some implies
            members.contains(movement(before[i].record)->0.payer) && members.contains(
            movement(before[i].record)->0.payee,
        ) by {
            assert(entries[i] == before[i]);
        }
        law_credit_is_conserved(before, members);
        lemma_sum_step(before, entries.last(), members);
        assert(before.push(entries.last()) =~= entries);
        match fresh_movement(before, entries.last()) {
            Some(m) => {
                assert(entries[entries.len() - 1] == entries.last());
                lemma_shift(m, members);
            },
            None => {},
        }
    }
}

/// Whether the entries with one key all make one movement.
pub open spec fn consistent(entries: Seq<LogEntry>, book: Map<BalanceKey, Movement>) -> bool {
    forall|i: int|
        0 <= i < entries.len() && (#[trigger] movement(entries[i].record)) is Some
            ==> book.dom().contains(movement(entries[i].record)->0.key) && book[movement(
            entries[i].record,
        )->0.key] == movement(entries[i].record)->0
}

/// The keys that count in the entries.
pub open spec fn keys_of(entries: Seq<LogEntry>) -> Set<BalanceKey>
    decreases entries.len(),
{
    if entries.len() == 0 {
        Set::empty()
    } else {
        match movement(entries.last().record) {
            Some(m) => keys_of(entries.drop_last()).insert(m.key),
            None => keys_of(entries.drop_last()),
        }
    }
}

spec fn worth(book: Map<BalanceKey, Movement>, who: Seq<char>) -> spec_fn(int, BalanceKey) -> int {
    |t: int, k: BalanceKey| t - debit(book[k], who) + credit(book[k], who)
}

proof fn lemma_keys(entries: Seq<LogEntry>)
    ensures
        keys_of(entries).finite(),
        forall|k: BalanceKey|
            #![trigger keys_of(entries).contains(k)]
            keys_of(entries).contains(k) <==> moved_before(entries, k),
    decreases entries.len(),
{
    if entries.len() > 0 {
        let before = entries.drop_last();
        lemma_keys(before);
        lemma_moved_before_push(before, entries.last());
        assert(before.push(entries.last()) =~= entries);
    }
}

proof fn lemma_net_is_a_set_sum(
    entries: Seq<LogEntry>,
    book: Map<BalanceKey, Movement>,
    who: Seq<char>,
)
    requires
        consistent(entries, book),
    ensures
        net(entries, who) == keys_of(entries).fold(0, worth(book, who)),
    decreases entries.len(),
{
    let f = worth(book, who);
    assert(vstd::set::fold::is_fun_commutative(f));
    if entries.len() == 0 {
        vstd::set::fold::lemma_fold_empty(0int, f);
    } else {
        let before = entries.drop_last();
        assert forall|i: int|
            0 <= i < before.len() && (#[trigger] movement(before[i].record)) is Some implies
            book.dom().contains(movement(before[i].record)->0.key) && book[movement(
            before[i].record,
        )->0.key] == movement(before[i].record)->0 by {
            assert(entries[i] == before[i]);
        }
        lemma_net_is_a_set_sum(before, book, who);
        lemma_keys(before);
        match movement(entries.last().record) {
            Some(m) => {
                assert(entries[entries.len() - 1] == entries.last());
                assert(book[m.key] == m);
                if moved_before(before, m.key) {
                    assert(keys_of(before).insert(m.key) =~= keys_of(before));
                } else {
                    vstd::set::fold::lemma_fold_insert(keys_of(before), 0int, f, m.key);
                }
            },
            None => {},
        }
    }
}

/// Two replicas agree: logs that hold the same balance records, in whatever order
/// and however often each, give every member the same sum, and the same balance where
/// no step leaves the number that carries it. `book` says what each key moves.
pub proof fn law_replicas_agree(
    a: Seq<LogEntry>,
    b: Seq<LogEntry>,
    book: Map<BalanceKey, Movement>,
    who: Seq<char>,
)
    requires
        consistent(a, book),
        consistent(b, book),
        forall|k: BalanceKey| moved_before(a, k) <==> moved_before(b, k),
    ensures
        net(a, who) == net(b, who),
        in_range(a, who) && in_range(b, who) ==> balance(a, who) == balance(b, who),
{
    if in_range(a, who) && in_range(b, who) {
        law_balance_is_the_sum_in_range(a, who);
        law_balance_is_the_sum_in_range(b, who);
    }
    lemma_net_is_a_set_sum(a, book, who);
    lemma_net_is_a_set_sum(b, book, who);
    lemma_keys(a);
    lemma_keys(b);
    assert(keys_of(a) =~= keys_of(b)) by {
        assert forall|k: BalanceKey| keys_of(a).contains(k) <==> keys_of(b).contains(k) by {
            assert(moved_before(a, k) <==> moved_before(b, k));
        }
    }
}

/// A log without entries gives everyone a balance of zero.
pub proof fn law_an_empty_log_balances_to_zero(log: &Vec<LogEntry>, who: &String, r: i64)
    requires
        log@.len() == 0,
        call_ensures(balance_of, (log, who), r),
    ensures
        r == 0,
{
}

/// A settlement of a transaction that no settlement before it names moves its amount, from
/// its sender to its receiver, and moves nothing of anyone else's; one of a transaction
/// that a settlement before it names moves nothing. `before` and `after` are a member's
/// balance without the last entry and with it. A balance that would leave the range of the
/// number that carries it stays at the end of that range.
pub proof fn law_a_settled_transaction_counts_once(
    log: &Vec<LogEntry>,
    e: LogEntry,
    s: SettlementRecord,
    longer: &Vec<LogEntry>,
    who: &String,
    before: i64,
    after: i64,
)
    requires
        e.record == LogRecord::Settlement(s),
        longer@ == log@.push(e),
        call_ensures(balance_of, (log, who), before),
        call_ensures(balance_of, (longer, who), after),
    ensures
        (exists|i: int|
            0 <= i < log@.len() && ((#[trigger] log@[i]).record matches LogRecord::Settlement(t)
                && t.proposal_id@ == s.proposal_id@)) ==> after == before,
        (forall|i: int|
            0 <= i < log@.len() ==> ((#[trigger] log@[i]).record matches LogRecord::Settlement(t)
                ==> t.proposal_id@ != s.proposal_id@)) ==> {
            let paid = before - if who@ == s.sender@ {
                s.amount_centi as int
            } else {
                0
            };
            let due = paid + if who@ == s.receiver@ {
                s.amount_centi as int
            } else {
                0
            };
            &&& i64::MIN <= paid <= i64::MAX && i64::MIN <= due <= i64::MAX ==> after == due
            &&& i64::MIN <= paid <= i64::MAX && due > i64::MAX ==> after == i64::MAX
            &&& i64::MIN <= paid <= i64::MAX && due < i64::MIN ==> after == i64::MIN
            &&& who@ != s.receiver@ && paid > i64::MAX ==> after == i64::MAX
            &&& who@ != s.receiver@ && paid < i64::MIN ==> after == i64::MIN
        },
{
    assert(longer@.drop_last() =~= log@);
    let key = BalanceKey::Settled(s.proposal_id@);
    if exists|i: int|
        0 <= i < log@.len() && ((#[trigger] log@[i]).record matches LogRecord::Settlement(t)
            && t.proposal_id@ == s.proposal_id@) {
        let i = choose|i: int|
            0 <= i < log@.len() && ((#[trigger] log@[i]).record matches LogRecord::Settlement(t)
                && t.proposal_id@ == s.proposal_id@);
        assert(movement(log@[i].record)->0.key == key);
        assert(moved_before(log@, key));
    }
    if forall|i: int|
        0 <= i < log@.len() ==> ((#[trigger] log@[i]).record matches LogRecord::Settlement(t)
            ==> t.proposal_id@ != s.proposal_id@) {
        assert(!moved_before(log@, key));
    }
}

/// A charge of a contract's period that no charge before it names moves its amount, from
/// the buyer to the provider, and moves nothing of anyone else's; one of a period that a
/// charge before it names moves nothing.
pub proof fn law_a_charged_period_counts_once(
    log: &Vec<LogEntry>,
    e: LogEntry,
    c: ContractCharge,
    longer: &Vec<LogEntry>,
    who: &String,
    before: i64,
    after: i64,
)
    requires
        e.record == LogRecord::Charge(c),
        longer@ == log@.push(e),
        call_ensures(balance_of, (log, who), before),
        call_ensures(balance_of, (longer, who), after),
    ensures
        (exists|i: int|
            0 <= i < log@.len() && ((#[trigger] log@[i]).record matches LogRecord::Charge(d)
                && d.contract_ref@ == c.contract_ref@ && d.period_index == c.period_index))
            ==> after == before,
        (forall|i: int|
            0 <= i < log@.len() ==> ((#[trigger] log@[i]).record matches LogRecord::Charge(d)
                ==> d.contract_ref@ != c.contract_ref@ || d.period_index != c.period_index)) ==> {
            let paid = before - if who@ == c.buyer@ {
                c.amount_centi as int
            } else {
                0
            };
            let due = paid + if who@ == c.provider@ {
                c.amount_centi as int
            } else {
                0
            };
            &&& i64::MIN <= paid <= i64::MAX && i64::MIN <= due <= i64::MAX ==> after == due
            &&& i64::MIN <= paid <= i64::MAX && due > i64::MAX ==> after == i64::MAX
            &&& i64::MIN <= paid <= i64::MAX && due < i64::MIN ==> after == i64::MIN
            &&& who@ != c.provider@ && paid > i64::MAX ==> after == i64::MAX
            &&& who@ != c.provider@ && paid < i64::MIN ==> after == i64::MIN
        },
{
    assert(longer@.drop_last() =~= log@);
    let key = BalanceKey::Charged(c.contract_ref@, c.period_index);
    if exists|i: int|
        0 <= i < log@.len() && ((#[trigger] log@[i]).record matches LogRecord::Charge(d)
            && d.contract_ref@ == c.contract_ref@ && d.period_index == c.period_index) {
        let i = choose|i: int|
            0 <= i < log@.len() && ((#[trigger] log@[i]).record matches LogRecord::Charge(d)
                && d.contract_ref@ == c.contract_ref@ && d.period_index == c.period_index);
        assert(movement(log@[i].record)->0.key == key);
        assert(moved_before(log@, key));
    }
    if forall|i: int|
        0 <= i < log@.len() ==> ((#[trigger] log@[i]).record matches LogRecord::Charge(d)
            ==> d.contract_ref@ != c.contract_ref@ || d.period_index != c.period_index) {
        assert(!moved_before(log@, key));
    }
}

/// Every other record leaves every balance as it was.
pub proof fn law_other_records_move_nothing(
    log: &Vec<LogEntry>,
    e: LogEntry,
    longer: &Vec<LogEntry>,
    who: &String,
    before: i64,
    after: i64,
)
    requires
        !(e.record is Settlement),
        !(e.record is Charge),
        longer@ == log@.push(e),
        call_ensures(balance_of, (log, who), before),
        call_ensures(balance_of, (longer, who), after),
    ensures
        after == before,
{
    assert(longer@.drop_last() =~= log@);
}

/// The unbounded balance moves in the same way: a settlement of a transaction that no
/// settlement before it names moves its amount.
pub proof fn law_a_new_settlement_moves_its_amount(
    entries: Seq<LogEntry>,
    e: LogEntry,
    s: SettlementRecord,
    who: Seq<char>,
)
    requires
        e.record == LogRecord::Settlement(s),
        forall|i: int|
            0 <= i < entries.len() ==> ((#[trigger] entries[i]).record matches LogRecord::Settlement(
                t,
            ) ==> t.proposal_id@ != s.proposal_id@),
    ensures
        net(entries.push(e), who) == net(entries, who) - (if who == s.sender@ {
            s.amount_centi as int
        } else {
            0
        }) + (if who == s.receiver@ {
            s.amount_centi as int
        } else {
            0
        }),
{
    assert(entries.push(e).drop_last() =~= entries);
    assert(!moved_before(entries, BalanceKey::Settled(s.proposal_id@)));
}

/// A charge of a contract's period that no charge before it names moves its amount.
pub proof fn law_a_new_charge_moves_its_amount(
    entries: Seq<LogEntry>,
    e: LogEntry,
    c: ContractCharge,
    who: Seq<char>,
)
    requires
        e.record == LogRecord::Charge(c),
        forall|i: int|
            0 <= i < entries.len() ==> ((#[trigger] entries[i]).record matches LogRecord::Charge(d)
                ==> d.contract_ref@ != c.contract_ref@ || d.period_index != c.period_index),
    ensures
        net(entries.push(e), who) == net(entries, who) - (if who == c.buyer@ {
            c.amount_centi as int
        } else {
            0
        }) + (if who == c.provider@ {
            c.amount_centi as int
        } else {
            0
        }),
{
    assert(entries.push(e).drop_last() =~= entries);
    assert(!moved_before(entries, BalanceKey::Charged(c.contract_ref@, c.period_index)));
}

} // verus!
