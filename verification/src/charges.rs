//! Charging service contracts: which periods the ledger has billed, and the sweep that
//! bills what is due and levies the penalty of an early end.
//!
//! The buyer's one signature authorised every period, so the station signs the
//! charges. What the ledger has billed is read back from the ledger, so a sweep that
//! runs again comes to the same verdict.

use vstd::prelude::*;
use vstd::set_lib::*;

use crate::ledger_view::ChargeKey;
use crate::log::{ContractCharge, LogEntry, LogRecord};
use crate::market::TerminatedBy;
use crate::tables::{Id, Key, KeySet};

verus! {

/// The period index that a contract's early-termination penalty rides on: past any real
/// period, so that it neither counts as one nor collides with one.
pub const PENALTY_PERIOD_INDEX: u32 = 0xffff_ffff;

/// The contract periods that the entries charge. Entries that cannot be read are passed
/// over.
pub open spec fn charged_in(read: Seq<Option<LogEntry>>) -> Set<(Seq<u8>, u32)>
    decreases read.len(),
{
    if read.len() == 0 {
        Set::empty()
    } else {
        let before = charged_in(read.drop_last());
        match read.last() {
            Some(e) => match e.record {
                LogRecord::Charge(c) => before.insert((c.contract_ref@, c.period_index)),
                _ => before,
            },
            None => before,
        }
    }
}

/// The contract periods that the log has charged, in one pass.
pub fn charged_periods_by_contract(read: &Vec<Option<LogEntry>>) -> (r: KeySet<ChargeKey>)
    ensures
        r.wf(),
        r@ == charged_in(read@),
{
    let mut out: KeySet<ChargeKey> = KeySet::new();
    let mut i: usize = 0;
    while i < read.len()
        invariant
            i <= read.len(),
            out.wf(),
            out@ == charged_in(read@.take(i as int)),
        decreases read.len() - i,
    {
        assert(read@.take(i as int + 1).drop_last() =~= read@.take(i as int));
        match &read[i] {
            Some(e) => match &e.record {
                LogRecord::Charge(c) => {
                    let _ = out.insert(
                        ChargeKey { contract_ref: c.contract_ref, period_index: c.period_index },
                    );
                },
                _ => {},
            },
            None => {},
        }
        i = i + 1;
    }
    assert(read@.take(i as int) =~= read@);
    out
}

/// The real periods of a contract among the charged ones.
pub open spec fn real_periods(
    charged: Set<(Seq<u8>, u32)>,
    id: Seq<u8>,
    total: u32,
) -> Set<(Seq<u8>, u32)> {
    charged.filter(|k: (Seq<u8>, u32)| k.0 == id && k.1 < total)
}

/// How many real periods a contract has been charged.
pub open spec fn periods_charged(charged: Set<(Seq<u8>, u32)>, id: Seq<u8>, total: u32) -> nat {
    real_periods(charged, id, total).len()
}

/// No contract counts as charged for more periods than were agreed.
pub proof fn law_no_more_periods_than_agreed(charged: Set<(Seq<u8>, u32)>, id: Seq<u8>, total: u32)
    requires
        charged.finite(),
    ensures
        real_periods(charged, id, total).finite(),
        periods_charged(charged, id, total) <= total,
{
    let s = real_periods(charged, id, total);
    charged.lemma_len_filter(|k: (Seq<u8>, u32)| k.0 == id && k.1 < total);
    let f = |k: (Seq<u8>, u32)| k.1 as int;
    let image = s.map(f);
    let range = set_int_range(0, total as int);
    lemma_int_range(0, total as int);
    assert(injective_on_set(s, f));
    lemma_map_size(s, image, f);
    assert(image.subset_of(range));
    lemma_len_subset(image, range);
}

spec fn injective_on_set(s: Set<(Seq<u8>, u32)>, f: spec_fn((Seq<u8>, u32)) -> int) -> bool {
    forall|a: (Seq<u8>, u32), b: (Seq<u8>, u32)|
        s.contains(a) && s.contains(b) && f(a) == f(b) ==> a == b
}

proof fn lemma_map_size(
    s: Set<(Seq<u8>, u32)>,
    image: Set<int>,
    f: spec_fn((Seq<u8>, u32)) -> int,
)
    requires
        s.finite(),
        injective_on_set(s, f),
        image == s.map(f),
    ensures
        image.finite(),
        image.len() == s.len(),
    decreases s.len(),
{
    if s.len() == 0 {
        assert(image =~= Set::empty());
    } else {
        let x = s.choose();
        let rest = s.remove(x);
        lemma_map_size(rest, rest.map(f), f);
        assert(image =~= rest.map(f).insert(f(x))) by {
            assert forall|y: int| image.contains(y) implies rest.map(f).insert(f(x)).contains(
                y,
            ) by {
                let k = choose|k: (Seq<u8>, u32)| s.contains(k) && y == f(k);
                if k != x {
                    assert(rest.contains(k));
                }
            }
            assert forall|y: int| rest.map(f).insert(f(x)).contains(y) implies image.contains(
                y,
            ) by {
                if rest.map(f).contains(y) {
                    let k = choose|k: (Seq<u8>, u32)| rest.contains(k) && y == f(k);
                    assert(s.contains(k));
                }
            }
        }
        assert(!rest.map(f).contains(f(x))) by {
            if rest.map(f).contains(f(x)) {
                let k = choose|k: (Seq<u8>, u32)| rest.contains(k) && f(x) == f(k);
                assert(s.contains(k) && s.contains(x));
            }
        }
    }
}

/// How many real periods a contract has been charged. The penalty's index is left out,
/// so it never counts as a period.
pub fn periods_charged_of(charged: &KeySet<ChargeKey>, id: &Id, total: u32) -> (r: u32)
    requires
        charged.wf(),
    ensures
        r == periods_charged(charged@, id@, total),
        r <= total,
{
    let n: usize = charged.len();
    let ghost keys = charged.keys();
    let mut count: u32 = 0;
    let mut i: usize = 0;
    assert(real_periods(keys.take(0).to_set(), id@, total) =~= Set::empty());
    while i < n
        invariant
            i <= n,
            n == keys.len(),
            keys == charged.keys(),
            keys.no_duplicates(),
            count == periods_charged(keys.take(i as int).to_set(), id@, total),
        decreases n - i,
    {
        let key = charged.key_at(i);
        let ghost seen = keys.take(i as int).to_set();
        let ghost more = keys.take(i as int + 1).to_set();
        proof {
            let k = keys[i as int];
            let taken = keys.take(i as int);
            let longer = keys.take(i as int + 1);
            assert(longer =~= taken.push(k));
            assert forall|x: (Seq<u8>, u32)| longer.contains(x) <==> taken.contains(x) || x == k by {
                if taken.contains(x) {
                    let j = choose|j: int| 0 <= j < taken.len() && taken[j] == x;
                    assert(longer[j] == x);
                }
                assert(longer[i as int] == k);
            }
            assert(more =~= seen.insert(k));
            assert(!seen.contains(k)) by {
                if taken.contains(k) {
                    let j = choose|j: int| 0 <= j < taken.len() && taken[j] == k;
                    assert(keys[j] == keys[i as int]);
                }
            }
            taken.unique_seq_to_set();
            longer.unique_seq_to_set();
            law_no_more_periods_than_agreed(seen, id@, total);
            law_no_more_periods_than_agreed(more, id@, total);
            if k.0 == id@ && k.1 < total {
                assert(real_periods(more, id@, total) =~= real_periods(seen, id@, total).insert(
                    k,
                ));
            } else {
                assert(real_periods(more, id@, total) =~= real_periods(seen, id@, total));
            }
        }
        if key.contract_ref.same(id) && key.period_index < total {
            count = count + 1;
        }
        i = i + 1;
    }
    proof {
        assert(keys.take(n as int) =~= keys);
        charged.lemma_keys();
        law_no_more_periods_than_agreed(charged@, id@, total);
    }
    count
}

/// The penalty of an early end is no period, however long the contract.
pub proof fn law_the_penalty_is_no_period(
    charged: Set<(Seq<u8>, u32)>,
    id: Seq<u8>,
    total: u32,
)
    ensures
        periods_charged(charged.insert((id, PENALTY_PERIOD_INDEX)), id, total) == periods_charged(
            charged,
            id,
            total,
        ),
{
    assert(real_periods(charged.insert((id, PENALTY_PERIOD_INDEX)), id, total) =~= real_periods(
        charged,
        id,
        total,
    ));
}

/// A contract, with what the sweep reads of it.
#[derive(Clone, Debug, PartialEq, Eq)]
pub struct ContractRecords {
    /// The contract.
    pub id: Id,
    /// Who buys.
    pub buyer: String,
    /// Who provides.
    pub provider: String,
    /// How many periods it has.
    pub total_periods: u32,
    /// The price of a period, in hundredths.
    pub commons_per_period_centi: i64,
    /// What ending it early costs, in hundredths.
    pub early_termination_penalty_centi: i64,
}

/// What the sweep waits for.
#[derive(Clone, Copy, Debug, PartialEq, Eq, Structural)]
pub enum ChargePhase {
    /// Which period of the contract is due next, if one is.
    AskDue,
    /// Whether the charge of a period was appended.
    Charging,
    /// Whether the contract ended early, and by whose doing.
    AskEnd,
    /// Whether the charge of the penalty was appended.
    Penalizing,
    /// Nothing: every contract is done.
    Done,
}

/// What an action brought.
#[derive(Clone, Copy, Debug, PartialEq, Eq, Structural)]
pub enum ChargeEvent {
    /// The period that is due next, if one is.
    Due(Option<u32>),
    /// Whether the charge was appended.
    Appended(bool),
    /// Who ended the contract before its time, once its notice is over; nothing where
    /// it did not end so.
    EndedEarly(Option<TerminatedBy>),
}

/// What to do next.
#[derive(Clone, Debug, PartialEq, Eq)]
pub enum ChargeTodo {
    /// Ask which period of the current contract is due, given how many were charged.
    AskDue {
        /// How many were charged.
        periods_charged: u32,
    },
    /// Ask whether the current contract ended early.
    AskEnd {
        /// How many periods were charged.
        periods_charged: u32,
    },
    /// Append this charge.
    Append(ContractCharge),
    /// Every contract is done.
    Finish,
}

/// A sweep over the contracts.
pub struct ChargeSweep {
    contracts: Vec<ContractRecords>,
    charged: KeySet<ChargeKey>,
    at: usize,
    periods: u32,
    phase: ChargePhase,
    appended: usize,
    now: i64,
}

/// Who pays for an early end: the side that ended the contract. A negative amount moves
/// from the provider to the buyer.
pub open spec fn penalty_amount(penalty: i64, by: TerminatedBy) -> int {
    match by {
        TerminatedBy::Buyer => penalty as int,
        TerminatedBy::Provider => -penalty,
    }
}

/// The charge of a contract.
pub open spec fn charge_of(c: ContractRecords, amount: int, period: u32, now: i64) -> ContractCharge {
    ContractCharge {
        contract_ref: c.id,
        buyer: c.buyer,
        provider: c.provider,
        amount_centi: amount as i64,
        period_index: period,
        charged_at: now,
    }
}

fn make_charge(c: &ContractRecords, amount_centi: i64, period_index: u32, now: i64) -> (r:
    ContractCharge)
    ensures
        r == charge_of(*c, amount_centi as int, period_index, now),
{
    ContractCharge {
        contract_ref: c.id,
        buyer: c.buyer.clone(),
        provider: c.provider.clone(),
        amount_centi,
        period_index,
        charged_at: now,
    }
}

impl ChargeSweep {
    /// The contracts.
    pub closed spec fn book(&self) -> Seq<ContractRecords> {
        self.contracts@
    }

    /// The periods that the ledger had charged when the sweep began.
    pub closed spec fn billed(&self) -> Set<(Seq<u8>, u32)> {
        self.charged@
    }

    /// The current contract's place.
    pub closed spec fn place(&self) -> nat {
        self.at as nat
    }

    /// How many periods of the current contract have been charged.
    pub closed spec fn periods(&self) -> u32 {
        self.periods
    }

    /// What the sweep waits for.
    pub closed spec fn waits_for(&self) -> ChargePhase {
        self.phase
    }

    /// How many charges were appended.
    pub closed spec fn count(&self) -> nat {
        self.appended as nat
    }

    /// When the sweep runs.
    pub closed spec fn time(&self) -> i64 {
        self.now
    }

    /// The current contract.
    pub open spec fn contract(&self) -> ContractRecords {
        self.book()[self.place() as int]
    }

    /// The place lies within the book until the sweep is done.
    pub closed spec fn wf(&self) -> bool {
        &&& self.charged.wf()
        &&& self.at <= self.contracts@.len()
        &&& (self.phase == ChargePhase::Done <==> self.at == self.contracts@.len())
        &&& self.phase == ChargePhase::AskEnd
            ==> self.contracts@[self.at as int].early_termination_penalty_centi > 0
    }

    /// Whether the current contract's penalty may still be levied: it has one, and the
    /// ledger has not charged it.
    pub open spec fn penalty_open(&self) -> bool {
        &&& self.contract().early_termination_penalty_centi > 0
        &&& !self.billed().contains((self.contract().id@, PENALTY_PERIOD_INDEX))
    }

    /// The same sweep, over the same contracts, at the same time.
    pub open spec fn same_sweep(&self, other: &ChargeSweep) -> bool {
        &&& self.book() == other.book()
        &&& self.billed() == other.billed()
        &&& self.time() == other.time()
    }

    /// What standing at the start of the contract at a place means.
    pub open spec fn starts_at(&self, place: nat, r: ChargeTodo) -> bool {
        &&& self.place() == place
        &&& if place < self.book().len() {
            &&& self.waits_for() == ChargePhase::AskDue
            &&& self.periods() == periods_charged(
                self.billed(),
                self.book()[place as int].id@,
                self.book()[place as int].total_periods,
            )
            &&& r == ChargeTodo::AskDue { periods_charged: self.periods() }
        } else {
            &&& self.waits_for() == ChargePhase::Done
            &&& r == ChargeTodo::Finish
        }
    }

    /// What leaving the periods of the current contract means: its penalty is looked
    /// into where it may still be levied, and otherwise the next contract follows.
    pub open spec fn leaves_periods(&self, before: &ChargeSweep, r: ChargeTodo) -> bool {
        if before.penalty_open() {
            &&& self.place() == before.place()
            &&& self.waits_for() == ChargePhase::AskEnd
            &&& self.periods() == before.periods()
            &&& r == ChargeTodo::AskEnd { periods_charged: self.periods() }
        } else {
            self.starts_at(before.place() + 1, r)
        }
    }

    /// Begins a sweep over the contracts, given the periods that the ledger has charged.
    pub fn begin(contracts: Vec<ContractRecords>, charged: KeySet<ChargeKey>, now: i64) -> (r: (
        Self,
        ChargeTodo,
    ))
        requires
            charged.wf(),
        ensures
            r.0.wf(),
            r.0.book() == contracts@,
            r.0.billed() == charged@,
            r.0.time() == now,
            r.0.count() == 0,
            r.0.starts_at(0, r.1),
    {
        let mut sweep = ChargeSweep {
            contracts,
            charged,
            at: 0,
            periods: 0,
            phase: ChargePhase::Done,
            appended: 0,
            now,
        };
        let todo = sweep.start_contract();
        (sweep, todo)
    }

    fn start_contract(&mut self) -> (r: ChargeTodo)
        requires
            old(self).charged.wf(),
            old(self).at <= old(self).contracts@.len(),
        ensures
            final(self).wf(),
            final(self).same_sweep(old(self)),
            final(self).count() == old(self).count(),
            final(self).starts_at(old(self).at as nat, r),
    {
        if self.at < self.contracts.len() {
            let c = &self.contracts[self.at];
            let periods: u32 = periods_charged_of(&self.charged, &c.id, c.total_periods);
            self.periods = periods;
            self.phase = ChargePhase::AskDue;
            ChargeTodo::AskDue { periods_charged: periods }
        } else {
            self.phase = ChargePhase::Done;
            ChargeTodo::Finish
        }
    }

    fn leave_periods(&mut self) -> (r: ChargeTodo)
        requires
            old(self).charged.wf(),
            old(self).at < old(self).contracts@.len(),
        ensures
            final(self).wf(),
            final(self).same_sweep(old(self)),
            final(self).count() == old(self).count(),
            final(self).leaves_periods(old(self), r),
    {
        let penalty: i64 = self.contracts[self.at].early_termination_penalty_centi;
        let key = ChargeKey {
            contract_ref: self.contracts[self.at].id,
            period_index: PENALTY_PERIOD_INDEX,
        };
        if penalty > 0 && !self.charged.contains(&key) {
            self.phase = ChargePhase::AskEnd;
            ChargeTodo::AskEnd { periods_charged: self.periods }
        } else {
            assert(self.at < self.contracts.len());
            self.at = self.at + 1;
            self.start_contract()
        }
    }

    /// The contract that the next answer is about.
    pub fn current(&self) -> (r: &ContractRecords)
        requires
            self.wf(),
            self.waits_for() != ChargePhase::Done,
        ensures
            *r == self.contract(),
    {
        &self.contracts[self.at]
    }

    /// What taking what the last action brought means.
    pub open spec fn follows(&self, before: &ChargeSweep, event: ChargeEvent, r: ChargeTodo) -> bool {
        match (before.waits_for(), event) {
            (ChargePhase::AskDue, ChargeEvent::Due(Some(index))) => {
                &&& self.place() == before.place()
                &&& self.periods() == before.periods()
                &&& self.waits_for() == ChargePhase::Charging
                &&& r == ChargeTodo::Append(
                    charge_of(
                        before.contract(),
                        before.contract().commons_per_period_centi as int,
                        index,
                        before.time(),
                    ),
                )
            },
            (ChargePhase::AskDue, _) => self.leaves_periods(before, r),
            (ChargePhase::Charging, ChargeEvent::Appended(true)) => {
                &&& self.place() == before.place()
                &&& self.periods() == before.periods() + 1
                &&& self.waits_for() == ChargePhase::AskDue
                &&& r == ChargeTodo::AskDue { periods_charged: self.periods() }
            },
            (ChargePhase::Charging, _) => self.leaves_periods(before, r),
            (ChargePhase::AskEnd, ChargeEvent::EndedEarly(Some(by))) => {
                &&& self.place() == before.place()
                &&& self.periods() == before.periods()
                &&& self.waits_for() == ChargePhase::Penalizing
                &&& r == ChargeTodo::Append(
                    charge_of(
                        before.contract(),
                        penalty_amount(before.contract().early_termination_penalty_centi, by),
                        PENALTY_PERIOD_INDEX,
                        before.time(),
                    ),
                )
            },
            (_, _) => self.starts_at(before.place() + 1, r),
        }
    }

    /// Takes what the last action brought and says what to do next. Every due period is
    /// charged until none is due or a charge does not land; then, once, an early end is
    /// charged to the side that brought it about.
    pub fn feed(&mut self, event: ChargeEvent) -> (r: ChargeTodo)
        requires
            old(self).wf(),
            old(self).count() < usize::MAX,
            match old(self).waits_for() {
                ChargePhase::AskDue => event is Due,
                ChargePhase::Charging => event is Appended && old(self).periods() < u32::MAX,
                ChargePhase::AskEnd => event is EndedEarly,
                ChargePhase::Penalizing => event is Appended,
                ChargePhase::Done => false,
            },
        ensures
            final(self).wf(),
            final(self).same_sweep(old(self)),
            final(self).count() == old(self).count() + (if event
                == ChargeEvent::Appended(true) {
                1int
            } else {
                0
            }),
            final(self).follows(old(self), event, r),
            final(self).place() == old(self).place() || final(self).place() == old(self).place()
                + 1,
            r is Finish <==> final(self).place() == final(self).book().len(),
    {
        assert(self.at < self.contracts.len());
        match event {
            ChargeEvent::Due(due) => match due {
                Some(index) => {
                    self.phase = ChargePhase::Charging;
                    let c = &self.contracts[self.at];
                    ChargeTodo::Append(
                        make_charge(c, c.commons_per_period_centi, index, self.now),
                    )
                },
                None => self.leave_periods(),
            },
            ChargeEvent::Appended(landed) => {
                if landed {
                    self.appended = self.appended + 1;
                }
                match self.phase {
                    ChargePhase::Charging => if landed {
                        self.periods = self.periods + 1;
                        self.phase = ChargePhase::AskDue;
                        ChargeTodo::AskDue { periods_charged: self.periods }
                    } else {
                        self.leave_periods()
                    },
                    _ => {
                        self.at = self.at + 1;
                        self.start_contract()
                    },
                }
            },
            ChargeEvent::EndedEarly(ended) => match ended {
                Some(by) => {
                    self.phase = ChargePhase::Penalizing;
                    let c = &self.contracts[self.at];
                    let penalty: i64 = c.early_termination_penalty_centi;
                    let amount: i64 = match by {
                        TerminatedBy::Buyer => penalty,
                        TerminatedBy::Provider => -penalty,
                    };
                    ChargeTodo::Append(make_charge(c, amount, PENALTY_PERIOD_INDEX, self.now))
                },
                None => {
                    self.at = self.at + 1;
                    self.start_contract()
                },
            },
        }
    }

    /// How many charges were appended.
    pub fn appended(&self) -> (r: usize)
        ensures
            r == self.count(),
    {
        self.appended
    }
}

/// The penalty is levied once: where the ledger has charged it, or where there is none,
/// the sweep goes on to the next contract without asking.
pub proof fn law_the_penalty_is_levied_once(
    before: ChargeSweep,
    after: ChargeSweep,
    r: ChargeTodo,
)
    requires
        after.leaves_periods(&before, r),
        before.billed().contains((before.contract().id@, PENALTY_PERIOD_INDEX)),
    ensures
        after.starts_at(before.place() + 1, r),
{
}

/// A sweep from its start on: the sweeps it went through, what each said to do, and the
/// events that took it from each to the next.
pub struct SweepRun {
    /// The sweeps.
    pub states: Seq<ChargeSweep>,
    /// What to do in each.
    pub todos: Seq<ChargeTodo>,
    /// What it brought.
    pub events: Seq<ChargeEvent>,
}

impl SweepRun {
    /// The first sweep is what `begin` gave, and every other is what `feed` made of the one
    /// before it, given the answer that it waited for.
    pub open spec fn valid(
        &self,
        contracts: Vec<ContractRecords>,
        charged: KeySet<ChargeKey>,
        now: i64,
    ) -> bool {
        &&& self.states.len() == self.events.len() + 1
        &&& self.todos.len() == self.states.len()
        &&& call_ensures(
            ChargeSweep::begin,
            (contracts, charged, now),
            (self.states[0], self.todos[0]),
        )
        &&& forall|i: int|
            0 <= i < self.events.len() ==> {
                let before = #[trigger] self.states[i];
                let after = self.states[i + 1];
                &&& match before.waits_for() {
                    ChargePhase::AskDue => self.events[i] is Due,
                    ChargePhase::Charging => self.events[i] is Appended,
                    ChargePhase::AskEnd => self.events[i] is EndedEarly,
                    ChargePhase::Penalizing => self.events[i] is Appended,
                    ChargePhase::Done => false,
                }
                &&& after.wf()
                &&& after.same_sweep(&before)
                &&& after.count() == before.count() + (if self.events[i]
                    == ChargeEvent::Appended(true) {
                    1int
                } else {
                    0
                })
                &&& after.follows(&before, self.events[i], self.todos[i + 1])
            }
    }
}

proof fn lemma_sweep_keeps(
    run: SweepRun,
    contracts: Vec<ContractRecords>,
    charged: KeySet<ChargeKey>,
    now: i64,
    j: int,
)
    requires
        run.valid(contracts, charged, now),
        0 <= j < run.states.len(),
    ensures
        run.states[j].wf(),
        run.states[j].book() == contracts@,
        run.states[j].billed() == charged@,
        run.states[j].time() == now,
        run.todos[j] is Finish <==> run.states[j].waits_for() == ChargePhase::Done,
        run.todos[j] is AskDue <==> run.states[j].waits_for() == ChargePhase::AskDue,
        run.todos[j] is AskEnd <==> run.states[j].waits_for() == ChargePhase::AskEnd,
        run.todos[j] is Append <==> run.states[j].waits_for() == ChargePhase::Charging
            || run.states[j].waits_for() == ChargePhase::Penalizing,
    decreases j,
{
    if j > 0 {
        lemma_sweep_keeps(run, contracts, charged, now, j - 1);
        assert(run.states[j - 1 + 1].follows(
            &run.states[j - 1],
            run.events[j - 1],
            run.todos[j - 1 + 1],
        ));
    }
}

proof fn lemma_sweep_asks(
    run: SweepRun,
    contracts: Vec<ContractRecords>,
    charged: KeySet<ChargeKey>,
    now: i64,
    j: int,
    i: int,
) -> (at: int)
    requires
        run.valid(contracts, charged, now),
        0 <= j < run.states.len(),
        0 <= i < contracts@.len(),
        i <= run.states[j].place(),
    ensures
        0 <= at <= j,
        run.todos[at] is AskDue,
        run.states[at].place() == i,
        run.todos[at]->AskDue_periods_charged == periods_charged(
            charged@,
            contracts@[i].id@,
            contracts@[i].total_periods,
        ),
        at == 0 || run.states[at - 1].place() < i,
    decreases j,
{
    lemma_sweep_keeps(run, contracts, charged, now, j);
    if j == 0 {
        0
    } else {
        lemma_sweep_keeps(run, contracts, charged, now, j - 1);
        assert(run.states[j - 1 + 1].follows(
            &run.states[j - 1],
            run.events[j - 1],
            run.todos[j - 1 + 1],
        ));
        if i <= run.states[j - 1].place() {
            lemma_sweep_asks(run, contracts, charged, now, j - 1, i)
        } else {
            j
        }
    }
}

/// A sweep that has finished asked of every contract which of its periods is due, each with
/// how many of its real periods the ledger had charged, and took them in the order of the
/// book. The result is the moment at which it came to the contract at a place: what
/// `current` gives then is that contract.
pub proof fn law_a_sweep_asks_about_every_contract(
    run: SweepRun,
    contracts: Vec<ContractRecords>,
    charged: KeySet<ChargeKey>,
    now: i64,
    i: int,
) -> (at: int)
    requires
        run.valid(contracts, charged, now),
        run.todos.last() is Finish,
        0 <= i < contracts@.len(),
    ensures
        0 <= at < run.todos.len(),
        run.todos[at] is AskDue,
        run.todos[at]->AskDue_periods_charged == charged@.filter(
            |k: (Seq<u8>, u32)| k.0 == contracts@[i].id@ && k.1 < contracts@[i].total_periods,
        ).len(),
        forall|c: &ContractRecords|
            call_ensures(ChargeSweep::current, (&run.states[at],), c) ==> *c == contracts@[i],
        forall|j: int| 0 <= j < at ==> (#[trigger] run.states[j]).place() < i,
{
    let n = run.states.len() - 1;
    lemma_sweep_keeps(run, contracts, charged, now, n);
    let at = lemma_sweep_asks(run, contracts, charged, now, n, i);
    lemma_sweep_keeps(run, contracts, charged, now, at);
    assert forall|j: int| 0 <= j < at implies (#[trigger] run.states[j]).place() < i by {
        lemma_places_ascend(run, contracts, charged, now, j, at - 1);
    }
    at
}

proof fn lemma_places_ascend(
    run: SweepRun,
    contracts: Vec<ContractRecords>,
    charged: KeySet<ChargeKey>,
    now: i64,
    j: int,
    k: int,
)
    requires
        run.valid(contracts, charged, now),
        0 <= j <= k < run.states.len(),
    ensures
        run.states[j].place() <= run.states[k].place(),
    decreases k,
{
    if j < k {
        lemma_places_ascend(run, contracts, charged, now, j, k - 1);
        assert(run.states[k - 1 + 1].follows(
            &run.states[k - 1],
            run.events[k - 1],
            run.todos[k - 1 + 1],
        ));
    }
}

/// A sweep goes from one contract to the next, never past one: every step stays with the
/// contract or goes on to the one behind it, and the sweep finishes behind the last.
pub proof fn law_a_sweep_passes_over_no_contract(
    run: SweepRun,
    contracts: Vec<ContractRecords>,
    charged: KeySet<ChargeKey>,
    now: i64,
    j: int,
)
    requires
        run.valid(contracts, charged, now),
        0 <= j < run.events.len(),
    ensures
        run.states[0].place() == 0,
        run.states[j + 1].place() == run.states[j].place() || run.states[j + 1].place()
            == run.states[j].place() + 1,
        run.todos[j + 1] is Finish <==> run.states[j + 1].place() == contracts@.len(),
{
    lemma_sweep_keeps(run, contracts, charged, now, j);
    lemma_sweep_keeps(run, contracts, charged, now, j + 1);
    assert(run.states[j + 1].follows(&run.states[j], run.events[j], run.todos[j + 1]));
}

/// Every due period is billed: once a period of a contract is due, the sweep appends a
/// charge of that contract's price for that period, from its buyer to its provider; once
/// that has landed it asks the same contract again, with one more period charged.
pub proof fn law_a_due_period_is_billed(
    run: SweepRun,
    contracts: Vec<ContractRecords>,
    charged: KeySet<ChargeKey>,
    now: i64,
    j: int,
    i: int,
    period: u32,
)
    requires
        run.valid(contracts, charged, now),
        0 <= j < run.events.len(),
        run.states[j].place() == i,
        run.events[j] == ChargeEvent::Due(Some(period)),
    ensures
        0 <= i < contracts@.len(),
        run.todos[j + 1] matches ChargeTodo::Append(c) && {
            &&& c.contract_ref == contracts@[i].id
            &&& c.buyer@ == contracts@[i].buyer@
            &&& c.provider@ == contracts@[i].provider@
            &&& c.amount_centi == contracts@[i].commons_per_period_centi
            &&& c.period_index == period
            &&& c.charged_at == now
        },
        j + 1 < run.events.len() && run.events[j + 1] == ChargeEvent::Appended(true) ==> {
            &&& run.states[j + 2].place() == i
            &&& run.states[j + 2].count() == run.states[j].count() + 1
            &&& run.todos[j] is AskDue
            &&& run.todos[j + 2] == (ChargeTodo::AskDue {
                periods_charged: (run.todos[j]->AskDue_periods_charged + 1) as u32,
            })
        },
{
    lemma_sweep_keeps(run, contracts, charged, now, j);
    lemma_sweep_keeps(run, contracts, charged, now, j + 1);
    lemma_asked_periods(run, contracts, charged, now, j);
    assert(run.states[j + 1].follows(&run.states[j], run.events[j], run.todos[j + 1]));
    if j + 1 < run.events.len() {
        let k = j + 1;
        assert(run.states[k + 1].follows(&run.states[k], run.events[k], run.todos[k + 1]));
    }
}

proof fn lemma_asked_periods(
    run: SweepRun,
    contracts: Vec<ContractRecords>,
    charged: KeySet<ChargeKey>,
    now: i64,
    j: int,
)
    requires
        run.valid(contracts, charged, now),
        0 <= j < run.states.len(),
    ensures
        run.todos[j] is AskDue ==> run.todos[j]->AskDue_periods_charged == run.states[j].periods(),
{
    if j > 0 {
        let k = j - 1;
        assert(run.states[k + 1].follows(&run.states[k], run.events[k], run.todos[k + 1]));
    }
}

/// An early end is looked into for every contract that has a penalty which the ledger has
/// not charged, once the sweep is through with its periods, and for no other: such a
/// contract is asked about before the sweep goes on. Once it has ended early, the penalty
/// is charged from the side that ended it to the other, on an index that is no period.
pub proof fn law_an_early_end_is_charged_to_the_side_that_ended_it(
    run: SweepRun,
    contracts: Vec<ContractRecords>,
    charged: KeySet<ChargeKey>,
    now: i64,
    j: int,
    i: int,
)
    requires
        run.valid(contracts, charged, now),
        0 <= j < run.events.len(),
        run.states[j].place() == i,
        0 <= i < contracts@.len(),
    ensures
        run.todos[j] is AskEnd ==> contracts@[i].early_termination_penalty_centi > 0
            && !charged@.contains((contracts@[i].id@, 0xffff_ffffu32)),
        run.events[j] == ChargeEvent::Due(None)
            && contracts@[i].early_termination_penalty_centi > 0 && !charged@.contains(
            (contracts@[i].id@, 0xffff_ffffu32),
        ) ==> run.todos[j + 1] is AskEnd && run.states[j + 1].place() == i,
        run.events[j] matches ChargeEvent::EndedEarly(Some(by)) ==> {
            let penalty = contracts@[i].early_termination_penalty_centi;
            run.todos[j + 1] matches ChargeTodo::Append(c) && {
                &&& c.contract_ref == contracts@[i].id
                &&& c.buyer@ == contracts@[i].buyer@
                &&& c.provider@ == contracts@[i].provider@
                &&& by == TerminatedBy::Buyer ==> c.amount_centi == penalty
                &&& by == TerminatedBy::Provider ==> c.amount_centi == -penalty
                &&& c.period_index == 0xffff_ffffu32
                &&& c.charged_at == now
            }
        },
{
    lemma_sweep_keeps(run, contracts, charged, now, j);
    assert(run.states[j + 1].follows(&run.states[j], run.events[j], run.todos[j + 1]));
    if j > 0 {
        let k = j - 1;
        lemma_sweep_keeps(run, contracts, charged, now, k);
        assert(run.states[k + 1].follows(&run.states[k], run.events[k], run.todos[k + 1]));
    }
}

/// A sweep counts the charges that landed.
pub proof fn law_a_sweep_counts_what_landed(
    run: SweepRun,
    contracts: Vec<ContractRecords>,
    charged: KeySet<ChargeKey>,
    now: i64,
    j: int,
)
    requires
        run.valid(contracts, charged, now),
        0 <= j < run.states.len(),
    ensures
        forall|n: usize|
            call_ensures(ChargeSweep::appended, (&run.states[j],), n) ==> n == run.events.take(
                j,
            ).filter(|e: ChargeEvent| e == ChargeEvent::Appended(true)).len(),
    decreases j,
{
    lemma_sweep_count(run, contracts, charged, now, j);
}

proof fn lemma_sweep_count(
    run: SweepRun,
    contracts: Vec<ContractRecords>,
    charged: KeySet<ChargeKey>,
    now: i64,
    j: int,
)
    requires
        run.valid(contracts, charged, now),
        0 <= j < run.states.len(),
    ensures
        run.states[j].count() == run.events.take(j).filter(
            |e: ChargeEvent| e == ChargeEvent::Appended(true),
        ).len(),
    decreases j,
{
    reveal(Seq::filter);
    if j > 0 {
        lemma_sweep_count(run, contracts, charged, now, j - 1);
        assert(run.states[j - 1 + 1].follows(
            &run.states[j - 1],
            run.events[j - 1],
            run.todos[j - 1 + 1],
        ));
        assert(run.events.take(j).drop_last() =~= run.events.take(j - 1));
        assert(run.events.take(j).last() == run.events[j - 1]);
    }
}

/// The log has charged a period of a contract exactly where a charge that could be read
/// names both.
pub proof fn law_charged_periods_are_those_on_the_log(
    read: &Vec<Option<LogEntry>>,
    r: KeySet<ChargeKey>,
    id: Seq<u8>,
    period: u32,
)
    requires
        call_ensures(charged_periods_by_contract, (read,), r),
    ensures
        r@.contains((id, period)) <==> exists|i: int|
            0 <= i < read@.len() && ((#[trigger] read@[i]) matches Some(e)
                && (e.record matches LogRecord::Charge(c) && c.contract_ref@ == id
                && c.period_index == period)),
{
    lemma_charged_in(read@, id, period);
}

proof fn lemma_charged_in(read: Seq<Option<LogEntry>>, id: Seq<u8>, period: u32)
    ensures
        charged_in(read).contains((id, period)) <==> exists|i: int|
            0 <= i < read.len() && ((#[trigger] read[i]) matches Some(e)
                && (e.record matches LogRecord::Charge(c) && c.contract_ref@ == id
                && c.period_index == period)),
    decreases read.len(),
{
    if read.len() > 0 {
        let front = read.drop_last();
        lemma_charged_in(front, id, period);
        if exists|i: int|
            0 <= i < front.len() && ((#[trigger] front[i]) matches Some(e)
                && (e.record matches LogRecord::Charge(c) && c.contract_ref@ == id
                && c.period_index == period)) {
            let i = choose|i: int|
                0 <= i < front.len() && ((#[trigger] front[i]) matches Some(e)
                    && (e.record matches LogRecord::Charge(c) && c.contract_ref@ == id
                    && c.period_index == period));
            assert(read[i] == front[i]);
        }
        if exists|i: int|
            0 <= i < read.len() && ((#[trigger] read[i]) matches Some(e)
                && (e.record matches LogRecord::Charge(c) && c.contract_ref@ == id
                && c.period_index == period)) {
            let i = choose|i: int|
                0 <= i < read.len() && ((#[trigger] read[i]) matches Some(e)
                    && (e.record matches LogRecord::Charge(c) && c.contract_ref@ == id
                    && c.period_index == period));
            if i < front.len() {
                assert(front[i] == read[i]);
            } else {
                assert(read.last() == read[i]);
            }
        }
        assert(read[read.len() - 1] == read.last());
    }
}

/// A contract is left behind once there is nothing more to do for it: when no period is due,
/// or a charge did not land, the sweep looks into an early end where a penalty may still be
/// levied, and otherwise goes on to the next contract; after that look, or once a penalty
/// was charged, it goes on in any case. Until then it stays.
pub proof fn law_a_sweep_leaves_a_contract_when_it_is_done(
    run: SweepRun,
    contracts: Vec<ContractRecords>,
    charged: KeySet<ChargeKey>,
    now: i64,
    j: int,
    i: int,
)
    requires
        run.valid(contracts, charged, now),
        0 <= j < run.events.len(),
        run.states[j].place() == i,
        0 <= i < contracts@.len(),
    ensures
        ({
            let open = contracts@[i].early_termination_penalty_centi > 0 && !charged@.contains(
                (contracts@[i].id@, 0xffff_ffffu32),
            );
            let periods_over = run.events[j] == ChargeEvent::Due(None) || (run.events[j]
                == ChargeEvent::Appended(false) && run.states[j].waits_for()
                == ChargePhase::Charging);
            let over = run.events[j] == ChargeEvent::EndedEarly(None) || (run.events[j] is Appended
                && run.states[j].waits_for() == ChargePhase::Penalizing);
            &&& periods_over && open ==> run.todos[j + 1] is AskEnd && run.states[j + 1].place()
                == i
            &&& periods_over && !open || over ==> run.states[j + 1].place() == i + 1 && if i + 1
                < contracts@.len() {
                run.todos[j + 1] is AskDue
            } else {
                run.todos[j + 1] is Finish
            }
            &&& !periods_over && !over ==> run.states[j + 1].place() == i && !(
            run.todos[j + 1] is Finish)
        }),
{
    lemma_sweep_keeps(run, contracts, charged, now, j);
    lemma_sweep_keeps(run, contracts, charged, now, j + 1);
    assert(run.states[j + 1].follows(&run.states[j], run.events[j], run.todos[j + 1]));
}

} // verus!
