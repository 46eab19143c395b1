use rrn_station::charges::{
    charged_periods_by_contract, periods_charged_of, ChargeEvent, ChargeSweep, ChargeTodo,
    ContractRecords, PENALTY_PERIOD_INDEX,
};
use rrn_station::ledger_view::balance_of;
use rrn_station::log::{ContractCharge, LogEntry, LogRecord};
use rrn_station::market::TerminatedBy;
use rrn_station::tables::Id;

const NOW: i64 = 1_000;
const CONTRACT_PRICE: i64 = 500;
const CONTRACT_PERIODS: u32 = 4;
const CONTRACT_PENALTY: i64 = 300;
const WEEK_SECS: i64 = 7 * 86_400;

/// A station with one weekly contract from `NOW` on, ended early or not, and its log.
struct Station {
    log: Vec<LogEntry>,
    ended: Option<(TerminatedBy, i64)>,
    refuses: bool,
}

fn contract() -> ContractRecords {
    ContractRecords {
        id: Id { bytes: [3; 32] },
        buyer: "buyer".into(),
        provider: "provider".into(),
        total_periods: CONTRACT_PERIODS,
        commons_per_period_centi: CONTRACT_PRICE,
        early_termination_penalty_centi: CONTRACT_PENALTY,
    }
}

impl Station {
    fn new() -> Self {
        Station { log: Vec::new(), ended: None, refuses: false }
    }

    fn read(&self) -> Vec<Option<LogEntry>> {
        self.log.iter().cloned().map(Some).collect()
    }

    /// The next period that is due, as the contract's own terms say.
    fn due(&self, charged: u32, now: i64) -> Option<u32> {
        let at = NOW + i64::from(charged) * WEEK_SECS;
        let last = match self.ended {
            Some((_, effective)) => effective,
            None => i64::MAX,
        };
        if charged < CONTRACT_PERIODS && at <= now && at <= last {
            Some(charged)
        } else {
            None
        }
    }

    fn append(&mut self, charge: ContractCharge) -> bool {
        if self.refuses {
            return false;
        }
        let seq = self.log.len() as u64 + 1;
        self.log.push(LogEntry {
            seq,
            created_at: NOW,
            signer: "station".into(),
            hash_hex: "00".into(),
            bytes: vec![],
            record: LogRecord::Charge(charge),
        });
        true
    }

    fn do_charge_contracts(&mut self, now: i64) -> usize {
        let charged = charged_periods_by_contract(&self.read());
        let (mut sweep, mut todo) = ChargeSweep::begin(vec![contract()], charged, now);
        loop {
            let event = match todo {
                ChargeTodo::AskDue { periods_charged } => {
                    ChargeEvent::Due(self.due(periods_charged, now))
                }
                ChargeTodo::AskEnd { .. } => ChargeEvent::EndedEarly(match self.ended {
                    Some((by, effective)) if effective <= now => Some(by),
                    _ => None,
                }),
                ChargeTodo::Append(charge) => ChargeEvent::Appended(self.append(charge)),
                ChargeTodo::Finish => return sweep.appended(),
            };
            todo = sweep.feed(event);
        }
    }

    fn balance(&self, who: &str) -> i64 {
        balance_of(&self.log, &who.to_string())
    }
}

#[test]
fn the_charge_sweep_bills_due_periods_once_and_catches_up() {
    let mut core = Station::new();

    // At NOW only period 0 is due: one charge, buyer debited, provider paid.
    assert_eq!(core.do_charge_contracts(NOW), 1);
    assert_eq!(core.balance("buyer"), -500);
    assert_eq!(core.balance("provider"), 500);

    // Re-running the sweep at the same instant charges nothing more.
    assert_eq!(core.do_charge_contracts(NOW), 0);
    assert_eq!(core.balance("buyer"), -500);

    // Jump past the final period: the sweep catches up every period still
    // owed in one pass (1, 2, 3), then stops — a completed contract owes
    // nothing further.
    assert_eq!(core.do_charge_contracts(NOW + 3 * WEEK_SECS), 3);
    assert_eq!(core.do_charge_contracts(NOW + 3 * WEEK_SECS), 0);
    assert_eq!(core.balance("buyer"), -2000);
    assert_eq!(core.balance("provider"), 2000);
}

#[test]
fn an_early_termination_bills_through_notice_then_the_penalty_once() {
    let mut core = Station::new();

    // Period 0 charges up front.
    assert_eq!(core.do_charge_contracts(NOW), 1);

    // The buyer terminates at NOW; the notice window closes one week later.
    core.ended = Some((TerminatedBy::Buyer, NOW + WEEK_SECS));

    // At the moment the notice window closes: period 1 falls due on that same
    // instant (charged through the window, inclusive), and the early-exit
    // penalty is levied once on the buyer who ended it. Periods 2 and 3 never
    // charge — they fall past the effective date.
    assert_eq!(core.do_charge_contracts(NOW + WEEK_SECS), 2); // period 1 + the penalty
    assert_eq!(core.balance("buyer"), -(2 * CONTRACT_PRICE) - CONTRACT_PENALTY);
    assert_eq!(core.balance("provider"), 2 * CONTRACT_PRICE + CONTRACT_PENALTY);

    // The sweep is terminal now: no further period, and the penalty is never
    // charged twice.
    assert_eq!(core.do_charge_contracts(NOW + 10 * WEEK_SECS), 0);
    assert_eq!(core.balance("buyer"), -(2 * CONTRACT_PRICE) - CONTRACT_PENALTY);
}

#[test]
fn a_provider_who_ends_it_early_pays_the_penalty() {
    let mut core = Station::new();
    core.do_charge_contracts(NOW);
    core.ended = Some((TerminatedBy::Provider, NOW));
    assert_eq!(core.do_charge_contracts(NOW), 1);
    assert_eq!(core.balance("provider"), CONTRACT_PRICE - CONTRACT_PENALTY);
    assert_eq!(core.balance("buyer"), -CONTRACT_PRICE + CONTRACT_PENALTY);
}

#[test]
fn a_refused_charge_is_left_for_the_next_sweep() {
    let mut core = Station::new();
    core.refuses = true;
    assert_eq!(core.do_charge_contracts(NOW + WEEK_SECS), 0);
    core.refuses = false;
    assert_eq!(core.do_charge_contracts(NOW + WEEK_SECS), 2);
}

#[test]
fn the_penalty_does_not_count_as_a_period() {
    let mut core = Station::new();
    core.do_charge_contracts(NOW);
    core.ended = Some((TerminatedBy::Buyer, NOW));
    core.do_charge_contracts(NOW);
    let charged = charged_periods_by_contract(&core.read());
    assert_eq!(charged.len(), 2);
    assert_eq!(periods_charged_of(&charged, &contract().id, CONTRACT_PERIODS), 1);
    assert_eq!(periods_charged_of(&charged, &Id { bytes: [4; 32] }, CONTRACT_PERIODS), 0);
    assert_eq!(PENALTY_PERIOD_INDEX, u32::MAX);
}

#[test]
fn an_unreadable_entry_is_skipped_when_counting_periods() {
    let mut core = Station::new();
    core.do_charge_contracts(NOW + WEEK_SECS);
    let mut read = core.read();
    read.insert(1, None);
    assert_eq!(charged_periods_by_contract(&read).len(), 2);
}

#[test]
fn no_contracts_means_nothing_to_do() {
    let (sweep, todo) =
        ChargeSweep::begin(vec![], charged_periods_by_contract(&vec![]), NOW);
    assert_eq!(todo, ChargeTodo::Finish);
    assert_eq!(sweep.appended(), 0);
}
