use rrn_station::ledger_view::balance_of;
use rrn_station::log::{ContractCharge, LogEntry, LogRecord, SettlementRecord};
use rrn_station::tables::Id;

fn append(log: &mut Vec<LogEntry>, record: LogRecord) {
    let seq = log.len() as u64 + 1;
    log.push(LogEntry {
        seq,
        created_at: 0,
        signer: "rrn1station".into(),
        hash_hex: "00".into(),
        bytes: vec![],
        record,
    });
}

fn settle(log: &mut Vec<LogEntry>, n: u8, sender: &str, receiver: &str, amount: i64) {
    append(
        log,
        LogRecord::Settlement(SettlementRecord {
            proposal_id: Id { bytes: [n; 32] },
            sender: sender.into(),
            receiver: receiver.into(),
            amount_centi: amount,
        }),
    );
}

fn charge(log: &mut Vec<LogEntry>, buyer: &str, provider: &str, amount: i64, n: u8, period: u32) {
    append(
        log,
        LogRecord::Charge(ContractCharge {
            contract_ref: Id { bytes: [n; 32] },
            buyer: buyer.into(),
            provider: provider.into(),
            amount_centi: amount,
            period_index: period,
            charged_at: 1_000 + i64::from(period),
        }),
    );
}

fn balance(log: &Vec<LogEntry>, who: &str) -> i64 {
    balance_of(log, &who.to_string())
}

#[test]
fn balance_nets_credit_and_debt() {
    let mut log = Vec::new();
    settle(&mut log, 1, "a", "b", 300);
    assert_eq!(balance(&log, "a"), -300);
    assert_eq!(balance(&log, "b"), 300);
}

#[test]
fn duplicate_settlement_records_apply_once() {
    // Same proposal id settled twice (two records, e.g. one per station with
    // different settled_at) must not double-count.
    let mut log = Vec::new();
    settle(&mut log, 1, "a", "b", 300);
    settle(&mut log, 1, "a", "b", 300);
    assert_eq!(balance(&log, "b"), 300); // not 600
}

#[test]
fn unsettled_log_has_zero_balance() {
    assert_eq!(balance(&Vec::new(), "alice"), 0);
}

#[test]
fn balance_of_unknown_address_is_zero() {
    let mut log = Vec::new();
    settle(&mut log, 1, "a", "b", 300);
    assert_eq!(balance(&log, "stranger"), 0);
}

#[test]
fn contract_charges_move_the_balance_per_period() {
    let mut log = Vec::new();
    // Three periods charged at 500 each: buyer -1500, provider +1500.
    for period in 0..3 {
        charge(&mut log, "b", "p", 500, 3, period);
    }
    assert_eq!(balance(&log, "b"), -1_500);
    assert_eq!(balance(&log, "p"), 1_500);
}

#[test]
fn a_duplicate_period_charge_applies_once() {
    // A re-run sweep (or gossip) can append a second charge for the same
    // period with a different `charged_at`; it must not double-charge.
    let mut log = Vec::new();
    charge(&mut log, "b", "p", 500, 4, 0);
    let mut again = log[0].clone();
    again.seq = 2;
    if let LogRecord::Charge(c) = &mut again.record {
        c.charged_at = 1_005;
    }
    log.push(again);
    assert_eq!(balance(&log, "p"), 500); // not 1000
}

#[test]
fn settlements_and_contract_charges_both_count() {
    // The same identity can be paid by a one-off settlement and debited by a
    // subscription; the two folds net together.
    let mut log = Vec::new();
    // Bob pays Alice 300 via settlement (alice +300), then Alice subscribes to
    // Bob at 200/period for 2 periods (alice -400).
    settle(&mut log, 1, "b", "a", 300);
    charge(&mut log, "a", "b", 200, 5, 0);
    charge(&mut log, "a", "b", 200, 5, 1);
    assert_eq!(balance(&log, "a"), 300 - 400);
    assert_eq!(balance(&log, "b"), -300 + 400);
}

#[test]
fn one_member_on_both_sides_nets_to_nothing() {
    let mut log = Vec::new();
    settle(&mut log, 1, "a", "a", 300);
    assert_eq!(balance(&log, "a"), 0);
}

#[test]
fn the_order_of_the_log_does_not_change_a_balance() {
    let mut one = Vec::new();
    settle(&mut one, 1, "a", "b", 300);
    charge(&mut one, "b", "a", 50, 2, 0);
    let mut other = Vec::new();
    charge(&mut other, "b", "a", 50, 2, 0);
    settle(&mut other, 1, "a", "b", 300);
    assert_eq!(balance(&one, "a"), balance(&other, "a"));
    assert_eq!(balance(&one, "a") + balance(&one, "b"), 0);
}
