use rrn_station::order::{sort_by_rank, text_precedes};
use rrn_station::rpc::{
    dispute_err, error_pair, internal, invalid_params, ledger_err, marketplace_err,
    BundleIngestError, DisputeError, ErrorCode, LedgerError, LedgerErrorKind, MarketplaceErrorKind,
};
use rrn_station::tables::{Id, KeyMap, KeySet};
use rrn_station::text::{
    chars_of, decimal_i64, decimal_u64, hex, join2, join3, same_bytes, same_text, text_of, trimmed, unhex,
};

#[test]
fn hex_is_two_lower_case_digits_a_byte() {
    assert_eq!(hex(&[0, 1, 0xab, 0xff]), "0001abff");
    assert_eq!(hex(&[]), "");
}

#[test]
fn unhex_inverts_hex_and_refuses_the_rest() {
    assert_eq!(unhex("0001abff"), Some(vec![0, 1, 0xab, 0xff]));
    assert_eq!(unhex("ABfF"), Some(vec![0xab, 0xff]));
    assert_eq!(unhex(""), Some(vec![]));
    assert_eq!(unhex("abc"), None);
    assert_eq!(unhex("zz"), None);
    assert_eq!(unhex("+f"), None);
    assert_eq!(unhex("é1"), None);
    let all: Vec<u8> = (0..=255).collect();
    assert_eq!(unhex(&hex(&all)), Some(all));
}

#[test]
fn numbers_print_in_decimal() {
    assert_eq!(decimal_u64(0), "0");
    assert_eq!(decimal_u64(u64::MAX), u64::MAX.to_string());
    assert_eq!(decimal_i64(-120), "-120");
    assert_eq!(decimal_i64(i64::MIN), i64::MIN.to_string());
    assert_eq!(decimal_i64(7), "7");
}

#[test]
fn texts_join_and_compare_by_their_characters() {
    assert_eq!(join2("ab", "é"), "abé");
    assert_eq!(join3("a", "", "b"), "ab");
    assert!(same_text("aé", "aé"));
    assert!(!same_text("a", "ab"));
    assert!(!same_text("a", "b"));
    assert!(same_bytes(b"xy", b"xy"));
    assert!(!same_bytes(b"xy", b"xz"));
    let cs = chars_of("aéb");
    assert_eq!(text_of(&cs, 1, 3), "éb");
}

#[test]
fn trimming_takes_white_space_off_both_ends() {
    for s in ["  a b \n", "\u{85}\u{2003}é\u{202f}", "", " \t ", "x", "\u{200b}x\u{200b}"] {
        assert_eq!(trimmed(s), s.trim());
    }
}

#[test]
fn texts_sort_by_character() {
    assert!(text_precedes("a", "ab"));
    assert!(text_precedes("", "a"));
    assert!(!text_precedes("b", "ab"));
    assert!(!text_precedes("a", "a"));
    let sorted = sort_by_rank(vec!["b".to_string(), "".to_string(), "ab".to_string()]);
    assert_eq!(sorted, vec!["".to_string(), "ab".to_string(), "b".to_string()]);
}

#[test]
fn a_set_holds_each_key_once_in_order_of_arrival() {
    let id = |n: u8| Id { bytes: [n; 32] };
    let mut set: KeySet<Id> = KeySet::new();
    assert!(set.insert(id(2)));
    assert!(set.insert(id(1)));
    assert!(!set.insert(id(2)));
    assert_eq!(set.len(), 2);
    assert_eq!(*set.key_at(0), id(2));
    assert!(set.contains(&id(1)));
    assert!(set.remove(&id(2)));
    assert!(!set.remove(&id(2)));
    assert!(!set.contains(&id(2)));
}

#[test]
fn a_map_overwrites_in_place() {
    let mut map: KeyMap<String, u8> = KeyMap::new();
    map.insert("a".to_string(), 1);
    map.insert("b".to_string(), 2);
    map.insert("a".to_string(), 3);
    assert_eq!(map.len(), 2);
    assert_eq!(map.get(&"a".to_string()), Some(&3));
    assert_eq!(map.key_at(0), "a");
    assert_eq!(*map.value_at(1), 2);
    assert_eq!(map.remove(&"a".to_string()), Some(3));
    assert_eq!(map.remove(&"a".to_string()), None);
    assert!(!map.contains_key(&"a".to_string()));
}

#[test]
fn errors_tell_the_caller_from_the_station() {
    assert_eq!(invalid_params("x").code, ErrorCode::InvalidParams);
    assert_eq!(internal("x").code, ErrorCode::InternalError);
    assert_eq!(error_pair(internal("boom")), (ErrorCode::InternalError, "boom".to_string()));
    let ledger = |kind| LedgerError { kind, message: "m".into() };
    assert_eq!(ledger_err(ledger(LedgerErrorKind::Storage)), internal("m"));
    assert_eq!(ledger_err(ledger(LedgerErrorKind::Invalid)), internal("m"));
    assert_eq!(ledger_err(ledger(LedgerErrorKind::BadNonce)), invalid_params("m"));
    assert_eq!(ledger_err(ledger(LedgerErrorKind::DebtFloorExceeded)), invalid_params("m"));
    assert_eq!(marketplace_err(MarketplaceErrorKind::Index, "m".into()), internal("m"));
    assert_eq!(marketplace_err(MarketplaceErrorKind::SearchEngine, "m".into()), internal("m"));
    assert_eq!(marketplace_err(MarketplaceErrorKind::Listing, "m".into()), invalid_params("m"));
    assert_eq!(dispute_err(DisputeError::Storage("m".into())), internal("m"));
    assert_eq!(dispute_err(DisputeError::Reputation("m".into())), internal("m"));
    assert_eq!(dispute_err(DisputeError::MissingAdmission("m".into())), internal("m"));
    assert_eq!(dispute_err(DisputeError::Refused("m".into())), invalid_params("m"));
    assert_eq!(
        dispute_err(DisputeError::Ledger(ledger(LedgerErrorKind::Storage))),
        internal("m")
    );
    assert_eq!(
        BundleIngestError::Malformed("cut".into()).rpc_error(),
        invalid_params("malformed bundle: cut")
    );
    assert_eq!(
        BundleIngestError::Internal("disk".into()).pair_error(),
        (ErrorCode::InternalError, "disk".to_string())
    );
}
