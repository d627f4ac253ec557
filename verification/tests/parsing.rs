//! The record parsers: kinds case-insensitively, ids, fixed-point amounts,
//! and whole raw records, with the rendering of amounts back to four
//! decimal places.

use accountant::amount::{format_amount, parse_amount, parse_u16, parse_u32};
use accountant::transactions::{parse_kind, parse_transaction, ErrorKind, TxKind};

fn bytes(s: &str) -> Vec<u8> {
    s.as_bytes().to_vec()
}

fn fields(list: &[&str]) -> Vec<Vec<u8>> {
    let mut out = Vec::new();
    for f in list.iter() {
        out.push(bytes(f));
    }
    out
}

#[test]
fn kind_lower_case() {
    assert!(parse_kind(&bytes("deposit")) == Some(TxKind::Deposit));
    assert!(parse_kind(&bytes("withdrawal")) == Some(TxKind::Withdrawal));
    assert!(parse_kind(&bytes("dispute")) == Some(TxKind::Dispute));
    assert!(parse_kind(&bytes("resolve")) == Some(TxKind::Resolve));
    assert!(parse_kind(&bytes("chargeback")) == Some(TxKind::Chargeback));
}

#[test]
fn kind_mixed_case() {
    assert!(parse_kind(&bytes("Deposit")) == Some(TxKind::Deposit));
    assert!(parse_kind(&bytes("WITHDRAWAL")) == Some(TxKind::Withdrawal));
    assert!(parse_kind(&bytes("DiSpUtE")) == Some(TxKind::Dispute));
}

#[test]
fn kind_unknown() {
    assert!(parse_kind(&bytes("refund")) == None);
    assert!(parse_kind(&bytes("deposits")) == None);
    assert!(parse_kind(&bytes("")) == None);
}

#[test]
fn ids_parse_exactly() {
    assert!(parse_u16(&bytes("0")) == Some(0));
    assert!(parse_u16(&bytes("65535")) == Some(65535));
    assert!(parse_u16(&bytes("65536")) == None);
    assert!(parse_u16(&bytes("")) == None);
    assert!(parse_u16(&bytes("1x")) == None);
    assert!(parse_u32(&bytes("4294967295")) == Some(4294967295));
    assert!(parse_u32(&bytes("4294967296")) == None);
    assert!(parse_u32(&bytes("-1")) == None);
}

#[test]
fn amounts_scale_to_ten_thousandths() {
    assert!(parse_amount(&bytes("5.0")) == Some(50_000));
    assert!(parse_amount(&bytes("5")) == Some(50_000));
    assert!(parse_amount(&bytes("5.")) == Some(50_000));
    assert!(parse_amount(&bytes("100.1234")) == Some(1_001_234));
    assert!(parse_amount(&bytes("0.0001")) == Some(1));
    assert!(parse_amount(&bytes("0")) == Some(0));
}

#[test]
fn amounts_reject_bad_shapes() {
    assert!(parse_amount(&bytes("")) == None);
    assert!(parse_amount(&bytes(".5")) == None);
    assert!(parse_amount(&bytes("1.2.3")) == None);
    assert!(parse_amount(&bytes("-5.0")) == None);
    assert!(parse_amount(&bytes("abc")) == None);
    // A fifth fraction digit would be silently rounded; it is rejected.
    assert!(parse_amount(&bytes("1.00001")) == None);
    // Past the top of the fixed-point range.
    assert!(parse_amount(&bytes("99999999999999999999")) == None);
}

#[test]
fn amounts_render_at_four_decimals() {
    assert!(format_amount(50_000) == bytes("5.0000"));
    assert!(format_amount(0) == bytes("0.0000"));
    assert!(format_amount(1_001_234) == bytes("100.1234"));
    assert!(format_amount(1) == bytes("0.0001"));
    assert!(format_amount(123_456_789) == bytes("12345.6789"));
}

#[test]
fn amounts_round_trip_through_rendering() {
    for a in [0u64, 1, 9_999, 10_000, 50_000, 1_001_234, 987_654_321] {
        assert!(parse_amount(&format_amount(a)) == Some(a));
    }
}

#[test]
fn record_parses_whole() {
    let r = parse_transaction(&fields(&["deposit", "1", "1", "5.0"]));
    match r {
        Ok(t) => {
            assert!(t.transaction_type == TxKind::Deposit);
            assert!(t.client == 1);
            assert!(t.tx == 1);
            assert!(t.amount == Some(50_000));
        }
        Err(_) => panic!("well-formed record rejected"),
    }
}

#[test]
fn record_without_amount_field() {
    let r = parse_transaction(&fields(&["dispute", "7", "3"]));
    match r {
        Ok(t) => {
            assert!(t.transaction_type == TxKind::Dispute);
            assert!(t.client == 7);
            assert!(t.tx == 3);
            assert!(t.amount == None);
        }
        Err(_) => panic!("dispute without amount rejected"),
    }
}

#[test]
fn record_with_empty_amount_is_absent_not_zero() {
    let r = parse_transaction(&fields(&["resolve", "2", "9", ""]));
    match r {
        Ok(t) => assert!(t.amount == None),
        Err(_) => panic!("record with empty amount rejected"),
    }
}

#[test]
fn record_errors() {
    assert!(matches!(
        parse_transaction(&fields(&["deposit", "1"])),
        Err(ErrorKind::MalformedRecord)
    ));
    assert!(matches!(
        parse_transaction(&fields(&["deposit", "x", "1"])),
        Err(ErrorKind::MalformedRecord)
    ));
    assert!(matches!(
        parse_transaction(&fields(&["deposit", "1", ""])),
        Err(ErrorKind::MalformedRecord)
    ));
    assert!(matches!(
        parse_transaction(&fields(&["refund", "1", "1"])),
        Err(ErrorKind::UnsupportedKind)
    ));
}

#[test]
fn record_with_unreadable_amount_has_no_amount() {
    let r = parse_transaction(&fields(&["deposit", "1", "1", "abc"]));
    match r {
        Ok(t) => assert!(t.amount == None),
        Err(_) => panic!("record with unreadable amount rejected outright"),
    }
}
