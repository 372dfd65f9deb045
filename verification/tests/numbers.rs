//! Text, 256-bit integers and their JSON form, byte order.

use serde_json::Value;
use witness_bench::bytes::{order, same_bytes, sort, Order};
use witness_bench::clock::{first_or_zero, shortest_after_first, total, Duration};
use witness_bench::numeric_string::{deserialize, deserialize_text, serialize, NumericError};
use witness_bench::text::{decimal, hex_bytes, hex_quantity, numbered, parse_unsigned, same_text};
use witness_bench::u256::U256;

fn ns(nanos: u128) -> Duration {
    Duration { nanos }
}

#[test]
fn decimal_writes_digits() {
    assert_eq!(decimal(0), "0");
    assert_eq!(decimal(24785397), "24785397");
    assert_eq!(decimal(u128::MAX), u128::MAX.to_string());
}

#[test]
fn decimal_text_reads_back() {
    for n in [0u128, 1, 9, 10, 99, 100, u64::MAX as u128, u128::MAX] {
        assert_eq!(parse_unsigned(&decimal(n), u128::MAX), Some(n));
    }
}

#[test]
fn unsigned_text_is_strict() {
    assert_eq!(parse_unsigned("+7", u128::MAX), Some(7));
    assert_eq!(parse_unsigned("007", u128::MAX), Some(7));
    assert_eq!(parse_unsigned("", u128::MAX), None);
    assert_eq!(parse_unsigned("+", u128::MAX), None);
    assert_eq!(parse_unsigned("-1", u128::MAX), None);
    assert_eq!(parse_unsigned("1 ", u128::MAX), None);
    assert_eq!(parse_unsigned("256", 255), None);
    assert_eq!(parse_unsigned("255", 255), Some(255));
}

#[test]
fn quantities_are_hexadecimal() {
    assert_eq!(hex_quantity(0), "0x0");
    assert_eq!(hex_quantity(0x17a3175), "0x17a3175");
    assert_eq!(hex_quantity(u64::MAX), format!("0x{:x}", u64::MAX));
}

#[test]
fn hashes_are_written_like_the_hash_type_does() {
    let mut hash = [0u8; 32];
    for (i, byte) in hash.iter_mut().enumerate() {
        *byte = (i * 9) as u8;
    }
    assert_eq!(hex_bytes(&hash), alloy_primitives::B256::from(hash).to_string());
    assert_eq!(hex_bytes(&[]), "0x");
}

#[test]
fn texts_compare_by_characters() {
    assert!(same_text("VALID", "VALID"));
    assert!(!same_text("VALID", "INVALID"));
    assert!(!same_text("VALID", "VALIE"));
    assert_eq!(numbered(12, ".rlp"), "12.rlp");
}

fn read(text: &str) -> Result<U256, NumericError> {
    deserialize(&Value::from(text))
}

#[test]
fn a_decimal_string_is_a_256_bit_integer() {
    assert_eq!(
        read("1000000000000000000").unwrap(),
        U256::from_u64(1_000_000_000_000_000_000)
    );
    assert_eq!(read(&u128::MAX.to_string()).unwrap().to_u128(), Some(u128::MAX));
    assert_eq!(deserialize_text("+7").unwrap(), U256::from_u64(7));
}

#[test]
fn a_longer_string_is_left_to_the_256_bit_reader() {
    // 2^128 in decimal.
    let text = "340282366920938463463374607431768211456";
    assert_eq!(read(text).unwrap(), U256 { limbs: [0, 0, 1, 0] });
    assert_eq!(read("0xff").unwrap(), U256::from_u64(255));
    assert_eq!(read("0XfF_fF").unwrap(), U256::from_u64(65_535));
    assert_eq!(read("0o17").unwrap(), U256::from_u64(15));
    assert_eq!(read("0b101").unwrap(), U256::from_u64(5));
    assert_eq!(read("1_000").unwrap(), U256::from_u64(1_000));
    assert_eq!(read("0x").unwrap(), U256::zero());
    assert_eq!(read("").unwrap(), U256::zero());
    let largest = format!("0x{}", "f".repeat(64));
    assert_eq!(read(&largest).unwrap(), U256 { limbs: [u64::MAX; 4] });
    assert_eq!(read(&format!("0x000{}", "f".repeat(64))).unwrap(), read(&largest).unwrap());
}

#[test]
fn hexadecimal_integers_read_back() {
    for n in [0u64, 1, 15, 16, 0x17a3175, u64::MAX] {
        assert_eq!(deserialize_text(&hex_quantity(n)).unwrap(), U256::from_u64(n));
    }
}

#[test]
fn a_string_that_spells_no_number_is_malformed() {
    let too_large = format!("0x1{}", "0".repeat(64));
    let decimal = format!("1{}", "0".repeat(78));
    for text in ["ether", "0xg", "0o8", "0b2", "-1", "1 ", "é", "0é", &too_large, &decimal] {
        let expected = text.parse::<alloy_primitives::U256>().unwrap_err().to_string();
        let error = read(text).unwrap_err();
        assert!(matches!(error, NumericError::Malformed(words) if words == expected));
    }
}

#[test]
fn numbers_read_only_as_unsigned() {
    let json = |text: &str| deserialize(&serde_json::from_str(text).unwrap());
    assert_eq!(json("7").unwrap(), U256::from_u64(7));
    assert_eq!(json("18446744073709551615").unwrap(), U256::from_u64(u64::MAX));
    for text in ["-7", "7.0", "1e3", "18446744073709551616", "-0", "true", "null", "[7]", "{}"] {
        assert!(matches!(json(text), Err(NumericError::Invalid)));
    }
}

#[test]
fn written_integers_read_back() {
    for n in [0u128, 1, 12_345, u64::MAX as u128 + 1, u128::MAX] {
        let written = serialize(&U256::from_u128(n)).unwrap();
        assert_eq!(written, n.to_string());
        assert_eq!(read(&written).unwrap(), U256::from_u128(n));
    }
    assert!(serialize(&U256 { limbs: [0, 0, 1, 0] }).is_none());
}

#[test]
fn integers_narrow() {
    assert_eq!(U256::from_u64(5).saturating_to_u64(), 5);
    assert_eq!(U256::from_u128(u64::MAX as u128 + 1).saturating_to_u64(), u64::MAX);
    assert_eq!(U256::zero().to_u128(), Some(0));
}

#[test]
fn bytes_are_ordered_lexicographically() {
    assert_eq!(order(&[1, 2], &[1, 3]), Order::Before);
    assert_eq!(order(&[1], &[1, 0]), Order::Before);
    assert_eq!(order(&[], &[]), Order::Same);
    assert_eq!(order(&[2], &[1, 255]), Order::After);
    assert!(same_bytes(&[1, 2], &[1, 2]));
    assert!(!same_bytes(&[1, 2], &[1]));
}

#[test]
fn sorting_keeps_what_there_is() {
    let list = vec![vec![3], vec![1, 2], vec![], vec![1], vec![3]];
    let mut expected = list.clone();
    expected.sort();
    assert_eq!(sort(list), expected);
}

#[test]
fn durations_add_and_subtract() {
    assert_eq!(total(&vec![ns(5), ns(7), ns(11)]), ns(23));
    assert_eq!(total(&vec![]), ns(0));
    assert_eq!(ns(5).saturating_sub(ns(7)), ns(0));
    assert_eq!(ns(7).saturating_sub(ns(5)), ns(2));
    assert_eq!(ns(1_999).micros(), 1);
    assert_eq!(ns(18_446_744_073_709_551_616_000).micros(), 0);
}

#[test]
fn cold_is_first_and_warm_is_the_shortest_after_it() {
    assert_eq!(first_or_zero(&vec![]), ns(0));
    assert_eq!(first_or_zero(&vec![ns(9), ns(1)]), ns(9));
    assert_eq!(shortest_after_first(&vec![ns(1)]), None);
    assert_eq!(shortest_after_first(&vec![ns(1), ns(8), ns(6), ns(7)]), Some(ns(6)));
}
