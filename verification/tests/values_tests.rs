use zk_circuit_fuzzer::bignum::BigNum;
use zk_circuit_fuzzer::strmap::StrMap;
use zk_circuit_fuzzer::text::decimal_string;

#[test]
fn big_number_arithmetic() {
    let a = BigNum::from_i64(-7);
    let b = BigNum::from_i64(2);
    assert!(a.add(&b).same_value(&BigNum::from_i64(-5)));
    assert!(a.sub(&b).same_value(&BigNum::from_i64(-9)));
    assert!(a.mul(&b).same_value(&BigNum::from_i64(-14)));
    assert!(a.div_trunc(&b).same_value(&BigNum::from_i64(-3)));
    assert!(a.rem_trunc(&b).same_value(&BigNum::from_i64(-1)));
    assert!(BigNum::zero().is_zero());
    assert!(!a.same_value(&b));
}

#[test]
fn big_number_bytes_and_decimals() {
    let n = BigNum::from_le_bytes(&[0x01, 0x02]);
    assert!(n.same_value(&BigNum::from_i64(513)));
    assert_eq!(n.to_bytes_le(), (false, vec![1, 2]));
    assert_eq!(BigNum::zero().to_bytes_le(), (false, vec![0]));
    assert_eq!(BigNum::from_i64(-256).to_bytes_le(), (true, vec![0, 1]));
    let p = BigNum::parse_decimal(b"123456789012345678901234567890").unwrap();
    let q = BigNum::parse_decimal(b"123456789012345678901234567891").unwrap();
    assert!(q.sub(&p).same_value(&BigNum::from_i64(1)));
    assert!(BigNum::parse_decimal(b"12a").is_none());
    assert!(BigNum::from_raw(true, vec![5]).same_value(&BigNum::from_i64(-5)));
}

#[test]
fn a_table_keeps_one_value_per_key_in_insertion_order() {
    let mut m: StrMap<u32> = StrMap::new();
    assert!(m.is_empty());
    assert_eq!(m.insert("a".to_string(), 1), None);
    assert_eq!(m.insert("b".to_string(), 2), None);
    assert_eq!(m.insert("a".to_string(), 3), Some(1));
    assert_eq!(m.len(), 2);
    assert_eq!(m.get("a"), Some(&3));
    assert_eq!(m.keys(), vec!["a".to_string(), "b".to_string()]);
    assert_eq!(m.find("b"), Some(1));
    assert_eq!(m.remove("a"), Some(3));
    assert_eq!(m.get("a"), None);
    assert!(!m.contains_key("a"));
    assert_eq!(m.key_at(0), "b");
    assert_eq!(*m.value_at(0), 2);
    assert_eq!(m.replace_value_at(0, 9), 2);
    let c = m.clone();
    m.clear();
    assert_eq!(m.len(), 0);
    assert_eq!(c.get("b"), Some(&9));
}

#[test]
fn decimal_text_of_numbers() {
    assert_eq!(decimal_string(0), "0");
    assert_eq!(decimal_string(1234567890), "1234567890");
    assert_eq!(decimal_string(u64::MAX), "18446744073709551615");
}
