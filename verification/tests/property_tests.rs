use zk_circuit_fuzzer::property_testing::{
    shrink_bool, shrink_i32, shrink_i64, shrink_string, shrink_u16, shrink_u32, shrink_u64, shrink_u8,
    shrink_vec, PropertyTester,
};

#[test]
fn tester_settings() {
    let t = PropertyTester::new();
    assert_eq!(t.test_count(), 100);
    let t = t.with_tests(10).with_seed(7).with_max_shrinks(3);
    assert_eq!(t.test_count(), 10);
    assert_eq!(PropertyTester::default().test_count(), 100);
    assert_eq!(t.shrink_input(&41u32, |x: &u32| *x > 3), 0);
}

#[test]
fn shrinking_finds_a_minimal_counterexample() {
    let t = PropertyTester::new();
    assert_eq!(t.shrink_input(&500u32, |x: &u32| *x < 100), 100);
    assert_eq!(t.shrink_input(&57u8, |x: &u8| *x < 20), 20);
    assert_eq!(t.shrink_input(&-40i32, |x: &i32| *x > -10), -40);
    assert_eq!(t.shrink_input(&true, |b: &bool| *b), false);
    let none = PropertyTester::new().with_max_shrinks(0);
    assert_eq!(none.shrink_input(&500u32, |x: &u32| *x < 100), 500);
    let one = PropertyTester::new().with_max_shrinks(1);
    assert_eq!(one.shrink_input(&57u8, |x: &u8| *x != 30 && *x != 3), 3);
}

#[test]
fn shrinking_flags_and_bytes() {
    assert_eq!(shrink_bool(true), vec![false]);
    assert!(shrink_bool(false).is_empty());
    assert_eq!(shrink_u8(3), vec![0, 1, 2]);
    assert!(shrink_u8(0).is_empty());
}

#[test]
fn shrinking_steps_by_width() {
    assert_eq!(shrink_u16(25), vec![0, 10, 20]);
    assert_eq!(shrink_u16(20), vec![0, 10]);
    assert_eq!(shrink_u32(201), vec![0, 100, 200]);
    assert_eq!(shrink_u64(1000), vec![0]);
    assert_eq!(shrink_u64(1001), vec![0, 1000]);
    assert_eq!(shrink_u16(u16::MAX).len(), 6554);
    assert!(shrink_u32(0).is_empty());
}

#[test]
fn shrinking_signed_numbers() {
    assert_eq!(shrink_i32(3), vec![0, 1, 2]);
    assert_eq!(shrink_i32(-3), vec![-3, -2, -1]);
    assert!(shrink_i32(0).is_empty());
    assert_eq!(shrink_i64(250), vec![0, 100, 200]);
    assert_eq!(shrink_i64(-250), vec![-250, -150, -50]);
    assert_eq!(shrink_i64(-200), vec![-200, -100]);
    assert!(shrink_i64(0).is_empty());
}

#[test]
fn shrinking_lists_and_texts_to_their_first_half() {
    assert_eq!(shrink_vec(&vec![1, 2, 3, 4, 5]), vec![vec![1, 2]]);
    assert_eq!(shrink_vec(&vec![1]), vec![Vec::<i32>::new()]);
    assert!(shrink_vec(&Vec::<u8>::new()).is_empty());
    assert_eq!(shrink_string(&"hello".to_string()), vec!["he".to_string()]);
    assert!(shrink_string(&String::new()).is_empty());
}
