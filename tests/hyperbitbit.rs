use hyperbitbit::HyperBitBit;
use rand::distributions::Alphanumeric;
use rand::Rng;
use rand::SeedableRng;
use rand_isaac::Isaac64Rng;
use std::collections::HashSet;

fn fields(h: &HyperBitBit) -> (u8, u64, u64) {
    (h.lgn(), h.sketch1(), h.sketch2())
}

#[test]
fn test_basic() {
    let mut h = HyperBitBit::new();
    // HyperBitBit is not working for small cardinalities
    assert_eq!(1351, h.cardinality());
    h.insert(&String::from("xxx"));
    h.insert(&String::from("yyy"));
    assert_eq!(1351, h.cardinality());
}

#[test]
fn test_cardinality() {
    let mut h = HyperBitBit::new();
    let mut items = HashSet::new();

    assert_eq!(1351, h.cardinality());

    let mut rng = Isaac64Rng::seed_from_u64(42);
    let maxn = 10000;
    for _ in 1..=maxn {
        let s = (&mut rng).sample_iter(&Alphanumeric).take(2).collect::<String>();

        h.insert(&s);
        items.insert(s);
    }
    let expected: i64 = items.len() as i64;
    let rel: f64 = (100.0 * (expected - h.cardinality() as i64) as f64) / (expected as f64);
    assert!(rel < 10.0);
}

#[test]
fn test_serde() {
    let mut h = HyperBitBit::new();
    h.insert(&String::from("xxx"));

    let serialized_h = serde_json::to_string(&fields(&h)).unwrap();
    let (lgn, sketch1, sketch2): (u8, u64, u64) = serde_json::from_str(&serialized_h).unwrap();
    let other_h = HyperBitBit::from_parts(lgn, sketch1, sketch2).unwrap();

    assert_eq!(h.cardinality(), other_h.cardinality());
    assert_eq!(h.sketch1(), other_h.sketch1());
    assert_eq!(h.sketch2(), other_h.sketch2());
    assert_eq!(h.lgn(), other_h.lgn());
}

#[test]
fn fresh_sketch_fields() {
    let h = HyperBitBit::new();
    assert_eq!(fields(&h), (5, 0, 0));
    assert_eq!(fields(&HyperBitBit::default()), (5, 0, 0));
}

#[test]
fn two_distinct_strings_keep_the_estimate() {
    let mut h = HyperBitBit::new();
    h.insert("apple");
    h.insert("pear");
    assert_eq!(h.cardinality(), 1351);
}

#[test]
fn duplicate_insert_changes_nothing() {
    for s in ["xxx", "yyy", "", "a longer element"] {
        let mut once = HyperBitBit::new();
        once.insert(s);
        let mut twice = once;
        twice.insert(s);
        assert_eq!(fields(&once), fields(&twice));
    }
}

#[test]
fn equal_inputs_give_equal_states() {
    let mut a = HyperBitBit::new();
    let mut b = HyperBitBit::new();
    for i in 0..500 {
        let s = format!("item-{}", i);
        a.insert(&s);
        b.insert(&s);
    }
    assert_eq!(fields(&a), fields(&b));
    assert_eq!(a.cardinality(), b.cardinality());
}

#[test]
fn lgn_never_decreases_and_popcount_stays_bounded() {
    let mut h = HyperBitBit::new();
    let mut last = h.lgn();
    for i in 0..20000 {
        h.insert(&format!("{}", i));
        assert!(h.lgn() >= last);
        assert!(h.sketch1().count_ones() <= 32);
        assert_eq!(h.sketch2() & !h.sketch1(), 0);
        last = h.lgn();
    }
    assert!(h.lgn() > 5);
}

#[test]
fn hash_with_top_rank_marks_both_scales() {
    let mut h = HyperBitBit::new();
    h.insert_hash(0);
    assert_eq!(fields(&h), (5, 1, 1));
    assert_eq!(h.cardinality(), 1380);
}

#[test]
fn hash_with_rank_six_marks_only_current_scale() {
    let mut h = HyperBitBit::new();
    h.insert_hash((1u64 << 57) | 3);
    assert_eq!(fields(&h), (5, 1 << 3, 0));
}

#[test]
fn hash_with_low_rank_marks_nothing() {
    let mut h = HyperBitBit::new();
    h.insert_hash(u64::MAX);
    h.insert_hash(u64::MAX - 63);
    assert_eq!(fields(&h), (5, 0, 0));
}

#[test]
fn thirty_second_bucket_rescales() {
    let low31 = (1u64 << 31) - 1;
    let mut h = HyperBitBit::from_parts(5, low31, 0x3ff).unwrap();
    h.insert_hash(31);
    assert_eq!(fields(&h), (6, 0x3ff | (1 << 31), 0));
}

#[test]
fn full_next_scale_is_carried_over() {
    let low31 = (1u64 << 31) - 1;
    let mut h = HyperBitBit::from_parts(5, low31, low31).unwrap();
    h.insert_hash(31);
    let full = low31 | (1 << 31);
    assert_eq!(fields(&h), (6, full, 0));
    h.insert_hash(u64::MAX);
    assert_eq!(fields(&h), (7, 0, 0));
}

#[test]
fn estimate_exact_values() {
    let mask = |n: u32| if n == 64 { u64::MAX } else { (1u64 << n) - 1 };
    let cases: [(u8, u32, u64); 7] = [
        (5, 2, 1410),
        (10, 16, 61147),
        (20, 31, 86653218),
        (6, 11, 3429),
        (57, 31, 11909527668865907062),
        (57, 20, 9384593740207524749),
        (58, 0, 12170312366631379498),
    ];
    for (lgn, ones, expected) in cases {
        let h = HyperBitBit::from_parts(lgn, mask(ones), 0).unwrap();
        assert_eq!(h.cardinality(), expected);
    }
    let h = HyperBitBit::from_parts(57, u64::MAX >> 32, 0).unwrap();
    assert_eq!(h.cardinality(), 12170312366631379499);
}

#[test]
fn from_parts_rejects_unreachable_states() {
    assert!(HyperBitBit::from_parts(4, 0, 0).is_none());
    assert!(HyperBitBit::from_parts(59, 0, 0).is_none());
    assert!(HyperBitBit::from_parts(5, 1, 2).is_none());
    assert!(HyperBitBit::from_parts(5, (1u64 << 33) - 1, 0).is_none());
    assert!(HyperBitBit::from_parts(5, (1u64 << 32) - 1, 1).is_none());
    assert!(HyperBitBit::from_parts(57, 3, 1).is_none());
    assert!(HyperBitBit::from_parts(58, 1, 0).is_none());
    assert!(HyperBitBit::from_parts(57, (1u64 << 32) - 1, 0).is_some());
    assert!(HyperBitBit::from_parts(5, 3, 1).is_some());
}
