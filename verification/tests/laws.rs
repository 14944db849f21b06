use alice_registry::metrics::similarity_half_percent;
use alice_registry::{estimate_compressed_size, fnv1a};

#[test]
fn fnv1a_hello_exact_value() {
    assert_eq!(fnv1a(b"hello"), 11_831_194_018_420_276_491);
}

#[test]
fn fnv1a_extends_byte_by_byte() {
    let prefix = fnv1a(b"registr");
    let expected = (prefix ^ u64::from(b'y')).wrapping_mul(0x0100_0000_01b3);
    assert_eq!(fnv1a(b"registry"), expected);
}

#[test]
fn fnv1a_single_byte_change_differs() {
    let a = b"alice/runtime:v1.2.0".to_vec();
    for k in 0..a.len() {
        for delta in [1u8, 7, 128, 255] {
            let mut b = a.clone();
            b[k] = b[k].wrapping_add(delta);
            assert_ne!(fnv1a(&a), fnv1a(&b));
        }
    }
}

#[test]
fn fnv1a_common_suffix_keeps_distinct() {
    assert_ne!(fnv1a(b"ab"), fnv1a(b"ba"));
    assert_ne!(fnv1a(b"ab:latest"), fnv1a(b"ba:latest"));
}

#[test]
fn compressed_size_is_floor_of_35_percent() {
    assert_eq!(estimate_compressed_size(1_048_576), 367_001);
    assert_eq!(estimate_compressed_size(180), 63);
    assert_eq!(estimate_compressed_size(19), 6);
    assert_eq!(estimate_compressed_size(u64::MAX), 6_456_360_425_798_343_065);
}

#[test]
fn compressed_size_monotone_and_not_larger() {
    let mut prev = 0;
    for x in 0..2000u64 {
        let c = estimate_compressed_size(x);
        assert!(c >= prev);
        assert!(c <= x);
        prev = c;
    }
}

#[test]
fn similarity_exact_values() {
    assert_eq!(similarity_half_percent(0, 0, 0), 200);
    assert_eq!(similarity_half_percent(5, 3, 2), 190);
    assert_eq!(similarity_half_percent(80, 40, 39), 41);
    assert_eq!(similarity_half_percent(80, 40, 40), 40);
    assert_eq!(similarity_half_percent(0, 0, 1), 199);
}

#[test]
fn similarity_non_increasing_and_bounded() {
    let mut prev = 200;
    for total in 0..400u32 {
        let s = similarity_half_percent(total, 0, 0);
        assert!(s <= prev);
        assert!((40..=200).contains(&s));
        prev = s;
    }
}
