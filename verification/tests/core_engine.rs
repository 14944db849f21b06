use alice_registry::metrics::similarity_half_percent;
use alice_registry::{estimate_compressed_size, fnv1a};

/// Similarity as a percentage, as the registry's HTTP API reports it.
fn similarity_pct(added: u32, removed: u32, modified: u32) -> f64 {
    f64::from(similarity_half_percent(added, removed, modified)) / 2.0
}

#[test]
fn test_fnv1a_deterministic() {
    assert_eq!(fnv1a(b"hello"), fnv1a(b"hello"));
}

#[test]
fn test_fnv1a_different_inputs_differ() {
    assert_ne!(fnv1a(b"hello"), fnv1a(b"world"));
}

#[test]
fn test_fnv1a_known_offset_basis() {
    assert_eq!(fnv1a(b""), 0xcbf2_9ce4_8422_2325);
}

#[test]
fn test_fnv1a_single_byte() {
    let h = fnv1a(b"\x00");
    let expected = 0xcbf2_9ce4_8422_2325_u64.wrapping_mul(0x0100_0000_01b3);
    assert_eq!(h, expected);
}

#[test]
fn test_fnv1a_order_matters() {
    assert_ne!(fnv1a(b"ab"), fnv1a(b"ba"));
}

#[test]
fn test_fnv1a_all_zeros() {
    let data = vec![0u8; 256];
    let h = fnv1a(&data);
    assert_ne!(h, 0);
}

#[test]
fn test_fnv1a_all_0xff() {
    let data = vec![0xFFu8; 256];
    let h = fnv1a(&data);
    assert_ne!(h, 0);
}

#[test]
fn test_fnv1a_long_input() {
    let data = vec![42u8; 10_000];
    let h = fnv1a(&data);
    assert_ne!(h, 0);
    assert_eq!(h, fnv1a(&vec![42u8; 10_000]));
}

#[test]
fn test_compressed_size_basic() {
    let result = estimate_compressed_size(1_048_576);
    assert!(result > 0);
    assert!(result < 1_048_576);
}

#[test]
fn test_compressed_size_zero() {
    assert_eq!(estimate_compressed_size(0), 0);
}

#[test]
fn test_similarity_identical() {
    assert!((similarity_pct(0, 0, 0) - 100.0).abs() < f64::EPSILON);
}

#[test]
fn test_similarity_decreases_with_changes() {
    let s1 = similarity_pct(10, 5, 5);
    let s2 = similarity_pct(50, 30, 40);
    assert!(s1 > s2);
}

#[test]
fn test_similarity_floor_at_20() {
    let s = similarity_pct(1000, 1000, 1000);
    assert!((s - 20.0).abs() < f64::EPSILON);
}

#[test]
fn test_fnv1a_roundtrip_consistency() {
    let inputs = vec![
        b"alice".to_vec(),
        b"registry".to_vec(),
        b"push:v1.0".to_vec(),
        vec![],
    ];
    for input in &inputs {
        assert_eq!(fnv1a(input), fnv1a(input));
    }
}

#[test]
fn test_fnv1a_different_lengths_differ() {
    assert_ne!(fnv1a(b"a"), fnv1a(b"aa"));
    assert_ne!(fnv1a(b"ab"), fnv1a(b"abc"));
}

#[test]
fn test_estimate_compressed_size_ratio() {
    let original = 1_000_000;
    let compressed = estimate_compressed_size(original);
    assert_eq!(compressed, 350_000);
}

#[test]
fn test_compute_similarity_range() {
    assert!((similarity_pct(0, 0, 0) - 100.0).abs() < f64::EPSILON);
    let s = similarity_pct(5, 3, 2);
    assert!(s > 90.0);
    assert!(s <= 100.0);
}

#[test]
fn test_compute_similarity_massive_changes() {
    let s = similarity_pct(10000, 10000, 10000);
    assert!((s - 20.0).abs() < f64::EPSILON);
}
