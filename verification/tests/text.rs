use alice_registry::text::{
    colon_join2, colon_join3, first_word, is_whitespace, push_decimal, push_fixed_digits,
};

#[test]
fn decimal_matches_display() {
    for n in [0u64, 7, 10, 99, 100, 12345, u64::MAX] {
        let mut s = String::from("x");
        push_decimal(&mut s, n);
        assert_eq!(s, format!("x{}", n));
    }
}

#[test]
fn fixed_digits_match_padded_formats() {
    for n in [0u64, 5, 99, 1234, 9998] {
        let mut s = String::new();
        push_fixed_digits(&mut s, n, 10, 4);
        assert_eq!(s, format!("{:04}", n));
    }
    for n in [0u64, 0xdead_beef, u64::MAX] {
        let mut s = String::new();
        push_fixed_digits(&mut s, n, 16, 16);
        assert_eq!(s, format!("{:016x}", n));
    }
}

#[test]
fn colon_keys() {
    assert_eq!(colon_join2("a", "b"), b"a:b".to_vec());
    assert_eq!(colon_join3("r", "v1", "v2"), b"r:v1:v2".to_vec());
    assert_eq!(colon_join2("é", ""), "é:".as_bytes().to_vec());
}

#[test]
fn first_word_matches_split_whitespace() {
    for q in ["alice runtime", "  lead", "\u{3000}wide\u{2003}space", "", " \t\n", "one", "a\u{85}b"] {
        assert_eq!(first_word(q), q.split_whitespace().next());
    }
}

#[test]
fn whitespace_matches_std() {
    for v in 0u32..0x3100 {
        if let Some(c) = char::from_u32(v) {
            assert_eq!(is_whitespace(c), c.is_whitespace(), "{:?}", c);
        }
    }
}
