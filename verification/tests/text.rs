use tpt_certus::text::{append_decimal, decimal_chars, str_eq, str_lt, string_from_chars};

#[test]
fn decimal_rendering() {
    let mut s = String::from("n=");
    append_decimal(&mut s, 0);
    assert_eq!(s, "n=0");
    let mut s = String::new();
    append_decimal(&mut s, 4_294_967_295);
    assert_eq!(s, "4294967295");
    assert_eq!(decimal_chars(u64::MAX).iter().collect::<String>(), u64::MAX.to_string());
    assert_eq!(string_from_chars(&vec!['a', 'ß', 'c']), "aßc");
}

#[test]
fn lexicographic_order_matches_str_order() {
    let words = ["", "a", "ab", "b", "ba", "slab_hit_decided", "boundary_min_x", "ä", "z"];
    for x in words {
        for y in words {
            assert_eq!(str_lt(x, y), x < y, "{x:?} < {y:?}");
            assert_eq!(str_eq(x, y), x == y);
        }
    }
}
