use promptops_arena_backend::format::{push_decimal, push_hex_digits, push_zero_padded_decimal};

#[test]
fn decimal_rendering_matches_format() {
    for n in [0u64, 7, 10, 99, 1000, 4096, u64::MAX] {
        let mut s = String::from("x");
        push_decimal(&mut s, n);
        assert_eq!(s, format!("x{n}"));
    }
}

#[test]
fn zero_padding_matches_format() {
    for n in [0u64, 7, 42, 999, 1234, 98765] {
        let mut s = String::new();
        push_zero_padded_decimal(&mut s, n, 4);
        assert_eq!(s, format!("{n:04}"));
    }
}

#[test]
fn hexadecimal_rendering_matches_format() {
    for n in [0u64, 1, 0xabc, 0xdead_beef, u64::MAX] {
        let mut s = String::new();
        push_hex_digits(&mut s, n, 16);
        assert_eq!(s, format!("{n:016x}"));
    }
    let mut s = String::new();
    push_hex_digits(&mut s, 0x1234, 2);
    assert_eq!(s, "34");
}
