use ql_link_lab::text::{decimal, hex, last_part, trim};

#[test]
fn hexadecimal_digits() {
    assert_eq!(hex(0, 0), "");
    assert_eq!(hex(0x1f, 2), "1f");
    assert_eq!(hex(0x1f, 4), "001f");
    assert_eq!(hex(0x12f, 2), "2f");
    assert_eq!(hex(u128::MAX, 32), "f".repeat(32));
}

#[test]
fn decimal_numbers() {
    for n in [0, 9, 10, 105, 4_294_967_296, u128::MAX] {
        assert_eq!(decimal(n), n.to_string());
    }
}

#[test]
fn white_space_is_what_std_says() {
    for c in (0..=0x10ffff).filter_map(char::from_u32) {
        let s = format!("{c}x{c}");
        assert_eq!(trim(&s), s.trim());
    }
}

#[test]
fn trimming() {
    for s in ["", " ", " a", "a ", "  a b  ", "\u{2003}é\u{2003}", "\t\n"] {
        assert_eq!(trim(s), s.trim());
    }
}

#[test]
fn the_part_after_the_last_mark() {
    for s in ["", ":", "a", "a:", ":a", "a:b:c", "ä:ö:ü", "::"] {
        assert_eq!(last_part(s, ':'), s.rsplit(':').next().unwrap());
    }
}
