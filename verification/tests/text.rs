use playa::text::{chars_of, decimal, find_byte, find_char, parse_unsigned, string_of, trim, white_space};

#[test]
fn white_space_is_that_of_std() {
    for u in 0..=0x10ffffu32 {
        if let Some(c) = char::from_u32(u) {
            assert_eq!(white_space(c), c.is_whitespace(), "{:x}", u);
        }
    }
}

#[test]
fn trim_is_that_of_std() {
    let texts = [
        "", " ", "a", " a ", "\u{3000}a b\u{2003}", "\t\r\n", "x\u{a0}", "\u{85}\u{1680}x", "\u{200b}x\u{200b}",
        "\u{feff}y ", "  [00:01]  text  ",
    ];
    for t in texts.iter() {
        let chars = chars_of(t);
        assert_eq!(string_of(trim(&chars)), t.trim());
    }
}

#[test]
fn strings_and_characters_carry_over() {
    let t = "a\u{e9}\u{20ac}\u{1f600}\n";
    let chars = chars_of(t);
    assert_eq!(chars, vec!['a', '\u{e9}', '\u{20ac}', '\u{1f600}', '\n']);
    assert_eq!(string_of(&chars), t);
    assert_eq!(string_of(&[]), "");
}

#[test]
fn first_places_are_found() {
    assert_eq!(find_char(&['a', ']', 'b', ']'], ']'), 1);
    assert_eq!(find_char(&['a', 'b'], ']'), 2);
    assert_eq!(find_byte(b"12:34:56", b':'), 2);
    assert_eq!(find_byte(b"", b':'), 0);
}

#[test]
fn numbers_are_read_as_std_reads_them() {
    let texts = [
        "", "+", "-", "0", "00", "+0", "-0", "7", "+7", "++7", "007", "12a", " 1", "1 ", "1_000", "\u{661}",
        "18446744073709551615", "18446744073709551616", "18446744073709551620", "99999999999999999999999",
        "000000000000000000000000000000000000001", "+18446744073709551615", "1+", "1.5",
    ];
    for t in texts.iter() {
        assert_eq!(parse_unsigned(t.as_bytes()), t.parse::<u64>().ok(), "{}", t);
    }
}

#[test]
fn numbers_are_written_as_std_writes_them() {
    for n in [0u64, 1, 9, 10, 11, 99, 100, 215, 1000, 1234567890, u64::MAX].iter() {
        assert_eq!(decimal(*n), n.to_string());
        assert_eq!(parse_unsigned(decimal(*n).as_bytes()), Some(*n));
    }
}
