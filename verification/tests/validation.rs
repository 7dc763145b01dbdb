use user_directory::validation::{
    char_is_whitespace, is_acceptable_name, is_well_formed_address, same_address,
};

#[test]
fn blanks_are_recognised() {
    for c in [' ', '\t', '\n', '\u{0b}', '\u{0c}', '\r', '\u{85}', '\u{a0}', '\u{1680}'] {
        assert!(char_is_whitespace(c), "{:?}", c);
    }
    for c in ['\u{2000}', '\u{2005}', '\u{200a}', '\u{2028}', '\u{2029}', '\u{202f}', '\u{205f}', '\u{3000}'] {
        assert!(char_is_whitespace(c), "{:?}", c);
    }
    for c in ['a', 'Z', '0', '@', '.', '\u{08}', '\u{0e}', '\u{200b}', '\u{1fff}', '\u{feff}'] {
        assert!(!char_is_whitespace(c), "{:?}", c);
    }
}

#[test]
fn blanks_agree_with_the_standard_library() {
    let mut n: u32 = 0;
    while n <= 0x10ffff {
        if let Some(c) = char::from_u32(n) {
            assert_eq!(char_is_whitespace(c), c.is_whitespace(), "U+{:04X}", n);
        }
        n += 1;
    }
}

#[test]
fn same_address_ignores_ascii_case() {
    assert!(same_address("Alice@Example.com", "alice@example.com"));
    assert!(same_address("ALICE@EXAMPLE.COM", "alice@example.com"));
    assert!(same_address("alice@example.com", "alice@example.com"));
    assert!(same_address("", ""));
    assert!(!same_address("alice@example.com", "alice@example.org"));
    assert!(!same_address("alice@example.com", "alice@example.co"));
    assert!(!same_address("alice@example.com", "lice@example.com"));
    assert!(!same_address("a@b", ""));
}

#[test]
fn same_address_ignores_case_beyond_ascii() {
    assert!(same_address("\u{c9}ric@x.fr", "\u{e9}ric@x.fr"));
    assert!(same_address("\u{c9}@x", "\u{e9}@x"));
    assert!(same_address("\u{391}\u{392}\u{393}@x.gr", "\u{3b1}\u{3b2}\u{3b3}@x.gr"));
    assert!(same_address("\u{416}\u{415}\u{41d}\u{42f}@x.ru", "\u{436}\u{435}\u{43d}\u{44f}@x.ru"));
    assert!(same_address("\u{d6}L@X.DE", "\u{f6}l@x.de"));
    assert!(!same_address("\u{e9}ric@x.fr", "eric@x.fr"));
    assert!(!same_address("\u{c9}@x", "\u{c8}@x"));
}

#[test]
fn same_address_goes_by_the_lowercase_form() {
    let texts = [
        "", "a@b", "A@B", "\u{c9}@x", "\u{e9}@x", "Stra\u{df}e@x.de", "STRASSE@x.de",
        "\u{130}@x", "i\u{307}@x", "\u{3a3}@x", "\u{3c3}@x", "\u{3c2}@x", "\u{1c4}@x",
        "\u{1c6}@x", "ss@x", "\u{212a}@x", "k@x",
    ];
    for a in texts {
        for b in texts {
            assert_eq!(same_address(a, b), a.to_lowercase() == b.to_lowercase(), "{:?} {:?}", a, b);
        }
        assert!(same_address(a, &a.to_lowercase()));
        assert!(same_address(a, a));
    }
}

#[test]
fn names_need_a_visible_character() {
    assert!(is_acceptable_name("Alice"));
    assert!(is_acceptable_name("  Alice  "));
    assert!(is_acceptable_name("\t x"));
    assert!(is_acceptable_name("x"));
    assert!(!is_acceptable_name(""));
    assert!(!is_acceptable_name(" "));
    assert!(!is_acceptable_name(" \t\r\n "));
    assert!(!is_acceptable_name("\u{3000}\u{a0}"));
}

#[test]
fn names_agree_with_trimming() {
    for name in ["", " ", "a", " a", "a ", "\u{2003}", "\u{2003}b\u{2003}", "\n\n", "\u{200b}"] {
        assert_eq!(is_acceptable_name(name), !name.trim().is_empty(), "{:?}", name);
    }
}

#[test]
fn addresses_have_one_separator_between_two_parts() {
    assert!(is_well_formed_address("a@b.com"));
    assert!(is_well_formed_address("a@b"));
    assert!(is_well_formed_address("Alice@Example.com"));
    assert!(is_well_formed_address("first.last+tag@sub.example.org"));
    assert!(!is_well_formed_address(""));
    assert!(!is_well_formed_address("@"));
    assert!(!is_well_formed_address("ab"));
    assert!(!is_well_formed_address("alice.example.com"));
    assert!(!is_well_formed_address("@b.com"));
    assert!(!is_well_formed_address("a@"));
    assert!(!is_well_formed_address("a@@b"));
    assert!(!is_well_formed_address("a@b@c"));
    assert!(!is_well_formed_address("@a@"));
}

#[test]
fn addresses_hold_no_blank() {
    assert!(!is_well_formed_address("a b@c.com"));
    assert!(!is_well_formed_address(" a@b.com"));
    assert!(!is_well_formed_address("a@b.com "));
    assert!(!is_well_formed_address("a@b\t.com"));
    assert!(!is_well_formed_address("a@\u{3000}b"));
    assert!(!is_well_formed_address("a@b.com\n"));
}

#[test]
fn shape_does_not_depend_on_case() {
    for text in ["A@B.COM", "a@b.com", "NoSeparator", "TWO@@AT", "X@y", "@Z", "Q @r", "\u{c9}@X", "\u{130}@x"] {
        assert_eq!(
            is_well_formed_address(text),
            is_well_formed_address(&text.to_lowercase()),
            "{:?}",
            text
        );
    }
}
