use wordle::word::ascii_upper;
use wordle::word::is_ascii_letter;
use wordle::Word;

#[test]
fn parse_takes_five_letters_of_either_case() {
    let upper = Word::parse("CRANE").unwrap();
    assert_eq!(upper.letters(), ['C', 'R', 'A', 'N', 'E']);
    assert_eq!(Word::parse("crane").unwrap(), upper);
    assert_eq!(Word::parse("cRaNe").unwrap(), upper);
}

#[test]
fn parse_refuses_any_other_length() {
    assert!(Word::parse("").is_none());
    assert!(Word::parse("CRAN").is_none());
    assert!(Word::parse("CRANES").is_none());
}

#[test]
fn parse_refuses_what_is_no_ascii_letter() {
    assert!(Word::parse("CR4NE").is_none());
    assert!(Word::parse("CRAN ").is_none());
    assert!(Word::parse("CRAN!").is_none());
    assert!(Word::parse("[CRA]").is_none());
    assert!(Word::parse("@RANE").is_none());
    assert!(Word::parse("`rane").is_none());
    assert!(Word::parse("{rane").is_none());
    assert!(Word::parse("CRÄNE").is_none());
    assert!(Word::parse("ÉCOLE").is_none());
}

#[test]
fn parse_counts_characters_not_bytes() {
    // Five characters in more than five bytes, and five bytes in fewer characters.
    assert!(Word::parse("ÀÉÎÕÜ").is_none());
    assert!(Word::parse("ABCÉ").is_none());
}

#[test]
fn text_gives_the_letters_back() {
    assert_eq!(Word::parse("speed").unwrap().text(), "SPEED");
    assert_eq!(Word::parse("AZAZA").unwrap().text(), "AZAZA");
}

#[test]
fn same_compares_letter_by_letter() {
    let crane = Word::parse("CRANE").unwrap();
    assert!(crane.same(&Word::parse("crane").unwrap()));
    assert!(!crane.same(&Word::parse("CRANK").unwrap()));
    assert!(!crane.same(&Word::parse("BRANE").unwrap()));
}

#[test]
fn letters_are_a_to_z_in_either_case() {
    for c in 'A'..='Z' {
        assert!(is_ascii_letter(c));
    }
    for c in 'a'..='z' {
        assert!(is_ascii_letter(c));
    }
    for c in ['@', '[', '`', '{', '0', '9', ' ', '\n', 'é', 'Σ', '\u{0}'] {
        assert!(!is_ascii_letter(c));
    }
}

#[test]
fn upper_casing_moves_lower_case_letters_only() {
    assert_eq!(ascii_upper('a'), 'A');
    assert_eq!(ascii_upper('m'), 'M');
    assert_eq!(ascii_upper('z'), 'Z');
    assert_eq!(ascii_upper('A'), 'A');
    assert_eq!(ascii_upper('Z'), 'Z');
    assert_eq!(ascii_upper('`'), '`');
    assert_eq!(ascii_upper('{'), '{');
    assert_eq!(ascii_upper('7'), '7');
    assert_eq!(ascii_upper('é'), 'é');
    for c in 'a'..='z' {
        assert_eq!(ascii_upper(c), c.to_ascii_uppercase());
    }
}
