use xmlop_datatypes::strings::{
    is_name_char, is_name_start_char, validate_name_str, NameError, NameStr, NameString,
    ParseError, ParseErrorKind,
};

#[test]
fn parse_xml_name() {
    let s = NameStr::new("foo-bar").expect("Should never fail");
    let res = NameStr::nom_parse("foo-bar  ");
    assert_eq!(res, Ok(("  ", s)));

    let s = NameStr::new("foo:bar").expect("Should never fail");
    let res = NameStr::nom_parse("foo:bar  ");
    assert_eq!(res, Ok(("  ", s)));

    let res = NameStr::nom_parse(" foo");
    assert_eq!(
        res,
        Err(ParseError {
            input: " foo",
            kind: ParseErrorKind::Verify
        })
    );
}

#[test]
fn parse_xml_name_empty_input() {
    assert_eq!(
        NameStr::nom_parse(""),
        Err(ParseError {
            input: "",
            kind: ParseErrorKind::Eof
        })
    );
}

#[test]
fn parse_xml_name_whole_input() {
    let (rest, name) = NameStr::nom_parse("foo").expect("Should never fail");
    assert_eq!(rest, "");
    assert_eq!(name.as_str(), "foo");
}

#[test]
fn parse_xml_name_stops_before_invalid_char() {
    let (rest, name) = NameStr::nom_parse("\u{e9}t\u{e9}=1").expect("Should never fail");
    assert_eq!(rest, "=1");
    assert_eq!(name.as_str(), "\u{e9}t\u{e9}");
}

#[test]
fn parse_xml_name_start_char_only_first() {
    // A digit may stand in a name, but not start it.
    let (rest, name) = NameStr::nom_parse("a1-.b c").expect("Should never fail");
    assert_eq!(rest, " c");
    assert_eq!(name.as_str(), "a1-.b");
    assert_eq!(
        NameStr::nom_parse("1a"),
        Err(ParseError {
            input: "1a",
            kind: ParseErrorKind::Verify
        })
    );
}

#[test]
fn parse_owned_xml_name() {
    let (rest, name) = NameString::nom_parse("foo:bar  ").expect("Should never fail");
    assert_eq!(rest, "  ");
    assert_eq!(name.as_str(), "foo:bar");
    assert_eq!(
        NameString::nom_parse(" foo"),
        Err(ParseError {
            input: " foo",
            kind: ParseErrorKind::Verify
        })
    );
}

#[test]
fn name_start_chars() {
    for c in [':', 'A', 'Z', '_', 'a', 'z', '\u{C0}', '\u{D6}', '\u{D8}', '\u{F6}', '\u{F8}',
        '\u{2FF}', '\u{370}', '\u{37D}', '\u{37F}', '\u{1FFF}', '\u{200C}', '\u{200D}',
        '\u{2070}', '\u{218F}', '\u{2C00}', '\u{2FEF}', '\u{3001}', '\u{D7FF}', '\u{F900}',
        '\u{FDCF}', '\u{FDF0}', '\u{FFFD}', '\u{10000}', '\u{EFFFF}']
    {
        assert!(is_name_start_char(c), "{:?}", c);
        assert!(is_name_char(c), "{:?}", c);
    }
    for c in ['@', '[', '`', '{', '\u{BF}', '\u{D7}', '\u{F7}', '\u{300}', '\u{36F}',
        '\u{37E}', '\u{2000}', '\u{200B}', '\u{200E}', '\u{206F}', '\u{2190}', '\u{2BFF}',
        '\u{2FF0}', '\u{3000}', '\u{E000}', '\u{F8FF}', '\u{FDD0}', '\u{FDEF}', '\u{FFFE}',
        '\u{FFFF}', '\u{F0000}', '\u{10FFFF}', ' ', '"', '-', '.', '0', '9', '\u{B7}', '\0']
    {
        assert!(!is_name_start_char(c), "{:?}", c);
    }
}

#[test]
fn name_chars() {
    for c in ['-', '.', '0', '5', '9', '\u{B7}', '\u{300}', '\u{36F}', '\u{203F}', '\u{2040}'] {
        assert!(is_name_char(c), "{:?}", c);
        assert!(!is_name_start_char(c), "{:?}", c);
    }
    for c in [' ', '"', ',', '/', ';', '\u{B6}', '\u{B8}', '\u{37E}', '\u{203E}', '\u{2041}',
        '\u{E000}', '\u{F0000}', '\n']
    {
        assert!(!is_name_char(c), "{:?}", c);
    }
}

#[test]
fn validate_name_passes_through() {
    let s = "foo:bar";
    let v = validate_name_str(s).expect("Should never fail");
    assert_eq!(v, "foo:bar");
    assert!(std::ptr::eq(v, s));
}

#[test]
fn validate_name_empty() {
    assert_eq!(validate_name_str(""), Err(NameError::Empty));
}

#[test]
fn validate_name_invalid_start() {
    assert_eq!(validate_name_str("1abc"), Err(NameError::InvalidNameChar(0, '1')));
    assert_eq!(validate_name_str("-"), Err(NameError::InvalidNameChar(0, '-')));
    assert_eq!(validate_name_str(" foo"), Err(NameError::InvalidNameChar(0, ' ')));
}

#[test]
fn validate_name_invalid_later() {
    assert_eq!(
        validate_name_str("contains\"doublequote"),
        Err(NameError::InvalidNameChar(8, '"'))
    );
    assert_eq!(validate_name_str("a b c"), Err(NameError::InvalidNameChar(1, ' ')));
}

#[test]
fn validate_name_reports_byte_position() {
    // Each of the first two characters takes two bytes, the third one three.
    assert_eq!(
        validate_name_str("\u{e9}\u{e8}\u{3042} x"),
        Err(NameError::InvalidNameChar(7, ' '))
    );
    assert_eq!(
        validate_name_str("\u{10000}\u{d7}"),
        Err(NameError::InvalidNameChar(4, '\u{d7}'))
    );
}

#[test]
fn name_str_new() {
    let s1 = "foo:bar";
    let s2 = NameStr::new(s1).expect("Should never fail");
    assert_eq!(s1, s2.as_str());
    assert!(NameStr::new("contains\"doublequote").is_err());
    assert_eq!(NameStr::new(""), Err(NameError::Empty));
    assert_eq!(NameStr::new("1abc"), Err(NameError::InvalidNameChar(0, '1')));
}

#[test]
fn name_string_new() {
    let s1 = "foo:bar".to_owned();
    let s2 = NameString::new(s1.clone()).expect("Should never fail");
    assert_eq!(s1, s2.as_str());
    assert_eq!(s2.clone().into_inner(), s1);
    assert!(NameString::new("contains\"doublequote".to_owned()).is_err());
    assert_eq!(NameString::new(String::new()), Err(NameError::Empty));
}

#[test]
fn name_unchecked_constructors_keep_text() {
    assert_eq!(NameStr::from_str_unchecked("foo").as_str(), "foo");
    assert_eq!(NameString::new_unchecked("foo".to_owned()).as_str(), "foo");
}

#[test]
fn name_round_trips() {
    let v = NameStr::new("a:b-c").expect("Should never fail");
    let b = v.to_owned();
    assert_eq!(b.as_name_str().as_str(), v.as_str());
    assert_eq!(b.as_name_str(), v);
    assert_eq!(b.as_name_str().to_owned(), b);
}

#[test]
fn name_comparisons_follow_text() {
    let a = NameStr::new("abc").expect("Should never fail");
    let b = NameStr::new("abd").expect("Should never fail");
    let c = NameStr::new("ab").expect("Should never fail");
    assert!(a < b);
    assert!(c < a);
    assert!(b > c);
    assert_eq!(a.partial_cmp(&b), Some("abc".cmp("abd")));
    assert_eq!(a.partial_cmp(&b), Some(a.cmp(&b)));
    assert_eq!(a.partial_cmp(&a), Some(std::cmp::Ordering::Equal));
    assert!(a.to_owned() < b.to_owned());
    assert_eq!(a.to_owned().partial_cmp(&c.to_owned()), Some(std::cmp::Ordering::Greater));
    assert_eq!(a, NameStr::new("abc").expect("Should never fail"));
    assert_ne!(a, b);
    assert_ne!(a.to_owned(), b.to_owned());
}

#[test]
fn name_order_is_by_code_point() {
    // U+FF41 takes three bytes, U+10000 four: the order is that of the code points.
    let a = NameStr::new("a\u{FF41}").expect("Should never fail");
    let b = NameStr::new("a\u{10000}").expect("Should never fail");
    let c = NameStr::new("a\u{e9}").expect("Should never fail");
    assert!(a < b);
    assert!(c < a);
    assert_eq!(a.partial_cmp(&b), Some(std::cmp::Ordering::Less));
}

#[test]
fn name_error_messages() {
    assert_eq!(NameError::Empty.to_string(), "XML name string should not be empty");
    assert_eq!(
        NameError::InvalidNameChar(3, ':').to_string(),
        "Invalid name character at byte position 3: ':'"
    );
    assert_eq!(
        NameError::InvalidNameChar(120, '"').to_string(),
        "Invalid name character at byte position 120: '\"'"
    );
    assert_eq!(
        NameError::InvalidNameChar(0, '\n').to_string(),
        "Invalid name character at byte position 0: '\\n'"
    );
}

#[test]
fn name_str_borrows_its_input() {
    let s = String::from("foo:bar");
    let v = NameStr::new(&s).expect("Should never fail");
    assert!(std::ptr::eq(v.as_str(), s.as_str()));
    let w = NameStr::from_str_unchecked(&s);
    assert!(std::ptr::eq(w.as_str(), s.as_str()));
}

#[test]
fn name_string_keeps_its_input() {
    let s = String::from("foo:bar");
    let at = s.as_ptr();
    let b = NameString::new(s).expect("Should never fail");
    assert_eq!(b.as_str().as_ptr(), at);
    assert_eq!(b.as_name_str().as_str().as_ptr(), at);
    assert_eq!(b.into_inner().as_ptr(), at);
}

#[test]
fn name_equals_text_and_other_form() {
    let v = NameStr::new("foo:bar").expect("Should never fail");
    let b = v.to_owned();
    assert!(v == "foo:bar");
    assert!(v != "foo:baz");
    assert!(b == "foo:bar");
    assert!(b != "foo:ba");
    assert!(b == *"foo:bar");
    assert!(b == String::from("foo:bar"));
    assert!(b != String::from("foo"));
    assert!(v == b);
    assert!(b == v);
    let other = NameString::new("foo".to_owned()).expect("Should never fail");
    assert!(v != other);
    assert!(other != v);
}
