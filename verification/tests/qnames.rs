use xmlop_datatypes::strings::{NcnameString, ParseError, ParseErrorKind, Qname};

fn ncname(s: &str) -> NcnameString {
    NcnameString::new(s.to_owned()).expect("Should never fail")
}

#[test]
fn qname_with_prefix() {
    let q = Qname::from_prefix_and_local(ncname("foo"), ncname("bar"));
    assert_eq!(q.prefix().map(|p| p.as_str()), Some("foo"));
    assert_eq!(q.local().as_str(), "bar");
    assert_eq!(q.to_string(), "foo:bar");
    assert_eq!(q, Qname::new(Some(ncname("foo")), ncname("bar")));
}

#[test]
fn qname_without_prefix() {
    let q = Qname::from_local(ncname("bar"));
    assert!(q.prefix().is_none());
    assert_eq!(q.local().as_str(), "bar");
    assert_eq!(q.to_string(), "bar");
    assert_eq!(q, Qname::new(None, ncname("bar")));
}

#[test]
fn qname_deconstruct() {
    let q = Qname::from_prefix_and_local(ncname("p"), ncname("l"));
    assert_eq!(q.clone().deconstruct(), (Some(ncname("p")), ncname("l")));
    assert_eq!(Qname::from_local(ncname("l")).deconstruct(), (None, ncname("l")));
}

#[test]
fn parse_qname_with_prefix() {
    let (rest, q) = Qname::nom_parse("foo:bar  ").expect("Should never fail");
    assert_eq!(rest, "  ");
    assert_eq!(q.prefix().map(|p| p.as_str()), Some("foo"));
    assert_eq!(q.local().as_str(), "bar");
}

#[test]
fn parse_qname_without_prefix() {
    let (rest, q) = Qname::nom_parse("foo-bar  ").expect("Should never fail");
    assert_eq!(rest, "  ");
    assert_eq!(q, Qname::from_local(ncname("foo-bar")));
    let (rest, q) = Qname::nom_parse("foo").expect("Should never fail");
    assert_eq!(rest, "");
    assert_eq!(q, Qname::from_local(ncname("foo")));
}

#[test]
fn parse_qname_second_colon_is_left() {
    let (rest, q) = Qname::nom_parse("a:b:c").expect("Should never fail");
    assert_eq!(rest, ":c");
    assert_eq!(q, Qname::from_prefix_and_local(ncname("a"), ncname("b")));
}

#[test]
fn parse_qname_counts_characters_not_bytes() {
    let (rest, q) = Qname::nom_parse("\u{3042}\u{e9}:\u{e8}x>").expect("Should never fail");
    assert_eq!(rest, ">");
    assert_eq!(q.to_string(), "\u{3042}\u{e9}:\u{e8}x");
}

#[test]
fn parse_qname_fails_without_start() {
    for input in ["", " foo", ":foo", "1a"] {
        assert_eq!(
            Qname::nom_parse(input),
            Err(ParseError {
                input,
                kind: ParseErrorKind::Alt
            })
        );
    }
}

#[test]
fn parse_qname_fails_after_dangling_colon() {
    for input in ["foo:", "foo: bar", "foo::bar", "foo:1"] {
        assert_eq!(
            Qname::nom_parse(input),
            Err(ParseError {
                input,
                kind: ParseErrorKind::Alt
            })
        );
    }
}

#[test]
fn parse_display_round_trip() {
    let q = Qname::from_prefix_and_local(ncname("xs"), ncname("string"));
    let text = q.to_string();
    assert_eq!(Qname::nom_parse(&text), Ok(("", q)));
}

#[test]
fn qname_equality_follows_parts() {
    let q = Qname::from_prefix_and_local(ncname("a"), ncname("b"));
    assert_eq!(q, q.clone());
    assert_ne!(q, Qname::from_local(ncname("b")));
    assert_ne!(q, Qname::from_prefix_and_local(ncname("a"), ncname("c")));
    assert_ne!(q, Qname::from_prefix_and_local(ncname("c"), ncname("b")));
    assert_eq!(Qname::from_local(ncname("b")), Qname::from_local(ncname("b")));
}

#[test]
fn qname_order_prefix_then_local() {
    let none_z = Qname::from_local(ncname("z"));
    let a_b = Qname::from_prefix_and_local(ncname("a"), ncname("b"));
    let a_c = Qname::from_prefix_and_local(ncname("a"), ncname("c"));
    let b_a = Qname::from_prefix_and_local(ncname("b"), ncname("a"));
    assert!(none_z < a_b);
    assert!(a_b < a_c);
    assert!(a_c < b_a);
    assert!(b_a > none_z);
    assert_eq!(a_b.partial_cmp(&a_b), Some(std::cmp::Ordering::Equal));
    assert_eq!(a_b.partial_cmp(&a_c), Some(a_b.cmp(&a_c)));
    assert_eq!(none_z.partial_cmp(&b_a), Some(none_z.cmp(&b_a)));
}
