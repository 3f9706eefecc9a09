//! QName string types.

use std::cmp::Ordering;
use vstd::prelude::*;
use vstd::std_specs::cmp::{PartialEqSpecImpl, PartialOrdSpecImpl};
use vstd::string::StringExecFns;

use crate::strings::ncname::{is_ncname, NcnameStr, NcnameString};
use crate::strings::order::{text_cmp, text_order};
use crate::strings::parse::{
    any_char, lemma_token_is_name, lemma_token_len_of_name, token_char, token_len, ParseError,
    ParseErrorKind,
};

verus! {

/// What a qualified name holds: the text of its prefix, if it has one,
/// and that of its local part.
pub struct QnameView {
    /// Prefix part.
    pub prefix: Option<Seq<char>>,
    /// Local part.
    pub local: Seq<char>,
}

impl QnameView {
    /// The name as it is written: the prefix and a colon, if there is a
    /// prefix, then the local part.
    pub open spec fn text(self) -> Seq<char> {
        match self.prefix {
            Some(prefix) => prefix + seq![':'] + self.local,
            None => self.local,
        }
    }

    /// Both parts are an `NCName`.
    pub open spec fn well_formed(self) -> bool {
        &&& is_ncname(self.local)
        &&& self.prefix matches Some(prefix) ==> is_ncname(prefix)
    }
}

/// The text of an optional name.
pub open spec fn optional_text(name: Option<NcnameString>) -> Option<Seq<char>> {
    match name {
        Some(name) => Some(name@),
        None => None,
    }
}

/// How two qualified names are ordered: by their prefixes, a name without
/// one first, and where those are equal by their local parts.
pub open spec fn qname_order(a: QnameView, b: QnameView) -> Ordering {
    let by_prefix = match (a.prefix, b.prefix) {
        (None, None) => Ordering::Equal,
        (None, Some(_)) => Ordering::Less,
        (Some(_), None) => Ordering::Greater,
        (Some(p), Some(q)) => text_order(p, q),
    };
    match by_prefix {
        Ordering::Equal => text_order(a.local, b.local),
        unequal => unequal,
    }
}

/// QName.
#[derive(Debug, Eq, Ord, Hash)]
pub struct Qname {
    /// Prefix part.
    prefix: Option<NcnameString>,
    /// Local part.
    local: NcnameString,
}

impl View for Qname {
    type V = QnameView;

    closed spec fn view(&self) -> QnameView {
        QnameView { prefix: optional_text(self.prefix), local: self.local@ }
    }
}

impl PartialEq for Qname {
    fn eq(&self, other: &Self) -> (r: bool) {
        let same_prefix = match (&self.prefix, &other.prefix) {
            (Some(a), Some(b)) => a == b,
            (None, None) => true,
            _ => false,
        };
        same_prefix && self.local == other.local
    }
}

impl PartialEqSpecImpl for Qname {
    open spec fn obeys_eq_spec() -> bool {
        true
    }

    /// Two qualified names are equal where they hold the same texts.
    open spec fn eq_spec(&self, other: &Self) -> bool {
        self@ == other@
    }
}

impl PartialOrd for Qname {
    fn partial_cmp(&self, other: &Self) -> (r: Option<Ordering>) {
        let by_prefix = match (&self.prefix, &other.prefix) {
            (None, None) => Ordering::Equal,
            (None, Some(_)) => Ordering::Less,
            (Some(_), None) => Ordering::Greater,
            (Some(p), Some(q)) => text_cmp(p.as_str(), q.as_str()),
        };
        match by_prefix {
            Ordering::Equal => Some(text_cmp(self.local.as_str(), other.local.as_str())),
            unequal => Some(unequal),
        }
    }
}

impl PartialOrdSpecImpl for Qname {
    open spec fn obeys_partial_cmp_spec() -> bool {
        true
    }

    /// Two qualified names are ordered as what they hold is.
    open spec fn partial_cmp_spec(&self, other: &Self) -> Option<Ordering> {
        Some(qname_order(self@, other@))
    }
}

impl Clone for Qname {
    fn clone(&self) -> (r: Self)
        ensures
            r@ == self@,
    {
        let prefix = match &self.prefix {
            Some(prefix) => Some(prefix.clone()),
            None => None,
        };
        Qname { prefix, local: self.local.clone() }
    }
}

/// The qualified name at the start of `s` and the number of characters
/// it takes: an `NCName`, and where a colon follows it, a second one after
/// the colon, which must then be there.
pub open spec fn qname_token(s: Seq<char>) -> Option<(QnameView, nat)> {
    match token_len(s, false) {
        Err(_) => None,
        Ok(n) => {
            if n < s.len() && s[n as int] == ':' {
                match token_len(s.skip(n as int + 1), false) {
                    Err(_) => None,
                    Ok(m) => Some(
                        (
                            QnameView {
                                prefix: Some(s.take(n as int)),
                                local: s.subrange(n as int + 1, n as int + 1 + m as int),
                            },
                            n + 1 + m,
                        ),
                    ),
                }
            } else {
                Some((QnameView { prefix: None, local: s.take(n as int) }, n))
            }
        },
    }
}

impl Qname {
    /// Creates a new `Qname` from the given optional prefix and local part.
    pub fn new(prefix: Option<NcnameString>, local: NcnameString) -> (r: Qname)
        ensures
            r@ == (QnameView { prefix: optional_text(prefix), local: local@ }),
    {
        Qname { prefix, local }
    }

    /// Creates a new `Qname` from the given prefix and local part.
    pub fn from_prefix_and_local(prefix: NcnameString, local: NcnameString) -> (r: Qname)
        ensures
            r@ == (QnameView { prefix: Some(prefix@), local: local@ }),
    {
        Qname { prefix: Some(prefix), local }
    }

    /// Creates a new `Qname` from the given local part.
    pub fn from_local(local: NcnameString) -> (r: Qname)
        ensures
            r@ == (QnameView { prefix: None, local: local@ }),
    {
        Qname { prefix: None, local }
    }

    /// Returns the prefix if available.
    pub fn prefix(&self) -> (r: Option<NcnameStr<'_>>)
        ensures
            match r {
                Some(prefix) => self@.prefix == Some(prefix@),
                None => self@.prefix is None,
            },
    {
        match &self.prefix {
            Some(prefix) => Some(prefix.as_name_str()),
            None => None,
        }
    }

    /// Returns the local part.
    pub fn local(&self) -> (r: NcnameStr<'_>)
        ensures
            r@ == self@.local,
    {
        self.local.as_name_str()
    }

    /// Deconstructs `self` into prefix and local part.
    pub fn deconstruct(self) -> (r: (Option<NcnameString>, NcnameString))
        ensures
            optional_text(r.0) == self@.prefix,
            r.1@ == self@.local,
    {
        (self.prefix, self.local)
    }

    /// Writes the name out: `prefix:local`, or `local` alone.
    pub fn to_string(&self) -> (r: String)
        ensures
            r@ == self@.text(),
    {
        match &self.prefix {
            Some(prefix) => {
                let mut text = String::from_str(prefix.as_str());
                proof {
                    reveal_strlit(":");
                }
                text.append(":");
                text.append(self.local.as_str());
                assert(":"@ =~= seq![':']);
                text
            },
            None => String::from_str(self.local.as_str()),
        }
    }

    /// Recognizes a qualified name at the start of `input`: gives the rest
    /// of the text and the name, or fails, having consumed nothing. A
    /// colon after the first `NCName` commits to the two-part form.
    pub fn nom_parse<'a>(input: &'a str) -> (r: Result<(&'a str, Qname), ParseError<'a>>)
        ensures
            match qname_token(input@) {
                Some((name, n)) => r is Ok && r->Ok_0.0@ == input@.skip(n as int) && r->Ok_0.1@
                    == name,
                None => r == Err::<(&'a str, Qname), ParseError<'a>>(
                    (ParseError { input, kind: ParseErrorKind::Alt }),
                ),
            },
    {
        let (rest, first) = match NcnameString::nom_parse(input) {
            Ok(found) => found,
            Err(_) => {
                return Err(ParseError { input, kind: ParseErrorKind::Alt });
            },
        };
        proof {
            lemma_token_is_name(input@, false);
        }
        match any_char(rest) {
            Some((after, ':')) => {
                match NcnameString::nom_parse(after) {
                    Ok((rest, second)) => {
                        proof {
                            let n = token_len(input@, false)->Ok_0 as int;
                            let m = token_len(after@, false)->Ok_0 as int;
                            lemma_token_is_name(after@, false);
                            assert(after@ =~= input@.skip(n + 1));
                            assert(after@.skip(m) =~= input@.skip(n + 1 + m));
                            assert(after@.take(m) =~= input@.subrange(n + 1, n + 1 + m));
                        }
                        Ok((rest, Qname::from_prefix_and_local(first, second)))
                    },
                    Err(_) => {
                        proof {
                            let n = token_len(input@, false)->Ok_0 as int;
                            assert(after@ =~= input@.skip(n + 1));
                        }
                        Err(ParseError { input, kind: ParseErrorKind::Alt })
                    },
                }
            },
            _ => Ok((rest, Qname::from_local(first))),
        }
    }
}

/// What is recognized at the start of `s` is well formed and is written
/// as the text that was consumed.
pub proof fn lemma_qname_token(s: Seq<char>)
    requires
        qname_token(s) is Some,
    ensures
        qname_token(s)->Some_0.0.well_formed(),
        qname_token(s)->Some_0.1 <= s.len(),
        qname_token(s)->Some_0.0.text() == s.take(qname_token(s)->Some_0.1 as int),
{
    lemma_token_is_name(s, false);
    let n = token_len(s, false)->Ok_0 as int;
    if n < s.len() && s[n] == ':' {
        let after = s.skip(n + 1);
        lemma_token_is_name(after, false);
        let m = token_len(after, false)->Ok_0 as int;
        assert(after.take(m) =~= s.subrange(n + 1, n + 1 + m));
        assert(s.take(n) + seq![':'] + s.subrange(n + 1, n + 1 + m) =~= s.take(n + 1 + m));
    }
}

/// Recognition reads back what was written: a well-formed name, written
/// out and followed by text that cannot continue it, is recognized as
/// that name, and the text that follows is left.
pub proof fn lemma_qname_round_trip(name: QnameView, rest: Seq<char>)
    requires
        name.well_formed(),
        rest.len() > 0 ==> !token_char(rest[0], false),
        rest.len() > 0 && name.prefix is None ==> rest[0] != ':',
    ensures
        qname_token(name.text() + rest) == Some((name, name.text().len())),
{
    let s = name.text() + rest;
    match name.prefix {
        Some(prefix) => {
            let tail = seq![':'] + name.local + rest;
            let n = prefix.len() as int;
            assert(s =~= prefix + tail);
            lemma_token_len_of_name(prefix, tail, false);
            assert(s[n] == ':');
            assert(s.skip(n + 1) =~= name.local + rest);
            lemma_token_len_of_name(name.local, rest, false);
            let m = name.local.len() as int;
            assert(s.take(n) =~= prefix);
            assert(s.subrange(n + 1, n + 1 + m) =~= name.local);
        },
        None => {
            lemma_token_len_of_name(name.local, rest, false);
            let n = name.local.len() as int;
            assert(s.take(n) =~= name.local);
            if n < s.len() {
                assert(s[n] == rest[0]);
            }
        },
    }
}

/// A name with a prefix is written as the prefix, a colon and the local
/// part; one without as the local part alone.
pub proof fn lemma_text(prefix: Seq<char>, local: Seq<char>)
    ensures
        (QnameView { prefix: Some(prefix), local }).text() == prefix + seq![':'] + local,
        (QnameView { prefix: None, local }).text() == local,
{
}

} // verus!
