//! Recognition of a name at the start of a longer text.

use vstd::prelude::*;
use vstd::string::StrSliceExecFns;

use crate::strings::bytes::char_count_bound;
use crate::strings::name::{
    is_name, is_name_char, is_name_start_char, name_char, name_char_at, name_start_char,
};
use crate::strings::ncname::{is_ncname, is_ncname_char, is_ncname_start_char};

verus! {

/// Why no name was recognized.
#[derive(Debug, Clone, Copy, PartialEq, Eq, Structural, Hash)]
pub enum ParseErrorKind {
    /// The text is empty.
    Eof,
    /// The first character cannot start the name.
    Verify,
    /// No form of a qualified name fits.
    Alt,
}

/// A failed recognition: the text it was tried on, of which nothing was
/// consumed, and why it failed.
#[derive(Debug, Clone, Copy, PartialEq, Eq, Hash)]
pub struct ParseError<'a> {
    /// The text on which recognition was tried.
    pub input: &'a str,
    /// Why it failed.
    pub kind: ParseErrorKind,
}

/// Whether `c` may start a name; `colon` tells whether a colon counts
/// (`Name`) or not (`NCName`).
pub open spec fn token_start_char(c: char, colon: bool) -> bool {
    name_start_char(c) && (colon || c != ':')
}

/// Whether `c` may stand in a name; `colon` tells whether a colon counts
/// (`Name`) or not (`NCName`).
pub open spec fn token_char(c: char, colon: bool) -> bool {
    name_char(c) && (colon || c != ':')
}

/// How many characters at the start of `s` may stand in a name.
pub open spec fn run_len(s: Seq<char>, colon: bool) -> nat
    decreases s.len(),
{
    if s.len() > 0 && token_char(s[0], colon) {
        1 + run_len(s.drop_first(), colon)
    } else {
        0
    }
}

/// The length of the name at the start of `s`, which is the longest one,
/// or why there is none.
pub open spec fn token_len(s: Seq<char>, colon: bool) -> Result<nat, ParseErrorKind> {
    if s.len() == 0 {
        Err(ParseErrorKind::Eof)
    } else if !token_start_char(s[0], colon) {
        Err(ParseErrorKind::Verify)
    } else {
        Ok(run_len(s, colon))
    }
}

/// The run at the start of `s` lies within `s`, holds only characters
/// that may stand in a name, and ends at the end of `s` or before a
/// character that may not.
pub proof fn lemma_run_len(s: Seq<char>, colon: bool)
    ensures
        run_len(s, colon) <= s.len(),
        forall|i: int| 0 <= i < run_len(s, colon) ==> token_char(#[trigger] s[i], colon),
        run_len(s, colon) < s.len() ==> !token_char(s[run_len(s, colon) as int], colon),
    decreases s.len(),
{
    if s.len() > 0 && token_char(s[0], colon) {
        let t = s.drop_first();
        lemma_run_len(t, colon);
        assert forall|i: int| 0 <= i < run_len(s, colon) implies token_char(
            #[trigger] s[i],
            colon,
        ) by {
            if i > 0 {
                assert(s[i] == t[i - 1]);
            }
        }
        if run_len(s, colon) < s.len() {
            assert(s[run_len(s, colon) as int] == t[run_len(t, colon) as int]);
        }
    }
}

/// The run at the start of `s` is the only length of which that holds.
pub proof fn lemma_run_len_unique(s: Seq<char>, colon: bool, n: int)
    requires
        0 <= n <= s.len(),
        forall|i: int| 0 <= i < n ==> token_char(#[trigger] s[i], colon),
        n < s.len() ==> !token_char(s[n], colon),
    ensures
        run_len(s, colon) == n,
    decreases n,
{
    if n > 0 {
        let t = s.drop_first();
        assert(token_char(s[0], colon));
        assert forall|i: int| 0 <= i < n - 1 implies token_char(#[trigger] t[i], colon) by {
            assert(t[i] == s[i + 1]);
        }
        if n - 1 < t.len() {
            assert(t[n - 1] == s[n]);
        }
        lemma_run_len_unique(t, colon, n - 1);
    }
}

/// A `Name`, and without colons an `NCName`, is recognized whole at the
/// start of a text that goes on with no character that may stand in it.
pub proof fn lemma_token_len_of_name(name: Seq<char>, rest: Seq<char>, colon: bool)
    requires
        if colon {
            is_name(name)
        } else {
            is_ncname(name)
        },
        rest.len() > 0 ==> !token_char(rest[0], colon),
    ensures
        token_len(name + rest, colon) == Ok::<nat, ParseErrorKind>(name.len()),
{
    let s = name + rest;
    assert(name_char_at(name, 0));
    assert(s[0] == name[0]);
    assert forall|i: int| 0 <= i < name.len() implies token_char(#[trigger] s[i], colon) by {
        assert(s[i] == name[i]);
        assert(name_char_at(name, i));
    }
    if name.len() < s.len() {
        assert(s[name.len() as int] == rest[0]);
    }
    lemma_run_len_unique(s, colon, name.len() as int);
}

/// The name that is recognized at the start of `s` is a `Name`, and
/// without colons an `NCName`; it is not empty.
pub proof fn lemma_token_is_name(s: Seq<char>, colon: bool)
    requires
        token_len(s, colon) is Ok,
    ensures
        0 < token_len(s, colon)->Ok_0 <= s.len(),
        is_name(s.take(token_len(s, colon)->Ok_0 as int)),
        !colon ==> is_ncname(s.take(token_len(s, colon)->Ok_0 as int)),
{
    lemma_run_len(s, colon);
    let n = run_len(s, colon) as int;
    let t = s.take(n);
    assert forall|i: int| 0 <= i < t.len() implies name_char_at(t, i) && (!colon ==> t[i] != ':') by {
        assert(t[i] == s[i]);
        assert(token_char(s[i], colon));
    }
}

/// `nom::anychar` on a complete text: the rest of `input` after its first
/// character, and that character; `None` where `input` is empty.
#[verifier::external_body]
pub(crate) fn any_char(input: &str) -> (r: Option<(&str, char)>)
    ensures
        input@.len() == 0 ==> r is None,
        input@.len() > 0 ==> r is Some && r->Some_0.0@ == input@.skip(1) && r->Some_0.1
            == input@[0],
{
    match nom::anychar(nom::types::CompleteStr(input)) {
        Ok((rest, c)) => Some((rest.0, c)),
        Err(_) => None,
    }
}

/// Passes over the characters at the start of `input` that may stand in
/// a name: gives their number and the rest of the text.
pub fn skip_name_chars<'a>(input: &'a str, colon: bool) -> (r: (usize, &'a str))
    ensures
        r.0 == run_len(input@, colon),
        r.1@ == input@.skip(r.0 as int),
{
    let bound: usize = char_count_bound(input);
    let mut rest = input;
    let mut n: usize = 0;
    loop
        invariant
            n <= input@.len() <= bound,
            rest@ == input@.skip(n as int),
            run_len(input@, colon) == n + run_len(rest@, colon),
        decreases input@.len() - n,
    {
        match any_char(rest) {
            None => {
                return (n, rest);
            },
            Some((next, c)) => {
                let fits = if colon {
                    is_name_char(c)
                } else {
                    is_ncname_char(c)
                };
                if !fits {
                    return (n, rest);
                }
                assert(rest@.drop_first() =~= rest@.skip(1));
                assert(next@ =~= input@.skip(n + 1));
                rest = next;
                n += 1;
            },
        }
    }
}

/// Splits `input` after the name at its start: gives the rest and the
/// name, or fails where `input` does not start with a name.
pub fn split_token<'a>(input: &'a str, colon: bool) -> (r: Result<(&'a str, &'a str), ParseError<'a>>)
    ensures
        match token_len(input@, colon) {
            Ok(n) => r is Ok && r->Ok_0.0@ == input@.skip(n as int) && r->Ok_0.1@ == input@.take(
                n as int,
            ),
            Err(kind) => r == Err::<(&'a str, &'a str), ParseError<'a>>(
                (ParseError { input, kind }),
            ),
        },
{
    match any_char(input) {
        None => Err(ParseError { input, kind: ParseErrorKind::Eof }),
        Some((_, c)) => {
            let starts = if colon {
                is_name_start_char(c)
            } else {
                is_ncname_start_char(c)
            };
            if !starts {
                return Err(ParseError { input, kind: ParseErrorKind::Verify });
            }
            let (n, rest) = skip_name_chars(input, colon);
            proof {
                lemma_run_len(input@, colon);
            }
            let token = input.substring_char(0, n);
            Ok((rest, token))
        },
    }
}

} // verus!
