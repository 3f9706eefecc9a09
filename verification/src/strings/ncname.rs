//! NCName string types.
//!
//! See <https://www.w3.org/TR/REC-xml-names/#NT-NCName>.

use std::cmp::Ordering;
use vstd::prelude::*;
use vstd::std_specs::cmp::{PartialEqSpec, PartialEqSpecImpl, PartialOrdSpecImpl};

use crate::strings::bytes::{byte_position, lemma_byte_position_zero};
use crate::strings::name::{
    is_name, is_name_char, is_name_start_char, lemma_invalid_later_fails,
    lemma_invalid_start_fails, name_char, name_char_at, name_check, name_start_char,
    validate_name_str, NameError, NameFault,
};
use crate::strings::order::{text_cmp, text_eq, text_order};
use crate::strings::parse::{lemma_token_is_name, split_token, token_len, ParseError};

verus! {

/// The start characters of an `NCName`: those of a `Name`, but for the colon.
pub open spec fn ncname_start_char(c: char) -> bool {
    c != ':' && name_start_char(c)
}

/// The characters of an `NCName`: those of a `Name`, but for the colon.
pub open spec fn ncname_char(c: char) -> bool {
    c != ':' && name_char(c)
}

/// Checks whether the given character is NCName start character.
pub fn is_ncname_start_char(c: char) -> (r: bool)
    ensures
        r == ncname_start_char(c),
{
    c != ':' && is_name_start_char(c)
}

/// Checks whether the given character is NCName character.
pub fn is_ncname_char(c: char) -> (r: bool)
    ensures
        r == ncname_char(c),
{
    c != ':' && is_name_char(c)
}

/// Whether `s` is an `NCName`: a `Name` without a colon.
pub open spec fn is_ncname(s: Seq<char>) -> bool {
    is_name(s) && forall|i: int| 0 <= i < s.len() ==> s[i] != ':'
}

/// Whether index `i` holds the first `c` in `s`.
pub open spec fn first_occurrence_at(s: Seq<char>, c: char, i: int) -> bool {
    &&& 0 <= i < s.len()
    &&& s[i] == c
    &&& forall|j: int| 0 <= j < i ==> s[j] != c
}

/// What is wrong with `s` as an `NCName`, if anything: what is wrong with
/// it as a `Name`, and only then its first colon.
pub open spec fn ncname_check(s: Seq<char>) -> Option<NameFault> {
    match name_check(s) {
        Some(e) => Some(e),
        None => {
            if exists|i: int| first_occurrence_at(s, ':', i) {
                let i = choose|i: int| first_occurrence_at(s, ':', i);
                Some(NameFault::InvalidNameChar(byte_position(s, i), ':'))
            } else {
                None
            }
        },
    }
}

/// At most one index holds the first occurrence of a character.
pub proof fn lemma_first_occurrence_unique(s: Seq<char>, c: char, i: int, j: int)
    requires
        first_occurrence_at(s, c, i),
        first_occurrence_at(s, c, j),
    ensures
        i == j,
{
    if i < j {
        assert(s[i] != c);
    } else if j < i {
        assert(s[j] != c);
    }
}

/// A text that holds `c` holds a first `c`.
pub proof fn lemma_first_occurrence_exists(s: Seq<char>, c: char, k: int)
    requires
        0 <= k < s.len(),
        s[k] == c,
    ensures
        exists|i: int| first_occurrence_at(s, c, i),
    decreases k,
{
    if exists|j: int| 0 <= j < k && s[j] == c {
        let j = choose|j: int| 0 <= j < k && s[j] == c;
        lemma_first_occurrence_exists(s, c, j);
    } else {
        assert(first_occurrence_at(s, c, k));
    }
}

/// `str::find` with a character as its pattern: the byte position of the
/// first character of `s` that is `c`, and `None` where `s` holds no `c`.
#[verifier::external_body]
fn find_char(s: &str, c: char) -> (r: Option<usize>)
    ensures
        match r {
            Some(pos) => exists|i: int|
                first_occurrence_at(s@, c, i) && pos == byte_position(s@, i),
            None => forall|i: int| 0 <= i < s@.len() ==> s@[i] != c,
        },
{
    s.find(c)
}

/// Validates the given string as `NCName`, and hands it back unchanged.
pub fn validate_ncname_str(s: &str) -> (r: Result<&str, NameError>)
    ensures
        match ncname_check(s@) {
            None => r == Ok::<&str, NameError>(s),
            Some(fault) => r is Err && r->Err_0@ == fault,
        },
{
    let s = match validate_name_str(s) {
        Ok(s) => s,
        Err(e) => {
            return Err(e);
        },
    };
    match find_char(s, ':') {
        Some(pos) => {
            proof {
                let i = choose|i: int|
                    first_occurrence_at(s@, ':', i) && pos == byte_position(s@, i);
                let k = choose|k: int| first_occurrence_at(s@, ':', k);
                lemma_first_occurrence_unique(s@, ':', i, k);
            }
            Err(NameError::InvalidNameChar(pos, ':'))
        },
        None => Ok(s),
    }
}

/// A text is an `NCName` exactly when its first character is an NCName
/// start character and the others are NCName characters.
pub proof fn lemma_is_ncname_by_chars(s: Seq<char>)
    ensures
        is_ncname(s) <==> {
            &&& s.len() > 0
            &&& ncname_start_char(s[0])
            &&& forall|i: int| 1 <= i < s.len() ==> ncname_char(s[i])
        },
{
    if is_ncname(s) {
        assert(name_char_at(s, 0));
        assert forall|i: int| 1 <= i < s.len() implies ncname_char(s[i]) by {
            assert(name_char_at(s, i));
        }
    }
    if s.len() > 0 && ncname_start_char(s[0]) && forall|i: int|
        1 <= i < s.len() ==> ncname_char(s[i]) {
        assert forall|i: int| 0 <= i < s.len() implies name_char_at(s, i) && s[i] != ':' by {}
    }
}

/// Validation passes exactly on the texts that are an `NCName`.
pub proof fn lemma_ncname_check_none(s: Seq<char>)
    ensures
        ncname_check(s) is None <==> is_ncname(s),
{
    if is_name(s) && !is_ncname(s) {
        let k = choose|k: int| 0 <= k < s.len() && s[k] == ':';
        lemma_first_occurrence_exists(s, ':', k);
    }
}

/// A text whose first character is an NCName start character and whose
/// other characters are NCName characters passes validation.
pub proof fn lemma_ncname_passes(s: Seq<char>)
    requires
        s.len() > 0,
        ncname_start_char(s[0]),
        forall|i: int| 1 <= i < s.len() ==> ncname_char(s[i]),
    ensures
        ncname_check(s) is None,
{
    lemma_is_ncname_by_chars(s);
    lemma_ncname_check_none(s);
}

/// The empty text fails validation as `Empty`.
pub proof fn lemma_empty_ncname_fails(s: Seq<char>)
    requires
        s.len() == 0,
    ensures
        ncname_check(s) == Some(NameFault::Empty),
{
}

/// A `Name` that holds a colon fails validation with the colon, at the
/// byte position of the first one.
pub proof fn lemma_colon_fails(s: Seq<char>, i: int)
    requires
        is_name(s),
        first_occurrence_at(s, ':', i),
    ensures
        ncname_check(s) == Some(NameFault::InvalidNameChar(byte_position(s, i), ':')),
{
    let k = choose|k: int| first_occurrence_at(s, ':', k);
    lemma_first_occurrence_unique(s, ':', i, k);
}

/// A text whose first character is no NCName start character fails
/// validation with that character, at byte position 0. Where that
/// character is a colon, this holds of a text that is a `Name`: an
/// invalid name character further on is reported before the colon.
pub proof fn lemma_invalid_ncname_start_fails(s: Seq<char>)
    requires
        s.len() > 0,
        !ncname_start_char(s[0]),
        s[0] == ':' ==> is_name(s),
    ensures
        ncname_check(s) == Some(NameFault::InvalidNameChar(0, s[0])),
{
    if s[0] == ':' {
        assert(first_occurrence_at(s, ':', 0));
        lemma_colon_fails(s, 0);
        lemma_byte_position_zero(s);
    } else {
        lemma_invalid_start_fails(s);
    }
}

/// A text whose character at index `i > 0` is no NCName character, all
/// earlier ones being valid, fails validation with that character and its
/// byte position. Where that character is a colon, this holds of a text
/// that is a `Name`: an invalid name character further on is reported
/// before the colon.
pub proof fn lemma_invalid_ncname_later_fails(s: Seq<char>, i: int)
    requires
        0 < i < s.len(),
        ncname_start_char(s[0]),
        forall|j: int| 1 <= j < i ==> ncname_char(s[j]),
        !ncname_char(s[i]),
        s[i] == ':' ==> is_name(s),
    ensures
        ncname_check(s) == Some(NameFault::InvalidNameChar(byte_position(s, i), s[i])),
{
    if s[i] == ':' {
        assert(first_occurrence_at(s, ':', i));
        lemma_colon_fails(s, i);
    } else {
        lemma_invalid_later_fails(s, i);
    }
}

/// Borrowed NCName, name string without colon (`:`).
///
/// See <https://www.w3.org/TR/REC-xml-names/#NT-NCName>.
#[derive(Debug, Clone, Copy, Eq, Ord, Hash)]
pub struct NcnameStr<'a> {
    inner: &'a str,
}

impl<'a> View for NcnameStr<'a> {
    type V = Seq<char>;

    /// The underlying text.
    closed spec fn view(&self) -> Seq<char> {
        self.inner@
    }
}

impl<'a> PartialEq for NcnameStr<'a> {
    fn eq(&self, other: &Self) -> (r: bool) {
        text_eq(self.inner, other.inner)
    }
}

impl<'a> PartialEqSpecImpl for NcnameStr<'a> {
    open spec fn obeys_eq_spec() -> bool {
        true
    }

    /// Two names are equal where their texts are.
    open spec fn eq_spec(&self, other: &Self) -> bool {
        self@ == other@
    }
}

impl<'a> PartialOrd for NcnameStr<'a> {
    fn partial_cmp(&self, other: &Self) -> (r: Option<Ordering>) {
        Some(text_cmp(self.inner, other.inner))
    }
}

impl<'a> PartialOrdSpecImpl for NcnameStr<'a> {
    open spec fn obeys_partial_cmp_spec() -> bool {
        true
    }

    /// Two names are ordered as their texts are.
    open spec fn partial_cmp_spec(&self, other: &Self) -> Option<Ordering> {
        Some(text_order(self@, other@))
    }
}

impl<'a> NcnameStr<'a> {
    #[verifier::type_invariant]
    spec fn valid(self) -> bool {
        is_ncname(self.inner@)
    }

    /// The slice that the view borrows.
    pub closed spec fn slice(self) -> &'a str {
        self.inner
    }

    /// The view's text is that of the slice it borrows.
    pub proof fn lemma_slice_text(self)
        ensures
            self.slice()@ == self@,
    {
    }

    /// Creates a new `NcnameStr` that borrows `s`, if `s` is an `NCName`.
    pub fn new(s: &'a str) -> (r: Result<NcnameStr<'a>, NameError>)
        ensures
            match ncname_check(s@) {
                None => r is Ok && r->Ok_0.slice() == s && r->Ok_0@ == s@,
                Some(fault) => r is Err && r->Err_0@ == fault,
            },
    {
        proof {
            lemma_ncname_check_none(s@);
        }
        match validate_ncname_str(s) {
            Ok(inner) => Ok(NcnameStr { inner }),
            Err(e) => Err(e),
        }
    }

    /// Creates a new `NcnameStr` from the given string without
    /// validation: the caller has shown that it is an `NCName`.
    pub fn from_str_unchecked(s: &'a str) -> (r: NcnameStr<'a>)
        requires
            is_ncname(s@),
        ensures
            r.slice() == s,
            r@ == s@,
    {
        NcnameStr { inner: s }
    }

    /// Returns a reference to the inner string as `&str`.
    pub fn as_str(&self) -> (r: &'a str)
        ensures
            r == self.slice(),
            r@ == self@,
            is_ncname(r@),
    {
        proof {
            use_type_invariant(self);
        }
        self.inner
    }

    /// Recognizes the longest `NCName` at the start of `input`: gives the
    /// rest of the text and the name, or fails, having consumed nothing.
    pub fn nom_parse(input: &'a str) -> (r: Result<(&'a str, NcnameStr<'a>), ParseError<'a>>)
        ensures
            match token_len(input@, false) {
                Ok(n) => r is Ok && r->Ok_0.0@ == input@.skip(n as int) && r->Ok_0.1@
                    == input@.take(n as int),
                Err(kind) => r == Err::<(&'a str, NcnameStr<'a>), ParseError<'a>>(
                    (ParseError { input, kind }),
                ),
            },
    {
        match split_token(input, false) {
            Ok((rest, token)) => {
                proof {
                    lemma_token_is_name(input@, false);
                }
                Ok((rest, NcnameStr { inner: token }))
            },
            Err(e) => Err(e),
        }
    }

    /// Copies the text into an owned name.
    pub fn to_owned(&self) -> (r: NcnameString)
        ensures
            r@ == self@,
    {
        proof {
            use_type_invariant(self);
        }
        NcnameString { inner: self.inner.to_owned() }
    }
}

/// Owned NCName, name string without colon (`:`).
///
/// See <https://www.w3.org/TR/REC-xml-names/#NT-NCName>.
#[derive(Debug, Eq, Ord, Hash)]
pub struct NcnameString {
    inner: String,
}

impl View for NcnameString {
    type V = Seq<char>;

    /// The underlying text.
    closed spec fn view(&self) -> Seq<char> {
        self.inner@
    }
}

impl PartialEq for NcnameString {
    fn eq(&self, other: &Self) -> (r: bool) {
        self.inner == other.inner
    }
}

impl PartialEqSpecImpl for NcnameString {
    open spec fn obeys_eq_spec() -> bool {
        true
    }

    /// Two names are equal where their texts are.
    open spec fn eq_spec(&self, other: &Self) -> bool {
        self@ == other@
    }
}

impl PartialOrd for NcnameString {
    fn partial_cmp(&self, other: &Self) -> (r: Option<Ordering>) {
        Some(text_cmp(self.inner.as_str(), other.inner.as_str()))
    }
}

impl PartialOrdSpecImpl for NcnameString {
    open spec fn obeys_partial_cmp_spec() -> bool {
        true
    }

    /// Two names are ordered as their texts are.
    open spec fn partial_cmp_spec(&self, other: &Self) -> Option<Ordering> {
        Some(text_order(self@, other@))
    }
}

impl Clone for NcnameString {
    fn clone(&self) -> (r: Self)
        ensures
            r@ == self@,
    {
        proof {
            use_type_invariant(self);
        }
        NcnameString { inner: self.inner.clone() }
    }
}

impl NcnameString {
    #[verifier::type_invariant]
    spec fn valid(self) -> bool {
        is_ncname(self.inner@)
    }

    /// The string that the name owns.
    pub closed spec fn string(self) -> String {
        self.inner
    }

    /// The name's text is that of the string it owns.
    pub proof fn lemma_string_text(self)
        ensures
            self.string()@ == self@,
    {
    }

    /// Creates a new `NcnameString` that owns `s`, if `s` is an `NCName`.
    pub fn new(s: String) -> (r: Result<NcnameString, NameError>)
        ensures
            match ncname_check(s@) {
                None => r is Ok && r->Ok_0.string() == s && r->Ok_0@ == s@,
                Some(fault) => r is Err && r->Err_0@ == fault,
            },
    {
        proof {
            lemma_ncname_check_none(s@);
        }
        match validate_ncname_str(s.as_str()) {
            Ok(_) => Ok(NcnameString { inner: s }),
            Err(e) => Err(e),
        }
    }

    /// Creates a new `NcnameString` from the given string without
    /// validation: the caller has shown that it is an `NCName`.
    pub fn new_unchecked(s: String) -> (r: NcnameString)
        requires
            is_ncname(s@),
        ensures
            r.string() == s,
            r@ == s@,
    {
        NcnameString { inner: s }
    }

    /// Returns a reference to the inner string as `&str`.
    pub fn as_str(&self) -> (r: &str)
        ensures
            r@ == self@,
            is_ncname(r@),
    {
        proof {
            use_type_invariant(self);
        }
        self.inner.as_str()
    }

    /// Returns a view that borrows this name's text.
    pub fn as_name_str(&self) -> (r: NcnameStr<'_>)
        ensures
            r@ == self@,
    {
        proof {
            use_type_invariant(self);
        }
        NcnameStr { inner: self.inner.as_str() }
    }

    /// Recognizes the longest `NCName` at the start of `input`: gives the
    /// rest of the text and an owned copy of the name, or fails, having
    /// consumed nothing.
    pub fn nom_parse<'a>(input: &'a str) -> (r: Result<(&'a str, NcnameString), ParseError<'a>>)
        ensures
            match token_len(input@, false) {
                Ok(n) => r is Ok && r->Ok_0.0@ == input@.skip(n as int) && r->Ok_0.1@
                    == input@.take(n as int),
                Err(kind) => r == Err::<(&'a str, NcnameString), ParseError<'a>>(
                    (ParseError { input, kind }),
                ),
            },
    {
        match NcnameStr::nom_parse(input) {
            Ok((rest, name)) => Ok((rest, name.to_owned())),
            Err(e) => Err(e),
        }
    }

    /// Gives up the name for the string it owns.
    pub fn into_inner(self) -> (r: String)
        ensures
            r == self.string(),
            r@ == self@,
            is_ncname(r@),
    {
        proof {
            use_type_invariant(&self);
        }
        self.inner
    }
}

/// Borrowing the owned copy of a view gives the view again: `b` is what
/// `NcnameStr::to_owned` makes of `v`, `w` what
/// `NcnameString::as_name_str` makes of `b`. Then `w` has the text of `v`,
/// and is equal to it.
pub proof fn lemma_ncname_view_round_trip(v: NcnameStr<'_>, b: NcnameString, w: NcnameStr<'_>)
    requires
        b@ == v@,
        w@ == b@,
    ensures
        w@ == v@,
        PartialEqSpec::eq_spec(&w, &v),
{
}

/// Copying the view of a buffer gives the buffer again: `v` is what
/// `NcnameString::as_name_str` makes of `b`, `c` what
/// `NcnameStr::to_owned` makes of `v`. Then `c` has the text of `b`, and
/// is equal to it.
pub proof fn lemma_ncname_buffer_round_trip(b: NcnameString, v: NcnameStr<'_>, c: NcnameString)
    requires
        v@ == b@,
        c@ == v@,
    ensures
        c@ == b@,
        PartialEqSpec::eq_spec(&c, &b),
{
}

} // verus!
