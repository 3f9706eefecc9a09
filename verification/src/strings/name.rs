//! Name string types.
//!
//! See <https://www.w3.org/TR/2006/REC-xml11-20060816/#NT-Name>.

use std::cmp::Ordering;
use vstd::prelude::*;
use vstd::std_specs::cmp::{PartialEqSpec, PartialEqSpecImpl, PartialOrdSpecImpl};
use vstd::std_specs::iter::IteratorSpec;
use vstd::string::StringExecFns;

use crate::strings::bytes::{
    byte_position, byte_position_of, char_count_bound, lemma_byte_position_zero,
};
use crate::strings::order::{text_cmp, text_eq, text_order};
use crate::strings::parse::{lemma_token_is_name, split_token, token_len, ParseError};

verus! {

/// Whether the code point of `c` lies between `lo` and `hi`, both included.
pub open spec fn in_range(c: char, lo: u32, hi: u32) -> bool {
    lo <= c as u32 <= hi
}

/// The `NameStartChar` production of XML 1.1.
///
/// See <https://www.w3.org/TR/2006/REC-xml11-20060816/#NT-NameStartChar>.
pub open spec fn name_start_char(c: char) -> bool {
    ||| c == ':'
    ||| in_range(c, 0x41, 0x5A)
    ||| c == '_'
    ||| in_range(c, 0x61, 0x7A)
    ||| in_range(c, 0xC0, 0xD6)
    ||| in_range(c, 0xD8, 0xF6)
    ||| in_range(c, 0xF8, 0x2FF)
    ||| in_range(c, 0x370, 0x37D)
    ||| in_range(c, 0x37F, 0x1FFF)
    ||| in_range(c, 0x200C, 0x200D)
    ||| in_range(c, 0x2070, 0x218F)
    ||| in_range(c, 0x2C00, 0x2FEF)
    ||| in_range(c, 0x3001, 0xD7FF)
    ||| in_range(c, 0xF900, 0xFDCF)
    ||| in_range(c, 0xFDF0, 0xFFFD)
    ||| in_range(c, 0x10000, 0xEFFFF)
}

/// The `NameChar` production of XML 1.1.
///
/// See <https://www.w3.org/TR/2006/REC-xml11-20060816/#NT-NameChar>.
pub open spec fn name_char(c: char) -> bool {
    ||| name_start_char(c)
    ||| c == '-'
    ||| c == '.'
    ||| in_range(c, 0x30, 0x39)
    ||| c as u32 == 0xB7
    ||| in_range(c, 0x300, 0x36F)
    ||| in_range(c, 0x203F, 0x2040)
}

/// Checks whether the given character is name start character.
pub fn is_name_start_char(c: char) -> (r: bool)
    ensures
        r == name_start_char(c),
{
    match c {
        ':'
        | 'A'..='Z'
        | '_'
        | 'a'..='z'
        | '\u{C0}'..='\u{D6}'
        | '\u{D8}'..='\u{F6}'
        | '\u{F8}'..='\u{2FF}'
        | '\u{370}'..='\u{37D}'
        | '\u{37F}'..='\u{1FFF}'
        | '\u{200C}'..='\u{200D}'
        | '\u{2070}'..='\u{218F}'
        | '\u{2C00}'..='\u{2FEF}'
        | '\u{3001}'..='\u{D7FF}'
        | '\u{F900}'..='\u{FDCF}'
        | '\u{FDF0}'..='\u{FFFD}'
        | '\u{10000}'..='\u{EFFFF}' => true,
        _ => false,
    }
}

/// Checks whether the given character is name character.
pub fn is_name_char(c: char) -> (r: bool)
    ensures
        r == name_char(c),
{
    is_name_start_char(c) || match c {
        '-' | '.' | '0'..='9' | '\u{B7}' | '\u{0300}'..='\u{036F}' | '\u{203F}'..='\u{2040}' => {
            true
        },
        _ => false,
    }
}

/// XML name string error.
#[derive(Debug, Clone, Copy, PartialEq, Eq, Structural, PartialOrd, Ord, Hash)]
pub enum NameError {
    /// Got empty string.
    Empty,
    /// Has invalid character: its byte position in the text, and the character.
    InvalidNameChar(usize, char),
}

/// What a `NameError` says: what is wrong with a text, with the position
/// as a number of bytes.
pub enum NameFault {
    /// The text is empty.
    Empty,
    /// The text has an invalid character, at this byte position.
    InvalidNameChar(nat, char),
}

impl View for NameError {
    type V = NameFault;

    open spec fn view(&self) -> NameFault {
        match self {
            NameError::Empty => NameFault::Empty,
            NameError::InvalidNameChar(pos, c) => NameFault::InvalidNameChar(*pos as nat, *c),
        }
    }
}

/// The decimal digit `d`, for `d < 10`.
pub open spec fn digit_char(d: nat) -> char {
    (0x30 + d) as char
}

/// The decimal digits of `n`, without a leading zero.
pub open spec fn decimal_digits(n: nat) -> Seq<char>
    decreases n,
{
    if n < 10 {
        seq![digit_char(n)]
    } else {
        decimal_digits(n / 10).push(digit_char(n % 10))
    }
}

/// How `char`'s `Debug` writes `c`: in single quotes, escaped where std
/// escapes it.
pub uninterp spec fn char_debug_text(c: char) -> Seq<char>;

/// The message for an invalid character, from its position's digits and
/// the quoted character.
pub open spec fn invalid_char_text(position: Seq<char>, quoted: Seq<char>) -> Seq<char> {
    "Invalid name character at byte position "@ + position + ": "@ + quoted
}

/// `usize`'s `to_string`: the decimal digits of `n`.
#[verifier::external_body]
fn decimal_string(n: usize) -> (r: String)
    ensures
        r@ == decimal_digits(n as nat),
{
    n.to_string()
}

/// `char`'s `Debug`, through `format!`: the character as `{:?}` writes it.
#[verifier::external_body]
fn debug_string(c: char) -> (r: String)
    ensures
        r@ == char_debug_text(c),
{
    format!("{:?}", c)
}

/// Puts the message for an invalid character together from its
/// position's digits and the quoted character.
pub fn invalid_char_message(position: &str, quoted: &str) -> (r: String)
    ensures
        r@ == invalid_char_text(position@, quoted@),
{
    let mut message = String::from_str("Invalid name character at byte position ");
    message.append(position);
    message.append(": ");
    message.append(quoted);
    message
}

impl NameError {
    /// The text of the message.
    pub open spec fn message(self) -> Seq<char> {
        match self {
            NameError::Empty => "XML name string should not be empty"@,
            NameError::InvalidNameChar(pos, c) => invalid_char_text(
                decimal_digits(pos as nat),
                char_debug_text(c),
            ),
        }
    }

    /// The message that describes the error.
    pub fn to_string(&self) -> (r: String)
        ensures
            r@ == self.message(),
    {
        match self {
            NameError::Empty => String::from_str("XML name string should not be empty"),
            NameError::InvalidNameChar(pos, c) => {
                let position = decimal_string(*pos);
                let quoted = debug_string(*c);
                invalid_char_message(position.as_str(), quoted.as_str())
            },
        }
    }
}

/// Whether the character of `s` at index `i` may stand there in a `Name`.
pub open spec fn name_char_at(s: Seq<char>, i: int) -> bool {
    if i == 0 {
        name_start_char(s[i])
    } else {
        name_char(s[i])
    }
}

/// Whether `s` is a `Name`: not empty, a name start character first, name
/// characters after it.
pub open spec fn is_name(s: Seq<char>) -> bool {
    &&& s.len() > 0
    &&& forall|i: int| 0 <= i < s.len() ==> name_char_at(s, i)
}

/// Whether index `i` holds the first character of `s` that breaks the
/// `Name` grammar.
pub open spec fn first_invalid_at(s: Seq<char>, i: int) -> bool {
    &&& 0 <= i < s.len()
    &&& !name_char_at(s, i)
    &&& forall|j: int| 0 <= j < i ==> name_char_at(s, j)
}

/// What is wrong with `s` as a `Name`, if anything.
pub open spec fn name_check(s: Seq<char>) -> Option<NameFault> {
    if s.len() == 0 {
        Some(NameFault::Empty)
    } else if is_name(s) {
        None
    } else {
        let i = choose|i: int| first_invalid_at(s, i);
        Some(NameFault::InvalidNameChar(byte_position(s, i), s[i]))
    }
}

/// At most one index holds the first invalid character.
pub proof fn lemma_first_invalid_unique(s: Seq<char>, i: int, j: int)
    requires
        first_invalid_at(s, i),
        first_invalid_at(s, j),
    ensures
        i == j,
{
    if i < j {
        assert(name_char_at(s, i));
    } else if j < i {
        assert(name_char_at(s, j));
    }
}

/// Validates the given string as `Name`, and hands it back unchanged.
pub fn validate_name_str(s: &str) -> (r: Result<&str, NameError>)
    ensures
        match name_check(s@) {
            None => r == Ok::<&str, NameError>(s),
            Some(fault) => r is Err && r->Err_0@ == fault,
        },
{
    if s.is_empty() {
        return Err(NameError::Empty);
    }
    let bound: usize = char_count_bound(s);
    let mut chars = s.chars();
    let mut i: usize = 0;
    loop
        invariant
            0 < s@.len() <= bound,
            i <= s@.len(),
            chars.remaining() == s@.skip(i as int),
            forall|j: int| 0 <= j < i ==> name_char_at(s@, j),
        decreases s@.len() - i,
    {
        match chars.next() {
            None => {
                assert(s@.skip(i as int).len() == s@.len() - i);
                return Ok(s);
            },
            Some(c) => {
                let valid = if i == 0 {
                    is_name_start_char(c)
                } else {
                    is_name_char(c)
                };
                if !valid {
                    let pos: usize = byte_position_of(s, i);
                    proof {
                        assert(first_invalid_at(s@, i as int));
                        let k = choose|k: int| first_invalid_at(s@, k);
                        lemma_first_invalid_unique(s@, i as int, k);
                    }
                    return Err(NameError::InvalidNameChar(pos, c));
                }
                i += 1;
            },
        }
    }
}

/// A text whose first character is a name start character and whose other
/// characters are name characters passes validation.
pub proof fn lemma_name_passes(s: Seq<char>)
    requires
        s.len() > 0,
        name_start_char(s[0]),
        forall|i: int| 1 <= i < s.len() ==> name_char(s[i]),
    ensures
        name_check(s) is None,
{
    assert forall|i: int| 0 <= i < s.len() implies name_char_at(s, i) by {}
}

/// The empty text fails validation as `Empty`.
pub proof fn lemma_empty_fails(s: Seq<char>)
    requires
        s.len() == 0,
    ensures
        name_check(s) == Some(NameFault::Empty),
{
}

/// A text whose first invalid character stands at index `i` fails
/// validation with that character and its byte position.
pub proof fn lemma_first_invalid_fails(s: Seq<char>, i: int)
    requires
        first_invalid_at(s, i),
    ensures
        name_check(s) == Some(NameFault::InvalidNameChar(byte_position(s, i), s[i])),
{
    let k = choose|k: int| first_invalid_at(s, k);
    lemma_first_invalid_unique(s, i, k);
}

/// A text whose first character is no name start character fails
/// validation with that character, at byte position 0.
pub proof fn lemma_invalid_start_fails(s: Seq<char>)
    requires
        s.len() > 0,
        !name_start_char(s[0]),
    ensures
        name_check(s) == Some(NameFault::InvalidNameChar(0, s[0])),
{
    lemma_first_invalid_fails(s, 0);
    lemma_byte_position_zero(s);
}

/// A text whose character at index `i > 0` is no name character, all
/// earlier ones being valid, fails validation with that character and its
/// byte position.
pub proof fn lemma_invalid_later_fails(s: Seq<char>, i: int)
    requires
        0 < i < s.len(),
        name_start_char(s[0]),
        forall|j: int| 1 <= j < i ==> name_char(s[j]),
        !name_char(s[i]),
    ensures
        name_check(s) == Some(NameFault::InvalidNameChar(byte_position(s, i), s[i])),
{
    assert forall|j: int| 0 <= j < i implies name_char_at(s, j) by {}
    lemma_first_invalid_fails(s, i);
}

/// Borrowed XML Name: a view of text that is a `Name`.
///
/// See <https://www.w3.org/TR/2006/REC-xml11-20060816/#NT-Name>.
#[derive(Debug, Clone, Copy, Eq, Ord, Hash)]
pub struct NameStr<'a> {
    inner: &'a str,
}

impl<'a> View for NameStr<'a> {
    type V = Seq<char>;

    /// The underlying text.
    closed spec fn view(&self) -> Seq<char> {
        self.inner@
    }
}

impl<'a> PartialEq for NameStr<'a> {
    fn eq(&self, other: &Self) -> (r: bool) {
        text_eq(self.inner, other.inner)
    }
}

impl<'a> PartialEqSpecImpl for NameStr<'a> {
    open spec fn obeys_eq_spec() -> bool {
        true
    }

    /// Two names are equal where their texts are.
    open spec fn eq_spec(&self, other: &Self) -> bool {
        self@ == other@
    }
}

impl<'a> PartialOrd for NameStr<'a> {
    fn partial_cmp(&self, other: &Self) -> (r: Option<Ordering>) {
        Some(text_cmp(self.inner, other.inner))
    }
}

impl<'a> PartialOrdSpecImpl for NameStr<'a> {
    open spec fn obeys_partial_cmp_spec() -> bool {
        true
    }

    /// Two names are ordered as their texts are.
    open spec fn partial_cmp_spec(&self, other: &Self) -> Option<Ordering> {
        Some(text_order(self@, other@))
    }
}

impl<'a> NameStr<'a> {
    #[verifier::type_invariant]
    spec fn valid(self) -> bool {
        is_name(self.inner@)
    }

    /// The slice that the view borrows.
    pub closed spec fn slice(self) -> &'a str {
        self.inner
    }

    /// The view's text is that of the slice it borrows.
    pub proof fn lemma_slice_text(self)
        ensures
            self.slice()@ == self@,
    {
    }

    /// Creates a new `NameStr` that borrows `s`, if `s` is a `Name`.
    pub fn new(s: &'a str) -> (r: Result<NameStr<'a>, NameError>)
        ensures
            match name_check(s@) {
                None => r is Ok && r->Ok_0.slice() == s && r->Ok_0@ == s@,
                Some(fault) => r is Err && r->Err_0@ == fault,
            },
    {
        match validate_name_str(s) {
            Ok(inner) => Ok(NameStr { inner }),
            Err(e) => Err(e),
        }
    }

    /// Creates a new `NameStr` from the given string without validation:
    /// the caller has shown that it is a `Name`.
    pub fn from_str_unchecked(s: &'a str) -> (r: NameStr<'a>)
        requires
            is_name(s@),
        ensures
            r.slice() == s,
            r@ == s@,
    {
        NameStr { inner: s }
    }

    /// Returns a reference to the inner string as `&str`.
    pub fn as_str(&self) -> (r: &'a str)
        ensures
            r == self.slice(),
            r@ == self@,
            is_name(r@),
    {
        proof {
            use_type_invariant(self);
        }
        self.inner
    }

    /// Recognizes the longest `Name` at the start of `input`: gives the
    /// rest of the text and the name, or fails, having consumed nothing.
    pub fn nom_parse(input: &'a str) -> (r: Result<(&'a str, NameStr<'a>), ParseError<'a>>)
        ensures
            match token_len(input@, true) {
                Ok(n) => r is Ok && r->Ok_0.0@ == input@.skip(n as int) && r->Ok_0.1@
                    == input@.take(n as int),
                Err(kind) => r == Err::<(&'a str, NameStr<'a>), ParseError<'a>>(
                    (ParseError { input, kind }),
                ),
            },
    {
        match split_token(input, true) {
            Ok((rest, token)) => {
                proof {
                    lemma_token_is_name(input@, true);
                }
                Ok((rest, NameStr { inner: token }))
            },
            Err(e) => Err(e),
        }
    }

    /// Copies the text into an owned name.
    pub fn to_owned(&self) -> (r: NameString)
        ensures
            r@ == self@,
    {
        proof {
            use_type_invariant(self);
        }
        NameString { inner: self.inner.to_owned() }
    }
}

/// Owned XML Name: a buffer of text that is a `Name`.
///
/// See <https://www.w3.org/TR/2006/REC-xml11-20060816/#NT-Name>.
#[derive(Debug, Eq, Ord, Hash)]
pub struct NameString {
    inner: String,
}

impl View for NameString {
    type V = Seq<char>;

    /// The underlying text.
    closed spec fn view(&self) -> Seq<char> {
        self.inner@
    }
}

impl PartialEq for NameString {
    fn eq(&self, other: &Self) -> (r: bool) {
        self.inner == other.inner
    }
}

impl PartialEqSpecImpl for NameString {
    open spec fn obeys_eq_spec() -> bool {
        true
    }

    /// Two names are equal where their texts are.
    open spec fn eq_spec(&self, other: &Self) -> bool {
        self@ == other@
    }
}

impl PartialOrd for NameString {
    fn partial_cmp(&self, other: &Self) -> (r: Option<Ordering>) {
        Some(text_cmp(self.inner.as_str(), other.inner.as_str()))
    }
}

impl PartialOrdSpecImpl for NameString {
    open spec fn obeys_partial_cmp_spec() -> bool {
        true
    }

    /// Two names are ordered as their texts are.
    open spec fn partial_cmp_spec(&self, other: &Self) -> Option<Ordering> {
        Some(text_order(self@, other@))
    }
}

impl Clone for NameString {
    fn clone(&self) -> (r: Self)
        ensures
            r@ == self@,
    {
        proof {
            use_type_invariant(self);
        }
        NameString { inner: self.inner.clone() }
    }
}

impl NameString {
    #[verifier::type_invariant]
    spec fn valid(self) -> bool {
        is_name(self.inner@)
    }

    /// The string that the name owns.
    pub closed spec fn string(self) -> String {
        self.inner
    }

    /// The name's text is that of the string it owns.
    pub proof fn lemma_string_text(self)
        ensures
            self.string()@ == self@,
    {
    }

    /// Creates a new `NameString` that owns `s`, if `s` is a `Name`.
    pub fn new(s: String) -> (r: Result<NameString, NameError>)
        ensures
            match name_check(s@) {
                None => r is Ok && r->Ok_0.string() == s && r->Ok_0@ == s@,
                Some(fault) => r is Err && r->Err_0@ == fault,
            },
    {
        match validate_name_str(s.as_str()) {
            Ok(_) => Ok(NameString { inner: s }),
            Err(e) => Err(e),
        }
    }

    /// Creates a new `NameString` from the given string without
    /// validation: the caller has shown that it is a `Name`.
    pub fn new_unchecked(s: String) -> (r: NameString)
        requires
            is_name(s@),
        ensures
            r.string() == s,
            r@ == s@,
    {
        NameString { inner: s }
    }

    /// Returns a reference to the inner string as `&str`.
    pub fn as_str(&self) -> (r: &str)
        ensures
            r@ == self@,
            is_name(r@),
    {
        proof {
            use_type_invariant(self);
        }
        self.inner.as_str()
    }

    /// Returns a view that borrows this name's text.
    pub fn as_name_str(&self) -> (r: NameStr<'_>)
        ensures
            r@ == self@,
    {
        proof {
            use_type_invariant(self);
        }
        NameStr { inner: self.inner.as_str() }
    }

    /// Recognizes the longest `Name` at the start of `input`: gives the
    /// rest of the text and an owned copy of the name, or fails, having
    /// consumed nothing.
    pub fn nom_parse<'a>(input: &'a str) -> (r: Result<(&'a str, NameString), ParseError<'a>>)
        ensures
            match token_len(input@, true) {
                Ok(n) => r is Ok && r->Ok_0.0@ == input@.skip(n as int) && r->Ok_0.1@
                    == input@.take(n as int),
                Err(kind) => r == Err::<(&'a str, NameString), ParseError<'a>>(
                    (ParseError { input, kind }),
                ),
            },
    {
        match NameStr::nom_parse(input) {
            Ok((rest, name)) => Ok((rest, name.to_owned())),
            Err(e) => Err(e),
        }
    }

    /// Gives up the name for the string it owns.
    pub fn into_inner(self) -> (r: String)
        ensures
            r == self.string(),
            r@ == self@,
            is_name(r@),
    {
        proof {
            use_type_invariant(&self);
        }
        self.inner
    }
}

/// Borrowing the owned copy of a view gives the view again: `b` is what
/// `NameStr::to_owned` makes of `v`, `w` what `NameString::as_name_str`
/// makes of `b`. Then `w` has the text of `v`, and is equal to it.
pub proof fn lemma_view_round_trip(v: NameStr<'_>, b: NameString, w: NameStr<'_>)
    requires
        b@ == v@,
        w@ == b@,
    ensures
        w@ == v@,
        PartialEqSpec::eq_spec(&w, &v),
{
}

/// Copying the view of a buffer gives the buffer again: `v` is what
/// `NameString::as_name_str` makes of `b`, `c` what `NameStr::to_owned`
/// makes of `v`. Then `c` has the text of `b`, and is equal to it.
pub proof fn lemma_buffer_round_trip(b: NameString, v: NameStr<'_>, c: NameString)
    requires
        v@ == b@,
        c@ == v@,
    ensures
        c@ == b@,
        PartialEqSpec::eq_spec(&c, &b),
{
}

} // verus!
