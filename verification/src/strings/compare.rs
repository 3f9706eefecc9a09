//! Equality between the views and buffers of a name, and with plain
//! text: always that of the texts.

use vstd::prelude::*;
use vstd::std_specs::cmp::PartialEqSpecImpl;

use crate::strings::name::{NameStr, NameString};
use crate::strings::ncname::{NcnameStr, NcnameString};
use crate::strings::order::text_eq;

verus! {

impl<'a> PartialEq<NameString> for NameStr<'a> {
    fn eq(&self, other: &NameString) -> (r: bool) {
        text_eq(self.as_str(), other.as_str())
    }
}

impl<'a> PartialEqSpecImpl<NameString> for NameStr<'a> {
    open spec fn obeys_eq_spec() -> bool {
        true
    }

    /// A view and a buffer are equal where their texts are.
    open spec fn eq_spec(&self, other: &NameString) -> bool {
        self@ == other@
    }
}

impl<'a> PartialEq<NameStr<'a>> for NameString {
    fn eq(&self, other: &NameStr<'a>) -> (r: bool) {
        text_eq(self.as_str(), other.as_str())
    }
}

impl<'a> PartialEqSpecImpl<NameStr<'a>> for NameString {
    open spec fn obeys_eq_spec() -> bool {
        true
    }

    /// A buffer and a view are equal where their texts are.
    open spec fn eq_spec(&self, other: &NameStr<'a>) -> bool {
        self@ == other@
    }
}

impl<'a, 'b> PartialEq<&'b str> for NameStr<'a> {
    fn eq(&self, other: &&'b str) -> (r: bool) {
        text_eq(self.as_str(), *other)
    }
}

impl<'a, 'b> PartialEqSpecImpl<&'b str> for NameStr<'a> {
    open spec fn obeys_eq_spec() -> bool {
        true
    }

    /// A view is equal to a text where its own text is that text.
    open spec fn eq_spec(&self, other: &&'b str) -> bool {
        self@ == other@
    }
}

impl<'b> PartialEq<&'b str> for NameString {
    fn eq(&self, other: &&'b str) -> (r: bool) {
        text_eq(self.as_str(), *other)
    }
}

impl<'b> PartialEqSpecImpl<&'b str> for NameString {
    open spec fn obeys_eq_spec() -> bool {
        true
    }

    /// A buffer is equal to a text where its own text is that text.
    open spec fn eq_spec(&self, other: &&'b str) -> bool {
        self@ == other@
    }
}

impl PartialEq<str> for NameString {
    fn eq(&self, other: &str) -> (r: bool) {
        text_eq(self.as_str(), other)
    }
}

impl PartialEqSpecImpl<str> for NameString {
    open spec fn obeys_eq_spec() -> bool {
        true
    }

    /// A buffer is equal to a text where its own text is that text.
    open spec fn eq_spec(&self, other: &str) -> bool {
        self@ == other@
    }
}

impl PartialEq<String> for NameString {
    fn eq(&self, other: &String) -> (r: bool) {
        text_eq(self.as_str(), other.as_str())
    }
}

impl PartialEqSpecImpl<String> for NameString {
    open spec fn obeys_eq_spec() -> bool {
        true
    }

    /// A buffer is equal to a string where its own text is that of the string.
    open spec fn eq_spec(&self, other: &String) -> bool {
        self@ == other@
    }
}

impl<'a> PartialEq<NcnameString> for NcnameStr<'a> {
    fn eq(&self, other: &NcnameString) -> (r: bool) {
        text_eq(self.as_str(), other.as_str())
    }
}

impl<'a> PartialEqSpecImpl<NcnameString> for NcnameStr<'a> {
    open spec fn obeys_eq_spec() -> bool {
        true
    }

    /// A view and a buffer are equal where their texts are.
    open spec fn eq_spec(&self, other: &NcnameString) -> bool {
        self@ == other@
    }
}

impl<'a> PartialEq<NcnameStr<'a>> for NcnameString {
    fn eq(&self, other: &NcnameStr<'a>) -> (r: bool) {
        text_eq(self.as_str(), other.as_str())
    }
}

impl<'a> PartialEqSpecImpl<NcnameStr<'a>> for NcnameString {
    open spec fn obeys_eq_spec() -> bool {
        true
    }

    /// A buffer and a view are equal where their texts are.
    open spec fn eq_spec(&self, other: &NcnameStr<'a>) -> bool {
        self@ == other@
    }
}

impl<'a, 'b> PartialEq<&'b str> for NcnameStr<'a> {
    fn eq(&self, other: &&'b str) -> (r: bool) {
        text_eq(self.as_str(), *other)
    }
}

impl<'a, 'b> PartialEqSpecImpl<&'b str> for NcnameStr<'a> {
    open spec fn obeys_eq_spec() -> bool {
        true
    }

    /// A view is equal to a text where its own text is that text.
    open spec fn eq_spec(&self, other: &&'b str) -> bool {
        self@ == other@
    }
}

impl<'b> PartialEq<&'b str> for NcnameString {
    fn eq(&self, other: &&'b str) -> (r: bool) {
        text_eq(self.as_str(), *other)
    }
}

impl<'b> PartialEqSpecImpl<&'b str> for NcnameString {
    open spec fn obeys_eq_spec() -> bool {
        true
    }

    /// A buffer is equal to a text where its own text is that text.
    open spec fn eq_spec(&self, other: &&'b str) -> bool {
        self@ == other@
    }
}

impl PartialEq<str> for NcnameString {
    fn eq(&self, other: &str) -> (r: bool) {
        text_eq(self.as_str(), other)
    }
}

impl PartialEqSpecImpl<str> for NcnameString {
    open spec fn obeys_eq_spec() -> bool {
        true
    }

    /// A buffer is equal to a text where its own text is that text.
    open spec fn eq_spec(&self, other: &str) -> bool {
        self@ == other@
    }
}

impl PartialEq<String> for NcnameString {
    fn eq(&self, other: &String) -> (r: bool) {
        text_eq(self.as_str(), other.as_str())
    }
}

impl PartialEqSpecImpl<String> for NcnameString {
    open spec fn obeys_eq_spec() -> bool {
        true
    }

    /// A buffer is equal to a string where its own text is that of the string.
    open spec fn eq_spec(&self, other: &String) -> bool {
        self@ == other@
    }
}

} // verus!
