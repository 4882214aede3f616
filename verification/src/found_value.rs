//! A value that a lookup found, borrowed from the store it was found in.

use crate::number::{integer_value, is_i32_text, parse_i32};
use crate::text::{chars_are_ignoring_case, same_ignoring_case, to_chars};
use vstd::prelude::*;
use vstd::string::StringExecFns;

verus! {

/// A text that a lookup resolved to. It lives as long as the store does.
#[derive(Clone, Copy, Debug)]
pub struct FoundValue<'a> {
    value: &'a str,
}

impl<'a> View for FoundValue<'a> {
    type V = Seq<char>;

    closed spec fn view(&self) -> Seq<char> {
        self.value@
    }
}

/// The truth value that `text` stands for: `true` and `1` for true, `false`
/// and `0` for false, in any case of letters; `None` for any other text.
pub open spec fn truth_value(text: Seq<char>) -> Option<bool> {
    if same_ignoring_case(text, "true"@) || same_ignoring_case(text, "1"@) {
        Some(true)
    } else if same_ignoring_case(text, "false"@) || same_ignoring_case(text, "0"@) {
        Some(false)
    } else {
        None
    }
}

impl<'a> FoundValue<'a> {
    /// `value` as what a lookup found.
    pub fn new(value: &'a str) -> (r: FoundValue<'a>)
        ensures
            r@ == value@,
    {
        FoundValue { value }
    }

    /// The text as it stands in the store.
    pub fn as_str(&self) -> (r: &'a str)
        ensures
            r@ == self@,
    {
        self.value
    }

    /// A copy of the text.
    pub fn to_text(&self) -> (r: String)
        ensures
            r@ == self@,
    {
        String::from_str(self.value)
    }

    /// The 32-bit signed integer that the text stands for, if it stands for
    /// one.
    pub fn as_i32(&self) -> (r: Option<i32>)
        ensures
            r is Some <==> is_i32_text(self@),
            r matches Some(n) ==> integer_value(self@, true) == Some(n as int),
    {
        parse_i32(self.value)
    }

    /// The truth value that the text stands for, if it stands for one.
    pub fn as_bool(&self) -> (r: Option<bool>)
        ensures
            r == truth_value(self@),
    {
        let v = to_chars(self.value);
        if chars_are_ignoring_case(&v, "true") || chars_are_ignoring_case(&v, "1") {
            Some(true)
        } else if chars_are_ignoring_case(&v, "false") || chars_are_ignoring_case(&v, "0") {
            Some(false)
        } else {
            None
        }
    }
}

} // verus!
