//! Assembles the text of a configuration, line by line.

use crate::syntax::assignment_line;
use vstd::prelude::*;
use vstd::string::StringExecFns;

verus! {

/// `buffer`, ready for one more line: with a line feed at its end unless
/// it is empty.
pub open spec fn on_new_line(buffer: Seq<char>) -> Seq<char> {
    if buffer.len() == 0 {
        buffer
    } else {
        buffer + "\n"@
    }
}

/// `String::with_capacity`: an empty text with room for `capacity` bytes.
/// More than `isize::MAX` bytes cannot be asked for.
#[verifier::external_body]
fn empty_text(capacity: usize) -> (r: String)
    requires
        capacity <= isize::MAX,
    ensures
        r@.len() == 0,
{
    String::with_capacity(capacity)
}

/// The text of a configuration in the making.
pub struct AAMBuilder {
    buffer: String,
}

impl View for AAMBuilder {
    type V = Seq<char>;

    closed spec fn view(&self) -> Seq<char> {
        self.buffer@
    }
}

impl AAMBuilder {
    /// A builder without text.
    pub fn new() -> (r: AAMBuilder)
        ensures
            r@ == Seq::<char>::empty(),
    {
        AAMBuilder { buffer: String::new() }
    }

    /// A builder with room for `capacity` bytes of text.
    pub fn with_capacity(capacity: usize) -> (r: AAMBuilder)
        requires
            capacity <= isize::MAX,
        ensures
            r@ == Seq::<char>::empty(),
    {
        let r = AAMBuilder { buffer: empty_text(capacity) };
        assert(r@ =~= Seq::<char>::empty());
        r
    }

    /// Adds the line `key = value`.
    pub fn add_line(&mut self, key: &str, value: &str)
        ensures
            final(self)@ == on_new_line(old(self)@) + assignment_line(key@, value@),
    {
        if !self.buffer.as_str().is_empty() {
            self.buffer.append("\n");
        }
        self.buffer.append(key);
        self.buffer.append(" = ");
        self.buffer.append(value);
        assert(self@ =~= on_new_line(old(self)@) + assignment_line(key@, value@));
    }

    /// Adds `raw_line` as it is.
    pub fn add_raw(&mut self, raw_line: &str)
        ensures
            final(self)@ == on_new_line(old(self)@) + raw_line@,
    {
        if !self.buffer.as_str().is_empty() {
            self.buffer.append("\n");
        }
        self.buffer.append(raw_line);
    }

    /// The text.
    pub fn build(self) -> (r: String)
        ensures
            r@ == self@,
    {
        self.buffer
    }

    /// A copy of the text as it stands.
    pub fn as_string(&self) -> (r: String)
        ensures
            r@ == self@,
    {
        self.buffer.clone()
    }

    /// The text as it stands.
    pub fn as_str(&self) -> (r: &str)
        ensures
            r@ == self@,
    {
        self.buffer.as_str()
    }
}

impl std::ops::Deref for AAMBuilder {
    type Target = str;

    fn deref(&self) -> (r: &str)
        ensures
            r@ == self@,
    {
        self.buffer.as_str()
    }
}

impl Default for AAMBuilder {
    fn default() -> (r: AAMBuilder)
        ensures
            r@ == Seq::<char>::empty(),
    {
        AAMBuilder::new()
    }
}

} // verus!
