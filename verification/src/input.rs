//! The line that is being typed.

use crate::text::{all_printable, is_printable, printable};
use vstd::prelude::*;

verus! {

/// `String::push` of the standard library appends the character to the end of
/// the string and leaves the rest as it was.
pub assume_specification[ String::push ](s: &mut String, c: char)
    ensures
        final(s)@ == old(s)@.push(c),
;

/// `String::pop` of the standard library removes the last character and
/// returns it; on an empty string it returns `None` and changes nothing.
pub assume_specification[ String::pop ](s: &mut String) -> (r: Option<char>)
    ensures
        old(s)@.len() == 0 ==> r.is_none() && final(s)@ == old(s)@,
        old(s)@.len() > 0 ==> r == Some(old(s)@.last()) && final(s)@ == old(s)@.drop_last(),
;

/// The command line that has been typed and not yet replaced: a sequence of
/// printable characters that grows and shrinks at its end.
pub struct InputBuffer {
    text: String,
}

impl View for InputBuffer {
    type V = Seq<char>;

    closed spec fn view(&self) -> Seq<char> {
        self.text@
    }
}

impl InputBuffer {
    /// The invariant of the type: the line holds printable characters only.
    pub open spec fn wf(&self) -> bool {
        all_printable(self@)
    }

    /// The empty line.
    pub fn new() -> (buffer: InputBuffer)
        ensures
            buffer.wf(),
            buffer@ == Seq::<char>::empty(),
    {
        InputBuffer { text: String::new() }
    }

    /// Appends `c` if it is printable, and says whether it did. A control
    /// character is not part of a line: it is left out and the line stays as
    /// it was.
    pub fn push(&mut self, c: char) -> (appended: bool)
        requires
            old(self).wf(),
        ensures
            final(self).wf(),
            appended == printable(c),
            printable(c) ==> final(self)@ == old(self)@.push(c),
            !printable(c) ==> final(self)@ == old(self)@,
    {
        if is_printable(c) {
            self.text.push(c);
            true
        } else {
            false
        }
    }

    /// Removes the last character and returns it. On the empty line there is
    /// nothing to remove: the line stays empty and `None` comes back.
    pub fn backspace(&mut self) -> (removed: Option<char>)
        requires
            old(self).wf(),
        ensures
            final(self).wf(),
            old(self)@.len() == 0 ==> removed.is_none() && final(self)@ == old(self)@,
            old(self)@.len() > 0 ==> removed == Some(old(self)@.last()) && final(self)@ == old(
                self,
            )@.drop_last(),
    {
        self.text.pop()
    }

    /// The line as text.
    pub fn as_str(&self) -> (text: &str)
        ensures
            text@ == self@,
    {
        self.text.as_str()
    }

    /// Tells whether nothing has been typed.
    pub fn is_empty(&self) -> (empty: bool)
        ensures
            empty == (self@.len() == 0),
    {
        self.text.as_str().is_empty()
    }
}

} // verus!
