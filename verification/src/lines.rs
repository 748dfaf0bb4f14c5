//! Line framing over the child's standard streams.
//!
//! The wire format is one complete message per line: the writer task
//! appends a newline terminator to each outbound message, and the
//! reader task forwards only lines that carry content — blank lines
//! have no protocol meaning and are discarded.

use vstd::prelude::*;

verus! {

/// Whether a character counts as whitespace when a line is judged
/// blank.  The Unicode property behind it is wide, so it is left
/// unspecified here; the trusted wrapper below ties it to the standard
/// library's answer.
pub uninterp spec fn unicode_whitespace(c: char) -> bool;

/// Relies on `char::is_whitespace`: the `White_Space` property of the
/// character, a function of the character alone.
#[verifier::external_body]
fn char_is_whitespace(c: char) -> (r: bool)
    ensures
        r == unicode_whitespace(c),
{
    c.is_whitespace()
}

/// A line is blank when every character in it is whitespace — in
/// particular when it is empty.
pub open spec fn blank(line: Seq<char>) -> bool {
    forall|i: int| 0 <= i < line.len() ==> unicode_whitespace(#[trigger] line[i])
}

/// The reader task's decision: forward a line to the inbound queue
/// only when trimming would leave something of it.
pub fn keep_line(line: &String) -> (r: bool)
    ensures
        r == !blank(line@),
{
    let s = line.as_str();
    let n = s.unicode_len();
    let mut i: usize = 0;
    while i < n
        invariant
            i <= n,
            n == s@.len(),
            s@ == line@,
            forall|j: int| 0 <= j < i ==> unicode_whitespace(#[trigger] s@[j]),
        decreases n - i,
    {
        if !char_is_whitespace(s.get_char(i)) {
            return true;
        }
        i = i + 1;
    }
    false
}

/// The writer task's framing: the message followed by the newline
/// terminator, written as one record.
pub fn frame_message(message: &String) -> (r: String)
    ensures
        r@ == message@ + seq!['\n'],
{
    let mut s = message.clone();
    s.append("\n");
    proof {
        reveal_strlit("\n");
        assert(s@ =~= message@ + seq!['\n']);
    }
    s
}

} // verus!
