//! The source buffer of an interactive session: each new input is appended
//! to what was read before, so that the spans of all tokens stay valid.

use vstd::prelude::*;
use vstd::string::*;
use crate::chars::utf8_len;

verus! {

/// The text of the buffer once `src` has been appended: `src` itself if the
/// buffer was empty, else the old text, a newline, and `src`.
pub open spec fn appended(old_text: Seq<char>, src: Seq<char>) -> Seq<char> {
    if old_text.len() == 0 {
        src
    } else {
        old_text + seq!['\n'] + src
    }
}

/// The byte offset in the buffer at which an appended text starts.
pub open spec fn append_offset(old_text: Seq<char>) -> nat {
    if old_text.len() == 0 {
        0
    } else {
        utf8_len(old_text) + 1
    }
}

/// Appends `src` to the buffer and returns the byte offset at which it
/// starts there, which is the offset to scan it with.
pub fn append_source(buffer: &mut String, src: &str) -> (offset: usize)
    requires
        utf8_len(old(buffer)@) < usize::MAX,
    ensures
        final(buffer)@ == appended(old(buffer)@, src@),
        offset == append_offset(old(buffer)@),
{
    if buffer.as_str().is_empty() {
        buffer.append(src);
        assert(buffer@ =~= src@);
        0
    } else {
        let offset = buffer.as_str().len() + 1;
        proof {
            reveal_strlit("\n");
        }
        buffer.append("\n");
        buffer.append(src);
        assert("\n"@ =~= seq!['\n']);
        offset
    }
}

} // verus!
