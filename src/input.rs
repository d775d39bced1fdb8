//! Lines typed by the user, as read from the input stream.

use vstd::prelude::*;
use vstd::utf8::{encode_utf8, encode_utf8_valid_utf8, is_char_boundary_iff_is_leading_byte};

verus! {

/// The byte of the newline character.
pub const NEWLINE: u8 = 10;

/// The bytes of a line without the newline that ends it, if one does.
pub open spec fn without_newline(b: Seq<u8>) -> Seq<u8> {
    if b.len() > 0 && b.last() == NEWLINE {
        b.drop_last()
    } else {
        b
    }
}

/// The text of a line read from the input: the line without its trailing
/// newline. A line that has none (the last one before the end of the
/// stream) is kept whole.
pub fn line_text(raw: &str) -> (r: &str)
    ensures
        encode_utf8(r@) == without_newline(encode_utf8(raw@)),
{
    let bytes = raw.as_bytes();
    let n = bytes.len();
    if n > 0 && bytes[n - 1] == NEWLINE {
        proof {
            encode_utf8_valid_utf8(raw@);
            is_char_boundary_iff_is_leading_byte(encode_utf8(raw@), n - 1);
        }
        let (head, _) = raw.split_at(n - 1);
        assert(encode_utf8(head@) =~= encode_utf8(raw@).drop_last());
        head
    } else {
        raw
    }
}

} // verus!
