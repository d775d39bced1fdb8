//! What goes over the wire: outbound lines are framed with a trailing
//! carriage return, inbound bytes are read in bounded chunks and decoded as
//! UTF-8 text.

use vstd::prelude::*;
use vstd::slice::slice_to_vec;
use vstd::utf8::{encode_utf8, valid_utf8};

verus! {

/// The byte written after every outbound line.
pub const CARRIAGE_RETURN: u8 = 13;

/// The capacity of the scratch buffer that one read fills at most.
pub const READ_CAPACITY: usize = 1000;

/// The pause between two iterations of the polling loop, in milliseconds.
pub const POLL_INTERVAL_MS: u64 = 100;

/// How long one device read may block, in milliseconds.
pub const READ_TIMEOUT_MS: u64 = 10;

/// The bytes that one line puts on the wire: its UTF-8 encoding, then one
/// carriage return.
pub open spec fn frame_bytes(line: Seq<char>) -> Seq<u8> {
    encode_utf8(line).push(CARRIAGE_RETURN)
}

/// One outbound line, as two writes: the payload, then the terminator byte.
pub struct Frame {
    pub payload: Vec<u8>,
    pub terminator: u8,
}

impl Frame {
    /// All the bytes of the frame, in the order they are written.
    pub open spec fn bytes(&self) -> Seq<u8> {
        self.payload@.push(self.terminator)
    }
}

/// Frames a line of text for the device.
pub fn frame_line(line: &str) -> (r: Frame)
    ensures
        r.payload@ == encode_utf8(line@),
        r.terminator == CARRIAGE_RETURN,
        r.bytes() == frame_bytes(line@),
{
    let payload = slice_to_vec(line.as_bytes());
    Frame { payload, terminator: CARRIAGE_RETURN }
}

/// The answer of the device to "how many bytes are waiting?".
#[derive(Clone, Copy, PartialEq, Eq, Structural, Debug)]
pub enum ByteCount {
    Available(u32),
    QueryFailed,
}

/// How many bytes to read after a byte-count answer: none when nothing is
/// waiting or the query failed, else what is waiting up to the buffer's
/// capacity.
pub open spec fn read_request(count: ByteCount) -> Option<usize> {
    match count {
        ByteCount::Available(k) => if k == 0 {
            None
        } else if k <= READ_CAPACITY {
            Some(k as usize)
        } else {
            Some(READ_CAPACITY)
        },
        ByteCount::QueryFailed => None,
    }
}

/// Decides the size of the read that follows a byte-count answer.
pub fn read_len(count: ByteCount) -> (r: Option<usize>)
    ensures
        r == read_request(count),
        r matches Some(n) ==> 0 < n <= READ_CAPACITY,
{
    match count {
        ByteCount::Available(k) => {
            if k == 0 {
                None
            } else if k as usize <= READ_CAPACITY {
                Some(k as usize)
            } else {
                Some(READ_CAPACITY)
            }
        },
        ByteCount::QueryFailed => None,
    }
}

/// Relies on `String::from_utf8`: it accepts exactly the well-formed UTF-8
/// byte sequences, and the text it returns is made of those bytes.
#[verifier::external_body]
pub(crate) fn utf8_text(bytes: Vec<u8>) -> (r: Option<String>)
    ensures
        r is Some <==> valid_utf8(bytes@),
        r matches Some(s) ==> encode_utf8(s@) == bytes@,
{
    match String::from_utf8(bytes) {
        Ok(s) => Some(s),
        Err(_) => None,
    }
}

} // verus!
