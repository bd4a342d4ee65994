//! The command driver: one request/response exchange at a time.
//!
//! The discipline is flush-before-send: stale bytes left by an earlier
//! unread reply are discarded before the frame is written, so the bytes the
//! transport offers afterwards — the `available` argument here — belong to
//! this exchange alone.  A query then reads exactly one response line; any
//! other command reads nothing at all.

use crate::codec::{decode_line, decoded_line, encode, line_consumed, CR, LF};
use crate::commands::{is_query, is_query_bytes};
use vstd::prelude::*;
use vstd::string::*;

verus! {

/// The outcome of one exchange.
pub struct Exchange {
    /// The frame the transport must write.
    pub frame: Vec<u8>,
    /// The decoded reply line, for a query the transport answered.
    pub reply: Option<Vec<u8>>,
    /// How many of the offered bytes the exchange consumed; a non-query
    /// consumes none.
    pub consumed: usize,
}

/// Drive one exchange of `cmd` against a transport whose pending input,
/// once the frame is written, is `available`.
///
/// A command without a query marker is fire-and-forget: no byte is read and
/// no reply is returned, whatever the transport holds.  A query consumes one
/// line's worth of the offered bytes and returns the decoded line — nothing
/// when the transport stayed silent, the trimmed partial content when the
/// terminator never arrived.
pub fn execute(cmd: &str, available: &[u8]) -> (r: Exchange)
    ensures
        r.frame@ == cmd.spec_bytes() + seq![CR, LF],
        !is_query_bytes(cmd.spec_bytes()) ==> r.reply is None && r.consumed == 0,
        is_query_bytes(cmd.spec_bytes()) ==> r.consumed == line_consumed(available@),
        is_query_bytes(cmd.spec_bytes()) ==> (r.reply is Some <==> decoded_line(available@)
            is Some),
        is_query_bytes(cmd.spec_bytes()) && r.reply is Some ==> r.reply.unwrap()@
            == decoded_line(available@).unwrap(),
{
    let frame = encode(cmd);
    if is_query(cmd) {
        let (reply, consumed) = decode_line(available);
        Exchange { frame, reply, consumed }
    } else {
        Exchange { frame, reply: None, consumed: 0 }
    }
}

} // verus!
