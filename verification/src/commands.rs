//! The SCPI-style command dialect the device understands.
//!
//! A command is an immutable ASCII string; it is a *query* exactly when its
//! text contains a question mark, and only queries are answered with a
//! response line.

use crate::codec::{find_byte, first_at, lemma_first_at_in};
use vstd::prelude::*;
use vstd::string::*;

verus! {

pub const IDN: &'static str = "*IDN?";

pub const RESET: &'static str = "*RST";

/// Returns front-panel control to the device before the line is released.
pub const UNLOCK: &'static str = "SYST:COMM:RLST LOC";

pub const SET_VOLT: &'static str = "VOLT";

pub const SET_CURR: &'static str = "CURR";

/// Composite measurement query; the reply carries at least the voltage and
/// current readings, comma separated.
pub const READ_ALL: &'static str = "MEAS:ALL?";

pub const READ_VOLT: &'static str = "MEAS:VOLT?";

pub const READ_CURR: &'static str = "MEAS:CURR?";

pub const READ_OUTP: &'static str = "OUTPut?";

pub const OUTP_ON: &'static str = "OUTP ON";

pub const OUTP_OFF: &'static str = "OUTP OFF";

pub const GET_SET_VOLT: &'static str = "SOUR:VOLT:LEV:IMM:AMPL?";

pub const GET_SET_CURR: &'static str = "SOUR:CURR:LEV:IMM:AMPL?";

/// The query marker.  In UTF-8 this byte only ever encodes the question mark
/// itself, so looking for it among the command's bytes is the same as looking
/// for the character.
pub const QUERY_MARK: u8 = 63;

/// A command is a query iff its encoded text contains the query marker.
pub open spec fn is_query_bytes(cmd: Seq<u8>) -> bool {
    cmd.contains(QUERY_MARK)
}

/// Whether `cmd` is a query, that is, expects exactly one response line.
pub fn is_query(cmd: &str) -> (r: bool)
    ensures
        r == is_query_bytes(cmd.spec_bytes()),
{
    let bytes = cmd.as_bytes();
    let i = find_byte(bytes, QUERY_MARK);
    proof {
        lemma_first_at_in(bytes@, QUERY_MARK);
    }
    i < bytes.len()
}

/// The set-voltage command for a textual set point.
pub fn set_voltage_command(value: &str) -> (r: String)
    ensures
        r@ == "VOLT "@ + value@,
{
    String::from_str("VOLT ").concat(value)
}

/// The set-current command for a textual limit.
pub fn set_current_command(value: &str) -> (r: String)
    ensures
        r@ == "CURR "@ + value@,
{
    String::from_str("CURR ").concat(value)
}

} // verus!
