//! Interpretation of the composite measurement reply and of the readings it
//! carries: field splitting, power, and regulation-mode classification.

use crate::codec::{find_byte, first_at, keep_ascii, sanitize, trim, trim_spec};
use crate::numbers::{decimal_or_zero, parse_decimal_or_zero};
use vstd::prelude::*;
use vstd::slice::slice_subrange;

verus! {

/// The field separator of a composite reply.
pub const COMMA: u8 = 44;

/// The regulation mode inferred from a measurement.  `Off` stands both for a
/// disabled output and for the unknown state shown while disconnected.
#[derive(Clone, Copy, PartialEq, Eq, Structural, Debug)]
pub enum PsuMode {
    Off,
    ConstantCurrent,
    ConstantVoltage,
}

/// One parsed measurement, in micro-units.
#[derive(Clone, Copy, PartialEq, Eq, Structural, Debug)]
pub struct Measurement {
    pub volt_uv: i64,
    pub curr_ua: i64,
}

pub open spec fn abs_of(x: int) -> int {
    if x < 0 {
        -x
    } else {
        x
    }
}

/// Mode classification: with the output disabled there is no mode to show;
/// otherwise the supply is taken to regulate current when the measured
/// current lies within `band_pct` percent of the active limit (boundary
/// included) and above the noise floor, and to regulate voltage in every
/// other case.  Band and floor are caller-supplied, as the heuristic is not
/// hardware-verified.
pub open spec fn mode_spec(
    output_on: bool,
    curr_ua: int,
    limit_ua: int,
    band_pct: int,
    noise_floor_ua: int,
) -> PsuMode {
    if !output_on {
        PsuMode::Off
    } else if abs_of(curr_ua - limit_ua) * 100 <= limit_ua * band_pct && curr_ua
        > noise_floor_ua {
        PsuMode::ConstantCurrent
    } else {
        PsuMode::ConstantVoltage
    }
}

/// Classify the regulation mode of one measurement.
pub fn classify_mode(
    output_on: bool,
    curr_ua: i64,
    limit_ua: i64,
    band_pct: u64,
    noise_floor_ua: i64,
) -> (r: PsuMode)
    requires
        band_pct <= 1_000_000,
    ensures
        r == mode_spec(
            output_on,
            curr_ua as int,
            limit_ua as int,
            band_pct as int,
            noise_floor_ua as int,
        ),
{
    if !output_on {
        return PsuMode::Off;
    }
    let d: i128 = curr_ua as i128 - limit_ua as i128;
    let a: i128 = if d < 0 {
        -d
    } else {
        d
    };
    let l: i128 = limit_ua as i128;
    let bp: i128 = band_pct as i128;
    proof {
        assert(l * bp <= 9223372036854775807i128 * 1_000_000 && l * bp
            >= (-9223372036854775807i128 - 1) * 1_000_000) by (nonlinear_arith)
            requires
                -9223372036854775807 - 1 <= l <= 9223372036854775807,
                0 <= bp <= 1_000_000,
        ;
    }
    let within = a * 100 <= l * bp;
    if within && curr_ua > noise_floor_ua {
        PsuMode::ConstantCurrent
    } else {
        PsuMode::ConstantVoltage
    }
}

/// Power in micro-watts: the micro-unit product scaled back down, rounded
/// toward zero.
pub open spec fn power_micro(volt_uv: int, curr_ua: int) -> int {
    let p = volt_uv * curr_ua;
    if p >= 0 {
        p / 1_000_000
    } else {
        -((-p) / 1_000_000)
    }
}

/// Compute the power drawn, in micro-watts.
pub fn power_microwatts(volt_uv: i64, curr_ua: i64) -> (r: i128)
    ensures
        r as int == power_micro(volt_uv as int, curr_ua as int),
{
    let a: i128 = volt_uv as i128;
    let b: i128 = curr_ua as i128;
    proof {
        assert(a * b <= 85070591730234615865843651857942052864i128 && a * b
            >= -85070591730234615865843651857942052864i128) by (nonlinear_arith)
            requires
                -9223372036854775807 - 1 <= a <= 9223372036854775807,
                -9223372036854775807 - 1 <= b <= 9223372036854775807,
        ;
    }
    let p: i128 = a * b;
    if p >= 0 {
        p / 1_000_000
    } else {
        -((-p) / 1_000_000)
    }
}

/// A composite reply, sanitized and trimmed, ready for field splitting.
pub open spec fn measurement_line(line: Seq<u8>) -> Seq<u8> {
    trim_spec(keep_ascii(line))
}

/// The trimmed text before the first separator.
pub open spec fn first_field(clean: Seq<u8>) -> Seq<u8> {
    trim_spec(clean.take(first_at(clean, COMMA)))
}

/// The trimmed text between the first separator and the second one or the
/// end; fields past the second are ignored.
pub open spec fn second_field(clean: Seq<u8>) -> Seq<u8> {
    let rest = clean.skip(first_at(clean, COMMA) + 1);
    let c2 = first_at(rest, COMMA);
    if c2 >= 0 {
        trim_spec(rest.take(c2))
    } else {
        trim_spec(rest)
    }
}

/// What a composite reply yields: voltage and current in micro-units, read
/// permissively, or nothing when the reply does not split into at least two
/// fields.
pub open spec fn parse_measurement_spec(line: Seq<u8>) -> Option<(int, int)> {
    let clean = measurement_line(line);
    if first_at(clean, COMMA) >= 0 {
        Some(
            (decimal_or_zero(first_field(clean)), decimal_or_zero(second_field(clean))),
        )
    } else {
        None
    }
}

/// Parse a composite measurement reply.
pub fn parse_measurement(line: &[u8]) -> (r: Option<Measurement>)
    ensures
        r is Some <==> parse_measurement_spec(line@) is Some,
        r is Some ==> r.unwrap().volt_uv as int == parse_measurement_spec(line@).unwrap().0,
        r is Some ==> r.unwrap().curr_ua as int == parse_measurement_spec(line@).unwrap().1,
{
    let sane = sanitize(line);
    let clean = trim(sane.as_slice());
    let n = clean.len();
    let c = find_byte(clean.as_slice(), COMMA);
    if c == n {
        return None;
    }
    let head = slice_subrange(clean.as_slice(), 0, c);
    proof {
        assert(head@ =~= measurement_line(line@).take(c as int));
    }
    let f0 = trim(head);
    let rest = slice_subrange(clean.as_slice(), c + 1, n);
    proof {
        assert(rest@ =~= measurement_line(line@).skip(c + 1));
    }
    let c2 = find_byte(rest, COMMA);
    let f1 = if c2 < rest.len() {
        let mid = slice_subrange(rest, 0, c2);
        proof {
            assert(mid@ =~= rest@.take(c2 as int));
        }
        trim(mid)
    } else {
        trim(rest)
    };
    let volt_uv = parse_decimal_or_zero(f0.as_slice());
    let curr_ua = parse_decimal_or_zero(f1.as_slice());
    Some(Measurement { volt_uv, curr_ua })
}

} // verus!
