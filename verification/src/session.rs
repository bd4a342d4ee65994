//! The session state machine and the two periodic tasks built on it.
//!
//! A session is `Disconnected` or `Connected`, owns at most one poller and
//! one waveform loop, and is the only place those tasks are started or
//! stopped.  The surrounding application owns the transport and the timers;
//! it feeds each tick's reply bytes in and carries the resulting commands
//! and readings out, so every decision taken here is verified.

use crate::commands::set_voltage_command;
use crate::measure::{
    classify_mode, mode_spec, parse_measurement, parse_measurement_spec, power_micro,
    power_microwatts, PsuMode,
};
use crate::codec::{trim, trim_spec};
use crate::numbers::{decimal_or_zero, parse_decimal_or_zero, parse_u64, parse_u64_spec};
use crate::ring::{advanced, ChartHistory};
use vstd::prelude::*;
use vstd::string::*;

verus! {

#[derive(Clone, Copy, PartialEq, Eq, Structural, Debug)]
pub enum SessionState {
    Disconnected,
    Connected,
}

/// The waveform loop's two textual set points and its flip-flop.
pub struct WaveState {
    pub target_a: String,
    pub target_b: String,
    pub flip: bool,
}

/// Samples per channel in the chart history.
pub const CHART_CAPACITY: usize = 100;

/// Default band, in percent, within which a current reading counts as
/// sitting at its limit.
pub const CC_BAND_PCT: u64 = 5;

/// Default noise floor, in micro-amperes, under which a current reading
/// never counts as sitting at its limit.
pub const CC_NOISE_FLOOR_UA: i64 = 10_000;

/// Slowest cadence the operator may not undercut: one full exchange must be
/// able to finish on the line before the next begins.
pub const POLL_FLOOR_MS: u64 = 200;

/// Cadence assumed when the operator's cadence text does not parse.
pub const POLL_DEFAULT_MS: u64 = 100;

/// The operator's polling cadence, read permissively and held to the floor.
pub open spec fn poll_interval_spec(s: Seq<u8>) -> int {
    let raw = match parse_u64_spec(s) {
        Some(v) => v,
        None => POLL_DEFAULT_MS as int,
    };
    if raw < POLL_FLOOR_MS as int {
        POLL_FLOOR_MS as int
    } else {
        raw
    }
}

/// Read and clamp the operator's polling cadence text.
pub fn poll_interval_from_text(text: &[u8]) -> (r: u64)
    ensures
        r as int == poll_interval_spec(text@),
{
    let raw = match parse_u64(text) {
        Some(v) => v,
        None => POLL_DEFAULT_MS,
    };
    if raw < POLL_FLOOR_MS {
        POLL_FLOOR_MS
    } else {
        raw
    }
}

/// A lower-case ASCII letter raised to upper case; other bytes unchanged.
pub open spec fn to_upper(b: u8) -> u8 {
    if 97 <= b <= 122 {
        (b - 32) as u8
    } else {
        b
    }
}

pub open spec fn upper_ascii(s: Seq<u8>) -> Seq<u8> {
    Seq::new(s.len(), |i: int| to_upper(s[i]))
}

/// How the output-state reply reads: the output is on iff the trimmed
/// reply, raised to upper case, is exactly `1` or `ON`.
pub open spec fn output_flag_spec(line: Seq<u8>) -> bool {
    let c = upper_ascii(trim_spec(line));
    c == seq![49u8] || c == seq![79u8, 78u8]
}

/// Read the output-state reply.
pub fn parse_output_flag(line: &[u8]) -> (r: bool)
    ensures
        r == output_flag_spec(line@),
{
    let t = trim(line);
    let n = t.len();
    let mut up: Vec<u8> = Vec::new();
    let mut i: usize = 0;
    while i < n
        invariant
            i <= n,
            n == t@.len(),
            up@.len() == i,
            forall|j: int| 0 <= j < i ==> up@[j] == to_upper(t@[j]),
        decreases n - i,
    {
        let b = t[i];
        if b >= 97 && b <= 122 {
            up.push(b - 32);
        } else {
            up.push(b);
        }
        i = i + 1;
    }
    proof {
        assert(up@ =~= upper_ascii(trim_spec(line@)));
    }
    let r = (up.len() == 1 && *up.get(0).unwrap() == 49) || (up.len() == 2 && *up.get(0).unwrap()
        == 79 && *up.get(1).unwrap() == 78);
    proof {
        let c = upper_ascii(trim_spec(line@));
        if r {
            if up@.len() == 1 {
                assert(c =~= seq![49u8]);
            } else {
                assert(c =~= seq![79u8, 78u8]);
            }
        } else {
            if c == seq![49u8] {
                assert(up@[0] == 49);
            }
            if c == seq![79u8, 78u8] {
                assert(up@[0] == 79 && up@[1] == 78);
            }
        }
    }
    r
}

/// What a tick's reply parses to, if the tick got a reply at all.
pub open spec fn tick_parsed(reply: Option<&Vec<u8>>) -> Option<(int, int)> {
    match reply {
        Some(l) => parse_measurement_spec(l@),
        None => None,
    }
}

/// The waveform target a tick picks, given the flip-flop's state after that
/// tick's flip.
pub open spec fn selected_target(flip_after: bool, a: Seq<char>, b: Seq<char>) -> Seq<char> {
    if flip_after {
        a
    } else {
        b
    }
}

/// Two consecutive waveform ticks never pick the same target: each tick
/// negates the flip-flop, so with distinct set points the issued set-voltage
/// commands alternate.
pub proof fn lemma_wave_alternates(flip_before: bool, a: Seq<char>, b: Seq<char>)
    requires
        a != b,
    ensures
        selected_target(!flip_before, a, b) != selected_target(!!flip_before, a, b),
{
}

/// One driver session: the connection state, the latest read-back values,
/// the poller's history and the waveform loop's state.
pub struct Session {
    pub state: SessionState,
    /// Whether the poller task is armed.
    pub poller_on: bool,
    /// Whether the waveform loop task is armed.
    pub loop_on: bool,
    /// The output-enable state last read back from the device.
    pub output_on: bool,
    /// The voltage set point last read back or applied, in micro-volts.
    pub target_volt_uv: i64,
    /// The current limit last read back or applied, in micro-amperes.
    pub limit_ua: i64,
    /// The latest voltage reading; nothing while unknown.
    pub volt_reading_uv: Option<i64>,
    /// The latest current reading; nothing while unknown.
    pub curr_reading_ua: Option<i64>,
    /// The latest power figure; nothing while unknown.
    pub power_uw: Option<i128>,
    pub mode: PsuMode,
    /// Constant-current band, in percent of the active limit.
    pub cc_band_pct: u64,
    /// Constant-current noise floor, in micro-amperes.
    pub cc_noise_floor_ua: i64,
    /// The poller cadence, clamped to the floor.
    pub poll_ms: u64,
    pub history: ChartHistory,
    pub wave: WaveState,
}

impl Session {
    pub open spec fn wf(&self) -> bool {
        self.history.wf() && self.cc_band_pct <= 1_000_000
    }

    /// A fresh, disconnected session with default classification constants
    /// and a zeroed chart history.
    pub fn new() -> (r: Session)
        ensures
            r.wf(),
            r.state is Disconnected,
            !r.poller_on,
            !r.loop_on,
            !r.output_on,
            r.target_volt_uv == 0,
            r.limit_ua == 0,
            r.volt_reading_uv is None,
            r.curr_reading_ua is None,
            r.power_uw is None,
            r.mode == PsuMode::Off,
            r.cc_band_pct == CC_BAND_PCT,
            r.cc_noise_floor_ua == CC_NOISE_FLOOR_UA,
            r.poll_ms == POLL_FLOOR_MS,
            r.history.volt_view() =~= Seq::new(CHART_CAPACITY as nat, |i: int| 0i64),
            r.history.curr_view() =~= Seq::new(CHART_CAPACITY as nat, |i: int| 0i64),
            !r.wave.flip,
            r.wave.target_a@ == Seq::<char>::empty(),
            r.wave.target_b@ == Seq::<char>::empty(),
    {
        Session {
            state: SessionState::Disconnected,
            poller_on: false,
            loop_on: false,
            output_on: false,
            target_volt_uv: 0,
            limit_ua: 0,
            volt_reading_uv: None,
            curr_reading_ua: None,
            power_uw: None,
            mode: PsuMode::Off,
            cc_band_pct: CC_BAND_PCT,
            cc_noise_floor_ua: CC_NOISE_FLOOR_UA,
            poll_ms: POLL_FLOOR_MS,
            history: ChartHistory::new(CHART_CAPACITY),
            wave: WaveState { target_a: String::new(), target_b: String::new(), flip: false },
        }
    }

    /// Whether a command may be exchanged right now; a caller seeing `false`
    /// must treat its action as a no-op, as the driver itself would.
    pub fn can_execute(&self) -> (r: bool)
        ensures
            r == (self.state is Connected),
    {
        self.state == SessionState::Connected
    }

    /// Record that the transport opened: the one transition into
    /// `Connected`.  The handshake that follows is fed back through the
    /// resync methods, each best-effort.
    pub fn connect_established(&mut self)
        requires
            old(self).state is Disconnected,
        ensures
            *final(self) == (Session { state: SessionState::Connected, ..*old(self) }),
    {
        self.state = SessionState::Connected;
    }

    /// Leave `Connected`: stops both tasks — armed or not — and resets every
    /// read-back field to unknown.  The one transition out of `Connected`,
    /// and a no-op-safe call in any state.
    pub fn disconnect(&mut self)
        ensures
            *final(self) == (Session {
                state: SessionState::Disconnected,
                poller_on: false,
                loop_on: false,
                output_on: false,
                volt_reading_uv: None,
                curr_reading_ua: None,
                power_uw: None,
                mode: PsuMode::Off,
                ..*old(self)
            }),
            final(self).state is Disconnected,
            !final(self).poller_on,
            !final(self).loop_on,
    {
        self.state = SessionState::Disconnected;
        self.poller_on = false;
        self.loop_on = false;
        self.output_on = false;
        self.volt_reading_uv = None;
        self.curr_reading_ua = None;
        self.power_uw = None;
        self.mode = PsuMode::Off;
    }

    /// Feed back the output-state reply of the connect handshake; no reply
    /// leaves the field as it was.
    pub fn resync_output(&mut self, reply: Option<&Vec<u8>>)
        ensures
            reply is None ==> *final(self) == *old(self),
            reply is Some ==> *final(self) == (Session {
                output_on: output_flag_spec(reply.unwrap()@),
                ..*old(self)
            }),
    {
        match reply {
            Some(line) => {
                self.output_on = parse_output_flag(line.as_slice());
            },
            None => {},
        }
    }

    /// Feed back the set-voltage read-back of the connect handshake; no
    /// reply leaves the field as it was.
    pub fn resync_set_voltage(&mut self, reply: Option<&Vec<u8>>)
        ensures
            reply is None ==> *final(self) == *old(self),
            reply is Some ==> *final(self) == (Session {
                target_volt_uv: final(self).target_volt_uv,
                ..*old(self)
            }),
            reply is Some ==> final(self).target_volt_uv as int == decimal_or_zero(
                trim_spec(reply.unwrap()@),
            ),
    {
        match reply {
            Some(line) => {
                let t = trim(line.as_slice());
                self.target_volt_uv = parse_decimal_or_zero(t.as_slice());
            },
            None => {},
        }
    }

    /// Feed back the current-limit read-back of the connect handshake; no
    /// reply leaves the field as it was.
    pub fn resync_current_limit(&mut self, reply: Option<&Vec<u8>>)
        ensures
            reply is None ==> *final(self) == *old(self),
            reply is Some ==> *final(self) == (Session {
                limit_ua: final(self).limit_ua,
                ..*old(self)
            }),
            reply is Some ==> final(self).limit_ua as int == decimal_or_zero(
                trim_spec(reply.unwrap()@),
            ),
    {
        match reply {
            Some(line) => {
                let t = trim(line.as_slice());
                self.limit_ua = parse_decimal_or_zero(t.as_slice());
            },
            None => {},
        }
    }

    /// Arm the poller: clamp the operator's cadence and start a fresh,
    /// zeroed history.
    pub fn start_poller(&mut self, interval_text: &[u8])
        requires
            old(self).state is Connected,
        ensures
            final(self).poller_on,
            final(self).poll_ms as int == poll_interval_spec(interval_text@),
            final(self).history.wf(),
            final(self).history.volt_view() =~= Seq::new(CHART_CAPACITY as nat, |i: int| 0i64),
            final(self).history.curr_view() =~= Seq::new(CHART_CAPACITY as nat, |i: int| 0i64),
            final(self).state == old(self).state,
            final(self).loop_on == old(self).loop_on,
            final(self).output_on == old(self).output_on,
            final(self).target_volt_uv == old(self).target_volt_uv,
            final(self).limit_ua == old(self).limit_ua,
            final(self).volt_reading_uv == old(self).volt_reading_uv,
            final(self).curr_reading_ua == old(self).curr_reading_ua,
            final(self).power_uw == old(self).power_uw,
            final(self).mode == old(self).mode,
            final(self).cc_band_pct == old(self).cc_band_pct,
            final(self).cc_noise_floor_ua == old(self).cc_noise_floor_ua,
            final(self).wave == old(self).wave,
    {
        self.poller_on = true;
        self.poll_ms = poll_interval_from_text(interval_text);
        self.history = ChartHistory::new(CHART_CAPACITY);
    }

    /// Disarm the poller; ticks already under way finish on their own.
    pub fn stop_poller(&mut self)
        ensures
            *final(self) == (Session { poller_on: false, ..*old(self) }),
    {
        self.poller_on = false;
    }

    /// One poller tick, fed the composite reply the driver got — or nothing,
    /// when the read failed or no exchange took place.
    ///
    /// Disconnected, the tick is a no-op.  A reply that parses updates every
    /// read-back field and appends the new readings to both channels; a
    /// missing or malformed reply leaves the read-back fields alone and
    /// appends the most recent samples again, so both channels advance by
    /// exactly one sample on every connected tick.
    pub fn poll_tick(&mut self, reply: Option<&Vec<u8>>)
        requires
            old(self).wf(),
        ensures
            final(self).wf(),
            !(old(self).state is Connected) ==> *final(self) == *old(self),
            old(self).state is Connected ==> {
                &&& final(self).state == old(self).state
                &&& final(self).poller_on == old(self).poller_on
                &&& final(self).loop_on == old(self).loop_on
                &&& final(self).output_on == old(self).output_on
                &&& final(self).target_volt_uv == old(self).target_volt_uv
                &&& final(self).limit_ua == old(self).limit_ua
                &&& final(self).cc_band_pct == old(self).cc_band_pct
                &&& final(self).cc_noise_floor_ua == old(self).cc_noise_floor_ua
                &&& final(self).poll_ms == old(self).poll_ms
                &&& final(self).wave == old(self).wave
                &&& final(self).history.volt_view().len() == old(
                    self,
                ).history.volt_view().len()
                &&& final(self).history.curr_view().len() == old(
                    self,
                ).history.curr_view().len()
            },
            old(self).state is Connected && tick_parsed(reply) is Some ==> {
                &&& final(self).volt_reading_uv is Some
                &&& final(self).curr_reading_ua is Some
                &&& final(self).volt_reading_uv.unwrap() as int == tick_parsed(reply).unwrap().0
                &&& final(self).curr_reading_ua.unwrap() as int == tick_parsed(reply).unwrap().1
                &&& final(self).power_uw is Some
                &&& final(self).power_uw.unwrap() as int == power_micro(
                    tick_parsed(reply).unwrap().0,
                    tick_parsed(reply).unwrap().1,
                )
                &&& final(self).mode == mode_spec(
                    old(self).output_on,
                    tick_parsed(reply).unwrap().1,
                    old(self).limit_ua as int,
                    old(self).cc_band_pct as int,
                    old(self).cc_noise_floor_ua as int,
                )
                &&& final(self).history.volt_view() == advanced(
                    old(self).history.volt_view(),
                    final(self).volt_reading_uv.unwrap(),
                )
                &&& final(self).history.curr_view() == advanced(
                    old(self).history.curr_view(),
                    final(self).curr_reading_ua.unwrap(),
                )
            },
            old(self).state is Connected && tick_parsed(reply) is None ==> {
                &&& final(self).volt_reading_uv == old(self).volt_reading_uv
                &&& final(self).curr_reading_ua == old(self).curr_reading_ua
                &&& final(self).power_uw == old(self).power_uw
                &&& final(self).mode == old(self).mode
                &&& final(self).history.volt_view() == advanced(
                    old(self).history.volt_view(),
                    old(self).history.volt_view().last(),
                )
                &&& final(self).history.curr_view() == advanced(
                    old(self).history.curr_view(),
                    old(self).history.curr_view().last(),
                )
            },
    {
        match self.state {
            SessionState::Disconnected => {
                return ;
            },
            SessionState::Connected => {},
        }
        let parsed = match reply {
            Some(l) => parse_measurement(l.as_slice()),
            None => None,
        };
        match parsed {
            Some(m) => {
                self.volt_reading_uv = Some(m.volt_uv);
                self.curr_reading_ua = Some(m.curr_ua);
                self.power_uw = Some(power_microwatts(m.volt_uv, m.curr_ua));
                self.mode = classify_mode(
                    self.output_on,
                    m.curr_ua,
                    self.limit_ua,
                    self.cc_band_pct,
                    self.cc_noise_floor_ua,
                );
                self.history.advance(m.volt_uv, m.curr_ua);
            },
            None => {
                let lv = self.history.last_volt();
                let lc = self.history.last_curr();
                self.history.advance(lv, lc);
            },
        }
    }

    /// Arm the waveform loop with its two set points; the flip-flop keeps
    /// whatever phase it had.
    pub fn start_loop(&mut self, target_a: String, target_b: String)
        ensures
            final(self).loop_on,
            final(self).wave.target_a == target_a,
            final(self).wave.target_b == target_b,
            final(self).wave.flip == old(self).wave.flip,
            final(self).state == old(self).state,
            final(self).poller_on == old(self).poller_on,
            final(self).output_on == old(self).output_on,
            final(self).target_volt_uv == old(self).target_volt_uv,
            final(self).limit_ua == old(self).limit_ua,
            final(self).volt_reading_uv == old(self).volt_reading_uv,
            final(self).curr_reading_ua == old(self).curr_reading_ua,
            final(self).power_uw == old(self).power_uw,
            final(self).mode == old(self).mode,
            final(self).cc_band_pct == old(self).cc_band_pct,
            final(self).cc_noise_floor_ua == old(self).cc_noise_floor_ua,
            final(self).poll_ms == old(self).poll_ms,
            final(self).history == old(self).history,
    {
        self.loop_on = true;
        self.wave = WaveState { target_a, target_b, flip: self.wave.flip };
    }

    /// Disarm the waveform loop.
    pub fn stop_loop(&mut self)
        ensures
            *final(self) == (Session { loop_on: false, ..*old(self) }),
    {
        self.loop_on = false;
    }

    /// One waveform tick: negate the flip-flop, then issue the set-voltage
    /// command of whichever target the new phase selects — fire-and-forget,
    /// so no reply is read.  Disconnected, the flip still advances but no
    /// command is issued.
    pub fn wave_tick(&mut self) -> (cmd: Option<String>)
        ensures
            final(self).wave.flip == !old(self).wave.flip,
            final(self).wave.target_a == old(self).wave.target_a,
            final(self).wave.target_b == old(self).wave.target_b,
            final(self).state == old(self).state,
            final(self).poller_on == old(self).poller_on,
            final(self).loop_on == old(self).loop_on,
            final(self).output_on == old(self).output_on,
            final(self).target_volt_uv == old(self).target_volt_uv,
            final(self).limit_ua == old(self).limit_ua,
            final(self).volt_reading_uv == old(self).volt_reading_uv,
            final(self).curr_reading_ua == old(self).curr_reading_ua,
            final(self).power_uw == old(self).power_uw,
            final(self).mode == old(self).mode,
            final(self).cc_band_pct == old(self).cc_band_pct,
            final(self).cc_noise_floor_ua == old(self).cc_noise_floor_ua,
            final(self).poll_ms == old(self).poll_ms,
            final(self).history == old(self).history,
            cmd is Some <==> old(self).state is Connected,
            cmd is Some ==> cmd.unwrap()@ == "VOLT "@ + selected_target(
                final(self).wave.flip,
                old(self).wave.target_a@,
                old(self).wave.target_b@,
            ),
    {
        self.wave.flip = !self.wave.flip;
        match self.state {
            SessionState::Connected => {
                if self.wave.flip {
                    Some(set_voltage_command(self.wave.target_a.as_str()))
                } else {
                    Some(set_voltage_command(self.wave.target_b.as_str()))
                }
            },
            SessionState::Disconnected => None,
        }
    }
}

} // verus!
