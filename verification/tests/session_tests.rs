use psu_driver::measure::PsuMode;
use psu_driver::session::{
    parse_output_flag, poll_interval_from_text, Session, SessionState, CHART_CAPACITY,
};

#[test]
fn new_session_is_disconnected_with_defaults() {
    let s = Session::new();
    assert_eq!(s.state, SessionState::Disconnected);
    assert!(!s.poller_on);
    assert!(!s.loop_on);
    assert!(!s.output_on);
    assert_eq!(s.volt_reading_uv, None);
    assert_eq!(s.curr_reading_ua, None);
    assert_eq!(s.power_uw, None);
    assert_eq!(s.mode, PsuMode::Off);
    assert_eq!(s.history.volt_samples().len(), CHART_CAPACITY);
    assert!(s.history.volt_samples().iter().all(|&v| v == 0));
}

#[test]
fn connect_then_disconnect_stops_everything() {
    let mut s = Session::new();
    s.connect_established();
    assert_eq!(s.state, SessionState::Connected);
    s.start_poller(b"500");
    s.start_loop("5.0".to_string(), "10.0".to_string());
    assert!(s.poller_on);
    assert!(s.loop_on);
    s.disconnect();
    assert_eq!(s.state, SessionState::Disconnected);
    assert!(!s.poller_on);
    assert!(!s.loop_on);
    assert!(!s.output_on);
    assert_eq!(s.volt_reading_uv, None);
    assert_eq!(s.curr_reading_ua, None);
    assert_eq!(s.power_uw, None);
    assert_eq!(s.mode, PsuMode::Off);
}

#[test]
fn disconnect_is_idempotent_without_tasks() {
    // Stopping tasks that were never started leaves the same quiet state.
    let mut s = Session::new();
    s.connect_established();
    s.disconnect();
    assert_eq!(s.state, SessionState::Disconnected);
    assert!(!s.poller_on);
    assert!(!s.loop_on);
    s.disconnect();
    assert_eq!(s.state, SessionState::Disconnected);
}

#[test]
fn poll_interval_is_clamped_to_the_floor() {
    assert_eq!(poll_interval_from_text(b"100"), 200);
    assert_eq!(poll_interval_from_text(b"199"), 200);
    assert_eq!(poll_interval_from_text(b"200"), 200);
    assert_eq!(poll_interval_from_text(b"500"), 500);
    // A cadence that does not parse falls back to the default, then clamps.
    assert_eq!(poll_interval_from_text(b"fast"), 200);
    assert_eq!(poll_interval_from_text(b""), 200);
}

#[test]
fn output_flag_reads_on_forms() {
    assert!(parse_output_flag(b"1"));
    assert!(parse_output_flag(b"ON"));
    assert!(parse_output_flag(b"on\r\n"));
    assert!(parse_output_flag(b" On "));
    assert!(!parse_output_flag(b"0"));
    assert!(!parse_output_flag(b"OFF"));
    assert!(!parse_output_flag(b""));
}

#[test]
fn resync_applies_read_back_values() {
    let mut s = Session::new();
    s.connect_established();
    s.resync_output(Some(&b"1".to_vec()));
    assert!(s.output_on);
    s.resync_set_voltage(Some(&b"12.0000".to_vec()));
    assert_eq!(s.target_volt_uv, 12_000_000);
    s.resync_current_limit(Some(&b"1.500".to_vec()));
    assert_eq!(s.limit_ua, 1_500_000);
}

#[test]
fn resync_without_reply_keeps_prior_values() {
    let mut s = Session::new();
    s.connect_established();
    s.resync_set_voltage(Some(&b"12.0".to_vec()));
    s.resync_set_voltage(None);
    assert_eq!(s.target_volt_uv, 12_000_000);
    // A reply that does not parse reads as zero, the permissive fallback.
    s.resync_current_limit(Some(&b"?".to_vec()));
    assert_eq!(s.limit_ua, 0);
}

#[test]
fn poll_tick_success_updates_readings_and_history() {
    let mut s = Session::new();
    s.connect_established();
    s.resync_output(Some(&b"1".to_vec()));
    s.resync_current_limit(Some(&b"1.000".to_vec()));
    s.start_poller(b"500");
    s.poll_tick(Some(&b"5.0000,0.9600".to_vec()));
    assert_eq!(s.volt_reading_uv, Some(5_000_000));
    assert_eq!(s.curr_reading_ua, Some(960_000));
    assert_eq!(s.power_uw, Some(4_800_000));
    assert_eq!(s.mode, PsuMode::ConstantCurrent);
    let volts = s.history.volt_samples();
    assert_eq!(volts.len(), CHART_CAPACITY);
    assert_eq!(volts[CHART_CAPACITY - 1], 5_000_000);
}

#[test]
fn failed_tick_replicates_last_known_sample() {
    // A failed tick right after one reporting (5.0, 1.0) appends (5.0, 1.0)
    // again, not zeros, keeping the channels in step.
    let mut s = Session::new();
    s.connect_established();
    s.start_poller(b"500");
    s.poll_tick(Some(&b"5.0,1.0".to_vec()));
    s.poll_tick(None);
    let volts = s.history.volt_samples();
    let currs = s.history.curr_samples();
    assert_eq!(volts[CHART_CAPACITY - 2], 5_000_000);
    assert_eq!(volts[CHART_CAPACITY - 1], 5_000_000);
    assert_eq!(currs[CHART_CAPACITY - 2], 1_000_000);
    assert_eq!(currs[CHART_CAPACITY - 1], 1_000_000);
    // The displayed readings keep their last good values too.
    assert_eq!(s.volt_reading_uv, Some(5_000_000));
    assert_eq!(s.curr_reading_ua, Some(1_000_000));
}

#[test]
fn malformed_tick_counts_as_failed() {
    let mut s = Session::new();
    s.connect_established();
    s.start_poller(b"500");
    s.poll_tick(Some(&b"3.3,0.1".to_vec()));
    // One field only: a parse mismatch, handled like a missing reply.
    s.poll_tick(Some(&b"3.3".to_vec()));
    assert_eq!(s.volt_reading_uv, Some(3_300_000));
    let volts = s.history.volt_samples();
    assert_eq!(volts[CHART_CAPACITY - 1], 3_300_000);
}

#[test]
fn ring_length_never_changes() {
    let mut s = Session::new();
    s.connect_established();
    s.start_poller(b"500");
    for k in 0..250 {
        if k % 3 == 0 {
            s.poll_tick(None);
        } else {
            s.poll_tick(Some(&b"1.0,0.5".to_vec()));
        }
        assert_eq!(s.history.volt_samples().len(), CHART_CAPACITY);
        assert_eq!(s.history.curr_samples().len(), CHART_CAPACITY);
    }
}

#[test]
fn poll_tick_while_disconnected_is_a_no_op() {
    let mut s = Session::new();
    s.poll_tick(Some(&b"5.0,1.0".to_vec()));
    assert_eq!(s.volt_reading_uv, None);
    assert!(s.history.volt_samples().iter().all(|&v| v == 0));
}

#[test]
fn wave_ticks_alternate_set_voltage_commands() {
    // (5.0, 10.0) at a 100 ms cadence over 250 ms: two ticks fire, and the
    // issued commands alternate, starting with the first set point.
    let mut s = Session::new();
    s.connect_established();
    s.start_loop("5.0".to_string(), "10.0".to_string());
    let first = s.wave_tick().expect("connected tick issues a command");
    let second = s.wave_tick().expect("connected tick issues a command");
    assert_eq!(first, "VOLT 5.0");
    assert_eq!(second, "VOLT 10.0");
    assert_ne!(first, second);
    let third = s.wave_tick().expect("connected tick issues a command");
    assert_eq!(third, "VOLT 5.0");
}

#[test]
fn wave_tick_while_disconnected_issues_nothing() {
    let mut s = Session::new();
    s.start_loop("5.0".to_string(), "10.0".to_string());
    assert_eq!(s.wave_tick(), None);
}
