use psu_driver::commands;
use psu_driver::commands::{is_query, set_current_command, set_voltage_command};
use psu_driver::driver::execute;

#[test]
fn query_classification_follows_the_marker() {
    assert!(is_query(commands::IDN));
    assert!(is_query(commands::READ_ALL));
    assert!(is_query(commands::READ_OUTP));
    assert!(is_query(commands::GET_SET_VOLT));
    assert!(!is_query(commands::RESET));
    assert!(!is_query(commands::UNLOCK));
    assert!(!is_query(commands::OUTP_ON));
    assert!(!is_query("VOLT 5.0"));
}

#[test]
fn set_commands_carry_the_value() {
    assert_eq!(set_voltage_command("5.0"), "VOLT 5.0");
    assert_eq!(set_current_command("1.500"), "CURR 1.500");
}

#[test]
fn execute_non_query_never_reads() {
    // Whatever the transport holds, a command without the marker consumes
    // nothing and returns no data.
    let r = execute(commands::OUTP_ON, b"stale reply\n");
    assert_eq!(r.frame, b"OUTP ON\r\n".to_vec());
    assert_eq!(r.reply, None);
    assert_eq!(r.consumed, 0);
}

#[test]
fn execute_query_returns_trimmed_reply() {
    let r = execute(commands::READ_ALL, b"1.234,0.567\n");
    assert_eq!(r.frame, b"MEAS:ALL?\r\n".to_vec());
    assert_eq!(r.reply, Some(b"1.234,0.567".to_vec()));
    assert_eq!(r.consumed, 12);
}

#[test]
fn execute_query_with_silent_transport_returns_no_data() {
    let r = execute(commands::IDN, b"");
    assert_eq!(r.reply, None);
    assert_eq!(r.consumed, 0);
}

#[test]
fn execute_query_keeps_partial_reply() {
    let r = execute(commands::IDN, b"PSU-3005 ");
    assert_eq!(r.reply, Some(b"PSU-3005".to_vec()));
    assert_eq!(r.consumed, 9);
}
