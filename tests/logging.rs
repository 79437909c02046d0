use cf_dns_sync::config::{DisplayConfig, LogType, ShowConfig};
use cf_dns_sync::logging::{
    convert_to_double_digits, get_time, log_line, session_file_name, session_number_from_names, session_of_file_name,
    should_log, LocalTime,
};

fn now() -> LocalTime {
    LocalTime { year: 2023, month: 11, day: 4, hour: 23, minute: 5, second: 9 }
}

#[test]
fn double_digits() {
    assert_eq!(convert_to_double_digits(0), "00");
    assert_eq!(convert_to_double_digits(9), "09");
    assert_eq!(convert_to_double_digits(10), "10");
    assert_eq!(convert_to_double_digits(2023), "2023");
}

#[test]
fn time_prefix_forms() {
    assert_eq!(get_time(true, true, &now()), "[04/11/2023 23:05:09] ");
    assert_eq!(get_time(true, false, &now()), "[04/11/2023] ");
    assert_eq!(get_time(false, true, &now()), "[23:05:09] ");
    assert_eq!(get_time(false, false, &now()), "");
}

#[test]
fn lines_carry_prefix_and_tag() {
    let all = DisplayConfig { date: true, time: true, log_type: true };
    assert_eq!(log_line("hi", LogType::Warn, &all, &now()), "[04/11/2023 23:05:09] [WARN] hi");
    let bare = DisplayConfig { date: false, time: false, log_type: false };
    assert_eq!(log_line("hi", LogType::Error, &bare, &now()), "hi");
    let tag = DisplayConfig { date: false, time: false, log_type: true };
    assert_eq!(log_line("x", LogType::Log, &tag, &now()), "[LOG] x");
    assert_eq!(log_line("x", LogType::Error, &tag, &now()), "[ERROR] x");
}

#[test]
fn severities_are_filtered() {
    let show = ShowConfig { logs: false, warnings: true, errors: false };
    assert!(!should_log(LogType::Log, &show));
    assert!(should_log(LogType::Warn, &show));
    assert!(!should_log(LogType::Error, &show));
}

#[test]
fn session_names() {
    assert_eq!(session_file_name(7), "session7.txt");
    assert_eq!(session_file_name(-3), "session-3.txt");
    assert_eq!(session_of_file_name("session12.txt"), Some(12));
    assert_eq!(session_of_file_name("session1.txt"), Some(1));
    assert_eq!(session_of_file_name("session.txt"), None);
    assert_eq!(session_of_file_name("xsession12.txt"), None);
    assert_eq!(session_of_file_name("session1session.txt"), None);
    assert_eq!(session_of_file_name("sessionab.txt"), None);
}

#[test]
fn next_session_number() {
    let names: Vec<String> = ["session3.txt", "session12.txt", "notes.txt", "session10.txt"].iter().map(|s| s.to_string()).collect();
    assert_eq!(session_number_from_names(&names, true), 13);
    assert_eq!(session_number_from_names(&names, false), 12);
    assert_eq!(session_number_from_names(&vec![], true), 1);
    assert_eq!(session_number_from_names(&vec!["readme.md".to_string()], true), 1);
    assert_eq!(session_number_from_names(&vec!["session2147483647.txt".to_string()], true), 2147483647);
}
