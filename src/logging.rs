//! How log lines are built and which session's file they go to.
use vstd::prelude::*;
use crate::config::{DisplayConfig, LogType, ShowConfig};
use crate::text::{
    contains_fragment, contains_text, decimal, decimal_text, i32_value, occurs_at, parse_i32, signed_decimal,
    signed_decimal_text,
};

verus! {

/// A moment of local time, as the clock gave it.
#[derive(Clone, Copy, Debug, PartialEq, Eq, Structural)]
pub struct LocalTime {
    pub year: u32,
    pub month: u32,
    pub day: u32,
    pub hour: u32,
    pub minute: u32,
    pub second: u32,
}

/// A number written with at least two digits.
pub open spec fn two_digits(n: nat) -> Seq<char> {
    if n >= 10 {
        decimal(n)
    } else {
        seq!['0'] + decimal(n)
    }
}

/// `dd/mm/yy..`, each part with at least two digits.
pub open spec fn date_text(t: LocalTime) -> Seq<char> {
    two_digits(t.day as nat) + seq!['/'] + two_digits(t.month as nat) + seq!['/'] + two_digits(t.year as nat)
}

/// `hh:mm:ss`.
pub open spec fn clock_text(t: LocalTime) -> Seq<char> {
    two_digits(t.hour as nat) + seq![':'] + two_digits(t.minute as nat) + seq![':'] + two_digits(t.second as nat)
}

/// The time part of a log line's prefix.
pub open spec fn time_prefix(show_date: bool, show_time: bool, t: LocalTime) -> Seq<char> {
    if show_date && show_time {
        seq!['['] + date_text(t) + seq![' '] + clock_text(t) + seq![']', ' ']
    } else if show_date {
        seq!['['] + date_text(t) + seq![']', ' ']
    } else if show_time {
        seq!['['] + clock_text(t) + seq![']', ' ']
    } else {
        Seq::empty()
    }
}

/// The tag of a severity.
pub open spec fn type_tag(t: LogType) -> Seq<char> {
    match t {
        LogType::Log => "[LOG] "@,
        LogType::Warn => "[WARN] "@,
        LogType::Error => "[ERROR] "@,
    }
}

/// A whole log line: time prefix, severity tag where shown, then the message.
pub open spec fn line_text(message: Seq<char>, t: LogType, display: DisplayConfig, now: LocalTime) -> Seq<char> {
    time_prefix(display.date, display.time, now) + (if display.log_type {
        type_tag(t)
    } else {
        Seq::empty()
    }) + message
}

/// Whether messages of this severity are logged at all.
pub open spec fn shown(t: LogType, show: ShowConfig) -> bool {
    match t {
        LogType::Log => show.logs,
        LogType::Warn => show.warnings,
        LogType::Error => show.errors,
    }
}

/// `num` written with at least two digits.
pub fn convert_to_double_digits(num: u32) -> (r: String)
    ensures
        r@ == two_digits(num as nat),
{
    if num >= 10 {
        decimal_text(num as u64)
    } else {
        let mut s = String::from_str("0");
        proof {
            reveal_strlit("0");
        }
        s.append(decimal_text(num as u64).as_str());
        s
    }
}

/// The time part of a log line's prefix: the date, the time, both or neither.
pub fn get_time(display_date: bool, display_time: bool, now: &LocalTime) -> (r: String)
    ensures
        r@ == time_prefix(display_date, display_time, *now),
{
    proof {
        reveal_strlit("[");
        reveal_strlit("] ");
        reveal_strlit(" ");
        reveal_strlit("/");
        reveal_strlit(":");
    }
    let mut date = convert_to_double_digits(now.day);
    date.append("/");
    date.append(convert_to_double_digits(now.month).as_str());
    date.append("/");
    date.append(convert_to_double_digits(now.year).as_str());
    let mut time = convert_to_double_digits(now.hour);
    time.append(":");
    time.append(convert_to_double_digits(now.minute).as_str());
    time.append(":");
    time.append(convert_to_double_digits(now.second).as_str());
    assert(date@ =~= date_text(*now));
    assert(time@ =~= clock_text(*now));
    if !display_date && !display_time {
        return String::new();
    }
    let mut out = String::from_str("[");
    if display_date && display_time {
        out.append(date.as_str());
        out.append(" ");
        out.append(time.as_str());
    } else if display_date {
        out.append(date.as_str());
    } else {
        out.append(time.as_str());
    }
    out.append("] ");
    assert(out@ =~= time_prefix(display_date, display_time, *now));
    out
}

/// The tag of a severity.
pub fn log_type_tag(log_type: LogType) -> (r: &'static str)
    ensures
        r@ == type_tag(log_type),
{
    match log_type {
        LogType::Log => "[LOG] ",
        LogType::Warn => "[WARN] ",
        LogType::Error => "[ERROR] ",
    }
}

/// Builds the line that is printed and written for `message`.
pub fn log_line(message: &str, log_type: LogType, display: &DisplayConfig, now: &LocalTime) -> (r: String)
    ensures
        r@ == line_text(message@, log_type, *display, *now),
{
    let mut line = get_time(display.date, display.time, now);
    if display.log_type {
        line.append(log_type_tag(log_type));
    }
    line.append(message);
    assert(line@ =~= line_text(message@, log_type, *display, *now));
    line
}

/// Whether messages of this severity are to be logged.
pub fn should_log(log_type: LogType, show: &ShowConfig) -> (r: bool)
    ensures
        r == shown(log_type, *show),
{
    match log_type {
        LogType::Log => show.logs,
        LogType::Warn => show.warnings,
        LogType::Error => show.errors,
    }
}

/// The word that session log files are named by.
pub open spec fn session_word() -> Seq<char> {
    seq!['s', 'e', 's', 's', 'i', 'o', 'n']
}

/// The session number that a log file's name gives: the name has at least 12
/// characters, holds "session" once, at its start, and what lies between that
/// word and the last four characters is a 32-bit integer.
pub open spec fn session_of_name(name: Seq<char>) -> Option<i32> {
    if name.len() >= 12 && occurs_at(name, session_word(), 0) && !contains_text(
        name.subrange(1, name.len() as int),
        session_word(),
    ) {
        i32_value(name.subrange(7, name.len() - 4))
    } else {
        None
    }
}

/// The session number that the log file `name` carries, if it is a session log.
pub fn session_of_file_name(name: &str) -> (r: Option<i32>)
    ensures
        r == session_of_name(name@),
{
    let n = name.unicode_len();
    if n < 12 {
        return None;
    }
    let word = "session";
    proof {
        reveal_strlit("session");
    }
    assert(word@ =~= session_word());
    let head = name.substring_char(0, 7);
    let starts = String::from_str(head) == String::from_str(word);
    assert(starts == occurs_at(name@, session_word(), 0)) by {
        assert(head@ == name@.subrange(0, 7));
    }
    if !starts {
        return None;
    }
    if contains_fragment(name.substring_char(1, n), word) {
        return None;
    }
    parse_i32(name.substring_char(7, n - 4))
}

/// The highest session number that the names carry, if any carries one.
pub open spec fn highest_session(names: Seq<Seq<char>>) -> Option<i32>
    decreases names.len(),
{
    if names.len() == 0 {
        None
    } else {
        let rest = highest_session(names.drop_last());
        match session_of_name(names.last()) {
            None => rest,
            Some(v) => match rest {
                Some(h) => if h >= v {
                    Some(h)
                } else {
                    Some(v)
                },
                None => Some(v),
            },
        }
    }
}

/// The session to log into, given the highest number found among the existing
/// log files: 1 when there is none; otherwise the next one when logs are
/// separated by session and the same one when not. A session that would pass
/// the largest 32-bit number stays at the largest.
pub open spec fn next_session(highest: Option<i32>, separate: bool) -> i32 {
    match highest {
        None => 1,
        Some(h) => if separate && h < i32::MAX {
            (h + 1) as i32
        } else {
            h
        },
    }
}

/// The session number to log into, given the names of the files in the log folder.
pub fn session_number_from_names(names: &Vec<String>, separate_logs_by_session: bool) -> (r: i32)
    ensures
        r == next_session(highest_session(names@.map_values(|s: String| s@)), separate_logs_by_session),
{
    let ghost all = names@.map_values(|s: String| s@);
    let mut highest: Option<i32> = None;
    let mut i: usize = 0;
    assert(all.subrange(0, 0) =~= Seq::<Seq<char>>::empty());
    while i < names.len()
        invariant
            i <= names@.len(),
            all == names@.map_values(|s: String| s@),
            highest == highest_session(all.subrange(0, i as int)),
        decreases names@.len() - i,
    {
        let ghost pre = all.subrange(0, i + 1);
        assert(pre.drop_last() =~= all.subrange(0, i as int));
        assert(pre.last() == names@[i as int]@);
        match session_of_file_name(names[i].as_str()) {
            Some(v) => {
                highest = match highest {
                    Some(h) => if h >= v {
                        Some(h)
                    } else {
                        Some(v)
                    },
                    None => Some(v),
                };
            },
            None => {},
        }
        i = i + 1;
    }
    assert(all.subrange(0, names@.len() as int) =~= all);
    match highest {
        None => 1,
        Some(h) => if separate_logs_by_session && h < i32::MAX {
            h + 1
        } else {
            h
        },
    }
}

/// The name of the log file of a session: `session<n>.txt`.
pub fn session_file_name(session_number: i32) -> (r: String)
    ensures
        r@ == session_word() + signed_decimal(session_number as int) + ".txt"@,
{
    proof {
        reveal_strlit("session");
    }
    let mut name = String::from_str("session");
    name.append(signed_decimal_text(session_number).as_str());
    name.append(".txt");
    assert("session"@ =~= session_word());
    name
}

} // verus!
