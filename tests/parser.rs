use log_ingest::parser::{parse_log, trim};

fn some(s: &str) -> Option<String> {
    Some(s.to_string())
}

#[test]
fn parses_bsd_header() {
    let r = parse_log("UDP", "10.0.0.1:514", "Jun  1 12:00:00 myhost sshd: Accepted password for user");
    assert_eq!(r.timestamp, some("Jun  1 12:00:00"));
    assert_eq!(r.hostname, some("myhost"));
    assert_eq!(r.process, some("sshd"));
    assert_eq!(r.message, "Accepted password for user");
    assert_eq!(r.protocol, "UDP");
    assert_eq!(r.source, "10.0.0.1:514");
}

#[test]
fn unstructured_line_is_kept_whole() {
    let r = parse_log("FILE", "app.log", "not a syslog line at all");
    assert_eq!(r.timestamp, None);
    assert_eq!(r.hostname, None);
    assert_eq!(r.process, None);
    assert_eq!(r.message, "not a syslog line at all");
    assert_eq!(r.protocol, "FILE");
    assert_eq!(r.source, "app.log");
}

#[test]
fn empty_line_gives_empty_message() {
    let r = parse_log("TCP", "tcp connection", "");
    assert_eq!(r.timestamp, None);
    assert_eq!(r.hostname, None);
    assert_eq!(r.process, None);
    assert_eq!(r.message, "");
}

#[test]
fn fallback_message_is_trimmed() {
    let r = parse_log("TCP", "tcp connection", "  hello world \r\n");
    assert_eq!(r.timestamp, None);
    assert_eq!(r.message, "hello world");
}

#[test]
fn colons_in_message_do_not_cut_process() {
    let r = parse_log("UDP", "h", "Oct 11 22:14:15 mymachine su: 'su root' failed: for lonvick");
    assert_eq!(r.timestamp, some("Oct 11 22:14:15"));
    assert_eq!(r.hostname, some("mymachine"));
    assert_eq!(r.process, some("su"));
    assert_eq!(r.message, "'su root' failed: for lonvick");
}

#[test]
fn process_is_shortest_run_before_colon() {
    let r = parse_log("UDP", "h", "Jun  1 12:00:00 host a:b: msg");
    assert_eq!(r.process, some("a"));
    assert_eq!(r.message, "b: msg");
}

#[test]
fn process_grows_past_colon_when_message_would_hold_newline() {
    let r = parse_log("UDP", "h", "Jun  1 12:00:00 host a:b:\nmsg");
    assert_eq!(r.process, some("a:b"));
    assert_eq!(r.message, "msg");
}

#[test]
fn message_keeps_one_character_of_trailing_whitespace() {
    let r = parse_log("UDP", "h", "Jun  1 12:00:00 host proc:   ");
    assert_eq!(r.process, some("proc"));
    assert_eq!(r.message, " ");
}

#[test]
fn nothing_after_colon_is_no_match() {
    let r = parse_log("UDP", "h", "Jun  1 12:00:00 host proc:");
    assert_eq!(r.timestamp, None);
    assert_eq!(r.message, "Jun  1 12:00:00 host proc:");
}

#[test]
fn long_month_token_is_no_match() {
    let r = parse_log("UDP", "h", "June  1 12:00:00 host proc: x");
    assert_eq!(r.timestamp, None);
    assert_eq!(r.message, "June  1 12:00:00 host proc: x");
}

#[test]
fn three_digit_day_is_no_match() {
    let r = parse_log("UDP", "h", "Jun 123 12:00:00 host proc: x");
    assert_eq!(r.timestamp, None);
}

#[test]
fn bad_clock_is_no_match() {
    let r = parse_log("UDP", "h", "Jun  1 12:0:00 host proc: x");
    assert_eq!(r.timestamp, None);
    assert_eq!(r.hostname, None);
    assert_eq!(r.process, None);
}

#[test]
fn tabs_separate_fields() {
    let r = parse_log("UDP", "h", "Jun\t1\t12:00:00\thost\tproc:\tmsg");
    assert_eq!(r.timestamp, some("Jun\t1\t12:00:00"));
    assert_eq!(r.hostname, some("host"));
    assert_eq!(r.process, some("proc"));
    assert_eq!(r.message, "msg");
}

#[test]
fn message_with_newline_is_no_match() {
    let r = parse_log("UDP", "h", "Jun  1 12:00:00 host proc: one\ntwo\n");
    assert_eq!(r.timestamp, None);
    assert_eq!(r.message, "Jun  1 12:00:00 host proc: one\ntwo");
}

#[test]
fn trim_handles_unicode_whitespace() {
    assert_eq!(trim("\u{3000}abc\u{a0} "), "abc");
    assert_eq!(trim(" \t\n"), "");
    assert_eq!(trim("a b"), "a b");
}
