//! Best-effort parsing of one BSD-style syslog line.
//!
//! A line is matched against the classic header
//! `MON DAY HH:MM:SS HOST PROC: MESSAGE`, written here as a grammar over the
//! line's characters:
//!
//! * a month token of one to three word characters (ASCII letters, digits, `_`),
//! * whitespace, a day of one or two ASCII digits, whitespace,
//! * a clock `dd:dd:dd`, whitespace,
//! * a host (a run of non-whitespace characters), whitespace,
//! * a process: the shortest non-empty run of non-whitespace characters that is
//!   followed by `:` and then by an acceptable message,
//! * optional whitespace and a non-empty message that holds no `'\n'`; the
//!   message keeps one character even when all that follows the colon is
//!   whitespace.
//!
//! Whitespace is the Unicode `White_Space` property, as `char::is_whitespace`
//! and `str::trim` use it. A line that does not match is kept whole, trimmed.
use vstd::prelude::*;
use vstd::std_specs::iter::IteratorSpec;
use vstd::string::{StrSliceExecFns, StringExecFns};

verus! {

/// The classes of characters that the header grammar is built from.
#[derive(Clone, Copy, PartialEq, Eq, Structural)]
pub enum CharClass {
    Word,
    Digit,
    Space,
    NonSpace,
}

/// Unicode `White_Space`.
pub open spec fn is_space(c: char) -> bool {
    let v = c as u32;
    (0x09 <= v && v <= 0x0d) || v == 0x20 || v == 0x85 || v == 0xa0 || v == 0x1680 || (0x2000
        <= v && v <= 0x200a) || v == 0x2028 || v == 0x2029 || v == 0x202f || v == 0x205f || v
        == 0x3000
}

pub open spec fn is_digit(c: char) -> bool {
    let v = c as u32;
    0x30 <= v && v <= 0x39
}

pub open spec fn is_word(c: char) -> bool {
    let v = c as u32;
    is_digit(c) || (0x41 <= v && v <= 0x5a) || (0x61 <= v && v <= 0x7a) || v == 0x5f
}

pub open spec fn in_class(c: char, cls: CharClass) -> bool {
    match cls {
        CharClass::Word => is_word(c),
        CharClass::Digit => is_digit(c),
        CharClass::Space => is_space(c),
        CharClass::NonSpace => !is_space(c),
    }
}

/// Length of the longest run of characters of class `cls` that starts at `i`.
pub open spec fn run_len(s: Seq<char>, i: int, cls: CharClass) -> nat
    decreases s.len() - i,
{
    if 0 <= i < s.len() && in_class(s[i], cls) {
        1 + run_len(s, i + 1, cls)
    } else {
        0
    }
}

/// End of the run of class `cls` that starts at `i`.
pub open spec fn run_end(s: Seq<char>, i: int, cls: CharClass) -> int {
    i + run_len(s, i, cls)
}

pub open spec fn month_end(s: Seq<char>) -> int {
    run_end(s, 0, CharClass::Word)
}

pub open spec fn day_start(s: Seq<char>) -> int {
    run_end(s, month_end(s), CharClass::Space)
}

pub open spec fn day_end(s: Seq<char>) -> int {
    run_end(s, day_start(s), CharClass::Digit)
}

pub open spec fn clock_start(s: Seq<char>) -> int {
    run_end(s, day_end(s), CharClass::Space)
}

/// End of the timestamp: the clock `dd:dd:dd` is eight characters long.
pub open spec fn stamp_end(s: Seq<char>) -> int {
    clock_start(s) + 8
}

pub open spec fn host_start(s: Seq<char>) -> int {
    run_end(s, stamp_end(s), CharClass::Space)
}

pub open spec fn host_end(s: Seq<char>) -> int {
    run_end(s, host_start(s), CharClass::NonSpace)
}

pub open spec fn proc_start(s: Seq<char>) -> int {
    run_end(s, host_end(s), CharClass::Space)
}

/// `s[i..i + 8]` reads `dd:dd:dd`.
pub open spec fn clock_at(s: Seq<char>, i: int) -> bool {
    0 <= i && i + 8 <= s.len() && is_digit(s[i]) && is_digit(s[i + 1]) && s[i + 2] == ':'
        && is_digit(s[i + 3]) && is_digit(s[i + 4]) && s[i + 5] == ':' && is_digit(s[i + 6])
        && is_digit(s[i + 7])
}

/// Everything up to the process matches: timestamp, host and the whitespace between.
pub open spec fn header_ok(s: Seq<char>) -> bool {
    &&& 1 <= month_end(s) <= 3
    &&& day_start(s) > month_end(s)
    &&& 1 <= day_end(s) - day_start(s) <= 2
    &&& clock_start(s) > day_end(s)
    &&& clock_at(s, clock_start(s))
    &&& host_start(s) > stamp_end(s)
    &&& host_end(s) > host_start(s)
    &&& proc_start(s) > host_end(s)
}

/// No `'\n'` from `j` to the end of `s`.
pub open spec fn no_newline_from(s: Seq<char>, j: int) -> bool {
    forall|t: int| j <= t < s.len() ==> s[t] != '\n'
}

/// Where the message starts when the text after the colon starts at `m`:
/// leading whitespace is skipped, but one character is always left.
pub open spec fn msg_start_from(s: Seq<char>, m: int) -> int {
    let w = run_end(s, m, CharClass::Space);
    if w < s.len() - 1 {
        w
    } else {
        s.len() - 1
    }
}

/// A process of length `k` starting at `p` is followed by `:` and an acceptable message.
pub open spec fn process_ok(s: Seq<char>, p: int, k: int) -> bool {
    1 <= k < run_len(s, p, CharClass::NonSpace) && s[p + k] == ':' && p + k + 1 < s.len()
        && no_newline_from(s, msg_start_from(s, p + k + 1))
}

/// `k` is the shortest acceptable process length at `p`.
pub open spec fn least_process(s: Seq<char>, p: int, k: int) -> bool {
    process_ok(s, p, k) && forall|j: int| 1 <= j < k ==> !process_ok(s, p, j)
}

/// The line matches the syslog header grammar.
pub open spec fn is_syslog_line(s: Seq<char>) -> bool {
    header_ok(s) && exists|k: int| process_ok(s, proc_start(s), k)
}

/// Length of the process field: the shortest acceptable one.
pub open spec fn process_len(s: Seq<char>) -> int {
    choose|k: int| least_process(s, proc_start(s), k)
}

pub open spec fn process_end(s: Seq<char>) -> int {
    proc_start(s) + process_len(s)
}

pub open spec fn message_start(s: Seq<char>) -> int {
    msg_start_from(s, process_end(s) + 1)
}

/// Index just past the last non-whitespace character at or before `e`.
pub open spec fn trim_end_from(s: Seq<char>, e: int) -> int
    decreases e,
{
    if 0 < e <= s.len() && is_space(s[e - 1]) {
        trim_end_from(s, e - 1)
    } else {
        e
    }
}

/// `s` without leading and trailing whitespace, as `str::trim` gives it.
pub open spec fn trimmed(s: Seq<char>) -> Seq<char> {
    let a = run_end(s, 0, CharClass::Space);
    let b = trim_end_from(s, s.len() as int);
    if b <= a {
        Seq::empty()
    } else {
        s.subrange(a, b)
    }
}

/// What a parse yields, over views.
pub struct LogView {
    pub protocol: Seq<char>,
    pub source: Seq<char>,
    pub timestamp: Option<Seq<char>>,
    pub hostname: Option<Seq<char>>,
    pub process: Option<Seq<char>>,
    pub message: Seq<char>,
}

/// One parsed line, ready for a record sink.
///
/// The three optional fields are all present (the header matched) or all
/// absent (the line was kept whole, trimmed, as the message).
pub struct ParsedLog {
    pub protocol: String,
    pub source: String,
    pub timestamp: Option<String>,
    pub hostname: Option<String>,
    pub process: Option<String>,
    pub message: String,
}

pub open spec fn opt_view(o: Option<String>) -> Option<Seq<char>> {
    match o {
        Some(t) => Some(t@),
        None => None,
    }
}

impl View for ParsedLog {
    type V = LogView;

    open spec fn view(&self) -> LogView {
        LogView {
            protocol: self.protocol@,
            source: self.source@,
            timestamp: opt_view(self.timestamp),
            hostname: opt_view(self.hostname),
            process: opt_view(self.process),
            message: self.message@,
        }
    }
}

/// The record that `parse_log` builds from a line.
pub open spec fn parse_spec(protocol: Seq<char>, source: Seq<char>, s: Seq<char>) -> LogView {
    if is_syslog_line(s) {
        LogView {
            protocol,
            source,
            timestamp: Some(s.subrange(0, stamp_end(s))),
            hostname: Some(s.subrange(host_start(s), host_end(s))),
            process: Some(s.subrange(proc_start(s), process_end(s))),
            message: s.subrange(message_start(s), s.len() as int),
        }
    } else {
        LogView {
            protocol,
            source,
            timestamp: None,
            hostname: None,
            process: None,
            message: trimmed(s),
        }
    }
}

/// A run stays inside the sequence, holds only characters of its class, and
/// ends at one that is not.
pub proof fn lemma_run_len_bounds(s: Seq<char>, i: int, cls: CharClass)
    requires
        0 <= i,
    ensures
        i + run_len(s, i, cls) <= s.len() || run_len(s, i, cls) == 0,
        forall|t: int| i <= t < run_end(s, i, cls) ==> #[trigger] in_class(s[t], cls),
        run_end(s, i, cls) < s.len() ==> !in_class(s[run_end(s, i, cls)], cls),
    decreases s.len() - i,
{
    if 0 <= i < s.len() && in_class(s[i], cls) {
        lemma_run_len_bounds(s, i + 1, cls);
    }
}

fn class_has(c: char, cls: CharClass) -> (r: bool)
    ensures
        r == in_class(c, cls),
{
    let v = c as u32;
    let space = (0x09 <= v && v <= 0x0d) || v == 0x20 || v == 0x85 || v == 0xa0 || v == 0x1680
        || (0x2000 <= v && v <= 0x200a) || v == 0x2028 || v == 0x2029 || v == 0x202f || v
        == 0x205f || v == 0x3000;
    let digit = 0x30 <= v && v <= 0x39;
    match cls {
        CharClass::Word => digit || (0x41 <= v && v <= 0x5a) || (0x61 <= v && v <= 0x7a) || v
            == 0x5f,
        CharClass::Digit => digit,
        CharClass::Space => space,
        CharClass::NonSpace => !space,
    }
}

/// End of the run of class `cls` in `cs` that starts at `i`.
fn scan_run(cs: &Vec<char>, i: usize, cls: CharClass) -> (r: usize)
    requires
        i <= cs.len(),
    ensures
        r == run_end(cs@, i as int, cls),
        i <= r <= cs.len(),
{
    let mut j: usize = i;
    while j < cs.len() && class_has(cs[j], cls)
        invariant
            i <= j <= cs.len(),
            run_end(cs@, i as int, cls) == run_end(cs@, j as int, cls),
        decreases cs.len() - j,
    {
        j = j + 1;
    }
    j
}

/// The characters of `line`, one per element.
fn chars_of(line: &str) -> (r: Vec<char>)
    ensures
        r@ == line@,
{
    broadcast use vstd::string::axiom_spec_iter, vstd::string::next_postcondition;

    let mut v: Vec<char> = Vec::new();
    let mut it = line.chars();
    loop
        invariant
            it.obeys_prophetic_iter_laws(),
            v@ + it.remaining() == line@,
            it.decrease() is Some,
        ensures
            v@ == line@,
        decreases it.decrease()->0,
    {
        match it.next() {
            Some(c) => {
                v.push(c);
            },
            None => {
                assert(v@ + it.remaining() =~= v@);
                break;
            },
        }
    }
    v
}

/// The shortest acceptable process length is unique.
pub proof fn lemma_least_process_unique(s: Seq<char>, p: int, k: int, j: int)
    requires
        least_process(s, p, k),
        least_process(s, p, j),
    ensures
        k == j,
{
}

proof fn lemma_process_len(s: Seq<char>, k: int)
    requires
        least_process(s, proc_start(s), k),
    ensures
        process_len(s) == k,
{
    let c = process_len(s);
    assert(least_process(s, proc_start(s), c));
    lemma_least_process_unique(s, proc_start(s), k, c);
}

/// Some acceptable process length at `p` makes a shortest one exist.
proof fn lemma_least_process_exists(s: Seq<char>, p: int, k: int)
    requires
        process_ok(s, p, k),
    ensures
        exists|j: int| least_process(s, p, j),
    decreases k,
{
    if exists|j: int| 1 <= j < k && process_ok(s, p, j) {
        let j = choose|j: int| 1 <= j < k && process_ok(s, p, j);
        lemma_least_process_exists(s, p, j);
    } else {
        assert(least_process(s, p, k));
    }
}

/// Every character of `t` is of class `cls`.
pub open spec fn all_in(t: Seq<char>, cls: CharClass) -> bool {
    forall|i: int| 0 <= i < t.len() ==> #[trigger] in_class(t[i], cls)
}

/// A line that matches the header grammar is exactly the parts that `parse_log`
/// extracts, in order, with only whitespace between them: the timestamp, the
/// host, the process and a colon, then the message. The host and the process
/// are non-empty and hold no whitespace; the message is non-empty and holds
/// no `'\n'`.
pub proof fn lemma_syslog_line_parts(protocol: Seq<char>, source: Seq<char>, s: Seq<char>)
    requires
        is_syslog_line(s),
    ensures
        ({
            let r = parse_spec(protocol, source, s);
            let ts = r.timestamp->Some_0;
            let host = r.hostname->Some_0;
            let process = r.process->Some_0;
            let g1 = s.subrange(stamp_end(s), host_start(s));
            let g2 = s.subrange(host_end(s), proc_start(s));
            let g3 = s.subrange(process_end(s) + 1, message_start(s));
            &&& r.timestamp is Some && r.hostname is Some && r.process is Some
            &&& s == ts + g1 + host + g2 + process + seq![':'] + g3 + r.message
            &&& g1.len() > 0 && all_in(g1, CharClass::Space)
            &&& g2.len() > 0 && all_in(g2, CharClass::Space)
            &&& all_in(g3, CharClass::Space)
            &&& host.len() > 0 && all_in(host, CharClass::NonSpace)
            &&& process.len() > 0 && all_in(process, CharClass::NonSpace)
            &&& r.message.len() > 0 && no_newline_from(r.message, 0)
        }),
{
    let se = stamp_end(s);
    let hs = host_start(s);
    let he = host_end(s);
    let ps = proc_start(s);
    let k0 = choose|k: int| process_ok(s, ps, k);
    lemma_least_process_exists(s, ps, k0);
    let kl = choose|j: int| least_process(s, ps, j);
    lemma_process_len(s, kl);
    let pe = process_end(s);
    let ms = message_start(s);
    lemma_run_len_bounds(s, se, CharClass::Space);
    lemma_run_len_bounds(s, hs, CharClass::NonSpace);
    lemma_run_len_bounds(s, he, CharClass::Space);
    lemma_run_len_bounds(s, ps, CharClass::NonSpace);
    lemma_run_len_bounds(s, pe + 1, CharClass::Space);
    assert(se <= hs <= he <= ps < pe < s.len());
    assert(pe + 1 <= ms < s.len());
    let r = parse_spec(protocol, source, s);
    assert(s =~= s.subrange(0, se) + s.subrange(se, hs) + s.subrange(hs, he) + s.subrange(he, ps)
        + s.subrange(ps, pe) + seq![':'] + s.subrange(pe + 1, ms) + s.subrange(ms, s.len() as int));
    assert(all_in(s.subrange(ps, pe), CharClass::NonSpace));
    assert(all_in(s.subrange(pe + 1, ms), CharClass::Space));
    assert(no_newline_from(r.message, 0));
}

/// Every parse yields the timestamp, the host and the process together, or
/// none of them; in the second case the message is the line trimmed.
pub proof fn lemma_fields_all_or_none(protocol: Seq<char>, source: Seq<char>, s: Seq<char>)
    ensures
        ({
            let r = parse_spec(protocol, source, s);
            &&& r.protocol == protocol && r.source == source
            &&& r.timestamp is Some <==> r.hostname is Some
            &&& r.hostname is Some <==> r.process is Some
            &&& r.timestamp is None ==> r.message == trimmed(s)
        }),
{
}

/// Index just past the last `'\n'` of `cs`, or 0 when it holds none.
fn newline_bound(cs: &Vec<char>) -> (r: usize)
    ensures
        r <= cs.len(),
        forall|j: int| 0 <= j <= cs.len() ==> (no_newline_from(cs@, j) <==> j >= r),
{
    let mut e: usize = cs.len();
    while e > 0 && cs[e - 1] != '\n'
        invariant
            e <= cs.len(),
            no_newline_from(cs@, e as int),
        decreases e,
    {
        e = e - 1;
    }
    assert forall|j: int| 0 <= j <= cs.len() implies (no_newline_from(cs@, j) <==> j >= e) by {
        if j < e {
            assert(cs@[e - 1] == '\n');
        }
    }
    e
}

/// Where the message starts when the text after the colon starts at `m`.
fn message_from(cs: &Vec<char>, m: usize) -> (r: usize)
    requires
        m < cs.len(),
    ensures
        r == msg_start_from(cs@, m as int),
        r < cs.len(),
{
    let w = scan_run(cs, m, CharClass::Space);
    if w < cs.len() - 1 {
        w
    } else {
        cs.len() - 1
    }
}

/// The shortest acceptable process length at `p`, if any.
fn find_process(cs: &Vec<char>, p: usize) -> (r: Option<usize>)
    requires
        p <= cs.len(),
    ensures
        r matches Some(k) ==> least_process(cs@, p as int, k as int) && p + k < cs.len(),
        r is None ==> forall|k: int| !process_ok(cs@, p as int, k),
{
    let q = scan_run(cs, p, CharClass::NonSpace);
    let nl = newline_bound(cs);
    let mut k: usize = 1;
    while k < q - p
        invariant
            p <= q <= cs.len(),
            q == run_end(cs@, p as int, CharClass::NonSpace),
            1 <= k,
            k == 1 || k <= q - p,
            forall|j: int| 0 <= j <= cs.len() ==> (no_newline_from(cs@, j) <==> j >= nl),
            forall|j: int| 1 <= j < k ==> !process_ok(cs@, p as int, j),
        decreases q - p - k,
    {
        let c = p + k;
        if cs[c] == ':' && c + 1 < cs.len() {
            let ms = message_from(cs, c + 1);
            if ms >= nl {
                return Some(k);
            }
        }
        k = k + 1;
    }
    None
}

/// Positions of the header's parts in a line that matches the grammar.
struct Spans {
    stamp_end: usize,
    host_start: usize,
    host_end: usize,
    proc_start: usize,
    proc_end: usize,
    msg_start: usize,
}

/// Matches `cs` against the header grammar.
fn match_header(cs: &Vec<char>) -> (r: Option<Spans>)
    ensures
        r is Some <==> is_syslog_line(cs@),
        r matches Some(sp) ==> {
            &&& sp.stamp_end == stamp_end(cs@)
            &&& sp.host_start == host_start(cs@)
            &&& sp.host_end == host_end(cs@)
            &&& sp.proc_start == proc_start(cs@)
            &&& sp.proc_end == process_end(cs@)
            &&& sp.msg_start == message_start(cs@)
            &&& sp.msg_start < cs.len()
            &&& sp.host_start <= sp.host_end <= sp.proc_start <= sp.proc_end < cs.len()
            &&& sp.stamp_end <= cs.len()
        },
{
    let s = Ghost(cs@);
    let me = scan_run(cs, 0, CharClass::Word);
    if me < 1 || me > 3 {
        return None;
    }
    let ds = scan_run(cs, me, CharClass::Space);
    if ds == me {
        return None;
    }
    let de = scan_run(cs, ds, CharClass::Digit);
    if de - ds < 1 || de - ds > 2 {
        return None;
    }
    let cst = scan_run(cs, de, CharClass::Space);
    if cst == de || cs.len() < 8 || cst > cs.len() - 8 {
        return None;
    }
    let d0 = class_has(cs[cst], CharClass::Digit);
    let d1 = class_has(cs[cst + 1], CharClass::Digit);
    let d3 = class_has(cs[cst + 3], CharClass::Digit);
    let d4 = class_has(cs[cst + 4], CharClass::Digit);
    let d6 = class_has(cs[cst + 6], CharClass::Digit);
    let d7 = class_has(cs[cst + 7], CharClass::Digit);
    if !(d0 && d1 && cs[cst + 2] == ':' && d3 && d4 && cs[cst + 5] == ':' && d6 && d7) {
        return None;
    }
    let se = cst + 8;
    let hs = scan_run(cs, se, CharClass::Space);
    if hs == se {
        return None;
    }
    let he = scan_run(cs, hs, CharClass::NonSpace);
    if he == hs {
        return None;
    }
    let ps = scan_run(cs, he, CharClass::Space);
    if ps == he {
        return None;
    }
    assert(header_ok(s@));
    match find_process(cs, ps) {
        None => None,
        Some(k) => {
            proof {
                lemma_process_len(s@, k as int);
            }
            let pe = ps + k;
            let ms = message_from(cs, pe + 1);
            Some(
                Spans {
                    stamp_end: se,
                    host_start: hs,
                    host_end: he,
                    proc_start: ps,
                    proc_end: pe,
                    msg_start: ms,
                },
            )
        },
    }
}

/// `cs` without leading and trailing whitespace.
fn trim_chars(line: &str, cs: &Vec<char>) -> (r: String)
    requires
        cs@ == line@,
    ensures
        r@ == trimmed(line@),
{
    let a = scan_run(cs, 0, CharClass::Space);
    let mut b: usize = cs.len();
    while b > 0 && class_has(cs[b - 1], CharClass::Space)
        invariant
            b <= cs.len(),
            trim_end_from(cs@, cs.len() as int) == trim_end_from(cs@, b as int),
        decreases b,
    {
        b = b - 1;
    }
    if b <= a {
        String::new()
    } else {
        String::from_str(line.substring_char(a, b))
    }
}

/// `text` without leading and trailing whitespace.
pub fn trim(text: &str) -> (r: String)
    ensures
        r@ == trimmed(text@),
{
    let cs = chars_of(text);
    trim_chars(text, &cs)
}

/// Parses one raw line received over `protocol` from `source`.
///
/// A line that matches the syslog header grammar yields its timestamp, host,
/// process and message; any other line, the empty one included, yields the
/// line trimmed as its message and no other field. Parsing never fails.
pub fn parse_log(protocol: &str, source: &str, line: &str) -> (r: ParsedLog)
    ensures
        r@ == parse_spec(protocol@, source@, line@),
{
    let cs = chars_of(line);
    match match_header(&cs) {
        Some(sp) => ParsedLog {
            protocol: String::from_str(protocol),
            source: String::from_str(source),
            timestamp: Some(String::from_str(line.substring_char(0, sp.stamp_end))),
            hostname: Some(String::from_str(line.substring_char(sp.host_start, sp.host_end))),
            process: Some(String::from_str(line.substring_char(sp.proc_start, sp.proc_end))),
            message: String::from_str(line.substring_char(sp.msg_start, cs.len())),
        },
        None => ParsedLog {
            protocol: String::from_str(protocol),
            source: String::from_str(source),
            timestamp: None,
            hostname: None,
            process: None,
            message: trim_chars(line, &cs),
        },
    }
}

} // verus!
