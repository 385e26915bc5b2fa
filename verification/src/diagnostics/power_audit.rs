//! Power-cycle audit: reading the reboot and shutdown records that `last -x` prints,
//! flagging unclean reboots, and summarising them.
use crate::clock::{elapsed_seconds, seconds_between, timestamp_in_range};
use crate::diagnostics::result::{
    is_empty_result, status_of_score, DiagnosticResult, HealthStatus,
};
use crate::text::{
    all_digits, chars_of, decimal, digits_value, has_prefix, parse_unsigned, parse_unsigned_chars,
    append_text, push_decimal, split_words, string_from_chars, text_eq, trim, trim_chars, trim_start,
    trim_start_chars, starts_with_chars, words,
};
use chrono::TimeZone;
use vstd::prelude::*;

verus! {

/// The kind of a power event.
#[derive(Debug, Clone, Copy, PartialEq, Eq, Structural)]
pub enum PowerEventKind {
    Reboot,
    Shutdown,
}

pub open spec fn power_kind_name(k: PowerEventKind) -> Seq<char> {
    match k {
        PowerEventKind::Reboot => "reboot"@,
        PowerEventKind::Shutdown => "shutdown"@,
    }
}

impl PowerEventKind {
    /// The lower-case name of the event (what `Display` prints).
    pub fn as_str(&self) -> (res: &'static str)
        ensures
            res@ == power_kind_name(*self),
    {
        match self {
            PowerEventKind::Reboot => "reboot",
            PowerEventKind::Shutdown => "shutdown",
        }
    }

    pub fn to_string(&self) -> (res: String)
        ensures
            res@ == power_kind_name(*self),
    {
        String::from_str(self.as_str())
    }
}

/// One reboot or shutdown record. `timestamp` counts microseconds since the Unix epoch.
pub struct PowerCycleEntry {
    pub kind: PowerEventKind,
    pub user: String,
    pub terminal: String,
    pub timestamp: i64,
    pub raw_line: String,
    pub is_unclean: bool,
}

pub struct PowerCycleView {
    pub kind: PowerEventKind,
    pub user: Seq<char>,
    pub terminal: Seq<char>,
    pub timestamp: i64,
    pub raw_line: Seq<char>,
    pub is_unclean: bool,
}

impl View for PowerCycleEntry {
    type V = PowerCycleView;

    open spec fn view(&self) -> PowerCycleView {
        PowerCycleView {
            kind: self.kind,
            user: self.user@,
            terminal: self.terminal@,
            timestamp: self.timestamp,
            raw_line: self.raw_line@,
            is_unclean: self.is_unclean,
        }
    }
}

pub open spec fn cycles_view(s: Seq<PowerCycleEntry>) -> Seq<PowerCycleView> {
    s.map_values(|e: PowerCycleEntry| e@)
}

impl Clone for PowerCycleEntry {
    fn clone(&self) -> (res: Self)
        ensures
            res == *self,
    {
        PowerCycleEntry {
            kind: self.kind,
            user: self.user.clone(),
            terminal: self.terminal.clone(),
            timestamp: self.timestamp,
            raw_line: self.raw_line.clone(),
            is_unclean: self.is_unclean,
        }
    }
}

// ---------------------------------------------------------------------------
// Civil time
// ---------------------------------------------------------------------------

/// A calendar date and a time of day to the minute.
#[derive(Debug, Clone, Copy, PartialEq, Eq, Structural)]
pub struct CivilTime {
    pub year: i32,
    pub month: u32,
    pub day: u32,
    pub hour: u32,
    pub minute: u32,
}

pub open spec fn is_leap_year(y: int) -> bool {
    (y % 4 == 0 && y % 100 != 0) || y % 400 == 0
}

pub open spec fn days_in_month(y: int, m: int) -> int {
    if m == 2 {
        if is_leap_year(y) {
            29
        } else {
            28
        }
    } else if m == 4 || m == 6 || m == 9 || m == 11 {
        30
    } else {
        31
    }
}

/// `chrono::NaiveDate::from_ymd_opt` accepts the date: the year lies in chrono's range
/// and the month and day exist.
pub open spec fn valid_date(y: int, m: int, d: int) -> bool {
    &&& -262143 <= y <= 262142
    &&& 1 <= m <= 12
    &&& 1 <= d <= days_in_month(y, m)
}

pub open spec fn valid_civil(c: CivilTime) -> bool {
    valid_date(c.year as int, c.month as int, c.day as int) && c.hour < 24 && c.minute < 60
}

/// Days from 1970-01-01 to the given day of the proleptic Gregorian calendar.
pub open spec fn days_from_civil(y: int, m: int, d: int) -> int {
    let yp = if m <= 2 {
        y - 1
    } else {
        y
    };
    let era = yp / 400;
    let yoe = yp - era * 400;
    let mp = (m + 9) % 12;
    let doy = (153 * mp + 2) / 5 + d - 1;
    let doe = yoe * 365 + yoe / 4 - yoe / 100 + doy;
    era * 146097 + doe - 719468
}

/// Microseconds since the epoch of the civil time read as UTC.
pub open spec fn civil_utc_micros(c: CivilTime) -> int {
    (days_from_civil(c.year as int, c.month as int, c.day as int) * 86400 + (c.hour as int) * 3600
        + (c.minute as int) * 60) * 1_000_000
}

/// The instant `ts` (microseconds since the epoch) lies less than a day from the civil
/// time read as UTC: it is what the civil time names under some offset of less than a
/// day from UTC, as every time zone offset that chrono represents is.
pub open spec fn within_a_day_of(ts: int, c: CivilTime) -> bool {
    civil_utc_micros(c) - 86_400_000_000 < ts < civil_utc_micros(c) + 86_400_000_000
}

/// `Utc.from_utc_datetime(..).timestamp_micros()` of the civil time: the instant it
/// names in UTC, which chrono represents.
#[verifier::external_body]
fn civil_as_utc(c: CivilTime) -> (res: i64)
    requires
        valid_civil(c),
    ensures
        res == civil_utc_micros(c),
        timestamp_in_range(res as int),
{
    let naive = chrono::NaiveDate::from_ymd_opt(c.year, c.month, c.day).unwrap().and_hms_opt(c.hour, c.minute, 0).unwrap();
    chrono::Utc.from_utc_datetime(&naive).timestamp_micros()
}

/// `Local.from_local_datetime(..).single()` of the civil time, as microseconds since the
/// epoch: the instant it names in the machine's time zone, where that is unambiguous.
/// The value depends on the time zone of the machine; only that it is an instant chrono
/// represents and that it lies within a day of the civil time read as UTC are claimed:
/// chrono subtracts the zone's offset from the civil time (`checked_sub_offset`), and a
/// `FixedOffset` is always less than a day (`FixedOffset::east_opt`). Which offset
/// applies is left unsaid.
#[verifier::external_body]
fn civil_as_local(c: CivilTime) -> (res: Option<i64>)
    requires
        valid_civil(c),
    ensures
        res matches Some(t) ==> timestamp_in_range(t as int),
        res matches Some(t) ==> within_a_day_of(t as int, c),
{
    let naive = chrono::NaiveDate::from_ymd_opt(c.year, c.month, c.day).unwrap().and_hms_opt(c.hour, c.minute, 0).unwrap();
    chrono::Local.from_local_datetime(&naive).single().map(|dt| dt.with_timezone(&chrono::Utc).timestamp_micros())
}

fn is_leap(y: i32) -> (res: bool)
    ensures
        res == is_leap_year(y as int),
{
    // shifting by a multiple of 400 years keeps the leap-year pattern
    let s = (y as i64) + 4_000_000_000i64;
    assert(s % 4 == (y as int) % 4) by {
        assert(4_000_000_000int == 4 * 1_000_000_000);
    }
    assert(s % 100 == (y as int) % 100) by {
        assert(4_000_000_000int == 100 * 40_000_000);
    }
    assert(s % 400 == (y as int) % 400) by {
        assert(4_000_000_000int == 400 * 10_000_000);
    }
    (s % 4 == 0 && s % 100 != 0) || s % 400 == 0
}

fn date_is_valid(y: i32, m: u32, d: u32) -> (res: bool)
    ensures
        res == valid_date(y as int, m as int, d as int),
{
    if y < -262143 || y > 262142 || m < 1 || m > 12 || d < 1 {
        return false;
    }
    let dim: u32 = if m == 2 {
        if is_leap(y) {
            29
        } else {
            28
        }
    } else if m == 4 || m == 6 || m == 9 || m == 11 {
        30
    } else {
        31
    };
    d <= dim
}

// ---------------------------------------------------------------------------
// Reading a line of `last -x`
// ---------------------------------------------------------------------------

pub open spec fn month_number(m: Seq<char>) -> u32 {
    if m == "Jan"@ {
        1
    } else if m == "Feb"@ {
        2
    } else if m == "Mar"@ {
        3
    } else if m == "Apr"@ {
        4
    } else if m == "May"@ {
        5
    } else if m == "Jun"@ {
        6
    } else if m == "Jul"@ {
        7
    } else if m == "Aug"@ {
        8
    } else if m == "Sep"@ {
        9
    } else if m == "Oct"@ {
        10
    } else if m == "Nov"@ {
        11
    } else if m == "Dec"@ {
        12
    } else {
        1
    }
}

/// The index of the first `:` of `t`.
pub open spec fn first_colon(t: Seq<char>) -> Option<int>
    decreases t.len(),
{
    if t.len() == 0 {
        None
    } else if t[0] == ':' {
        Some(0)
    } else {
        match first_colon(t.drop_first()) {
            Some(k) => Some(k + 1),
            None => None,
        }
    }
}

/// A `u32` read from `s`, `default` where it does not read as one.
pub open spec fn u32_or(s: Seq<char>, default: u32) -> u32 {
    match parse_unsigned(s, u32::MAX as nat) {
        Some(v) => v as u32,
        None => default,
    }
}

/// The hour and minute of an `HH:MM` field; a part that does not read as a number is 0.
pub open spec fn hour_minute(t: Seq<char>) -> (u32, u32) {
    match first_colon(t) {
        Some(k) => (u32_or(t.take(k), 0), u32_or(t.skip(k + 1), 0)),
        None => (u32_or(t, 0), 0),
    }
}

/// The first word of four decimal digits.
pub open spec fn first_year_token(s: Seq<Seq<char>>) -> Option<Seq<char>>
    decreases s.len(),
{
    if s.len() == 0 {
        None
    } else if s[0].len() == 4 && all_digits(s[0]) {
        Some(s[0])
    } else {
        first_year_token(s.drop_first())
    }
}

/// The word at position `i`, or `default` where there is none.
pub open spec fn word_or(w: Seq<Seq<char>>, i: int, default: Seq<char>) -> Seq<char> {
    if i < w.len() {
        w[i]
    } else {
        default
    }
}

/// The civil time that a record's month, day, time and year fields name. A date that
/// does not exist becomes 2024-01-01 and a time that does not exist becomes 00:00.
pub open spec fn record_civil_time(month: Seq<char>, day: Seq<char>, time: Seq<char>, year: i32) -> CivilTime {
    let m = month_number(month);
    let d = u32_or(day, 1);
    let (h, mi) = hour_minute(time);
    let (yy, mm, dd) = if valid_date(year as int, m as int, d as int) {
        (year, m, d)
    } else {
        (2024i32, 1u32, 1u32)
    };
    let (hh, mn) = if h < 24 && mi < 60 {
        (h, mi)
    } else {
        (0u32, 0u32)
    };
    CivilTime { year: yy, month: mm, day: dd, hour: hh, minute: mn }
}

/// What a record line says, before its time is placed in a time zone.
pub struct PowerRecord {
    pub kind: PowerEventKind,
    pub user: String,
    pub terminal: String,
    pub civil: CivilTime,
}

/// The kind of event that a record's first word names.
pub open spec fn kind_of_word(w: Seq<char>) -> Option<PowerEventKind> {
    if w == "reboot"@ {
        Some(PowerEventKind::Reboot)
    } else if w == "shutdown"@ {
        Some(PowerEventKind::Shutdown)
    } else {
        None
    }
}

/// How a line of `last -x` reads: user (which names the event), terminal (default
/// `system`), event word, kernel version, weekday, month, day, time (default `00:00`),
/// then anything, among which the first four-digit word is the year (default
/// `current_year`).
pub open spec fn record_matches(r: PowerRecord, line: Seq<char>, current_year: i32) -> bool {
    let w = words(line);
    &&& w.len() > 0
    &&& kind_of_word(w[0]) == Some(r.kind)
    &&& r.user@ == w[0]
    &&& r.terminal@ == word_or(w, 1, "system"@)
    &&& r.civil == record_civil_time(
        word_or(w, 5, Seq::empty()),
        word_or(w, 6, Seq::empty()),
        word_or(w, 7, "00:00"@),
        year_of_words(w, current_year),
    )
}

/// The year a record's words give: the first four-digit word from position 8 on, else
/// `current_year`.
pub open spec fn year_of_words(w: Seq<Seq<char>>, current_year: i32) -> i32 {
    let found = if w.len() > 8 {
        first_year_token(w.skip(8))
    } else {
        None
    };
    match found {
        Some(t) => digits_value(t) as i32,
        None => current_year,
    }
}

/// The line is a record of a reboot or a shutdown.
pub open spec fn is_record_line(line: Seq<char>) -> bool {
    let w = words(line);
    w.len() > 0 && kind_of_word(w[0]) is Some
}

/// The entry says what its line records: its kind, user and terminal are those of a
/// reading of its line with `current_year` as the default year, and its instant is the
/// civil time of that reading in some time zone (less than a day from it read as UTC).
pub open spec fn read_from_line(e: PowerCycleView, current_year: i32) -> bool {
    exists|r: PowerRecord|
        record_matches(r, e.raw_line, current_year) && e.kind == r.kind && e.user == r.user@
            && e.terminal == r.terminal@ && within_a_day_of(e.timestamp as int, r.civil)
}

fn month_number_exec(m: &str) -> (res: u32)
    ensures
        res == month_number(m@),
{
    if text_eq(m, "Jan") {
        1
    } else if text_eq(m, "Feb") {
        2
    } else if text_eq(m, "Mar") {
        3
    } else if text_eq(m, "Apr") {
        4
    } else if text_eq(m, "May") {
        5
    } else if text_eq(m, "Jun") {
        6
    } else if text_eq(m, "Jul") {
        7
    } else if text_eq(m, "Aug") {
        8
    } else if text_eq(m, "Sep") {
        9
    } else if text_eq(m, "Oct") {
        10
    } else if text_eq(m, "Nov") {
        11
    } else if text_eq(m, "Dec") {
        12
    } else {
        1
    }
}

fn u32_or_exec(v: &Vec<char>, default: u32) -> (res: u32)
    ensures
        res == u32_or(v@, default),
{
    match parse_unsigned_chars(v, 0xffff_ffff) {
        Some(n) => n as u32,
        None => default,
    }
}

proof fn lemma_first_colon_is(t: Seq<char>, k: int)
    requires
        0 <= k <= t.len(),
        forall|j: int| 0 <= j < k ==> t[j] != ':',
        k == t.len() || t[k] == ':',
    ensures
        first_colon(t) == if k == t.len() {
            None::<int>
        } else {
            Some(k)
        },
    decreases k,
{
    if k > 0 {
        let u = t.drop_first();
        assert forall|j: int| 0 <= j < k - 1 implies u[j] != ':' by {
            assert(u[j] == t[j + 1]);
        }
        if k < t.len() {
            assert(u[k - 1] == t[k]);
        }
        lemma_first_colon_is(u, k - 1);
    }
}

fn hour_minute_exec(t: &Vec<char>) -> (res: (u32, u32))
    ensures
        res == hour_minute(t@),
{
    let mut k: usize = 0;
    while k < t.len() && t[k] != ':'
        invariant
            k <= t.len(),
            forall|j: int| 0 <= j < k ==> t@[j] != ':',
        decreases t.len() - k,
    {
        k = k + 1;
    }
    proof {
        lemma_first_colon_is(t@, k as int);
    }
    if k == t.len() {
        (u32_or_exec(t, 0), 0)
    } else {
        let h = crate::text::slice_chars(t, 0, k);
        let m = crate::text::slice_chars(t, k + 1, t.len());
        assert(m@ == t@.skip(k + 1));
        (u32_or_exec(&h, 0), u32_or_exec(&m, 0))
    }
}

fn civil_time_exec(month: &Vec<char>, day: &Vec<char>, time: &Vec<char>, year: i32) -> (c: CivilTime)
    ensures
        c == record_civil_time(month@, day@, time@, year),
        valid_civil(c),
{
    let ms = string_from_chars(month.as_slice());
    let m = month_number_exec(ms.as_str());
    let d = u32_or_exec(day, 1);
    let (h, mi) = hour_minute_exec(time);
    let (yy, mm, dd) = if date_is_valid(year, m, d) {
        (year, m, d)
    } else {
        (2024i32, 1u32, 1u32)
    };
    let (hh, mn) = if h < 24 && mi < 60 {
        (h, mi)
    } else {
        (0u32, 0u32)
    };
    assert(valid_date(2024, 1, 1));
    CivilTime { year: yy, month: mm, day: dd, hour: hh, minute: mn }
}

fn word_or_exec(w: &Vec<Vec<char>>, i: usize, default: &str) -> (res: Vec<char>)
    ensures
        res@ == word_or(w@.map_values(|x: Vec<char>| x@), i as int, default@),
{
    if i < w.len() {
        let mut r: Vec<char> = Vec::new();
        let src = &w[i];
        let mut k: usize = 0;
        while k < src.len()
            invariant
                k <= src.len(),
                r@ == src@.take(k as int),
            decreases src.len() - k,
        {
            r.push(src[k]);
            assert(src@.take(k + 1) == src@.take(k as int).push(src@[k as int]));
            k = k + 1;
        }
        assert(src@.take(src.len() as int) == src@);
        r
    } else {
        chars_of(default)
    }
}

fn is_year_token(t: &Vec<char>) -> (res: bool)
    ensures
        res == (t@.len() == 4 && all_digits(t@)),
{
    if t.len() != 4 {
        return false;
    }
    let mut k: usize = 0;
    while k < 4
        invariant
            t@.len() == 4,
            k <= 4,
            forall|j: int| 0 <= j < k ==> crate::text::is_digit(#[trigger] t@[j]),
        decreases 4 - k,
    {
        if !('0' <= t[k] && t[k] <= '9') {
            return false;
        }
        k = k + 1;
    }
    true
}

proof fn lemma_first_year_token_skip(s: Seq<Seq<char>>, i: int)
    requires
        0 <= i <= s.len(),
        forall|j: int| 0 <= j < i ==> !((#[trigger] s[j]).len() == 4 && all_digits(s[j])),
    ensures
        first_year_token(s) == first_year_token(s.skip(i)),
    decreases i,
{
    if i > 0 {
        assert forall|j: int| 0 <= j < i - 1 implies !((#[trigger] s.drop_first()[j]).len() == 4
            && all_digits(s.drop_first()[j])) by {
            assert(s.drop_first()[j] == s[j + 1]);
        }
        lemma_first_year_token_skip(s.drop_first(), i - 1);
        assert(s.drop_first().skip(i - 1) == s.skip(i));
    } else {
        assert(s.skip(0) == s);
    }
}

/// The year that a record's trailing words give: the first four-digit word from
/// position 8 on, else `current_year`.
fn record_year(w: &Vec<Vec<char>>, current_year: i32) -> (res: i32)
    ensures
        res == year_of_words(w@.map_values(|x: Vec<char>| x@), current_year),
{
    let ghost ws = w@.map_values(|x: Vec<char>| x@);
    if w.len() <= 8 {
        return current_year;
    }
    let ghost tail = ws.skip(8);
    let mut i: usize = 8;
    while i < w.len()
        invariant
            8 <= i <= w.len(),
            ws == w@.map_values(|x: Vec<char>| x@),
            tail == ws.skip(8),
            forall|j: int| 0 <= j < i - 8 ==> !((#[trigger] tail[j]).len() == 4 && all_digits(tail[j])),
        decreases w.len() - i,
    {
        let ghost here = i;
        if is_year_token(&w[i]) {
            proof {
                assert(tail[i - 8] == w@[i as int]@);
                lemma_first_year_token_skip(tail, i - 8);
                assert(tail.skip(i - 8)[0] == tail[i - 8]);
            }
            let t = &w[i];
            let n = crate::text::parse_digits(t, 0, 9999);
            assert(t@.skip(0) == t@);
            proof {
                crate::text::lemma_digits_value_prefix(t@, 4);
                assert(t@.take(4) == t@);
            }
            match n {
                Some(v) => {
                    return v as i32;
                },
                None => {
                    // four digits never exceed 9999
                    proof {
                        lemma_four_digits_bound(t@);
                    }
                    return current_year;
                },
            }
        }
        assert(tail[i - 8] == w@[i as int]@);
        i = i + 1;
    }
    proof {
        lemma_first_year_token_skip(tail, tail.len() as int);
    }
    current_year
}

proof fn lemma_four_digits_bound(t: Seq<char>)
    requires
        t.len() == 4,
        all_digits(t),
    ensures
        digits_value(t) <= 9999,
{
    reveal_with_fuel(digits_value, 5);
    let t3 = t.drop_last();
    let t2 = t3.drop_last();
    let t1 = t2.drop_last();
    let t0 = t1.drop_last();
    assert(t0.len() == 0);
    assert(digits_value(t0) == 0);
    assert(crate::text::is_digit(t[0]) && crate::text::is_digit(t[1]) && crate::text::is_digit(t[2])
        && crate::text::is_digit(t[3]));
    assert(t1.last() == t[0]);
    assert(t2.last() == t[1]);
    assert(t3.last() == t[2]);
    assert(t.last() == t[3]);
}

/// Reads a record line of `last -x`; `None` where the first word names no reboot or
/// shutdown (or there is no word).
pub fn parse_power_record(line: &str, current_year: i32) -> (res: Option<PowerRecord>)
    ensures
        res is Some == is_record_line(line@),
        res matches Some(r) ==> record_matches(r, line@, current_year) && valid_civil(r.civil),
{
    proof {
        reveal_strlit("");
    }
    let chars = chars_of(line);
    let w = split_words(&chars);
    let ghost ws = words(line@);
    assert(w@.map_values(|x: Vec<char>| x@) =~= ws);
    if w.len() == 0 {
        return None;
    }
    let first = string_from_chars(w[0].as_slice());
    let kind = if text_eq(first.as_str(), "reboot") {
        PowerEventKind::Reboot
    } else if text_eq(first.as_str(), "shutdown") {
        PowerEventKind::Shutdown
    } else {
        return None;
    };
    let terminal_chars = word_or_exec(&w, 1, "system");
    let month = word_or_exec(&w, 5, "");
    let day = word_or_exec(&w, 6, "");
    let time = word_or_exec(&w, 7, "00:00");
    let year = record_year(&w, current_year);
    let civil = civil_time_exec(&month, &day, &time, year);
    assert(first@ == ws[0]);
    assert(month@ == word_or(ws, 5, Seq::empty()));
    assert(day@ == word_or(ws, 6, Seq::empty()));
    assert(time@ == word_or(ws, 7, "00:00"@));
    assert(kind_of_word(ws[0]) == Some(kind));
    Some(
        PowerRecord {
            kind,
            user: first,
            terminal: string_from_chars(terminal_chars.as_slice()),
            civil,
        },
    )
}

/// The record placed in time: at the instant `local` where the machine's time zone
/// names one, else at the civil time read as UTC.
pub fn power_entry_from_record(line: &str, r: PowerRecord, local: Option<i64>) -> (e: PowerCycleEntry)
    requires
        valid_civil(r.civil),
        local matches Some(t) ==> timestamp_in_range(t as int),
    ensures
        e.kind == r.kind,
        e.user == r.user,
        e.terminal == r.terminal,
        e.raw_line@ == line@,
        !e.is_unclean,
        e.timestamp == match local {
            Some(t) => t as int,
            None => civil_utc_micros(r.civil),
        },
        timestamp_in_range(e.timestamp as int),
{
    let timestamp = match local {
        Some(t) => t,
        None => civil_as_utc(r.civil),
    };
    PowerCycleEntry {
        kind: r.kind,
        user: r.user,
        terminal: r.terminal,
        timestamp,
        raw_line: String::from_str(line),
        is_unclean: false,
    }
}

/// Reads one line of `last -x` into a power record; the time is read in the machine's
/// time zone (falling back to UTC where that is ambiguous or does not exist).
pub fn parse_single_line(line: &str, current_year: i32) -> (res: Option<PowerCycleEntry>)
    ensures
        res is Some == is_record_line(line@),
        res matches Some(e) ==> exists|r: PowerRecord|
            {
                &&& record_matches(r, line@, current_year)
                &&& e.kind == r.kind
                &&& e.user@ == r.user@
                &&& e.terminal@ == r.terminal@
                &&& within_a_day_of(e.timestamp as int, r.civil)
            },
        res matches Some(e) ==> e.raw_line@ == line@ && !e.is_unclean && timestamp_in_range(
            e.timestamp as int,
        ),
{
    match parse_power_record(line, current_year) {
        Some(r) => {
            let local = civil_as_local(r.civil);
            let ghost rr = r;
            let e = power_entry_from_record(line, r, local);
            Some(e)
        },
        None => None,
    }
}

// ---------------------------------------------------------------------------
// Whole outputs
// ---------------------------------------------------------------------------

/// A line of `last -x` output that records a reboot or a shutdown: once trimmed it is
/// not empty and begins with `reboot` or `shutdown`.
pub open spec fn is_power_line(l: Seq<char>) -> bool {
    let t = trim(l);
    t.len() > 0 && (has_prefix(t, "reboot"@) || has_prefix(t, "shutdown"@))
}

pub open spec fn texts_view(s: Seq<String>) -> Seq<Seq<char>> {
    s.map_values(|x: String| x@)
}

/// The lines of `last -x` output that record reboots and shutdowns, in order.
pub fn select_power_lines(lines: &Vec<String>) -> (res: Vec<String>)
    ensures
        texts_view(res@) == texts_view(lines@).filter(|l: Seq<char>| is_power_line(l)),
{
    let ghost p = |l: Seq<char>| is_power_line(l);
    let reboot = chars_of("reboot");
    let shutdown = chars_of("shutdown");
    let mut out: Vec<String> = Vec::new();
    let mut i: usize = 0;
    while i < lines.len()
        invariant
            i <= lines.len(),
            reboot@ == "reboot"@,
            shutdown@ == "shutdown"@,
            p == (|l: Seq<char>| is_power_line(l)),
            texts_view(out@) == texts_view(lines@.take(i as int)).filter(p),
        decreases lines.len() - i,
    {
        let cs = chars_of(lines[i].as_str());
        let t = trim_chars(&cs);
        let keep = t.len() > 0 && (starts_with_chars(&t, &reboot) || starts_with_chars(&t, &shutdown));
        let ghost prev = out@;
        if keep {
            out.push(lines[i].clone());
            assert(texts_view(out@) =~= texts_view(prev).push(lines@[i as int]@));
        }
        proof {
            reveal(Seq::filter);
            let pre = texts_view(lines@.take(i as int));
            let post = texts_view(lines@.take(i + 1));
            assert(post.drop_last() =~= pre);
            assert(post.last() == lines@[i as int]@);
        }
        i = i + 1;
    }
    assert(lines@.take(lines.len() as int) =~= lines@);
    out
}

/// Reads every record line; lines that are no record are skipped.
pub fn parse_power_lines(lines: &Vec<String>, current_year: i32) -> (res: Vec<PowerCycleEntry>)
    ensures
        res@.len() == texts_view(lines@).filter(|l: Seq<char>| is_record_line(l)).len(),
        forall|k: int| 0 <= k < res@.len() ==> !(#[trigger] res@[k]).is_unclean,
        forall|k: int| 0 <= k < res@.len() ==> timestamp_in_range((#[trigger] res@[k]).timestamp as int),
        forall|k: int| 0 <= k < res@.len() ==> read_from_line((#[trigger] res@[k])@, current_year),
        cycles_view(res@).map_values(|e: PowerCycleView| e.raw_line) == texts_view(lines@).filter(
            |l: Seq<char>| is_record_line(l),
        ),
{
    let ghost p = |l: Seq<char>| is_record_line(l);
    let mut out: Vec<PowerCycleEntry> = Vec::new();
    let mut i: usize = 0;
    while i < lines.len()
        invariant
            i <= lines.len(),
            p == (|l: Seq<char>| is_record_line(l)),
            cycles_view(out@).map_values(|e: PowerCycleView| e.raw_line) == texts_view(lines@.take(i as int)).filter(p),
            forall|k: int| 0 <= k < out@.len() ==> !(#[trigger] out@[k]).is_unclean,
            forall|k: int| 0 <= k < out@.len() ==> timestamp_in_range((#[trigger] out@[k]).timestamp as int),
            forall|k: int| 0 <= k < out@.len() ==> read_from_line((#[trigger] out@[k])@, current_year),
        decreases lines.len() - i,
    {
        let ghost prev = out@;
        match parse_single_line(lines[i].as_str(), current_year) {
            Some(e) => {
                proof {
                    let r = choose|r: PowerRecord|
                        {
                            &&& record_matches(r, lines@[i as int]@, current_year)
                            &&& e.kind == r.kind
                            &&& e.user@ == r.user@
                            &&& e.terminal@ == r.terminal@
                            &&& within_a_day_of(e.timestamp as int, r.civil)
                        };
                    assert(record_matches(r, e@.raw_line, current_year));
                    assert(read_from_line(e@, current_year));
                }
                out.push(e);
                assert(forall|k: int| 0 <= k < prev.len() ==> out@[k] == prev[k]);
                assert(cycles_view(out@).map_values(|e: PowerCycleView| e.raw_line) =~= cycles_view(prev).map_values(|e: PowerCycleView| e.raw_line).push(lines@[i as int]@));
            },
            None => {},
        }
        proof {
            reveal(Seq::filter);
            let pre = texts_view(lines@.take(i as int));
            let post = texts_view(lines@.take(i + 1));
            assert(post.drop_last() =~= pre);
            assert(post.last() == lines@[i as int]@);
        }
        i = i + 1;
    }
    assert(lines@.take(lines.len() as int) =~= lines@);
    assert(cycles_view(out@).map_values(|e: PowerCycleView| e.raw_line).len() == out@.len());
    out
}

/// Line `i` of the output is a reboot that no shutdown line directly precedes.
pub open spec fn unclean_at(lines: Seq<Seq<char>>, i: int) -> bool {
    &&& 1 <= i < lines.len()
    &&& has_prefix(trim_start(lines[i]), "reboot"@)
    &&& !has_prefix(trim_start(lines[i - 1]), "shutdown"@)
}

/// Entry `k` is the first reboot entry recorded by the line `line`.
pub open spec fn first_reboot_of(entries: Seq<PowerCycleView>, line: Seq<char>, k: int) -> bool {
    &&& 0 <= k < entries.len()
    &&& entries[k].kind == PowerEventKind::Reboot
    &&& entries[k].raw_line == line
    &&& forall|j: int| 0 <= j < k ==> !((#[trigger] entries[j]).kind == PowerEventKind::Reboot
        && entries[j].raw_line == line)
}

/// Entry `k` is the first reboot entry recorded by some line that
/// `unclean_at` flags.
pub open spec fn flagged_unclean(entries: Seq<PowerCycleView>, lines: Seq<Seq<char>>, k: int) -> bool {
    exists|i: int| unclean_at(lines, i) && #[trigger] first_reboot_of(entries, lines[i], k)
}

/// The same entries apart from the unclean flag.
pub open spec fn same_but_flag(a: PowerCycleView, b: PowerCycleView) -> bool {
    &&& a.kind == b.kind
    &&& a.user == b.user
    &&& a.terminal == b.terminal
    &&& a.timestamp == b.timestamp
    &&& a.raw_line == b.raw_line
}

fn find_first_reboot(entries: &Vec<PowerCycleEntry>, line: &String) -> (res: Option<usize>)
    ensures
        match res {
            Some(k) => first_reboot_of(cycles_view(entries@), line@, k as int),
            None => forall|j: int| 0 <= j < entries@.len() ==> !((#[trigger] entries@[j]).kind
                == PowerEventKind::Reboot && entries@[j].raw_line@ == line@),
        },
{
    let mut k: usize = 0;
    while k < entries.len()
        invariant
            k <= entries.len(),
            forall|j: int| 0 <= j < k ==> !((#[trigger] entries@[j]).kind == PowerEventKind::Reboot
                && entries@[j].raw_line@ == line@),
        decreases entries.len() - k,
    {
        if entries[k].kind == PowerEventKind::Reboot && entries[k].raw_line == *line {
            proof {
                assert forall|j: int| 0 <= j < k implies !((#[trigger] cycles_view(entries@)[j]).kind
                    == PowerEventKind::Reboot && cycles_view(entries@)[j].raw_line == line@) by {
                    assert(cycles_view(entries@)[j] == entries@[j]@);
                }
            }
            return Some(k);
        }
        k = k + 1;
    }
    None
}

/// Flags as unclean every reboot that no shutdown precedes: for each line `i` from the
/// second on that begins (after leading blanks) with `reboot` while line `i - 1` does not
/// begin with `shutdown`, the first reboot entry recorded by line `i` is flagged.
pub fn mark_unclean_shutdowns(entries: &mut Vec<PowerCycleEntry>, raw_lines: &Vec<String>)
    ensures
        final(entries)@.len() == old(entries)@.len(),
        forall|k: int| 0 <= k < final(entries)@.len() ==> same_but_flag(
            #[trigger] final(entries)@[k]@,
            old(entries)@[k]@,
        ),
        forall|k: int| 0 <= k < final(entries)@.len() ==> (#[trigger] final(entries)@[k]).is_unclean
            == (old(entries)@[k].is_unclean || flagged_unclean(
            cycles_view(old(entries)@),
            texts_view(raw_lines@),
            k,
        )),
{
    let ghost orig = cycles_view(entries@);
    let ghost lines = texts_view(raw_lines@);
    let reboot = chars_of("reboot");
    let shutdown = chars_of("shutdown");
    let mut i: usize = 1;
    while i < raw_lines.len()
        invariant
            1 <= i,
            i <= raw_lines.len() || raw_lines.len() == 0,
            reboot@ == "reboot"@,
            shutdown@ == "shutdown"@,
            lines == texts_view(raw_lines@),
            entries@.len() == orig.len(),
            forall|k: int| 0 <= k < entries@.len() ==> same_but_flag(#[trigger] entries@[k]@, orig[k]),
            forall|k: int| 0 <= k < entries@.len() ==> (#[trigger] entries@[k]).is_unclean == (
                orig[k].is_unclean || exists|j: int|
                    1 <= j < i && unclean_at(lines, j) && #[trigger] first_reboot_of(orig, lines[j], k)),
        decreases raw_lines.len() - i,
    {
        let cur = trim_start_chars(&chars_of(raw_lines[i].as_str()));
        let prev = trim_start_chars(&chars_of(raw_lines[i - 1].as_str()));
        let flag = starts_with_chars(&cur, &reboot) && !starts_with_chars(&prev, &shutdown);
        assert(lines[i as int] == raw_lines@[i as int]@);
        assert(lines[i - 1] == raw_lines@[i - 1]@);
        if flag {
            match find_first_reboot(entries, &raw_lines[i]) {
                Some(k) => {
                    let mut e = entries[k].clone();
                    e.is_unclean = true;
                    proof {
                        assert forall|j: int| 0 <= j < k implies !((#[trigger] orig[j]).kind
                            == PowerEventKind::Reboot && orig[j].raw_line == lines[i as int]) by {
                            assert(same_but_flag(entries@[j]@, orig[j]));
                            assert(cycles_view(entries@)[j] == entries@[j]@);
                        }
                        assert(same_but_flag(entries@[k as int]@, orig[k as int]));
                        assert(cycles_view(entries@)[k as int] == entries@[k as int]@);
                        assert(first_reboot_of(orig, lines[i as int], k as int));
                    }
                    let ghost before = entries@;
                    entries.set(k, e);
                    proof {
                        assert forall|m: int| 0 <= m < entries@.len() implies (#[trigger] entries@[m]).is_unclean
                            == (orig[m].is_unclean || exists|j: int|
                            1 <= j < i + 1 && unclean_at(lines, j) && #[trigger] first_reboot_of(
                                orig,
                                lines[j],
                                m,
                            )) by {
                            if m == k {
                                assert(unclean_at(lines, i as int));
                                assert(first_reboot_of(orig, lines[i as int], m));
                            } else {
                                assert(entries@[m] == before[m]);
                                if first_reboot_of(orig, lines[i as int], m) {
                                    // two first reboots of one line are the same entry
                                    assert(false);
                                }
                            }
                        }
                    }
                },
                None => {
                    proof {
                        assert forall|m: int| 0 <= m < entries@.len() implies !first_reboot_of(
                            orig,
                            lines[i as int],
                            m,
                        ) by {
                            assert(same_but_flag(entries@[m]@, orig[m]));
                        }
                    }
                },
            }
        } else {
            proof {
                assert(!unclean_at(lines, i as int));
            }
        }
        i = i + 1;
    }
    proof {
        assert forall|k: int| 0 <= k < entries@.len() implies (#[trigger] entries@[k]).is_unclean
            == (orig[k].is_unclean || flagged_unclean(orig, lines, k)) by {
            if flagged_unclean(orig, lines, k) {
                let j = choose|j: int| unclean_at(lines, j) && #[trigger] first_reboot_of(orig, lines[j], k);
                assert(1 <= j < i);
            }
        }
    }
}

/// Whether a reboot is flagged depends only on the kinds and lines of the entries.
pub proof fn lemma_flags_follow_kinds_and_lines(a: Seq<PowerCycleView>, b: Seq<PowerCycleView>, lines: Seq<Seq<char>>, k: int)
    requires
        a.len() == b.len(),
        forall|j: int| 0 <= j < a.len() ==> (#[trigger] a[j]).kind == b[j].kind && a[j].raw_line == b[j].raw_line,
    ensures
        flagged_unclean(a, lines, k) == flagged_unclean(b, lines, k),
{
    if flagged_unclean(a, lines, k) {
        let i = choose|i: int| unclean_at(lines, i) && #[trigger] first_reboot_of(a, lines[i], k);
        assert forall|j: int| 0 <= j < k implies !((#[trigger] b[j]).kind == PowerEventKind::Reboot
            && b[j].raw_line == lines[i]) by {
            assert(a[j].kind == b[j].kind);
        }
        assert(first_reboot_of(b, lines[i], k));
    }
    if flagged_unclean(b, lines, k) {
        let i = choose|i: int| unclean_at(lines, i) && #[trigger] first_reboot_of(b, lines[i], k);
        assert forall|j: int| 0 <= j < k implies !((#[trigger] a[j]).kind == PowerEventKind::Reboot
            && a[j].raw_line == lines[i]) by {
            assert(a[j].kind == b[j].kind);
        }
        assert(first_reboot_of(a, lines[i], k));
    }
}

/// The power cycles read from `last -x` output with `year` as the default year: one
/// entry per reboot or shutdown record among the selected lines, in order, each saying
/// what its line records and placed at an instant chrono represents; a reboot is
/// unclean exactly when it is the first entry of a line that no shutdown line precedes.
pub open spec fn power_reading(res: Seq<PowerCycleView>, output: Seq<Seq<char>>, year: i32) -> bool {
    let lines = output.filter(|l: Seq<char>| is_power_line(l));
    &&& res.map_values(|e: PowerCycleView| e.raw_line) == lines.filter(|l: Seq<char>| is_record_line(l))
    &&& forall|k: int| 0 <= k < res.len() ==> read_from_line(#[trigger] res[k], year)
    &&& forall|k: int| 0 <= k < res.len() ==> timestamp_in_range((#[trigger] res[k]).timestamp as int)
    &&& forall|k: int| 0 <= k < res.len() ==> (#[trigger] res[k]).is_unclean == flagged_unclean(res, lines, k)
}

/// The power cycles that `last -x` output records: its reboot and shutdown lines read
/// in order (the year defaulting to `current_year`), unclean reboots flagged. The time
/// zone comes from the machine; all else is as `power_reading` states.
pub fn power_cycles_from_output(output_lines: &Vec<String>, current_year: i32) -> (res: Vec<PowerCycleEntry>)
    ensures
        power_reading(cycles_view(res@), texts_view(output_lines@), current_year),
        forall|k: int| 0 <= k < res@.len() ==> timestamp_in_range((#[trigger] res@[k]).timestamp as int),
{
    let lines = select_power_lines(output_lines);
    let year = current_year;
    let mut entries = parse_power_lines(&lines, year);
    let ghost parsed = entries@;
    mark_unclean_shutdowns(&mut entries, &lines);
    proof {
        let pv = cycles_view(parsed);
        let rv = cycles_view(entries@);
        let ls = texts_view(lines@);
        assert(ls == texts_view(output_lines@).filter(|l: Seq<char>| is_power_line(l)));
        assert forall|k: int| 0 <= k < entries@.len() implies timestamp_in_range((#[trigger] entries@[k]).timestamp as int) by {
            assert(same_but_flag(entries@[k]@, parsed[k]@));
            assert(timestamp_in_range(parsed[k].timestamp as int));
        }
        assert forall|j: int| 0 <= j < pv.len() implies (#[trigger] pv[j]).kind == rv[j].kind && pv[j].raw_line == rv[j].raw_line by {
            assert(same_but_flag(entries@[j]@, parsed[j]@));
        }
        assert(rv.map_values(|e: PowerCycleView| e.raw_line) =~= pv.map_values(|e: PowerCycleView| e.raw_line));
        assert forall|k: int| 0 <= k < rv.len() implies read_from_line(#[trigger] rv[k], year) by {
            assert(same_but_flag(entries@[k]@, parsed[k]@));
            assert(read_from_line(parsed[k]@, year));
            let r = choose|r: PowerRecord| record_matches(r, parsed[k]@.raw_line, year) && parsed[k]@.kind == r.kind
                && parsed[k]@.user == r.user@ && parsed[k]@.terminal == r.terminal@
                && within_a_day_of(parsed[k]@.timestamp as int, r.civil);
            assert(record_matches(r, rv[k].raw_line, year));
        }
        assert forall|k: int| 0 <= k < rv.len() implies (#[trigger] rv[k]).is_unclean == flagged_unclean(rv, ls, k) by {
            assert(!parsed[k].is_unclean);
            lemma_flags_follow_kinds_and_lines(pv, rv, ls, k);
        }
        assert(power_reading(rv, texts_view(output_lines@), year));
    }
    entries
}

/// Each power cycle is placed at the date and time that its own line gives: its instant
/// lies less than a day (a time zone offset) from the civil time named by the line's
/// month, day, time and year fields read as UTC, the year defaulting to the given one.
/// Any reading of the line agrees on that civil time.
pub proof fn lemma_power_times_follow_lines(res: Seq<PowerCycleView>, output: Seq<Seq<char>>, year: i32, k: int)
    requires
        power_reading(res, output, year),
        0 <= k < res.len(),
    ensures
        ({
            let w = words(res[k].raw_line);
            within_a_day_of(
                res[k].timestamp as int,
                record_civil_time(
                    word_or(w, 5, Seq::empty()),
                    word_or(w, 6, Seq::empty()),
                    word_or(w, 7, "00:00"@),
                    year_of_words(w, year),
                ),
            )
        }),
        forall|r: PowerRecord|
            #[trigger] record_matches(r, res[k].raw_line, year) ==> within_a_day_of(
                res[k].timestamp as int,
                r.civil,
            ),
{
    assert(read_from_line(res[k], year));
}

// ---------------------------------------------------------------------------
// Audit summary
// ---------------------------------------------------------------------------

/// The summary of a set of power cycles.
pub struct PowerAuditResult {
    pub title: String,
    pub description: String,
    pub entries: Vec<PowerCycleEntry>,
    pub unclean_count: usize,
    pub total_count: usize,
}

impl Default for PowerAuditResult {
    fn default() -> (r: Self)
        ensures
            r.title@.len() == 0,
            r.description@.len() == 0,
            r.entries@.len() == 0,
            r.unclean_count == 0,
            r.total_count == 0,
    {
        PowerAuditResult {
            title: String::new(),
            description: String::new(),
            entries: Vec::new(),
            unclean_count: 0,
            total_count: 0,
        }
    }
}

/// The number of entries flagged unclean.
pub open spec fn unclean_in(s: Seq<PowerCycleView>) -> nat {
    s.filter(|e: PowerCycleView| e.is_unclean).len()
}

pub open spec fn audit_title(unclean: nat, total: nat) -> Seq<char> {
    if total == 0 {
        "No Power Cycle Data"@
    } else if unclean > 0 {
        "Unclean Shutdown Detected ("@ + decimal(unclean) + ")"@
    } else {
        "System Operational Integrity: Verified"@
    }
}

pub open spec fn audit_description(unclean: nat, total: nat) -> Seq<char> {
    if total == 0 {
        "No reboot or shutdown records found in system history."@
    } else if unclean > 0 {
        "Power Audit detected "@ + decimal(unclean) + " unclean shutdown event(s) out of "@
            + decimal(total) + " total power cycles."@
    } else {
        "All "@ + decimal(total) + " historical power cycles conform to standard shutdown protocols."@
    }
}

fn clone_cycles(v: &Vec<PowerCycleEntry>) -> (res: Vec<PowerCycleEntry>)
    ensures
        res@ == v@,
{
    let mut res: Vec<PowerCycleEntry> = Vec::new();
    let mut i: usize = 0;
    while i < v.len()
        invariant
            i <= v.len(),
            res@ == v@.take(i as int),
        decreases v.len() - i,
    {
        res.push(v[i].clone());
        assert(res@ == v@.take(i + 1));
        i = i + 1;
    }
    assert(v@.take(v.len() as int) == v@);
    res
}

/// Summarises power cycles: how many there are, how many are unclean, and the headline
/// and description that say so.
pub fn analyze_power_cycles(entries: &Vec<PowerCycleEntry>) -> (r: PowerAuditResult)
    ensures
        r.total_count == entries@.len(),
        r.unclean_count == unclean_in(cycles_view(entries@)),
        r.entries@ == entries@,
        r.title@ == audit_title(r.unclean_count as nat, r.total_count as nat),
        r.description@ == audit_description(r.unclean_count as nat, r.total_count as nat),
{
    let ghost v = cycles_view(entries@);
    let ghost p = |e: PowerCycleView| e.is_unclean;
    let total = entries.len();
    let mut unclean: usize = 0;
    let mut i: usize = 0;
    proof {
        reveal(Seq::filter);
        assert(v.take(0) == Seq::<PowerCycleView>::empty());
    }
    while i < entries.len()
        invariant
            i <= entries.len(),
            v == cycles_view(entries@),
            p == (|e: PowerCycleView| e.is_unclean),
            unclean == v.take(i as int).filter(p).len(),
            unclean <= i,
        decreases entries.len() - i,
    {
        proof {
            reveal(Seq::filter);
            assert(v.take(i + 1).drop_last() == v.take(i as int));
            assert(v.take(i + 1).last() == entries@[i as int]@);
        }
        if entries[i].is_unclean {
            unclean = unclean + 1;
        }
        i = i + 1;
    }
    assert(v.take(total as int) == v);
    let mut t: Vec<char> = Vec::new();
    let mut d: Vec<char> = Vec::new();
    if total == 0 {
        append_text(&mut t, "No Power Cycle Data");
        append_text(&mut d, "No reboot or shutdown records found in system history.");
    } else if unclean > 0 {
        append_text(&mut t, "Unclean Shutdown Detected (");
        push_decimal(unclean as u64, &mut t);
        append_text(&mut t, ")");
        append_text(&mut d, "Power Audit detected ");
        push_decimal(unclean as u64, &mut d);
        append_text(&mut d, " unclean shutdown event(s) out of ");
        push_decimal(total as u64, &mut d);
        append_text(&mut d, " total power cycles.");
    } else {
        append_text(&mut t, "System Operational Integrity: Verified");
        append_text(&mut d, "All ");
        push_decimal(total as u64, &mut d);
        append_text(&mut d, " historical power cycles conform to standard shutdown protocols.");
    }
    assert(t@ =~= audit_title(unclean as nat, total as nat));
    assert(d@ =~= audit_description(unclean as nat, total as nat));
    PowerAuditResult {
        title: string_from_chars(t.as_slice()),
        description: string_from_chars(d.as_slice()),
        entries: clone_cycles(entries),
        unclean_count: unclean,
        total_count: total,
    }
}

/// Age in whole seconds and unclean flag of every audited power cycle inside the window
/// of `window_seconds` that ends at `now`, in order.
pub fn power_window_samples(audit: &PowerAuditResult, now: i64, window_seconds: i64) -> (res: Vec<(i64, bool)>)
    requires
        timestamp_in_range(now as int),
        forall|k: int| 0 <= k < audit.entries@.len() ==> timestamp_in_range((#[trigger] audit.entries@[k]).timestamp as int),
    ensures
        res@ == cycles_view(audit.entries@).filter(
            |e: PowerCycleView| crate::diagnostics::analyzer::in_window(now as int, e.timestamp as int, window_seconds as int),
        ).map_values(|e: PowerCycleView| (elapsed_seconds(now as int, e.timestamp as int) as i64, e.is_unclean)),
{
    let ghost v = cycles_view(audit.entries@);
    let ghost inw = |e: PowerCycleView| crate::diagnostics::analyzer::in_window(now as int, e.timestamp as int, window_seconds as int);
    let ghost f = |e: PowerCycleView| (elapsed_seconds(now as int, e.timestamp as int) as i64, e.is_unclean);
    let mut res: Vec<(i64, bool)> = Vec::new();
    let mut i: usize = 0;
    proof {
        reveal(Seq::filter);
        assert(v.take(0) == Seq::<PowerCycleView>::empty());
    }
    while i < audit.entries.len()
        invariant
            i <= audit.entries.len(),
            v == cycles_view(audit.entries@),
            timestamp_in_range(now as int),
            forall|k: int| 0 <= k < audit.entries@.len() ==> timestamp_in_range((#[trigger] audit.entries@[k]).timestamp as int),
            inw == (|e: PowerCycleView| crate::diagnostics::analyzer::in_window(now as int, e.timestamp as int, window_seconds as int)),
            f == (|e: PowerCycleView| (elapsed_seconds(now as int, e.timestamp as int) as i64, e.is_unclean)),
            res@ == v.take(i as int).filter(inw).map_values(f),
        decreases audit.entries.len() - i,
    {
        let e = &audit.entries[i];
        let age = seconds_between(now, e.timestamp);
        proof {
            reveal(Seq::filter);
            assert(v.take(i + 1).drop_last() == v.take(i as int));
            assert(v.take(i + 1).last() == e@);
        }
        if age >= 0 && age <= window_seconds {
            res.push((age, e.is_unclean));
            assert(v.take(i + 1).filter(inw).map_values(f) =~= v.take(i as int).filter(inw).map_values(f).push(f(e@)));
        }
        i = i + 1;
    }
    assert(v.take(audit.entries.len() as int) == v);
    res
}

/// The result reports the audit: its headline and description, the given score, the
/// unclean cycles counted as critical and the clean ones as information, and the status
/// that the score falls in.
pub open spec fn reports_audit(r: DiagnosticResult, audit: PowerAuditResult, score: u8) -> bool {
    &&& r.title@ == audit.title@
    &&& r.description@ == audit.description@
    &&& r.score == score
    &&& r.critical_count == audit.unclean_count
    &&& r.error_count == 0
    &&& r.warning_count == 0
    &&& r.info_count == if audit.total_count >= audit.unclean_count {
        audit.total_count - audit.unclean_count
    } else {
        0
    }
    &&& r.debug_count == 0
    &&& r.total_count == audit.total_count
    &&& r.status == status_of_score(score)
}

/// The diagnostic result of a power audit given the health score its weighted cycles
/// earned: the empty result where the audit holds no cycles, else the report of the audit.
pub fn power_diagnostic_from_score(audit: &PowerAuditResult, score: u8) -> (r: DiagnosticResult)
    ensures
        audit.entries@.len() == 0 ==> is_empty_result(r),
        audit.entries@.len() > 0 ==> reports_audit(r, *audit, score),
{
    if audit.entries.len() == 0 {
        return DiagnosticResult::empty();
    }
    DiagnosticResult {
        title: audit.title.clone(),
        description: audit.description.clone(),
        score,
        critical_count: audit.unclean_count,
        error_count: 0,
        warning_count: 0,
        info_count: audit.total_count.saturating_sub(audit.unclean_count),
        debug_count: 0,
        total_count: audit.total_count,
        status: HealthStatus::from_score(score),
    }
}

/// The diagnostic result of a power audit given the cycles that fall inside the scoring
/// window (as `power_window_samples` gives them) and the score they earned: the empty
/// result when the audit holds no cycles or none falls inside the window, else the report
/// of the audit.
pub fn power_diagnostic_from_samples(audit: &PowerAuditResult, samples: &Vec<(i64, bool)>, score: u8) -> (r: DiagnosticResult)
    ensures
        (audit.entries@.len() == 0 || samples@.len() == 0) ==> is_empty_result(r),
        (audit.entries@.len() > 0 && samples@.len() > 0) ==> reports_audit(r, *audit, score),
{
    if samples.len() == 0 {
        return DiagnosticResult::empty();
    }
    power_diagnostic_from_score(audit, score)
}

} // verus!
