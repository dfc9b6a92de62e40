//! The reminder plugin: reading `/remind <time> <message>` and the times
//! it understands.
use vstd::prelude::*;
use crate::json::{array_text, array_value, bool_value, int_value, json_quoted, string_value, uint_value, Json};
use crate::plugin_manager::{lit, str_is};
use crate::plugin_tools::common::{entry_pairs, object_of, raw_object_text};
use crate::plugin_tools::files::bool_text;
use crate::prompt_engine::{first_ws, lemma_first_ws};
use crate::scheduler::{format_utc_minute, printable, rfc3339, rfc3339_text, utc_minute_text, UtcTime};
use crate::text::{
    chars_of, dec, dec_signed, is_digit, is_whitespace, is_ws, lowercase, parse_i64, parse_i64_spec, parse_u64,
    parse_u64_spec, push_str, slice_chars, string_of, to_lowercase, trim, trim_chars,
};

verus! {

/// Longest time span chrono represents (seconds).
pub const MAX_SPAN_SECS: i64 = 9_223_372_036_854_775;
/// Latest instant chrono represents (seconds since the epoch).
pub const MAX_TIME_SECS: i64 = 8_210_266_876_799;
/// Earliest instant chrono represents (seconds since the epoch).
pub const MIN_TIME_SECS: i64 = -8_334_601_315_200;

/// What the plugin does with a request.
pub enum ReminderCommand {
    List,
    Create,
}

/// `jobs` and `list` list the reminders; any other action lists them
/// without arguments and creates one with them.
pub fn reminder_command(action: &str, args: &str) -> (r: ReminderCommand)
    ensures
        r is List <==> (action@ == "jobs"@ || action@ == "list"@ || args@.len() == 0),
{
    if str_is(action, "jobs") || str_is(action, "list") || chars_of(args).len() == 0 {
        ReminderCommand::List
    } else {
        ReminderCommand::Create
    }
}

// ─── The arguments ───────────────────────────────────────────────────────────

/// `<time> <message>`: split at the first whitespace character, the message
/// trimmed; `None` when there is no whitespace.
pub open spec fn reminder_parts(args: Seq<char>) -> Option<(Seq<char>, Seq<char>)> {
    match first_ws(args) {
        Some(k) => Some((args.take(k), trim(args.skip(k + 1)))),
        None => None,
    }
}

fn first_ws_index(v: &Vec<char>) -> (r: Option<usize>)
    ensures
        match r {
            Some(k) => k < v@.len() && first_ws(v@) == Some(k as int),
            None => first_ws(v@) is None,
        },
{
    let mut i: usize = 0;
    while i < v.len()
        invariant
            i <= v@.len(),
            forall|j: int| 0 <= j < i ==> !is_ws(#[trigger] v@[j]),
        decreases v@.len() - i,
    {
        if is_whitespace(v[i]) {
            proof {
                lemma_first_ws(v@, i as int);
            }
            return Some(i);
        }
        i = i + 1;
    }
    proof {
        lemma_first_ws(v@, v@.len() as int);
    }
    None
}

/// The usage errors of `/remind`.
pub open spec fn usage_text() -> Seq<char> {
    "Usage: /remind <time> <message>  e.g. '/remind 30min Check the oven'"@
}

pub open spec fn short_usage_text() -> Seq<char> {
    "Usage: /remind <time> <message>"@
}

/// The time and the message of `/remind`, or the usage error.
pub fn split_reminder_args(args: &str) -> (r: Result<(String, String), String>)
    ensures
        match reminder_parts(args@) {
            None => r matches Err(e) && e@ == usage_text(),
            Some((t, m)) => if m.len() == 0 {
                r matches Err(e) && e@ == short_usage_text()
            } else {
                r matches Ok((rt, rm)) && rt@ == t && rm@ == m
            },
        },
{
    let v = chars_of(args);
    let vl: usize = v.len();
    match first_ws_index(&v) {
        None => Err(lit("Usage: /remind <time> <message>  e.g. '/remind 30min Check the oven'")),
        Some(k) => {
            let t = slice_chars(&v, 0, k);
            let rest = slice_chars(&v, k + 1, v.len());
            let m = trim_chars(&rest);
            assert(t@ =~= v@.take(k as int));
            assert(rest@ =~= v@.skip(k + 1));
            if m.len() == 0 {
                Err(lit("Usage: /remind <time> <message>"))
            } else {
                Ok((string_of(&t), string_of(&m)))
            }
        },
    }
}

// ─── Relative times: `10m`, `1h30m`, `2d` ────────────────────────────────────

/// Seconds per unit letter.
pub open spec fn unit_secs(c: char) -> Option<int> {
    if c == 's' {
        Some(1)
    } else if c == 'm' {
        Some(60)
    } else if c == 'h' {
        Some(3600)
    } else if c == 'd' {
        Some(86400)
    } else {
        None
    }
}

/// Scanning state after `s`: total seconds, whether a unit was seen, the
/// pending digits. Each non-digit ends a number (a bad or empty number
/// counts 0); a unit letter adds it.
pub open spec fn rel_scan(s: Seq<char>) -> (int, bool, Seq<char>)
    decreases s.len(),
{
    if s.len() == 0 {
        (0, false, Seq::empty())
    } else {
        let (t, f, buf) = rel_scan(s.drop_last());
        let c = s.last();
        if is_digit(c) {
            (t, f, buf.push(c))
        } else {
            let n: int = match parse_i64_spec(buf) {
                Some(v) => v as int,
                None => 0,
            };
            match unit_secs(c) {
                Some(u) => (t + n * u, true, Seq::empty()),
                None => (t, f, Seq::empty()),
            }
        }
    }
}

/// A relative time in seconds, when the text names a unit.
pub open spec fn relative_secs(s: Seq<char>) -> Option<int> {
    let (t, f, _) = rel_scan(s);
    if f {
        Some(t)
    } else {
        None
    }
}

proof fn lemma_rel_scan_nonneg(s: Seq<char>)
    ensures
        rel_scan(s).0 >= 0,
        all_digit_seq(rel_scan(s).2),
    decreases s.len(),
{
    if s.len() > 0 {
        lemma_rel_scan_nonneg(s.drop_last());
        let (t, f, buf) = rel_scan(s.drop_last());
        if !is_digit(s.last()) {
            match parse_i64_spec(buf) {
                Some(v) => {
                    lemma_parse_digits_nonneg(buf);
                },
                None => {},
            }
        } else {
            assert forall|i: int| 0 <= i < buf.push(s.last()).len() implies is_digit(
                #[trigger] buf.push(s.last())[i],
            ) by {
                if i < buf.len() {
                    assert(buf.push(s.last())[i] == buf[i]);
                }
            }
        }
    }
}

pub open spec fn all_digit_seq(s: Seq<char>) -> bool {
    forall|i: int| 0 <= i < s.len() ==> is_digit(#[trigger] s[i])
}

proof fn lemma_parse_digits_nonneg(buf: Seq<char>)
    requires
        all_digit_seq(buf),
    ensures
        parse_i64_spec(buf) matches Some(v) ==> v >= 0,
{
    if buf.len() > 0 {
        assert(is_digit(buf[0]));
    }
}

/// A relative time: not one (no unit letter), its span in seconds, or a
/// span longer than chrono represents (where the plugin stops).
pub enum RelativeTime {
    NotRelative,
    Seconds(i64),
    OutOfRange,
}

/// Reads a relative time such as `10m` or `1h30m`.
pub fn parse_relative_duration(s: &str) -> (r: RelativeTime)
    ensures
        match relative_secs(s@) {
            None => r is NotRelative,
            Some(t) => if t <= MAX_SPAN_SECS {
                r == RelativeTime::Seconds(t as i64)
            } else {
                r is OutOfRange
            },
        },
        r matches RelativeTime::Seconds(d) ==> 0 <= d <= MAX_SPAN_SECS,
        relative_secs(s@) matches Some(t) ==> t >= 0,
{
    let v = chars_of(s);
    let mut total: i64 = 0;
    let mut found: bool = false;
    let mut buf: Vec<char> = Vec::new();
    let mut i: usize = 0;
    let mut over: bool = false;
    while i < v.len()
        invariant
            i <= v@.len(),
            v@ == s@,
            rel_scan(v@.take(i as int)).1 == found,
            rel_scan(v@.take(i as int)).2 == buf@,
            !over ==> rel_scan(v@.take(i as int)).0 == total as int,
            over ==> rel_scan(v@.take(i as int)).0 > MAX_SPAN_SECS,
            0 <= total <= MAX_SPAN_SECS,
        decreases v@.len() - i,
    {
        proof {
            assert(v@.take(i + 1).drop_last() =~= v@.take(i as int));
            assert(v@.take(i + 1).last() == v@[i as int]);
            lemma_rel_scan_nonneg(v@.take(i as int));
        }
        let c = v[i];
        if '0' <= c && c <= '9' {
            buf.push(c);
        } else {
            let n: i64 = match parse_i64(&buf) {
                Some(x) => x,
                None => 0,
            };
            proof {
                lemma_parse_digits_nonneg(buf@);
            }
            let unit: i64 = if c == 's' {
                1
            } else if c == 'm' {
                60
            } else if c == 'h' {
                3600
            } else if c == 'd' {
                86400
            } else {
                0
            };
            if unit > 0 {
                found = true;
                if !over {
                    let space: i64 = MAX_SPAN_SECS - total;
                    let room: i64 = space / unit;
                    if n > room {
                        assert(n * unit > space) by (nonlinear_arith)
                            requires
                                n > room,
                                room == space / unit,
                                unit > 0,
                                space >= 0,
                        ;
                        over = true;
                    } else {
                        assert(n * unit <= space) by (nonlinear_arith)
                            requires
                                n <= room,
                                room == space / unit,
                                unit > 0,
                                n >= 0,
                                space >= 0,
                        ;
                        total = total + n * unit;
                    }
                } else {
                    proof {
                        assert(n * unit >= 0) by (nonlinear_arith)
                            requires
                                n >= 0,
                                unit > 0,
                        ;
                    }
                }
            }
            buf = Vec::new();
        }
        i = i + 1;
    }
    assert(v@.take(v@.len() as int) =~= v@);
    proof {
        lemma_rel_scan_nonneg(v@);
    }
    if !found {
        RelativeTime::NotRelative
    } else if over {
        RelativeTime::OutOfRange
    } else {
        RelativeTime::Seconds(total)
    }
}

// ─── Clock times: `14:30` ────────────────────────────────────────────────────

/// The two pieces of `s` around its only `:`.
pub open spec fn colon_pieces(s: Seq<char>) -> Option<(Seq<char>, Seq<char>)> {
    if exists|k: int| 0 <= k < s.len() && s[k] == ':' && forall|j: int|
        0 <= j < s.len() && j != k ==> s[j] != ':' {
        let k = choose|k: int| 0 <= k < s.len() && s[k] == ':' && forall|j: int|
            0 <= j < s.len() && j != k ==> s[j] != ':';
        Some((s.take(k), s.skip(k + 1)))
    } else {
        None
    }
}

/// `H:M` with an hour below 24 and a minute below 60.
pub open spec fn hhmm_of(s: Seq<char>) -> Option<(u32, u32)> {
    match colon_pieces(s) {
        Some((a, b)) => match (parse_u64_spec(a), parse_u64_spec(b)) {
            (Some(h), Some(m)) => if h < 24 && m < 60 {
                Some((h as u32, m as u32))
            } else {
                None
            },
            _ => None,
        },
        None => None,
    }
}

pub fn parse_hhmm(s: &str) -> (r: Option<(u32, u32)>)
    ensures
        r == hhmm_of(s@),
{
    let v = chars_of(s);
    let mut k: Option<usize> = None;
    let mut count: usize = 0;
    let mut i: usize = 0;
    while i < v.len()
        invariant
            i <= v@.len(),
            count <= i,
            count == 0 ==> k is None && forall|j: int| 0 <= j < i ==> v@[j] != ':',
            count == 1 ==> (k matches Some(p) && p < i && v@[p as int] == ':' && forall|j: int|
                0 <= j < i && j != p ==> v@[j] != ':'),
            count >= 2 ==> exists|a: int, b: int|
                0 <= a < b < i && v@[a] == ':' && v@[b] == ':',
        decreases v@.len() - i,
    {
        if v[i] == ':' {
            if count == 1 {
                let p = k.unwrap();
                assert(v@[p as int] == ':' && v@[i as int] == ':');
            }
            if count < 2 {
                count = count + 1;
            }
            if k.is_none() {
                k = Some(i);
            }
        }
        i = i + 1;
    }
    if count != 1 {
        proof {
            if exists|q: int| 0 <= q < v@.len() && v@[q] == ':' && forall|j: int|
                0 <= j < v@.len() && j != q ==> v@[j] != ':' {
                let q = choose|q: int| 0 <= q < v@.len() && v@[q] == ':' && forall|j: int|
                    0 <= j < v@.len() && j != q ==> v@[j] != ':';
                if count >= 2 {
                    let (a, b) = choose|a: int, b: int|
                        0 <= a < b < v@.len() && v@[a] == ':' && v@[b] == ':';
                    assert(a == q || v@[a] != ':');
                    assert(b == q || v@[b] != ':');
                }
            }
        }
        return None;
    }
    let p = k.unwrap();
    proof {
        let w = choose|q: int| 0 <= q < v@.len() && v@[q] == ':' && forall|j: int|
            0 <= j < v@.len() && j != q ==> v@[j] != ':';
        assert(w == p);
    }
    let a = slice_chars(&v, 0, p);
    let b = slice_chars(&v, p + 1, v.len());
    assert(a@ =~= v@.take(p as int));
    assert(b@ =~= v@.skip(p + 1));
    match (parse_u64(&a), parse_u64(&b)) {
        (Some(h), Some(m)) => {
            if h < 24 && m < 60 {
                Some((h as u32, m as u32))
            } else {
                None
            }
        },
        _ => None,
    }
}

// ─── When a reminder is due ──────────────────────────────────────────────────

/// Where a time text leads.
pub enum TimeSpec {
    At(UtcTime),
    /// The text is not a time.
    Unparsable,
    /// The time lies beyond what chrono represents (where the plugin stops).
    OutOfRange,
}

/// Midnight (UTC) of the day of `secs`.
pub open spec fn day_start(secs: int) -> int {
    secs - ((secs % 86400) + 86400) % 86400
}

/// The time a reminder text names, from `now`: a relative time, else the
/// next `H:M` (today if still ahead, else tomorrow), else `tomorrow`.
pub open spec fn time_spec_of(text: Seq<char>, now: UtcTime) -> TimeSpec {
    let s = lowercase(trim(text));
    match relative_secs(s) {
        Some(d) => if d > MAX_SPAN_SECS || now.secs + d > MAX_TIME_SECS {
            TimeSpec::OutOfRange
        } else {
            TimeSpec::At(UtcTime { secs: (now.secs + d) as i64, nanos: now.nanos })
        },
        None => match hhmm_of(s) {
            Some((h, m)) => {
                let c = day_start(now.secs as int) + h * 3600 + m * 60;
                if c > now.secs {
                    TimeSpec::At(UtcTime { secs: c as i64, nanos: 0 })
                } else if c + 86400 > MAX_TIME_SECS {
                    TimeSpec::OutOfRange
                } else {
                    TimeSpec::At(UtcTime { secs: (c + 86400) as i64, nanos: 0 })
                }
            },
            None => if s == "tomorrow"@ {
                if now.secs + 86400 > MAX_TIME_SECS {
                    TimeSpec::OutOfRange
                } else {
                    TimeSpec::At(UtcTime { secs: (now.secs + 86400) as i64, nanos: now.nanos })
                }
            } else {
                TimeSpec::Unparsable
            },
        },
    }
}

pub fn parse_time_spec(spec: &str, now: UtcTime) -> (r: TimeSpec)
    requires
        MIN_TIME_SECS <= now.secs <= MAX_TIME_SECS,
    ensures
        r == time_spec_of(spec@, now),
{
    let t = string_of(&trim_chars(&chars_of(spec)));
    let s = to_lowercase(t.as_str());
    match parse_relative_duration(s.as_str()) {
        RelativeTime::Seconds(d) => {
            if now.secs > MAX_TIME_SECS - d {
                TimeSpec::OutOfRange
            } else {
                TimeSpec::At(UtcTime { secs: now.secs + d, nanos: now.nanos })
            }
        },
        RelativeTime::OutOfRange => TimeSpec::OutOfRange,
        RelativeTime::NotRelative => {
            match parse_hhmm(s.as_str()) {
                Some((h, m)) => {
                    let start: i64 = now.secs - ((now.secs % 86400) + 86400) % 86400;
                    assert(start == day_start(now.secs as int));
                    let c: i64 = start + (h as i64) * 3600 + (m as i64) * 60;
                    if c > now.secs {
                        TimeSpec::At(UtcTime { secs: c, nanos: 0 })
                    } else if c > MAX_TIME_SECS - 86400 {
                        TimeSpec::OutOfRange
                    } else {
                        TimeSpec::At(UtcTime { secs: c + 86400, nanos: 0 })
                    }
                },
                None => {
                    if str_is(s.as_str(), "tomorrow") {
                        if now.secs > MAX_TIME_SECS - 86400 {
                            TimeSpec::OutOfRange
                        } else {
                            TimeSpec::At(UtcTime { secs: now.secs + 86400, nanos: now.nanos })
                        }
                    } else {
                        TimeSpec::Unparsable
                    }
                },
            }
        },
    }
}

/// The error for a time text the plugin does not understand.
pub fn unparsable_time(spec: &str) -> (r: String)
    ensures
        r@ == "Cannot parse time '"@ + spec@ + "'. Try: 10min 2h 1h30m tomorrow 14:30"@,
{
    let mut out: Vec<char> = Vec::new();
    push_str(&mut out, "Cannot parse time '");
    push_str(&mut out, spec);
    push_str(&mut out, "'. Try: 10min 2h 1h30m tomorrow 14:30");
    string_of(&out)
}

/// Whole seconds from `now` until `at` (rounded toward zero).
pub open spec fn whole_seconds_between(now: UtcTime, at: UtcTime) -> int {
    let diff_ns = (at.secs - now.secs) * 1_000_000_000 + (at.nanos - now.nanos);
    if diff_ns >= 0 {
        diff_ns / 1_000_000_000
    } else {
        -((-diff_ns) / 1_000_000_000)
    }
}

pub fn seconds_until(now: UtcTime, at: UtcTime) -> (r: i64)
    requires
        MIN_TIME_SECS <= now.secs <= MAX_TIME_SECS,
        MIN_TIME_SECS <= at.secs <= MAX_TIME_SECS,
        now.nanos < 1_000_000_000,
        at.nanos < 1_000_000_000,
    ensures
        r == whole_seconds_between(now, at),
{
    let diff_ns: i128 = ((at.secs as i128) - (now.secs as i128)) * 1_000_000_000i128 + ((at.nanos as i128)
        - (now.nanos as i128));
    let r: i128 = if diff_ns >= 0 {
        diff_ns / 1_000_000_000i128
    } else {
        -((-diff_ns) / 1_000_000_000i128)
    };
    r as i64
}

/// How a reminder's time is shown: RFC 3339, and `YYYY-MM-DD HH:MM UTC`.
pub fn reminder_times(at: UtcTime) -> (r: (String, String))
    requires
        printable(at),
    ensures
        r.0@ == rfc3339_text(at.secs, at.nanos),
        r.1@ == utc_minute_text(at.secs, at.nanos),
{
    (rfc3339(at), format_utc_minute(at))
}

/// Number of reminders not yet done.
pub open spec fn count_pending(done: Seq<bool>) -> nat
    decreases done.len(),
{
    if done.len() == 0 {
        0
    } else {
        count_pending(done.drop_last()) + if done.last() {
            0nat
        } else {
            1nat
        }
    }
}

/// Counts of listed reminders: `(total, pending, done)`.
pub fn reminder_counts(done: &[bool]) -> (r: (usize, usize, usize))
    ensures
        r.0 == done@.len(),
        r.1 == count_pending(done@),
        r.2 == r.0 - r.1,
{
    let mut pending: usize = 0;
    let mut i: usize = 0;
    while i < done.len()
        invariant
            i <= done@.len(),
            pending == count_pending(done@.take(i as int)),
            pending <= i,
        decreases done@.len() - i,
    {
        assert(done@.take(i + 1).drop_last() =~= done@.take(i as int));
        if !done[i] {
            pending = pending + 1;
        }
        i = i + 1;
    }
    assert(done@.take(done@.len() as int) =~= done@);
    (done.len(), pending, done.len() - pending)
}

// ─── Answers ─────────────────────────────────────────────────────────────────

/// The answer after a reminder is saved.
pub open spec fn reminder_created_text(
    id: i64,
    message: Seq<char>,
    remind_at: Seq<char>,
    human: Seq<char>,
    in_seconds: i64,
) -> Seq<char> {
    raw_object_text(
        seq![
            ("id"@, dec_signed(id as int)),
            ("in_seconds"@, dec_signed(in_seconds as int)),
            ("message"@, json_quoted(message)),
            ("remind_at"@, json_quoted(remind_at)),
            ("remind_at_human"@, json_quoted(human)),
        ],
    )
}

pub fn reminder_created(id: i64, message: &str, remind_at: &str, human: &str, in_seconds: i64) -> (r:
    Json)
    ensures
        r.text@ == reminder_created_text(id, message@, remind_at@, human@, in_seconds),
{
    let mut es: Vec<(String, Json)> = Vec::new();
    es.push((lit("id"), int_value(id)));
    es.push((lit("in_seconds"), int_value(in_seconds)));
    es.push((lit("message"), string_value(lit(message))));
    es.push((lit("remind_at"), string_value(lit(remind_at))));
    es.push((lit("remind_at_human"), string_value(lit(human))));
    let ghost e = es@;
    let r = object_of(es);
    assert(entry_pairs(e) =~= seq![
        ("id"@, dec_signed(id as int)),
        ("in_seconds"@, dec_signed(in_seconds as int)),
        ("message"@, json_quoted(message@)),
        ("remind_at"@, json_quoted(remind_at@)),
        ("remind_at_human"@, json_quoted(human@)),
    ]);
    r
}

/// A stored reminder: `(id, message, remind_at, done, created_at)`.
pub type ReminderRow = (i64, String, String, bool, String);

/// A stored reminder as the list shows it.
pub open spec fn reminder_entry_text(row: ReminderRow) -> Seq<char> {
    raw_object_text(
        seq![
            ("created_at"@, json_quoted(row.4@)),
            ("done"@, bool_text(row.3)),
            ("id"@, dec_signed(row.0 as int)),
            ("message"@, json_quoted(row.1@)),
            ("remind_at"@, json_quoted(row.2@)),
        ],
    )
}

fn reminder_entry(row: &ReminderRow) -> (r: Json)
    ensures
        r.text@ == reminder_entry_text(*row),
{
    let mut es: Vec<(String, Json)> = Vec::new();
    es.push((lit("created_at"), string_value(lit(row.4.as_str()))));
    es.push((lit("done"), bool_value(row.3)));
    es.push((lit("id"), int_value(row.0)));
    es.push((lit("message"), string_value(lit(row.1.as_str()))));
    es.push((lit("remind_at"), string_value(lit(row.2.as_str()))));
    let ghost e = es@;
    let r = object_of(es);
    assert(entry_pairs(e) =~= seq![
        ("created_at"@, json_quoted(row.4@)),
        ("done"@, bool_text(row.3)),
        ("id"@, dec_signed(row.0 as int)),
        ("message"@, json_quoted(row.1@)),
        ("remind_at"@, json_quoted(row.2@)),
    ]);
    r
}

/// The answer to a listing: the reminders in the order given, with how
/// many there are, how many are pending and how many are done.
pub open spec fn reminder_list_text(rows: Seq<ReminderRow>) -> Seq<char> {
    let done = rows.map_values(|r: ReminderRow| r.3);
    raw_object_text(
        seq![
            ("done"@, dec((rows.len() - count_pending(done)) as nat)),
            ("pending"@, dec(count_pending(done))),
            ("reminders"@, "["@ + crate::summary::join(
                Seq::new(rows.len(), |i: int| reminder_entry_text(rows[i])),
                ","@,
            ) + "]"@),
            ("total"@, dec(rows.len())),
        ],
    )
}

pub fn reminder_list(rows: &Vec<ReminderRow>) -> (r: Json)
    ensures
        r.text@ == reminder_list_text(rows@),
{
    let mut items: Vec<Json> = Vec::new();
    let mut flags: Vec<bool> = Vec::new();
    let mut i: usize = 0;
    while i < rows.len()
        invariant
            i <= rows@.len(),
            items@.len() == i,
            flags@ == rows@.take(i as int).map_values(|r: ReminderRow| r.3),
            forall|q: int| 0 <= q < i ==> (#[trigger] items@[q]).text@ == reminder_entry_text(rows@[q]),
        decreases rows@.len() - i,
    {
        items.push(reminder_entry(&rows[i]));
        flags.push(rows[i].3);
        assert(rows@.take(i + 1).map_values(|r: ReminderRow| r.3) =~= rows@.take(i as int).map_values(
            |r: ReminderRow| r.3,
        ).push(rows@[i as int].3));
        i = i + 1;
    }
    assert(rows@.take(rows@.len() as int) =~= rows@);
    let (total, pending, finished) = reminder_counts(flags.as_slice());
    let ghost iv = items@;
    let mut es: Vec<(String, Json)> = Vec::new();
    es.push((lit("done"), uint_value(finished as u64)));
    es.push((lit("pending"), uint_value(pending as u64)));
    es.push((lit("reminders"), array_value(items)));
    es.push((lit("total"), uint_value(total as u64)));
    let ghost e = es@;
    let r = object_of(es);
    assert(Seq::new(iv.len(), |k: int| iv[k].text@) =~= Seq::new(
        rows@.len(),
        |k: int| reminder_entry_text(rows@[k]),
    ));
    assert(entry_pairs(e) =~= seq![
        ("done"@, dec((rows@.len() - count_pending(rows@.map_values(|r: ReminderRow| r.3))) as nat)),
        ("pending"@, dec(count_pending(rows@.map_values(|r: ReminderRow| r.3)))),
        ("reminders"@, array_text(iv)),
        ("total"@, dec(rows@.len())),
    ]);
    r
}

} // verus!
