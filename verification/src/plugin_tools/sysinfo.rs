//! The system information plugin: which report is asked for, and how the
//! kernel's and `df`'s text is read and laid out.
use vstd::prelude::*;
use crate::json::{uint_value, int_value, json_quoted, null_value, string_value, Json};
use crate::plugin_manager::{lit, str_is};
use crate::plugin_tools::common::{entry_pairs, object_of, raw_object_text};
use crate::plugin_tools::files::{lines_of, text_lines};
use crate::text::{
    chars_of, dec, parse_u64, parse_u64_spec, push_decimal, push_str, split_ws, string_of,
    ws_tokens,
};

verus! {

/// The reports the plugin gives.
#[derive(Clone, Copy, Debug, PartialEq, Eq, Structural)]
pub enum SysReport {
    Uptime,
    Disk,
    Full,
}

/// The report named by the arguments (lower-cased), or else by the action.
pub open spec fn sys_report_of(args: Seq<char>, action: Seq<char>) -> SysReport {
    let sub = if args.len() > 0 {
        args
    } else {
        action
    };
    if sub == "uptime"@ {
        SysReport::Uptime
    } else if sub == "disk"@ {
        SysReport::Disk
    } else {
        SysReport::Full
    }
}

pub fn sys_report(args: &str, action: &str) -> (r: SysReport)
    ensures
        r == sys_report_of(args@, action@),
{
    let sub: &str = if chars_of(args).len() > 0 {
        args
    } else {
        action
    };
    if str_is(sub, "uptime") {
        SysReport::Uptime
    } else if str_is(sub, "disk") {
        SysReport::Disk
    } else {
        SysReport::Full
    }
}

// ─── Uptime ──────────────────────────────────────────────────────────────────

/// `<d>d <h>h <m>m <s>s`, leaving out leading zero units (minutes stay).
pub open spec fn uptime_text(total: nat) -> Seq<char> {
    let days = total / 86400;
    let hours = (total % 86400) / 3600;
    let minutes = (total % 3600) / 60;
    let seconds = total % 60;
    if days > 0 {
        dec(days) + "d "@ + dec(hours) + "h "@ + dec(minutes) + "m "@ + dec(seconds) + "s"@
    } else if hours > 0 {
        dec(hours) + "h "@ + dec(minutes) + "m "@ + dec(seconds) + "s"@
    } else {
        dec(minutes) + "m "@ + dec(seconds) + "s"@
    }
}

/// The same without seconds, as the full report gives it.
pub open spec fn uptime_short_text(total: nat) -> Seq<char> {
    let days = total / 86400;
    let hours = (total % 86400) / 3600;
    let minutes = (total % 3600) / 60;
    if days > 0 {
        dec(days) + "d "@ + dec(hours) + "h "@ + dec(minutes) + "m"@
    } else if hours > 0 {
        dec(hours) + "h "@ + dec(minutes) + "m"@
    } else {
        dec(minutes) + "m"@
    }
}

/// An uptime in whole seconds, written for people.
pub fn uptime_human(total: u64, with_seconds: bool) -> (r: String)
    ensures
        r@ == if with_seconds {
            uptime_text(total as nat)
        } else {
            uptime_short_text(total as nat)
        },
{
    let days: u64 = total / 86400;
    let hours: u64 = (total % 86400) / 3600;
    let minutes: u64 = (total % 3600) / 60;
    let seconds: u64 = total % 60;
    let mut out: Vec<char> = Vec::new();
    if days > 0 {
        push_decimal(&mut out, days);
        push_str(&mut out, "d ");
    }
    if days > 0 || hours > 0 {
        push_decimal(&mut out, hours);
        push_str(&mut out, "h ");
    }
    push_decimal(&mut out, minutes);
    if with_seconds {
        push_str(&mut out, "m ");
        push_decimal(&mut out, seconds);
        push_str(&mut out, "s");
    } else {
        push_str(&mut out, "m");
    }
    string_of(&out)
}

/// The uptime report for `total` seconds.
pub fn uptime_result(total: u64) -> (r: Json)
    ensures
        r.text@ == raw_object_text(
            seq![
                ("days"@, dec(total as nat / 86400)),
                ("hours"@, dec((total as nat % 86400) / 3600)),
                ("minutes"@, dec((total as nat % 3600) / 60)),
                ("uptime_human"@, json_quoted(uptime_text(total as nat))),
                ("uptime_seconds"@, dec(total as nat)),
            ],
        ),
{
    let mut es: Vec<(String, Json)> = Vec::new();
    es.push((lit("days"), uint_value(total / 86400)));
    es.push((lit("hours"), uint_value((total % 86400) / 3600)));
    es.push((lit("minutes"), uint_value((total % 3600) / 60)));
    es.push((lit("uptime_human"), string_value(uptime_human(total, true))));
    es.push((lit("uptime_seconds"), uint_value(total)));
    let ghost e = es@;
    let r = object_of(es);
    assert(entry_pairs(e) =~= seq![
        ("days"@, dec(total as nat / 86400)),
        ("hours"@, dec((total as nat % 86400) / 3600)),
        ("minutes"@, dec((total as nat % 3600) / 60)),
        ("uptime_human"@, json_quoted(uptime_text(total as nat))),
        ("uptime_seconds"@, dec(total as nat)),
    ]);
    r
}

/// `Cannot read /proc/uptime: <cause>`.
pub fn uptime_failure(cause: &str) -> (r: String)
    ensures
        r@ == "Cannot read /proc/uptime: "@ + cause@,
{
    let mut out: Vec<char> = Vec::new();
    push_str(&mut out, "Cannot read /proc/uptime: ");
    push_str(&mut out, cause);
    string_of(&out)
}

// ─── Memory and load ─────────────────────────────────────────────────────────

/// The value a `/proc/meminfo` line gives for `key`: its second word as a
/// number, 0 when that is missing or not one; `None` for another key.
pub open spec fn mem_line_value(line: Seq<char>, key: Seq<char>) -> Option<u64> {
    let ts = ws_tokens(line);
    if ts.len() > 0 && ts[0] == key {
        Some(
            if ts.len() > 1 {
                match parse_u64_spec(ts[1]) {
                    Some(v) => v,
                    None => 0,
                }
            } else {
                0
            },
        )
    } else {
        None
    }
}

/// The value of `key` in these lines: the last line that names it wins;
/// 0 when none does.
pub open spec fn mem_value(lines: Seq<Seq<char>>, key: Seq<char>) -> u64
    decreases lines.len(),
{
    if lines.len() == 0 {
        0
    } else {
        match mem_line_value(lines.last(), key) {
            Some(v) => v,
            None => mem_value(lines.drop_last(), key),
        }
    }
}

/// Total, free and available memory in kB, as `/proc/meminfo` gives them.
pub struct MemInfo {
    pub total_kb: u64,
    pub free_kb: u64,
    pub avail_kb: u64,
}

fn line_value(line: &Vec<char>, key: &str) -> (r: Option<u64>)
    ensures
        r == mem_line_value(line@, key@),
{
    let ts = split_ws(line);
    let ghost tv = ts@.map_values(|t: Vec<char>| t@);
    assert(tv.len() == ts@.len());
    if ts.len() == 0 {
        return None;
    }
    assert(tv[0] == ts@[0]@);
    let k = chars_of(key);
    if !crate::json::chars_eq(&ts[0], &k) {
        return None;
    }
    if ts.len() > 1 {
        assert(tv[1] == ts@[1]@);
        match parse_u64(&ts[1]) {
            Some(v) => Some(v),
            None => Some(0),
        }
    } else {
        Some(0)
    }
}

/// Reads `/proc/meminfo`.
pub fn meminfo(content: &str) -> (r: MemInfo)
    ensures
        r.total_kb == mem_value(text_lines(content@), "MemTotal:"@),
        r.free_kb == mem_value(text_lines(content@), "MemFree:"@),
        r.avail_kb == mem_value(text_lines(content@), "MemAvailable:"@),
{
    let lines = lines_of(content);
    let ghost ls = lines@.map_values(|l: Vec<char>| l@);
    let mut m = MemInfo { total_kb: 0, free_kb: 0, avail_kb: 0 };
    let mut i: usize = 0;
    while i < lines.len()
        invariant
            i <= lines@.len(),
            ls == lines@.map_values(|l: Vec<char>| l@),
            m.total_kb == mem_value(ls.take(i as int), "MemTotal:"@),
            m.free_kb == mem_value(ls.take(i as int), "MemFree:"@),
            m.avail_kb == mem_value(ls.take(i as int), "MemAvailable:"@),
        decreases lines@.len() - i,
    {
        assert(ls.take(i + 1).drop_last() =~= ls.take(i as int));
        assert(ls.take(i + 1).last() == lines@[i as int]@);
        match line_value(&lines[i], "MemTotal:") {
            Some(v) => m.total_kb = v,
            None => {},
        }
        match line_value(&lines[i], "MemFree:") {
            Some(v) => m.free_kb = v,
            None => {},
        }
        match line_value(&lines[i], "MemAvailable:") {
            Some(v) => m.avail_kb = v,
            None => {},
        }
        i = i + 1;
    }
    assert(ls.take(lines@.len() as int) =~= ls);
    m
}

/// Memory in use: total less available, not below zero.
pub open spec fn mem_used(m: MemInfo) -> nat {
    if m.total_kb >= m.avail_kb {
        (m.total_kb - m.avail_kb) as nat
    } else {
        0
    }
}

/// The memory report in MB; `used_pct` is the share in use, worked out
/// in floating point by the caller.
pub fn memory_result(m: &MemInfo, used_pct: u32) -> (r: Json)
    ensures
        r.text@ == raw_object_text(
            seq![
                ("available_mb"@, dec(m.avail_kb as nat / 1024)),
                ("free_mb"@, dec(m.free_kb as nat / 1024)),
                ("total_mb"@, dec(m.total_kb as nat / 1024)),
                ("used_mb"@, dec(mem_used(*m) / 1024)),
                ("used_pct"@, dec(used_pct as nat)),
            ],
        ),
{
    let used: u64 = m.total_kb.saturating_sub(m.avail_kb);
    let mut es: Vec<(String, Json)> = Vec::new();
    es.push((lit("available_mb"), uint_value(m.avail_kb / 1024)));
    es.push((lit("free_mb"), uint_value(m.free_kb / 1024)));
    es.push((lit("total_mb"), uint_value(m.total_kb / 1024)));
    es.push((lit("used_mb"), uint_value(used / 1024)));
    es.push((lit("used_pct"), uint_value(used_pct as u64)));
    let ghost e = es@;
    let r = object_of(es);
    assert(entry_pairs(e) =~= seq![
        ("available_mb"@, dec(m.avail_kb as nat / 1024)),
        ("free_mb"@, dec(m.free_kb as nat / 1024)),
        ("total_mb"@, dec(m.total_kb as nat / 1024)),
        ("used_mb"@, dec(mem_used(*m) / 1024)),
        ("used_pct"@, dec(used_pct as nat)),
    ]);
    r
}

/// The `i`-th word, or `?`.
pub open spec fn word_or_mark(ts: Seq<Seq<char>>, i: int) -> Seq<char> {
    if 0 <= i < ts.len() {
        ts[i]
    } else {
        "?"@
    }
}

fn word_at(ts: &Vec<Vec<char>>, i: usize) -> (r: String)
    ensures
        r@ == word_or_mark(ts@.map_values(|t: Vec<char>| t@), i as int),
{
    if i < ts.len() {
        string_of(&ts[i])
    } else {
        lit("?")
    }
}

/// The load averages of `/proc/loadavg`: its first three words.
pub fn load_result(content: &str) -> (r: Json)
    ensures
        r.text@ == raw_object_text(
            seq![
                ("15min"@, json_quoted(word_or_mark(ws_tokens(content@), 2))),
                ("1min"@, json_quoted(word_or_mark(ws_tokens(content@), 0))),
                ("5min"@, json_quoted(word_or_mark(ws_tokens(content@), 1))),
            ],
        ),
{
    let ts = split_ws(&chars_of(content));
    let mut es: Vec<(String, Json)> = Vec::new();
    es.push((lit("15min"), string_value(word_at(&ts, 2))));
    es.push((lit("1min"), string_value(word_at(&ts, 0))));
    es.push((lit("5min"), string_value(word_at(&ts, 1))));
    let ghost e = es@;
    let r = object_of(es);
    assert(entry_pairs(e) =~= seq![
        ("15min"@, json_quoted(word_or_mark(ws_tokens(content@), 2))),
        ("1min"@, json_quoted(word_or_mark(ws_tokens(content@), 0))),
        ("5min"@, json_quoted(word_or_mark(ws_tokens(content@), 1))),
    ]);
    r
}

// ─── Disk ────────────────────────────────────────────────────────────────────

/// The words of the line after `df`'s header, when there is one.
pub open spec fn df_row(stdout: Seq<char>) -> Option<Seq<Seq<char>>> {
    let ls = text_lines(stdout);
    if ls.len() > 1 {
        Some(ws_tokens(ls[1]))
    } else {
        None
    }
}

fn df_words(stdout: &str) -> (r: Option<Vec<Vec<char>>>)
    ensures
        match r {
            Some(ws) => df_row(stdout@) == Some(ws@.map_values(|t: Vec<char>| t@)),
            None => df_row(stdout@) is None,
        },
{
    let ls = lines_of(stdout);
    assert(ls@.map_values(|l: Vec<char>| l@).len() == ls@.len());
    if ls.len() > 1 {
        assert(ls@.map_values(|l: Vec<char>| l@)[1] == ls@[1]@);
        Some(split_ws(&ls[1]))
    } else {
        None
    }
}

/// The disk report: the six columns of `df`'s line for `/`; an error when
/// that line is missing or short.
pub fn disk_result(stdout: &str) -> (r: Result<Json, String>)
    ensures
        match df_row(stdout@) {
            Some(c) => if c.len() >= 6 {
                r matches Ok(j) && j.text@ == raw_object_text(
                    seq![
                        ("available"@, json_quoted(c[3])),
                        ("filesystem"@, json_quoted(c[0])),
                        ("mount"@, json_quoted(c[5])),
                        ("size"@, json_quoted(c[1])),
                        ("use_pct"@, json_quoted(c[4])),
                        ("used"@, json_quoted(c[2])),
                    ],
                )
            } else {
                r matches Err(e) && e@ == "Could not parse df output"@
            },
            None => r matches Err(e) && e@ == "Could not parse df output"@,
        },
{
    match df_words(stdout) {
        Some(c) => {
            let ghost cv = c@.map_values(|t: Vec<char>| t@);
            if c.len() >= 6 {
                assert(cv[0] == c@[0]@ && cv[1] == c@[1]@ && cv[2] == c@[2]@);
                assert(cv[3] == c@[3]@ && cv[4] == c@[4]@ && cv[5] == c@[5]@);
                let mut es: Vec<(String, Json)> = Vec::new();
                es.push((lit("available"), string_value(string_of(&c[3]))));
                es.push((lit("filesystem"), string_value(string_of(&c[0]))));
                es.push((lit("mount"), string_value(string_of(&c[5]))));
                es.push((lit("size"), string_value(string_of(&c[1]))));
                es.push((lit("use_pct"), string_value(string_of(&c[4]))));
                es.push((lit("used"), string_value(string_of(&c[2]))));
                let ghost e = es@;
                let r = object_of(es);
                assert(entry_pairs(e) =~= seq![
                    ("available"@, json_quoted(cv[3])),
                    ("filesystem"@, json_quoted(cv[0])),
                    ("mount"@, json_quoted(cv[5])),
                    ("size"@, json_quoted(cv[1])),
                    ("use_pct"@, json_quoted(cv[4])),
                    ("used"@, json_quoted(cv[2])),
                ]);
                Ok(r)
            } else {
                Err(lit("Could not parse df output"))
            }
        },
        None => Err(lit("Could not parse df output")),
    }
}

/// The root disk in the full report: four columns, or `null`.
pub fn disk_summary(stdout: &str) -> (r: Json)
    ensures
        r.text@ == match df_row(stdout@) {
            Some(c) => if c.len() >= 5 {
                raw_object_text(
                    seq![
                        ("available"@, json_quoted(c[3])),
                        ("size"@, json_quoted(c[1])),
                        ("use_pct"@, json_quoted(c[4])),
                        ("used"@, json_quoted(c[2])),
                    ],
                )
            } else {
                "null"@
            },
            None => "null"@,
        },
{
    match df_words(stdout) {
        Some(c) => {
            let ghost cv = c@.map_values(|t: Vec<char>| t@);
            if c.len() >= 5 {
                assert(cv[1] == c@[1]@ && cv[2] == c@[2]@);
                assert(cv[3] == c@[3]@ && cv[4] == c@[4]@);
                let mut es: Vec<(String, Json)> = Vec::new();
                es.push((lit("available"), string_value(string_of(&c[3]))));
                es.push((lit("size"), string_value(string_of(&c[1]))));
                es.push((lit("use_pct"), string_value(string_of(&c[4]))));
                es.push((lit("used"), string_value(string_of(&c[2]))));
                let ghost e = es@;
                let r = object_of(es);
                assert(entry_pairs(e) =~= seq![
                    ("available"@, json_quoted(cv[3])),
                    ("size"@, json_quoted(cv[1])),
                    ("use_pct"@, json_quoted(cv[4])),
                    ("used"@, json_quoted(cv[2])),
                ]);
                r
            } else {
                null_value()
            }
        },
        None => null_value(),
    }
}

/// `df failed: <cause>`.
pub fn df_failure(cause: &str) -> (r: String)
    ensures
        r@ == "df failed: "@ + cause@,
{
    let mut out: Vec<char> = Vec::new();
    push_str(&mut out, "df failed: ");
    push_str(&mut out, cause);
    string_of(&out)
}

/// The full report, from its parts; the temperature comes as JSON because
/// it is a floating-point reading.
pub fn full_report(uptime: u64, cpu_temp: Json, memory: Json, load: Json, disk: Json) -> (r: Json)
    ensures
        r.text@ == raw_object_text(
            seq![
                ("cpu_temp_celsius"@, cpu_temp.text@),
                ("disk_root"@, disk.text@),
                ("load_avg"@, load.text@),
                ("memory"@, memory.text@),
                ("uptime"@, json_quoted(uptime_short_text(uptime as nat))),
                ("uptime_seconds"@, dec(uptime as nat)),
            ],
        ),
{
    let ghost (t, d, l, m) = (cpu_temp.text@, disk.text@, load.text@, memory.text@);
    let mut es: Vec<(String, Json)> = Vec::new();
    es.push((lit("cpu_temp_celsius"), cpu_temp));
    es.push((lit("disk_root"), disk));
    es.push((lit("load_avg"), load));
    es.push((lit("memory"), memory));
    es.push((lit("uptime"), string_value(uptime_human(uptime, false))));
    es.push((lit("uptime_seconds"), uint_value(uptime)));
    let ghost e = es@;
    let r = object_of(es);
    assert(entry_pairs(e) =~= seq![
        ("cpu_temp_celsius"@, t),
        ("disk_root"@, d),
        ("load_avg"@, l),
        ("memory"@, m),
        ("uptime"@, json_quoted(uptime_short_text(uptime as nat))),
        ("uptime_seconds"@, dec(uptime as nat)),
    ]);
    r
}

} // verus!
