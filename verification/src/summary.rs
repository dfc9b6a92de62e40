//! Turns a plugin's JSON reply into a short plain-text summary for the model.
//!
//! Every specification here returns `None` exactly where the runtime would
//! cut a string inside a character; callers require the summary to exist.
use vstd::prelude::*;
use crate::json::{
    as_array, as_bool, as_i64, as_str, as_u64, at, fixed0, fixed1, get_array, get_bool,
    get_fixed0, get_fixed1, get_i64, get_str, get_str_or, get_u64, has, idx, Json, JsonKind,
    opt_ref, str_or,
};
use crate::text::{
    byte_len, chars_of, dec, dec_signed, is_boundary, push_chars, push_decimal,
    push_decimal_signed, push_str, slice_chars, string_of, take_bytes, trim, trim_chars,
    lemma_take_bytes_props,
};
use crate::prompt_engine::{byte_len_upto, char_index_at_byte};

verus! {

/// Most bytes of plugin data kept for the prompt.
pub const MAX_PLUGIN_RESULT_CHARS: usize = 800;

/// A plugin's raw reply and, when it is valid JSON, its parsed value.
pub struct PluginOutput {
    pub raw: String,
    pub parsed: Option<Json>,
}

// ─── Building blocks ─────────────────────────────────────────────────────────

/// `&s[..s.len().min(n)]`: `None` when that byte offset is inside a character.
pub open spec fn pfx(s: Seq<char>, n: nat) -> Option<Seq<char>> {
    let m = if byte_len(s) < n {
        byte_len(s)
    } else {
        n
    };
    if is_boundary(s, m as int) {
        Some(take_bytes(s, m as int))
    } else {
        None
    }
}

/// Items joined with `sep` between them.
pub open spec fn join(xs: Seq<Seq<char>>, sep: Seq<char>) -> Seq<char>
    decreases xs.len(),
{
    if xs.len() == 0 {
        Seq::empty()
    } else if xs.len() == 1 {
        xs[0]
    } else {
        join(xs.drop_last(), sep) + sep + xs.last()
    }
}

/// Items produced by `f` over `s`: `Some(None)` skips an element, `None`
/// marks an element the runtime cannot render.
pub open spec fn collect(s: Seq<Json>, f: spec_fn(Json) -> Option<Option<Seq<char>>>) -> Option<
    Seq<Seq<char>>,
>
    decreases s.len(),
{
    if s.len() == 0 {
        Some(Seq::empty())
    } else {
        match (collect(s.drop_last(), f), f(s.last())) {
            (Some(xs), Some(Some(t))) => Some(xs.push(t)),
            (Some(xs), Some(None)) => Some(xs),
            _ => None,
        }
    }
}

proof fn lemma_join_push(xs: Seq<Seq<char>>, t: Seq<char>, sep: Seq<char>)
    ensures
        join(xs.push(t), sep) == (if xs.len() == 0 {
            t
        } else {
            join(xs, sep) + sep + t
        }),
{
    assert(xs.push(t).drop_last() =~= xs);
}

proof fn lemma_collect_step(s: Seq<Json>, i: int, f: spec_fn(Json) -> Option<Option<Seq<char>>>)
    requires
        0 <= i < s.len(),
    ensures
        collect(s.take(i + 1), f) == (match (collect(s.take(i), f), f(s[i])) {
            (Some(xs), Some(Some(t))) => Some(xs.push(t)),
            (Some(xs), Some(None)) => Some(xs),
            _ => None,
        }),
{
    assert(s.take(i + 1).drop_last() =~= s.take(i));
    assert(s.take(i + 1).last() == s[i]);
}

/// Appends `t` to a joined list of `count` items.
pub(crate) fn join_push(
    out: &mut Vec<char>,
    count: usize,
    sep: &str,
    t: &[char],
    Ghost(xs): Ghost<Seq<Seq<char>>>,
)
    requires
        old(out)@ == join(xs, sep@),
        count == xs.len(),
    ensures
        final(out)@ == join(xs.push(t@), sep@),
{
    proof {
        lemma_join_push(xs, t@, sep@);
    }
    if count > 0 {
        push_str(out, sep);
    }
    push_chars(out, t);
}

/// `&s[..s.len().min(n)]`, or `None` where that cuts a character.
pub fn prefix_bytes(v: &[char], n: usize) -> (r: Option<Vec<char>>)
    ensures
        match r {
            Some(x) => pfx(v@, n as nat) == Some(x@),
            None => pfx(v@, n as nat) is None,
        },
{
    match byte_len_upto(v, n) {
        Some(_) => {
            proof {
                crate::text::lemma_take_bytes_all(v@, byte_len(v@) as int);
            }
            let w = slice_chars(v, 0, v.len());
            assert(w@ =~= v@);
            Some(w)
        },
        None => {
            match char_index_at_byte(v, n) {
                Some(ci) => {
                    proof {
                        lemma_take_bytes_props(v@, n as int);
                    }
                    let w = slice_chars(v, 0, ci);
                    assert(w@ =~= take_bytes(v@, n as int));
                    Some(w)
                },
                None => None,
            }
        },
    }
}

fn push_u64(out: &mut Vec<char>, n: u64)
    ensures
        final(out)@ == old(out)@ + dec(n as nat),
{
    push_decimal(out, n);
}

// ─── The summary ─────────────────────────────────────────────────────────────

/// One forecast day: `"{date}: {min}-{max}°C, rain {rain}mm"`, skipped when
/// the date or a temperature is missing.
pub open spec fn forecast_day(d: Json) -> Option<Option<Seq<char>>> {
    let dd = Some(d);
    match (as_str(idx(dd, "date"@)), fixed0(idx(dd, "max_temp"@)), fixed0(idx(dd, "min_temp"@))) {
        (Some(date), Some(mx), Some(mn)) => {
            let rain = match fixed0(idx(dd, "rain_mm"@)) {
                Some(r) => r,
                None => "0"@,
            };
            Some(Some(date + ": "@ + mn + "-"@ + mx + "°C, rain "@ + rain + "mm"@))
        },
        _ => Some(None),
    }
}

pub open spec fn weather_summary(result: Option<Json>) -> Seq<char> {
    let s = "Weather in "@ + str_or(idx(result, "location"@), "unknown"@) + ": "@ + str_or(
        idx(result, "condition"@),
        "?"@,
    ) + ". Temperature: "@ + str_or(idx(result, "temperature"@), "?"@) + " (feels like "@
        + str_or(idx(result, "feels_like"@), "?"@) + "). Humidity: "@ + str_or(
        idx(result, "humidity"@),
        "?"@,
    ) + ", Wind: "@ + str_or(idx(result, "wind"@), "?"@) + "."@;
    match as_array(idx(result, "forecast"@)) {
        Some(fc) => {
            let days = collect(fc.take(if fc.len() < 3 {
                fc.len() as int
            } else {
                3
            }), |d: Json| forecast_day(d))->0;
            if days.len() > 0 {
                s + " Forecast: "@ + join(days, "; "@)
            } else {
                s
            }
        },
        None => s,
    }
}

fn weather_exec(result: Option<&Json>) -> (r: Vec<char>)
    ensures
        r@ == weather_summary(opt_ref(result)),
{
    let mut s: Vec<char> = Vec::new();
    push_str(&mut s, "Weather in ");
    push_chars(&mut s, &get_str_or(at(result, "location"), "unknown"));
    push_str(&mut s, ": ");
    push_chars(&mut s, &get_str_or(at(result, "condition"), "?"));
    push_str(&mut s, ". Temperature: ");
    push_chars(&mut s, &get_str_or(at(result, "temperature"), "?"));
    push_str(&mut s, " (feels like ");
    push_chars(&mut s, &get_str_or(at(result, "feels_like"), "?"));
    push_str(&mut s, "). Humidity: ");
    push_chars(&mut s, &get_str_or(at(result, "humidity"), "?"));
    push_str(&mut s, ", Wind: ");
    push_chars(&mut s, &get_str_or(at(result, "wind"), "?"));
    push_str(&mut s, ".");
    let ghost base = s@;
    match get_array(at(result, "forecast")) {
        Some(fc) => {
            let lim: usize = if fc.len() < 3 {
                fc.len()
            } else {
                3
            };
            let ghost f = |d: Json| forecast_day(d);
            let mut days: Vec<char> = Vec::new();
            let mut count: usize = 0;
            let mut i: usize = 0;
            let ghost fcs = fc@.take(lim as int);
            while i < lim
                invariant
                    f == (|d: Json| forecast_day(d)),
                    lim <= fc@.len(),
                    fcs == fc@.take(lim as int),
                    i <= lim,
                    collect(fcs.take(i as int), f) is Some,
                    days@ == join(collect(fcs.take(i as int), f)->0, "; "@),
                    count == collect(fcs.take(i as int), f)->0.len(),
                    count <= i,
                decreases lim - i,
            {
                proof {
                    lemma_collect_step(fcs, i as int, f);
                }
                let d: &Json = &fc[i];
                assert(fcs[i as int] == *d);
                let dd: Option<&Json> = Some(d);
                assert(opt_ref(dd) == Some(*d));
                assert(f(*d) == forecast_day(*d));
                let date = get_str(at(dd, "date"));
                let mx = get_fixed0(at(dd, "max_temp"));
                let mn = get_fixed0(at(dd, "min_temp"));
                match (date, mx, mn) {
                    (Some(date), Some(mx), Some(mn)) => {
                        let mut t: Vec<char> = Vec::new();
                        push_chars(&mut t, &date);
                        push_str(&mut t, ": ");
                        push_chars(&mut t, &mn);
                        push_str(&mut t, "-");
                        push_chars(&mut t, &mx);
                        push_str(&mut t, "°C, rain ");
                        match get_fixed0(at(dd, "rain_mm")) {
                            Some(rn) => push_chars(&mut t, &rn),
                            None => push_str(&mut t, "0"),
                        }
                        push_str(&mut t, "mm");
                        assert(forecast_day(*d) == Some(Some(t@)));
                        join_push(
                            &mut days,
                            count,
                            "; ",
                            &t,
                            Ghost(collect(fcs.take(i as int), f)->0),
                        );
                        count = count + 1;
                    },
                    _ => {
                        assert(forecast_day(*d) == Some(None::<Seq<char>>));
                    },
                }
                i = i + 1;
            }
            assert(fcs.take(lim as int) =~= fcs);
            if count > 0 {
                push_str(&mut s, " Forecast: ");
                push_chars(&mut s, &days);
            }
            s
        },
        None => s,
    }
}

pub open spec fn reminder_line(r: Json) -> Option<Option<Seq<char>>> {
    let rr = Some(r);
    match (as_str(idx(rr, "message"@)), as_str(idx(rr, "remind_at"@))) {
        (Some(m), Some(a)) => match pfx(a, 16) {
            Some(p) => if byte_len(a) >= 16 {
                Some(Some("- "@ + m + " (at "@ + p + ")"@))
            } else {
                None
            },
            None => None,
        },
        _ => Some(None),
    }
}

/// Entries whose `done` is `false`, in order.
pub open spec fn pending(s: Seq<Json>) -> Seq<Json>
    decreases s.len(),
{
    if s.len() == 0 {
        s
    } else if as_bool(idx(Some(s.last()), "done"@)) == Some(false) {
        pending(s.drop_last()).push(s.last())
    } else {
        pending(s.drop_last())
    }
}

pub open spec fn first_n<A>(s: Seq<A>, n: int) -> Seq<A> {
    if s.len() < n {
        s
    } else {
        s.take(n)
    }
}

pub open spec fn reminders_summary(result: Option<Json>) -> Option<Seq<char>> {
    let total = match as_u64(idx(result, "total"@)) {
        Some(t) => t,
        None => 0,
    };
    let pend = match as_u64(idx(result, "pending"@)) {
        Some(t) => t,
        None => 0,
    };
    if total == 0 {
        Some("No reminders scheduled."@)
    } else {
        let arr = match as_array(idx(result, "reminders"@)) {
            Some(a) => a,
            None => Seq::empty(),
        };
        match collect(first_n(pending(arr), 5), |r: Json| reminder_line(r)) {
            Some(jobs) => Some(dec(total as nat) + " reminders ("@ + dec(pend as nat)
                + " pending):\n"@ + join(jobs, "\n"@)),
            None => None,
        }
    }
}

proof fn lemma_pending_step(s: Seq<Json>, i: int)
    requires
        0 <= i < s.len(),
    ensures
        pending(s.take(i + 1)) == (if as_bool(idx(Some(s[i]), "done"@)) == Some(false) {
            pending(s.take(i)).push(s[i])
        } else {
            pending(s.take(i))
        }),
{
    assert(s.take(i + 1).drop_last() =~= s.take(i));
}

fn reminders_exec(result: Option<&Json>) -> (r: Option<Vec<char>>)
    ensures
        match r {
            Some(x) => reminders_summary(opt_ref(result)) == Some(x@),
            None => reminders_summary(opt_ref(result)) is None,
        },
{
    let total: u64 = match get_u64(at(result, "total")) {
        Some(t) => t,
        None => 0,
    };
    let pend: u64 = match get_u64(at(result, "pending")) {
        Some(t) => t,
        None => 0,
    };
    if total == 0 {
        return Some(chars_of("No reminders scheduled."));
    }
    let empty: Vec<Json> = Vec::new();
    let arr: &Vec<Json> = match get_array(at(result, "reminders")) {
        Some(a) => a,
        None => &empty,
    };
    assert(arr@ == match as_array(idx(opt_ref(result), "reminders"@)) {
        Some(a) => a,
        None => Seq::<Json>::empty(),
    });
    let ghost f = |r: Json| reminder_line(r);
    let mut jobs: Vec<char> = Vec::new();
    let mut count: usize = 0;
    let mut taken: usize = 0;
    let mut i: usize = 0;
    while i < arr.len() && taken < 5
        invariant
            f == (|r: Json| reminder_line(r)),
            arr@ == match as_array(idx(opt_ref(result), "reminders"@)) {
                Some(a) => a,
                None => Seq::<Json>::empty(),
            },
            total != 0,
            total == match as_u64(idx(opt_ref(result), "total"@)) {
                Some(t) => t,
                None => 0,
            },
            i <= arr@.len(),
            taken == pending(arr@.take(i as int)).len(),
            taken <= 5,
            count <= taken,
            collect(pending(arr@.take(i as int)), f) is Some,
            jobs@ == join(collect(pending(arr@.take(i as int)), f)->0, "\n"@),
            count == collect(pending(arr@.take(i as int)), f)->0.len(),
        decreases arr.len() - i,
    {
        proof {
            lemma_pending_step(arr@, i as int);
        }
        let item: &Json = &arr[i];
        let it: Option<&Json> = Some(item);
        assert(opt_ref(it) == Some(*item));
        assert(f(*item) == reminder_line(*item));
        if get_bool(at(it, "done")) == Some(false) {
            let ghost p = pending(arr@.take(i as int));
            proof {
                assert(pending(arr@.take(i + 1)) == p.push(*item));
                assert(p.push(*item).drop_last() =~= p);
            }
            let m = get_str(at(it, "message"));
            let a = get_str(at(it, "remind_at"));
            match (m, a) {
                (Some(m), Some(a)) => {
                    let pa = prefix_bytes(&a, 16);
                    let long: Option<usize> = byte_len_upto(&a, 15);
                    match (pa, long) {
                        (Some(pa), None) => {
                            let mut t: Vec<char> = Vec::new();
                            push_str(&mut t, "- ");
                            push_chars(&mut t, &m);
                            push_str(&mut t, " (at ");
                            push_chars(&mut t, &pa);
                            push_str(&mut t, ")");
                            join_push(&mut jobs, count, "\n", &t, Ghost(collect(p, f)->0));
                            count = count + 1;
                        },
                        _ => {
                            assert(reminder_line(*item) is None);
                            assert(collect(p.push(*item), f) is None);
                            proof {
                                lemma_pending_prefix(arr@, i + 1);
                                let fp = first_n(pending(arr@), 5);
                                assert(fp.take(p.len() + 1 as int) =~= p.push(*item));
                                lemma_collect_prefix_none(fp, p.len() + 1 as int, f);
                                assert(f =~= (|r: Json| reminder_line(r)));
                                assert(total != 0);
                                assert(collect(fp, |r: Json| reminder_line(r)) is None);
                                assert(reminders_summary(opt_ref(result)) is None);
                            }
                            return None;
                        },
                    }
                },
                _ => {},
            }
            taken = taken + 1;
        }
        i = i + 1;
    }
    proof {
        let p = pending(arr@.take(i as int));
        if i < arr@.len() {
            assert(taken == 5);
            lemma_pending_prefix(arr@, i as int);
        } else {
            assert(arr@.take(i as int) =~= arr@);
        }
        assert(first_n(pending(arr@), 5) == p);
    }
    let mut out: Vec<char> = Vec::new();
    push_u64(&mut out, total);
    push_str(&mut out, " reminders (");
    push_u64(&mut out, pend);
    push_str(&mut out, " pending):\n");
    push_chars(&mut out, &jobs);
    Some(out)
}

proof fn lemma_collect_prefix_none(
    s: Seq<Json>,
    k: int,
    f: spec_fn(Json) -> Option<Option<Seq<char>>>,
)
    requires
        0 <= k <= s.len(),
        collect(s.take(k), f) is None,
    ensures
        collect(s, f) is None,
    decreases s.len() - k,
{
    if k == s.len() {
        assert(s.take(k) =~= s);
    } else {
        lemma_collect_step(s, k, f);
        lemma_collect_prefix_none(s, k + 1, f);
    }
}

/// Once a prefix holds `n` pending entries, the first `n` pending entries of
/// the whole sequence are those.
proof fn lemma_pending_prefix(s: Seq<Json>, i: int)
    requires
        0 <= i <= s.len(),
    ensures
        pending(s).len() >= pending(s.take(i)).len(),
        pending(s).take(pending(s.take(i)).len() as int) == pending(s.take(i)),
    decreases s.len() - i,
{
    if i == s.len() {
        assert(s.take(i) =~= s);
    } else {
        lemma_pending_prefix(s, i + 1);
        lemma_pending_step(s, i);
        let a = pending(s.take(i));
        let b = pending(s.take(i + 1));
        if b.len() > a.len() {
            assert(b.take(a.len() as int) =~= a);
        }
        assert(pending(s).take(b.len() as int).take(a.len() as int) =~= pending(s).take(
            a.len() as int,
        ));
    }
}

} // verus!

verus! {

pub open spec fn datetime_summary(r: Option<Json>) -> Seq<char> {
    "Current date and time: "@ + str_or(idx(r, "datetime"@), "?"@) + " ("@ + str_or(
        idx(r, "day_of_week"@),
        "?"@,
    ) + "). Timezone: "@ + str_or(idx(r, "timezone"@), "?"@) + "."@
}

pub open spec fn calc_summary(r: Option<Json>) -> Seq<char> {
    let res = match as_str(idx(r, "result_str"@)) {
        Some(s) => s,
        None => str_or(idx(r, "result"@), "?"@),
    };
    str_or(idx(r, "expression"@), "?"@) + " = "@ + res
}

pub open spec fn sysinfo_summary(r: Option<Json>) -> Seq<char> {
    let temp = match fixed1(idx(r, "cpu_temp_celsius"@)) {
        Some(t) => t + "°C"@,
        None => "N/A"@,
    };
    let mem = match as_u64(idx(idx(r, "memory"@), "used_pct"@)) {
        Some(m) => m,
        None => 0,
    };
    "System uptime: "@ + str_or(idx(r, "uptime"@), "?"@) + ". CPU temp: "@ + temp + ". RAM used: "@
        + dec(mem as nat) + "%. Disk: "@ + str_or(idx(idx(r, "disk_root"@), "use_pct"@), "?"@)
        + " used. Load avg (1m): "@ + str_or(idx(idx(r, "load_avg"@), "1min"@), "?"@) + "."@
}

pub open spec fn uptime_summary(r: Option<Json>) -> Seq<char> {
    "System has been up for "@ + str_or(idx(r, "uptime_human"@), "?"@) + "."@
}

pub open spec fn disk_summary(r: Option<Json>) -> Seq<char> {
    "Root filesystem: "@ + str_or(idx(r, "size"@), "?"@) + " total, "@ + str_or(
        idx(r, "used"@),
        "?"@,
    ) + " used ("@ + str_or(idx(r, "use_pct"@), "?"@) + "), "@ + str_or(
        idx(r, "available"@),
        "?"@,
    ) + " available."@
}

pub open spec fn ping_summary(r: Option<Json>) -> Seq<char> {
    let host = str_or(idx(r, "host"@), "?"@);
    let loss = str_or(idx(r, "packet_loss"@), "?"@);
    if as_bool(idx(r, "reachable"@)) == Some(true) {
        host + " is reachable. RTT: "@ + str_or(idx(r, "rtt_stats"@), "N/A"@) + ". Packet loss: "@
            + loss + "."@
    } else {
        host + " is NOT reachable. Packet loss: "@ + loss + "."@
    }
}

/// A string element kept as is; other elements skipped.
pub open spec fn string_item(x: Json) -> Option<Option<Seq<char>>> {
    Some(as_str(Some(x)))
}

pub open spec fn dns_summary(r: Option<Json>) -> Seq<char> {
    let arr = match as_array(idx(r, "resolved"@)) {
        Some(a) => a,
        None => Seq::empty(),
    };
    let ms = match as_u64(idx(r, "resolve_ms"@)) {
        Some(m) => m,
        None => 0,
    };
    str_or(idx(r, "host"@), "?"@) + " resolved to: "@ + join(
        collect(arr, |x: Json| string_item(x))->0,
        ", "@,
    ) + ". Time: "@ + dec(ms as nat) + "ms."@
}

pub open spec fn gpio_summary(r: Option<Json>) -> Seq<char> {
    let pin = match as_u64(idx(r, "pin"@)) {
        Some(p) => p,
        None => 0,
    };
    "GPIO pin "@ + dec(pin as nat) + " is "@ + str_or(idx(r, "state"@), "?"@) + " (direction: "@
        + str_or(idx(r, "direction"@), "?"@) + ")."@
}

/// Integer division rounding toward zero, as Rust's `/` on signed integers.
pub open spec fn div_trunc(n: int, d: int) -> int {
    if n >= 0 {
        n / d
    } else {
        -((-n) / d)
    }
}

pub open spec fn reminder_set_summary(r: Option<Json>) -> Seq<char> {
    let sec = match as_i64(idx(r, "in_seconds"@)) {
        Some(s) => s as int,
        None => 0,
    };
    "Reminder set: \""@ + str_or(idx(r, "message"@), "?"@) + "\" at "@ + str_or(
        idx(r, "remind_at_human"@),
        "?"@,
    ) + " (in "@ + dec_signed(div_trunc(sec, 60)) + " minutes)."@
}

pub open spec fn updates_summary(r: Option<Json>) -> Seq<char> {
    let n = match as_u64(idx(idx(r, "system"@), "available_updates"@)) {
        Some(n) => n,
        None => 0,
    };
    if n == 0 {
        "System packages are up to date. Status: "@ + str_or(
            idx(idx(r, "system"@), "status"@),
            "unknown"@,
        ) + "."@
    } else {
        dec(n as nat) + " system package update(s) available. Run /update-plan for steps."@
    }
}

pub open spec fn file_summary(r: Option<Json>) -> Option<Seq<char>> {
    let lines = match as_u64(idx(r, "lines"@)) {
        Some(n) => n,
        None => 0,
    };
    let trunc = as_bool(idx(r, "truncated"@)) == Some(true);
    match pfx(str_or(idx(r, "content"@), Seq::empty()), MAX_PLUGIN_RESULT_CHARS as nat) {
        Some(p) => Some("File: "@ + str_or(idx(r, "path"@), "?"@) + " ("@ + dec(lines as nat)
            + " lines"@ + (if trunc {
            ", truncated"@
        } else {
            Seq::empty()
        }) + ")\n"@ + p),
        None => None,
    }
}

pub open spec fn synthesis_summary(r: Option<Json>) -> Option<Seq<char>> {
    match pfx(str_or(idx(r, "synthesis"@), "No results."@), MAX_PLUGIN_RESULT_CHARS as nat) {
        Some(p) => Some("Web search for \""@ + str_or(idx(r, "query"@), "?"@) + "\": "@ + p),
        None => None,
    }
}

/// `- {title}: {snippet}` with the snippet cut to 120 bytes; skipped without a title.
pub open spec fn search_item(x: Json) -> Option<Option<Seq<char>>> {
    match as_str(idx(Some(x), "title"@)) {
        Some(t) => match pfx(str_or(idx(Some(x), "snippet"@), Seq::empty()), 120) {
            Some(p) => Some(Some("- "@ + t + ": "@ + p)),
            None => None,
        },
        None => Some(None),
    }
}

pub open spec fn json_items(r: Option<Json>, k: Seq<char>) -> Seq<Json> {
    match as_array(idx(r, k)) {
        Some(a) => a,
        None => Seq::empty(),
    }
}

pub open spec fn search_summary(r: Option<Json>) -> Option<Seq<char>> {
    match collect(first_n(json_items(r, "results"@), 3), |x: Json| search_item(x)) {
        Some(items) => Some("Search results for \""@ + str_or(idx(r, "query"@), "?"@) + "\":\n"@
            + join(items, "\n"@)),
        None => None,
    }
}

pub open spec fn filename_summary(r: Option<Json>) -> Seq<char> {
    "File created: "@ + str_or(idx(r, "filename"@), "?"@) + " saved to "@ + str_or(
        idx(r, "file"@),
        "?"@,
    )
}

pub open spec fn logs_summary(r: Option<Json>) -> Option<Seq<char>> {
    let n = match as_u64(idx(r, "lines_shown"@)) {
        Some(n) => n,
        None => 0,
    };
    let errs = match as_u64(idx(r, "error_count"@)) {
        Some(n) => n,
        None => 0,
    };
    let lines = match as_array(idx(r, "log"@)) {
        Some(a) => join(first_n(collect(a, |x: Json| string_item(x))->0, 10), "\n"@),
        None => Seq::empty(),
    };
    match pfx(lines, MAX_PLUGIN_RESULT_CHARS as nat) {
        Some(p) => Some("Last "@ + dec(n as nat) + " log lines ("@ + dec(errs as nat)
            + " errors/warnings):\n"@ + p),
        None => None,
    }
}

/// `[{source}] {excerpt}` with the excerpt cut to 200 bytes; skipped without a source.
pub open spec fn kb_item(x: Json) -> Option<Option<Seq<char>>> {
    match as_str(idx(Some(x), "source"@)) {
        Some(src) => match pfx(str_or(idx(Some(x), "excerpt"@), Seq::empty()), 200) {
            Some(p) => Some(Some("["@ + src + "] "@ + p)),
            None => None,
        },
        None => Some(None),
    }
}

pub open spec fn kb_summary(r: Option<Json>) -> Option<Seq<char>> {
    let q = str_or(idx(r, "query"@), "?"@);
    let count = match as_u64(idx(r, "count"@)) {
        Some(n) => n,
        None => 0,
    };
    if count == 0 {
        Some("No results for \""@ + q + "\". "@ + str_or(idx(r, "hint"@), "No documents indexed."@))
    } else {
        match collect(first_n(json_items(r, "results"@), 3), |x: Json| kb_item(x)) {
            Some(items) => Some("Found "@ + dec(count as nat) + " result(s) for \""@ + q + "\":\n"@
                + join(items, "\n"@)),
            None => None,
        }
    }
}

/// Compact serialisations of the first five elements, comma separated.
pub open spec fn texts(a: Seq<Json>) -> Seq<Seq<char>>
    decreases a.len(),
{
    if a.len() == 0 {
        Seq::empty()
    } else {
        texts(a.drop_last()).push(a.last().text@)
    }
}

/// How one member value is shown by the generic fallback.
pub open spec fn display(v: Json) -> Option<Seq<char>> {
    match v.kind {
        JsonKind::Str(s) => Some(s@),
        JsonKind::Number(_) => Some(v.text@),
        JsonKind::Bool(b) => Some(
            if b {
                "true"@
            } else {
                "false"@
            },
        ),
        JsonKind::Null => Some("null"@),
        JsonKind::Array(a) => Some(join(texts(first_n(a@, 5)), ", "@)),
        JsonKind::Object(_) => pfx(v.text@, 80),
    }
}

pub open spec fn entry_lines(es: Seq<(String, Json)>) -> Option<Seq<Seq<char>>>
    decreases es.len(),
{
    if es.len() == 0 {
        Some(Seq::empty())
    } else {
        match (entry_lines(es.drop_last()), display(es.last().1)) {
            (Some(xs), Some(d)) => Some(xs.push(es.last().0@ + ": "@ + d)),
            _ => None,
        }
    }
}

/// Generic fallback: `key: value` pairs of the first twelve members, or the
/// value's own serialisation cut to 800 bytes.
pub open spec fn readable(r: Option<Json>) -> Option<Seq<char>> {
    match r {
        Some(j) => match j.kind {
            JsonKind::Object(es) => match entry_lines(first_n(es@, 12)) {
                Some(xs) => Some(join(xs, ", "@)),
                None => None,
            },
            _ => pfx(j.text@, MAX_PLUGIN_RESULT_CHARS as nat),
        },
        None => Some("null"@),
    }
}

/// The summary of a reply's fields: its `success` flag, its `error` text
/// and its `result`, chosen by which fields `result` has.
pub open spec fn summarise_reply(success: Option<bool>, error: Option<Seq<char>>, r: Option<Json>) -> Option<
    Seq<char>,
> {
    if success == Some(false) {
        Some("Command failed: "@ + match error {
            Some(e) => e,
            None => "unknown error"@,
        })
    } else if has(r, "condition"@) && has(r, "temperature"@) {
        Some(weather_summary(r))
    } else if has(r, "datetime"@) {
        Some(datetime_summary(r))
    } else if has(r, "result"@) && has(r, "expression"@) {
        Some(calc_summary(r))
    } else if has(r, "cpu_temp_celsius"@) || has(r, "uptime"@) {
        Some(sysinfo_summary(r))
    } else if has(r, "uptime_human"@) {
        Some(uptime_summary(r))
    } else if has(r, "filesystem"@) {
        Some(disk_summary(r))
    } else if has(r, "reachable"@) {
        Some(ping_summary(r))
    } else if has(r, "resolved"@) {
        Some(dns_summary(r))
    } else if has(r, "pin"@) && has(r, "state"@) {
        Some(gpio_summary(r))
    } else if has(r, "remind_at_human"@) {
        Some(reminder_set_summary(r))
    } else if has(r, "reminders"@) {
        reminders_summary(r)
    } else if has(r, "system"@) || has(r, "fabio_claw"@) {
        Some(updates_summary(r))
    } else if has(r, "content"@) {
        file_summary(r)
    } else if has(r, "synthesis"@) {
        synthesis_summary(r)
    } else if has(r, "results"@) && has(r, "query"@) {
        search_summary(r)
    } else if has(r, "filename"@) {
        Some(filename_summary(r))
    } else if has(r, "log"@) {
        logs_summary(r)
    } else if has(r, "results"@) && has(r, "method"@) {
        kb_summary(r)
    } else {
        readable(r)
    }
}

/// The summary of a parsed reply.
pub open spec fn summarise_json(v: Json) -> Option<Seq<char>> {
    let vv = Some(v);
    summarise_reply(as_bool(idx(vv, "success"@)), as_str(idx(vv, "error"@)), idx(vv, "result"@))
}

/// Summary of a plugin reply: the JSON summary when it parsed, otherwise the
/// trimmed raw text cut to 800 bytes.  `None` where the runtime would cut a
/// character.
pub open spec fn summarise(raw: Seq<char>, parsed: Option<Json>) -> Option<Seq<char>> {
    match parsed {
        Some(v) => summarise_json(v),
        None => pfx(trim(raw), MAX_PLUGIN_RESULT_CHARS as nat),
    }
}

/// A ping result (a reply whose `result` has `reachable` and none of the
/// fields that tell an earlier kind of result) is summarised as
/// "<host> is reachable. RTT: <rtt_stats>. Packet loss: <loss>." when
/// `reachable` is true, and as "<host> is NOT reachable. Packet loss: <loss>."
/// only when it is false or missing.
pub proof fn law_ping_summary(raw: Seq<char>, v: Json)
    requires
        as_bool(idx(Some(v), "success"@)) != Some(false),
        has(idx(Some(v), "result"@), "reachable"@),
        !(has(idx(Some(v), "result"@), "condition"@) && has(idx(Some(v), "result"@), "temperature"@)),
        !(has(idx(Some(v), "result"@), "datetime"@)),
        !(has(idx(Some(v), "result"@), "result"@) && has(idx(Some(v), "result"@), "expression"@)),
        !(has(idx(Some(v), "result"@), "cpu_temp_celsius"@)),
        !(has(idx(Some(v), "result"@), "uptime"@)),
        !(has(idx(Some(v), "result"@), "uptime_human"@)),
        !(has(idx(Some(v), "result"@), "filesystem"@)),
    ensures
        ({
            let r = idx(Some(v), "result"@);
            let host = str_or(idx(r, "host"@), "?"@);
            let loss = str_or(idx(r, "packet_loss"@), "?"@);
            &&& as_bool(idx(r, "reachable"@)) == Some(true) ==> summarise(raw, Some(v)) == Some(
                host + " is reachable. RTT: "@ + str_or(idx(r, "rtt_stats"@), "N/A"@)
                    + ". Packet loss: "@ + loss + "."@,
            )
            &&& as_bool(idx(r, "reachable"@)) != Some(true) ==> summarise(raw, Some(v)) == Some(
                host + " is NOT reachable. Packet loss: "@ + loss + "."@,
            )
        }),
{
}

} // verus!

verus! {

fn has_key(r: Option<&Json>, k: &str) -> (b: bool)
    ensures
        b == has(opt_ref(r), k@),
{
    at(r, k).is_some()
}

fn datetime_exec(r: Option<&Json>) -> (o: Vec<char>)
    ensures
        o@ == datetime_summary(opt_ref(r)),
{
    let mut s: Vec<char> = Vec::new();
    push_str(&mut s, "Current date and time: ");
    push_chars(&mut s, &get_str_or(at(r, "datetime"), "?"));
    push_str(&mut s, " (");
    push_chars(&mut s, &get_str_or(at(r, "day_of_week"), "?"));
    push_str(&mut s, "). Timezone: ");
    push_chars(&mut s, &get_str_or(at(r, "timezone"), "?"));
    push_str(&mut s, ".");
    s
}

fn calc_exec(r: Option<&Json>) -> (o: Vec<char>)
    ensures
        o@ == calc_summary(opt_ref(r)),
{
    let mut s: Vec<char> = Vec::new();
    push_chars(&mut s, &get_str_or(at(r, "expression"), "?"));
    push_str(&mut s, " = ");
    match get_str(at(r, "result_str")) {
        Some(x) => push_chars(&mut s, &x),
        None => push_chars(&mut s, &get_str_or(at(r, "result"), "?")),
    }
    s
}

fn sysinfo_exec(r: Option<&Json>) -> (o: Vec<char>)
    ensures
        o@ == sysinfo_summary(opt_ref(r)),
{
    let mut s: Vec<char> = Vec::new();
    push_str(&mut s, "System uptime: ");
    push_chars(&mut s, &get_str_or(at(r, "uptime"), "?"));
    push_str(&mut s, ". CPU temp: ");
    match get_fixed1(at(r, "cpu_temp_celsius")) {
        Some(t) => {
            push_chars(&mut s, &t);
            push_str(&mut s, "°C");
        },
        None => push_str(&mut s, "N/A"),
    }
    push_str(&mut s, ". RAM used: ");
    let mem: u64 = match get_u64(at(at(r, "memory"), "used_pct")) {
        Some(m) => m,
        None => 0,
    };
    push_u64(&mut s, mem);
    push_str(&mut s, "%. Disk: ");
    push_chars(&mut s, &get_str_or(at(at(r, "disk_root"), "use_pct"), "?"));
    push_str(&mut s, " used. Load avg (1m): ");
    push_chars(&mut s, &get_str_or(at(at(r, "load_avg"), "1min"), "?"));
    push_str(&mut s, ".");
    s
}

fn uptime_exec(r: Option<&Json>) -> (o: Vec<char>)
    ensures
        o@ == uptime_summary(opt_ref(r)),
{
    let mut s: Vec<char> = Vec::new();
    push_str(&mut s, "System has been up for ");
    push_chars(&mut s, &get_str_or(at(r, "uptime_human"), "?"));
    push_str(&mut s, ".");
    s
}

fn disk_exec(r: Option<&Json>) -> (o: Vec<char>)
    ensures
        o@ == disk_summary(opt_ref(r)),
{
    let mut s: Vec<char> = Vec::new();
    push_str(&mut s, "Root filesystem: ");
    push_chars(&mut s, &get_str_or(at(r, "size"), "?"));
    push_str(&mut s, " total, ");
    push_chars(&mut s, &get_str_or(at(r, "used"), "?"));
    push_str(&mut s, " used (");
    push_chars(&mut s, &get_str_or(at(r, "use_pct"), "?"));
    push_str(&mut s, "), ");
    push_chars(&mut s, &get_str_or(at(r, "available"), "?"));
    push_str(&mut s, " available.");
    s
}

fn ping_exec(r: Option<&Json>) -> (o: Vec<char>)
    ensures
        o@ == ping_summary(opt_ref(r)),
{
    let mut s: Vec<char> = get_str_or(at(r, "host"), "?");
    let loss = get_str_or(at(r, "packet_loss"), "?");
    if get_bool(at(r, "reachable")) == Some(true) {
        push_str(&mut s, " is reachable. RTT: ");
        push_chars(&mut s, &get_str_or(at(r, "rtt_stats"), "N/A"));
        push_str(&mut s, ". Packet loss: ");
    } else {
        push_str(&mut s, " is NOT reachable. Packet loss: ");
    }
    push_chars(&mut s, &loss);
    push_str(&mut s, ".");
    s
}

/// Strings among the elements of `a` (non-strings skipped), joined with `sep`,
/// at most `limit` of them.
fn join_strings(a: &Vec<Json>, sep: &str, limit: usize) -> (o: Vec<char>)
    ensures
        o@ == join(first_n(collect(a@, |x: Json| string_item(x))->0, limit as int), sep@),
{
    let ghost f = |x: Json| string_item(x);
    let mut out: Vec<char> = Vec::new();
    let mut count: usize = 0;
    let mut i: usize = 0;
    while i < a.len() && count < limit
        invariant
            f == (|x: Json| string_item(x)),
            i <= a@.len(),
            collect(a@.take(i as int), f) is Some,
            out@ == join(collect(a@.take(i as int), f)->0, sep@),
            count == collect(a@.take(i as int), f)->0.len(),
            count <= limit,
        decreases a.len() - i,
    {
        proof {
            lemma_collect_step(a@, i as int, f);
        }
        let it: Option<&Json> = Some(&a[i]);
        assert(opt_ref(it) == Some(a@[i as int]));
        match get_str(it) {
            Some(t) => {
                join_push(&mut out, count, sep, &t, Ghost(collect(a@.take(i as int), f)->0));
                count = count + 1;
            },
            None => {},
        }
        i = i + 1;
    }
    proof {
        lemma_collect_total_prefix(a@, i as int, f);
        if i == a@.len() {
            assert(a@.take(i as int) =~= a@);
        }
    }
    out
}

/// With an `f` that renders every element, the items of a prefix are a
/// prefix of the items of the whole.
proof fn lemma_collect_total_prefix(
    s: Seq<Json>,
    i: int,
    f: spec_fn(Json) -> Option<Option<Seq<char>>>,
)
    requires
        0 <= i <= s.len(),
        forall|x: Json| (#[trigger] f(x)) is Some,
    ensures
        collect(s, f) is Some,
        collect(s.take(i), f) is Some,
        collect(s, f)->0.len() >= collect(s.take(i), f)->0.len(),
        collect(s, f)->0.take(collect(s.take(i), f)->0.len() as int) == collect(s.take(i), f)->0,
    decreases s.len() - i,
{
    lemma_collect_total_some(s, f);
    lemma_collect_total_some(s.take(i), f);
    if i == s.len() {
        assert(s.take(i) =~= s);
        assert(collect(s, f)->0.take(collect(s, f)->0.len() as int) =~= collect(s, f)->0);
    } else {
        lemma_collect_total_prefix(s, i + 1, f);
        lemma_collect_step(s, i, f);
        let a = collect(s.take(i), f)->0;
        let b = collect(s.take(i + 1), f)->0;
        if b.len() > a.len() {
            assert(b.take(a.len() as int) =~= a);
        }
        assert(collect(s, f)->0.take(b.len() as int).take(a.len() as int) =~= collect(s, f)->0.take(
            a.len() as int,
        ));
    }
}

fn dns_exec(r: Option<&Json>) -> (o: Vec<char>)
    ensures
        o@ == dns_summary(opt_ref(r)),
{
    let mut s: Vec<char> = get_str_or(at(r, "host"), "?");
    push_str(&mut s, " resolved to: ");
    let empty: Vec<Json> = Vec::new();
    let arr: &Vec<Json> = match get_array(at(r, "resolved")) {
        Some(a) => a,
        None => &empty,
    };
    let al: usize = arr.len();
    let ips = join_strings(arr, ", ", usize::MAX);
    proof {
        lemma_collect_total_prefix(arr@, arr@.len() as int, |x: Json| string_item(x));
        let items = collect(arr@, |x: Json| string_item(x))->0;
        lemma_collect_len(arr@, |x: Json| string_item(x));
        assert(items.take(items.len() as int) =~= items);
        assert(first_n(items, usize::MAX as int) == items);
    }
    push_chars(&mut s, &ips);
    push_str(&mut s, ". Time: ");
    let ms: u64 = match get_u64(at(r, "resolve_ms")) {
        Some(m) => m,
        None => 0,
    };
    push_u64(&mut s, ms);
    push_str(&mut s, "ms.");
    s
}

proof fn lemma_collect_total_some(s: Seq<Json>, f: spec_fn(Json) -> Option<Option<Seq<char>>>)
    requires
        forall|x: Json| (#[trigger] f(x)) is Some,
    ensures
        collect(s, f) is Some,
    decreases s.len(),
{
    if s.len() > 0 {
        lemma_collect_total_some(s.drop_last(), f);
        assert(f(s.last()) is Some);
    }
}

proof fn lemma_collect_len(s: Seq<Json>, f: spec_fn(Json) -> Option<Option<Seq<char>>>)
    ensures
        collect(s, f) matches Some(xs) ==> xs.len() <= s.len(),
    decreases s.len(),
{
    if s.len() > 0 {
        lemma_collect_len(s.drop_last(), f);
    }
}

fn gpio_exec(r: Option<&Json>) -> (o: Vec<char>)
    ensures
        o@ == gpio_summary(opt_ref(r)),
{
    let mut s: Vec<char> = Vec::new();
    push_str(&mut s, "GPIO pin ");
    let pin: u64 = match get_u64(at(r, "pin")) {
        Some(p) => p,
        None => 0,
    };
    push_u64(&mut s, pin);
    push_str(&mut s, " is ");
    push_chars(&mut s, &get_str_or(at(r, "state"), "?"));
    push_str(&mut s, " (direction: ");
    push_chars(&mut s, &get_str_or(at(r, "direction"), "?"));
    push_str(&mut s, ").");
    s
}

fn div60(sec: i64) -> (q: i64)
    ensures
        q == div_trunc(sec as int, 60),
{
    if sec >= 0 {
        sec / 60
    } else {
        let m: u64 = ((-(sec + 1)) as u64) + 1;
        let q: u64 = m / 60;
        -(q as i64)
    }
}

fn reminder_set_exec(r: Option<&Json>) -> (o: Vec<char>)
    ensures
        o@ == reminder_set_summary(opt_ref(r)),
{
    let mut s: Vec<char> = Vec::new();
    push_str(&mut s, "Reminder set: \"");
    push_chars(&mut s, &get_str_or(at(r, "message"), "?"));
    push_str(&mut s, "\" at ");
    push_chars(&mut s, &get_str_or(at(r, "remind_at_human"), "?"));
    push_str(&mut s, " (in ");
    let sec: i64 = match get_i64(at(r, "in_seconds")) {
        Some(x) => x,
        None => 0,
    };
    push_decimal_signed(&mut s, div60(sec));
    push_str(&mut s, " minutes).");
    s
}

fn updates_exec(r: Option<&Json>) -> (o: Vec<char>)
    ensures
        o@ == updates_summary(opt_ref(r)),
{
    let n: u64 = match get_u64(at(at(r, "system"), "available_updates")) {
        Some(n) => n,
        None => 0,
    };
    let mut s: Vec<char> = Vec::new();
    if n == 0 {
        push_str(&mut s, "System packages are up to date. Status: ");
        push_chars(&mut s, &get_str_or(at(at(r, "system"), "status"), "unknown"));
        push_str(&mut s, ".");
    } else {
        push_u64(&mut s, n);
        push_str(&mut s, " system package update(s) available. Run /update-plan for steps.");
    }
    s
}

fn file_exec(r: Option<&Json>) -> (o: Option<Vec<char>>)
    ensures
        match o {
            Some(x) => file_summary(opt_ref(r)) == Some(x@),
            None => file_summary(opt_ref(r)) is None,
        },
{
    proof {
        reveal_strlit("");
    }
    let content = get_str_or(at(r, "content"), "");
    let preview = match prefix_bytes(&content, MAX_PLUGIN_RESULT_CHARS) {
        Some(p) => p,
        None => {
            return None;
        },
    };
    let mut s: Vec<char> = Vec::new();
    push_str(&mut s, "File: ");
    push_chars(&mut s, &get_str_or(at(r, "path"), "?"));
    push_str(&mut s, " (");
    let lines: u64 = match get_u64(at(r, "lines")) {
        Some(n) => n,
        None => 0,
    };
    push_u64(&mut s, lines);
    push_str(&mut s, " lines");
    if get_bool(at(r, "truncated")) == Some(true) {
        push_str(&mut s, ", truncated");
    } else {
        assert(s@ + Seq::<char>::empty() =~= s@);
    }
    push_str(&mut s, ")\n");
    push_chars(&mut s, &preview);
    Some(s)
}

fn synthesis_exec(r: Option<&Json>) -> (o: Option<Vec<char>>)
    ensures
        match o {
            Some(x) => synthesis_summary(opt_ref(r)) == Some(x@),
            None => synthesis_summary(opt_ref(r)) is None,
        },
{
    let syn = get_str_or(at(r, "synthesis"), "No results.");
    let p = match prefix_bytes(&syn, MAX_PLUGIN_RESULT_CHARS) {
        Some(p) => p,
        None => {
            return None;
        },
    };
    let mut s: Vec<char> = Vec::new();
    push_str(&mut s, "Web search for \"");
    push_chars(&mut s, &get_str_or(at(r, "query"), "?"));
    push_str(&mut s, "\": ");
    push_chars(&mut s, &p);
    Some(s)
}

fn filename_exec(r: Option<&Json>) -> (o: Vec<char>)
    ensures
        o@ == filename_summary(opt_ref(r)),
{
    let mut s: Vec<char> = Vec::new();
    push_str(&mut s, "File created: ");
    push_chars(&mut s, &get_str_or(at(r, "filename"), "?"));
    push_str(&mut s, " saved to ");
    push_chars(&mut s, &get_str_or(at(r, "file"), "?"));
    s
}

fn logs_exec(r: Option<&Json>) -> (o: Option<Vec<char>>)
    ensures
        match o {
            Some(x) => logs_summary(opt_ref(r)) == Some(x@),
            None => logs_summary(opt_ref(r)) is None,
        },
{
    let lines: Vec<char> = match get_array(at(r, "log")) {
        Some(a) => join_strings(a, "\n", 10),
        None => Vec::new(),
    };
    let p = match prefix_bytes(&lines, MAX_PLUGIN_RESULT_CHARS) {
        Some(p) => p,
        None => {
            return None;
        },
    };
    let mut s: Vec<char> = Vec::new();
    push_str(&mut s, "Last ");
    let n: u64 = match get_u64(at(r, "lines_shown")) {
        Some(n) => n,
        None => 0,
    };
    push_u64(&mut s, n);
    push_str(&mut s, " log lines (");
    let errs: u64 = match get_u64(at(r, "error_count")) {
        Some(n) => n,
        None => 0,
    };
    push_u64(&mut s, errs);
    push_str(&mut s, " errors/warnings):\n");
    push_chars(&mut s, &p);
    Some(s)
}

} // verus!

verus! {

fn results_of<'a>(r: Option<&'a Json>, empty: &'a Vec<Json>) -> (a: &'a Vec<Json>)
    requires
        empty@.len() == 0,
    ensures
        a@ == json_items(opt_ref(r), "results"@),
{
    match get_array(at(r, "results")) {
        Some(a) => a,
        None => {
            assert(empty@ =~= Seq::<Json>::empty());
            empty
        },
    }
}

/// Lines `- {title}: {snippet}` for the first three results.
fn search_items(arr: &Vec<Json>) -> (o: Option<Vec<char>>)
    ensures
        match o {
            Some(x) => collect(first_n(arr@, 3), |x: Json| search_item(x)) matches Some(items)
                && x@ == join(items, "\n"@),
            None => collect(first_n(arr@, 3), |x: Json| search_item(x)) is None,
        },
{
    let ghost f = |x: Json| search_item(x);
    let lim: usize = if arr.len() < 3 {
        arr.len()
    } else {
        3
    };
    let ghost s = first_n(arr@, 3);
    assert(s =~= arr@.take(lim as int));
    let mut out: Vec<char> = Vec::new();
    let mut count: usize = 0;
    let mut i: usize = 0;
    proof {
        reveal_strlit("");
    }
    while i < lim
        invariant
            f == (|x: Json| search_item(x)),
            s == arr@.take(lim as int),
            s == first_n(arr@, 3),
            lim <= arr@.len(),
            i <= lim,
            collect(s.take(i as int), f) is Some,
            out@ == join(collect(s.take(i as int), f)->0, "\n"@),
            count == collect(s.take(i as int), f)->0.len(),
            count <= i,
        decreases lim - i,
    {
        proof {
            lemma_collect_step(s, i as int, f);
            reveal_strlit("");
        }
        let it: Option<&Json> = Some(&arr[i]);
        assert(opt_ref(it) == Some(s[i as int]));
        assert(f(s[i as int]) == search_item(s[i as int]));
        match get_str(at(it, "title")) {
            Some(t) => {
                let sn = get_str_or(at(it, "snippet"), "");
                match prefix_bytes(&sn, 120) {
                    Some(p) => {
                        let mut line: Vec<char> = Vec::new();
                        push_str(&mut line, "- ");
                        push_chars(&mut line, &t);
                        push_str(&mut line, ": ");
                        push_chars(&mut line, &p);
                        assert(f(s[i as int]) == Some(Some(line@)));
                        join_push(&mut out, count, "\n", &line, Ghost(collect(s.take(i as int), f)->0));
                        count = count + 1;
                    },
                    None => {
                        proof {
                            assert(f(s[i as int]) is None);
                            lemma_collect_prefix_none(s, i + 1, f);
                            assert(f =~= (|x: Json| search_item(x)));
                        }
                        return None;
                    },
                }
            },
            None => {
                assert(f(s[i as int]) == Some(None::<Seq<char>>));
            },
        }
        i = i + 1;
    }
    assert(s.take(lim as int) =~= s);
    Some(out)
}

fn search_exec(r: Option<&Json>) -> (o: Option<Vec<char>>)
    ensures
        match o {
            Some(x) => search_summary(opt_ref(r)) == Some(x@),
            None => search_summary(opt_ref(r)) is None,
        },
{
    let empty: Vec<Json> = Vec::new();
    let arr = results_of(r, &empty);
    let items = match search_items(arr) {
        Some(x) => x,
        None => {
            return None;
        },
    };
    let mut s: Vec<char> = Vec::new();
    push_str(&mut s, "Search results for \"");
    push_chars(&mut s, &get_str_or(at(r, "query"), "?"));
    push_str(&mut s, "\":\n");
    push_chars(&mut s, &items);
    Some(s)
}

/// Lines `[{source}] {excerpt}` for the first three results.
fn kb_items(arr: &Vec<Json>) -> (o: Option<Vec<char>>)
    ensures
        match o {
            Some(x) => collect(first_n(arr@, 3), |x: Json| kb_item(x)) matches Some(items) && x@
                == join(items, "\n"@),
            None => collect(first_n(arr@, 3), |x: Json| kb_item(x)) is None,
        },
{
    let ghost f = |x: Json| kb_item(x);
    let lim: usize = if arr.len() < 3 {
        arr.len()
    } else {
        3
    };
    let ghost s = first_n(arr@, 3);
    assert(s =~= arr@.take(lim as int));
    let mut out: Vec<char> = Vec::new();
    let mut count: usize = 0;
    let mut i: usize = 0;
    proof {
        reveal_strlit("");
    }
    while i < lim
        invariant
            f == (|x: Json| kb_item(x)),
            s == arr@.take(lim as int),
            s == first_n(arr@, 3),
            lim <= arr@.len(),
            i <= lim,
            collect(s.take(i as int), f) is Some,
            out@ == join(collect(s.take(i as int), f)->0, "\n"@),
            count == collect(s.take(i as int), f)->0.len(),
            count <= i,
        decreases lim - i,
    {
        proof {
            lemma_collect_step(s, i as int, f);
            reveal_strlit("");
        }
        let it: Option<&Json> = Some(&arr[i]);
        assert(opt_ref(it) == Some(s[i as int]));
        assert(f(s[i as int]) == kb_item(s[i as int]));
        match get_str(at(it, "source")) {
            Some(src) => {
                let ex = get_str_or(at(it, "excerpt"), "");
                match prefix_bytes(&ex, 200) {
                    Some(p) => {
                        let mut line: Vec<char> = Vec::new();
                        push_str(&mut line, "[");
                        push_chars(&mut line, &src);
                        push_str(&mut line, "] ");
                        push_chars(&mut line, &p);
                        assert(f(s[i as int]) == Some(Some(line@)));
                        join_push(&mut out, count, "\n", &line, Ghost(collect(s.take(i as int), f)->0));
                        count = count + 1;
                    },
                    None => {
                        proof {
                            assert(f(s[i as int]) is None);
                            lemma_collect_prefix_none(s, i + 1, f);
                            assert(f =~= (|x: Json| kb_item(x)));
                        }
                        return None;
                    },
                }
            },
            None => {
                assert(f(s[i as int]) == Some(None::<Seq<char>>));
            },
        }
        i = i + 1;
    }
    assert(s.take(lim as int) =~= s);
    Some(out)
}

fn kb_exec(r: Option<&Json>) -> (o: Option<Vec<char>>)
    ensures
        match o {
            Some(x) => kb_summary(opt_ref(r)) == Some(x@),
            None => kb_summary(opt_ref(r)) is None,
        },
{
    let q = get_str_or(at(r, "query"), "?");
    let count: u64 = match get_u64(at(r, "count")) {
        Some(n) => n,
        None => 0,
    };
    let mut s: Vec<char> = Vec::new();
    if count == 0 {
        push_str(&mut s, "No results for \"");
        push_chars(&mut s, &q);
        push_str(&mut s, "\". ");
        push_chars(&mut s, &get_str_or(at(r, "hint"), "No documents indexed."));
        return Some(s);
    }
    let empty: Vec<Json> = Vec::new();
    let arr = results_of(r, &empty);
    let items = match kb_items(arr) {
        Some(x) => x,
        None => {
            return None;
        },
    };
    push_str(&mut s, "Found ");
    push_u64(&mut s, count);
    push_str(&mut s, " result(s) for \"");
    push_chars(&mut s, &q);
    push_str(&mut s, "\":\n");
    push_chars(&mut s, &items);
    Some(s)
}

} // verus!

verus! {

fn texts_exec(a: &Vec<Json>) -> (o: Vec<char>)
    ensures
        o@ == join(texts(first_n(a@, 5)), ", "@),
{
    let lim: usize = if a.len() < 5 {
        a.len()
    } else {
        5
    };
    let ghost s = first_n(a@, 5);
    assert(s =~= a@.take(lim as int));
    let mut out: Vec<char> = Vec::new();
    let mut i: usize = 0;
    while i < lim
        invariant
            s == a@.take(lim as int),
            lim <= a@.len(),
            i <= lim,
            texts(s.take(i as int)).len() == i,
            out@ == join(texts(s.take(i as int)), ", "@),
        decreases lim - i,
    {
        assert(s.take(i + 1).drop_last() =~= s.take(i as int));
        assert(s[i as int] == a@[i as int]);
        let t = chars_of(a[i].text.as_str());
        join_push(&mut out, i, ", ", &t, Ghost(texts(s.take(i as int))));
        i = i + 1;
    }
    assert(s.take(lim as int) =~= s);
    out
}

fn display_exec(v: &Json) -> (o: Option<Vec<char>>)
    ensures
        match o {
            Some(x) => display(*v) == Some(x@),
            None => display(*v) is None,
        },
{
    match &v.kind {
        JsonKind::Str(s) => Some(chars_of(s.as_str())),
        JsonKind::Number(_) => Some(chars_of(v.text.as_str())),
        JsonKind::Bool(b) => {
            if *b {
                Some(chars_of("true"))
            } else {
                Some(chars_of("false"))
            }
        },
        JsonKind::Null => Some(chars_of("null")),
        JsonKind::Array(a) => Some(texts_exec(a)),
        JsonKind::Object(_) => {
            let t = chars_of(v.text.as_str());
            prefix_bytes(&t, 80)
        },
    }
}

fn readable_exec(r: Option<&Json>) -> (o: Option<Vec<char>>)
    ensures
        match o {
            Some(x) => readable(opt_ref(r)) == Some(x@),
            None => readable(opt_ref(r)) is None,
        },
{
    match r {
        Some(j) => match &j.kind {
            JsonKind::Object(es) => {
                let lim: usize = if es.len() < 12 {
                    es.len()
                } else {
                    12
                };
                let ghost s = first_n(es@, 12);
                assert(s =~= es@.take(lim as int));
                assert(readable(opt_ref(r)) == match entry_lines(s) {
                    Some(xs) => Some(join(xs, ", "@)),
                    None => None,
                });
                let mut out: Vec<char> = Vec::new();
                let mut i: usize = 0;
                while i < lim
                    invariant
                        readable(opt_ref(r)) == match entry_lines(s) {
                            Some(xs) => Some(join(xs, ", "@)),
                            None => None,
                        },
                        s == es@.take(lim as int),
                        lim <= es@.len(),
                        i <= lim,
                        entry_lines(s.take(i as int)) is Some,
                        entry_lines(s.take(i as int))->0.len() == i,
                        out@ == join(entry_lines(s.take(i as int))->0, ", "@),
                    decreases lim - i,
                {
                    assert(s.take(i + 1).drop_last() =~= s.take(i as int));
                    assert(s[i as int] == es@[i as int]);
                    match display_exec(&es[i].1) {
                        Some(d) => {
                            let mut line = chars_of(es[i].0.as_str());
                            push_str(&mut line, ": ");
                            push_chars(&mut line, &d);
                            join_push(
                                &mut out,
                                i,
                                ", ",
                                &line,
                                Ghost(entry_lines(s.take(i as int))->0),
                            );
                        },
                        None => {
                            proof {
                                lemma_entry_lines_prefix_none(s, i + 1);
                            }
                            return None;
                        },
                    }
                    i = i + 1;
                }
                assert(s.take(lim as int) =~= s);
                Some(out)
            },
            _ => {
                let t = chars_of(j.text.as_str());
                prefix_bytes(&t, MAX_PLUGIN_RESULT_CHARS)
            },
        },
        None => Some(chars_of("null")),
    }
}

proof fn lemma_entry_lines_prefix_none(s: Seq<(String, Json)>, k: int)
    requires
        0 <= k <= s.len(),
        entry_lines(s.take(k)) is None,
    ensures
        entry_lines(s) is None,
    decreases s.len() - k,
{
    if k == s.len() {
        assert(s.take(k) =~= s);
    } else {
        assert(s.take(k + 1).drop_last() =~= s.take(k));
        lemma_entry_lines_prefix_none(s, k + 1);
    }
}

/// The summary of a reply's fields (see `summarise_reply`).
pub fn summarise_fields(success: Option<bool>, error: Option<&str>, r: Option<&Json>) -> (o: Option<
    Vec<char>,
>)
    ensures
        match o {
            Some(x) => summarise_reply(success, match error {
                Some(e) => Some(e@),
                None => None,
            }, opt_ref(r)) == Some(x@),
            None => summarise_reply(success, match error {
                Some(e) => Some(e@),
                None => None,
            }, opt_ref(r)) is None,
        },
{
    if success == Some(false) {
        let mut s: Vec<char> = Vec::new();
        push_str(&mut s, "Command failed: ");
        match error {
            Some(e) => push_str(&mut s, e),
            None => push_str(&mut s, "unknown error"),
        }
        Some(s)
    } else if has_key(r, "condition") && has_key(r, "temperature") {
        Some(weather_exec(r))
    } else if has_key(r, "datetime") {
        Some(datetime_exec(r))
    } else if has_key(r, "result") && has_key(r, "expression") {
        Some(calc_exec(r))
    } else if has_key(r, "cpu_temp_celsius") || has_key(r, "uptime") {
        Some(sysinfo_exec(r))
    } else if has_key(r, "uptime_human") {
        Some(uptime_exec(r))
    } else if has_key(r, "filesystem") {
        Some(disk_exec(r))
    } else if has_key(r, "reachable") {
        Some(ping_exec(r))
    } else if has_key(r, "resolved") {
        Some(dns_exec(r))
    } else if has_key(r, "pin") && has_key(r, "state") {
        Some(gpio_exec(r))
    } else if has_key(r, "remind_at_human") {
        Some(reminder_set_exec(r))
    } else if has_key(r, "reminders") {
        reminders_exec(r)
    } else if has_key(r, "system") || has_key(r, "fabio_claw") {
        Some(updates_exec(r))
    } else if has_key(r, "content") {
        file_exec(r)
    } else if has_key(r, "synthesis") {
        synthesis_exec(r)
    } else if has_key(r, "results") && has_key(r, "query") {
        search_exec(r)
    } else if has_key(r, "filename") {
        Some(filename_exec(r))
    } else if has_key(r, "log") {
        logs_exec(r)
    } else if has_key(r, "results") && has_key(r, "method") {
        kb_exec(r)
    } else {
        readable_exec(r)
    }
}

fn summarise_value(v: &Json) -> (o: Option<Vec<char>>)
    ensures
        match o {
            Some(x) => summarise_json(*v) == Some(x@),
            None => summarise_json(*v) is None,
        },
{
    let vv: Option<&Json> = Some(v);
    assert(opt_ref(vv) == Some(*v));
    let e = get_str(at(vv, "error"));
    let es = match &e {
        Some(x) => Some(string_of(x)),
        None => None,
    };
    let es_ref: Option<&str> = match &es {
        Some(x) => Some(x.as_str()),
        None => None,
    };
    summarise_fields(get_bool(at(vv, "success")), es_ref, at(vv, "result"))
}

/// The summary of a plugin reply, or `None` where producing it would cut
/// a string inside a character.
pub fn try_summarise_plugin_result(out: &PluginOutput) -> (r: Option<String>)
    ensures
        match r {
            Some(x) => summarise(out.raw@, out.parsed) == Some(x@),
            None => summarise(out.raw@, out.parsed) is None,
        },
{
    let o: Option<Vec<char>> = match &out.parsed {
        Some(v) => summarise_value(v),
        None => {
            let raw = chars_of(out.raw.as_str());
            let t = trim_chars(&raw);
            prefix_bytes(&t, MAX_PLUGIN_RESULT_CHARS)
        },
    };
    match o {
        Some(x) => Some(string_of(&x)),
        None => None,
    }
}

/// Converts a plugin reply into a concise human-readable summary for the
/// model: a sentence per known result shape, `key: value` pairs otherwise,
/// and for a reply that is not JSON its trimmed text cut to 800 bytes.
pub fn summarise_plugin_result(out: &PluginOutput) -> (r: String)
    requires
        summarise(out.raw@, out.parsed) is Some,
    ensures
        summarise(out.raw@, out.parsed) == Some(r@),
{
    match try_summarise_plugin_result(out) {
        Some(x) => x,
        None => String::new(),
    }
}

} // verus!
