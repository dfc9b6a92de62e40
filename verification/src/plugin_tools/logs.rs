//! The log plugin: how many lines are asked for, where they are read from,
//! which lines count as errors, and how secrets are blanked out before a
//! line is shown.
use vstd::prelude::*;
use crate::json::{uint_value, bool_value, int_value, json_quoted, string_value, Json};
use crate::plugin_manager::{clone_string, lit, str_is};
use crate::plugin_tools::common::{entry_pairs, object_of, raw_object_text, str_array, str_array_text};
use crate::plugin_tools::files::{lines_of, text_lines};
use crate::prompt_engine::char_index_of_byte;
use crate::text::{
    byte_len, byte_offset, char_width, chars_of, contains_seq, contains_str, find_chars,
    find_first, is_boundary, lemma_byte_len_concat, lemma_byte_len_push, lemma_take_bytes_props,
    lowercase, parse_u64, parse_u64_spec, push_chars, push_decimal, push_str, slice_chars,
    split_ws, string_of, take_bytes, to_lowercase, ws_tokens,
};

verus! {

/// Lines shown when the request names no number.
pub const DEFAULT_LINES: usize = 20;
/// Most lines shown.
pub const MAX_LINES: usize = 100;

// ─── The request ─────────────────────────────────────────────────────────────

/// What `str::parse::<usize>` accepts.
pub open spec fn parse_usize_spec(t: Seq<char>) -> Option<usize> {
    match parse_u64_spec(t) {
        Some(v) => if v <= usize::MAX {
            Some(v as usize)
        } else {
            None
        },
        None => None,
    }
}

/// The first of the words, from index `i` on, that reads as a count.
pub open spec fn first_count(ws: Seq<Seq<char>>, i: int) -> Option<usize>
    decreases ws.len() - i,
{
    if i < 0 || i >= ws.len() {
        None
    } else {
        match parse_usize_spec(ws[i]) {
            Some(n) => Some(n),
            None => first_count(ws, i + 1),
        }
    }
}

/// The number of lines asked for: the first word that is a count, else
/// 20; never more than 100.
pub open spec fn line_count_of(args: Seq<char>) -> usize {
    let n = match first_count(ws_tokens(args), 0) {
        Some(n) => n,
        None => DEFAULT_LINES,
    };
    if n < MAX_LINES {
        n
    } else {
        MAX_LINES
    }
}

pub fn line_count(args: &str) -> (r: usize)
    ensures
        r == line_count_of(args@),
        r <= MAX_LINES,
{
    let ws = split_ws(&chars_of(args));
    let ghost wv = ws@.map_values(|w: Vec<char>| w@);
    let mut k: usize = ws.len();
    let mut found: Option<usize> = None;
    while k > 0
        invariant
            k <= ws@.len(),
            wv == ws@.map_values(|w: Vec<char>| w@),
            found == first_count(wv, k as int),
        decreases k,
    {
        k = k - 1;
        assert(wv[k as int] == ws@[k as int]@);
        match parse_u64(&ws[k]) {
            Some(v) => {
                if v <= usize::MAX as u64 {
                    found = Some(v as usize);
                }
            },
            None => {},
        }
    }
    let n: usize = match found {
        Some(n) => n,
        None => DEFAULT_LINES,
    };
    if n < MAX_LINES {
        n
    } else {
        MAX_LINES
    }
}

/// Only error lines are asked for by the `errors` action.
pub fn errors_only(action: &str) -> (r: bool)
    ensures
        r == (action@ == "errors"@),
{
    str_is(action, "errors")
}

/// The arguments of the `journalctl` call that reads the service's log.
pub open spec fn journal_args_of(n: usize, errors_only: bool) -> Seq<Seq<char>> {
    seq!["-u"@, "fabio-claw"@, "--no-pager"@, "-n"@, crate::text::dec(n as nat), "--output=short"@]
        + if errors_only {
        seq!["-p"@, "err"@]
    } else {
        Seq::empty()
    }
}

fn push_arg(v: &mut Vec<String>, s: String)
    ensures
        final(v)@.map_values(|x: String| x@) == old(v)@.map_values(|x: String| x@).push(s@),
{
    let ghost t = s@;
    v.push(s);
    assert(v@.map_values(|x: String| x@) =~= old(v)@.map_values(|x: String| x@).push(t));
}

pub fn journal_args(n: usize, errors_only: bool) -> (r: Vec<String>)
    ensures
        r@.map_values(|x: String| x@) == journal_args_of(n, errors_only),
{
    let mut v: Vec<String> = Vec::new();
    assert(v@.map_values(|x: String| x@) =~= Seq::empty());
    push_arg(&mut v, lit("-u"));
    push_arg(&mut v, lit("fabio-claw"));
    push_arg(&mut v, lit("--no-pager"));
    push_arg(&mut v, lit("-n"));
    let mut d: Vec<char> = Vec::new();
    push_decimal(&mut d, n as u64);
    push_arg(&mut v, string_of(&d));
    push_arg(&mut v, lit("--output=short"));
    if errors_only {
        push_arg(&mut v, lit("-p"));
        push_arg(&mut v, lit("err"));
    }
    assert(v@.map_values(|x: String| x@) =~= journal_args_of(n, errors_only));
    v
}

/// Where the journal's output is reported to come from.
pub open spec fn journal_source() -> Seq<char> {
    "journald:fabio-claw"@
}

/// The lines of the journal's output; `None` when it printed none, so that
/// the log files are tried instead.
pub fn journal_lines(stdout: &str) -> (r: Option<Vec<String>>)
    ensures
        text_lines(stdout@).len() == 0 <==> r is None,
        r matches Some(ls) ==> ls@.map_values(|l: String| l@) == text_lines(stdout@),
{
    let ls = lines_of(stdout);
    let ghost lv = ls@.map_values(|l: Vec<char>| l@);
    if ls.len() == 0 {
        return None;
    }
    let mut out: Vec<String> = Vec::new();
    let mut i: usize = 0;
    while i < ls.len()
        invariant
            i <= ls@.len(),
            lv == ls@.map_values(|l: Vec<char>| l@),
            out@.map_values(|l: String| l@) == lv.take(i as int),
        decreases ls@.len() - i,
    {
        let s = string_of(&ls[i]);
        push_arg(&mut out, s);
        assert(lv.take(i + 1) =~= lv.take(i as int).push(lv[i as int]));
        i = i + 1;
    }
    assert(lv.take(ls@.len() as int) =~= lv);
    Some(out)
}

/// The log files tried, in order, when the journal gives nothing.
pub open spec fn log_files_of() -> Seq<Seq<char>> {
    seq!["/var/log/syslog"@, "/var/log/messages"@, "/tmp/fabio-claw.log"@]
}

pub fn log_files() -> (r: Vec<String>)
    ensures
        r@.map_values(|x: String| x@) == log_files_of(),
{
    let mut v: Vec<String> = Vec::new();
    assert(v@.map_values(|x: String| x@) =~= Seq::empty());
    push_arg(&mut v, lit("/var/log/syslog"));
    push_arg(&mut v, lit("/var/log/messages"));
    push_arg(&mut v, lit("/tmp/fabio-claw.log"));
    assert(v@.map_values(|x: String| x@) =~= log_files_of());
    v
}

/// The line shown when no log can be read.
pub open spec fn no_source_line() -> Seq<char> {
    "[No log source available. journald or syslog required.]"@
}

pub fn no_log_source() -> (r: (Vec<String>, String))
    ensures
        r.0@.map_values(|x: String| x@) == seq![no_source_line()],
        r.1@ == "none"@,
{
    let mut v: Vec<String> = Vec::new();
    assert(v@.map_values(|x: String| x@) =~= Seq::empty());
    push_arg(&mut v, lit("[No log source available. journald or syslog required.]"));
    assert(v@.map_values(|x: String| x@) =~= seq![no_source_line()]);
    (v, lit("none"))
}

// ─── Error lines ─────────────────────────────────────────────────────────────

/// A line reads as trouble: its lower-case form names an error, a fatal
/// condition, a panic, a warning or something critical.
pub open spec fn has_error(line: Seq<char>) -> bool {
    let l = lowercase(line);
    contains_seq(l, "error"@) || contains_seq(l, "fatal"@) || contains_seq(l, "panic"@)
        || contains_seq(l, "warn"@) || contains_seq(l, "crit"@)
}

pub fn contains_error(line: &str) -> (r: bool)
    ensures
        r == has_error(line@),
{
    let l = chars_of(to_lowercase(line).as_str());
    contains_str(&l, "error") || contains_str(&l, "fatal") || contains_str(&l, "panic")
        || contains_str(&l, "warn") || contains_str(&l, "crit")
}

/// The lines that read as trouble, in order.
pub open spec fn error_lines(ls: Seq<Seq<char>>) -> Seq<Seq<char>>
    decreases ls.len(),
{
    if ls.len() == 0 {
        Seq::empty()
    } else if has_error(ls.last()) {
        error_lines(ls.drop_last()).push(ls.last())
    } else {
        error_lines(ls.drop_last())
    }
}

/// How many of the lines read as trouble.
pub open spec fn error_count(ls: Seq<Seq<char>>) -> nat
    decreases ls.len(),
{
    if ls.len() == 0 {
        0
    } else {
        error_count(ls.drop_last()) + if has_error(ls.last()) {
            1nat
        } else {
            0nat
        }
    }
}

proof fn lemma_error_lines(ls: Seq<Seq<char>>)
    ensures
        forall|i: int| 0 <= i < error_lines(ls).len() ==> has_error(#[trigger] error_lines(ls)[i]),
    decreases ls.len(),
{
    if ls.len() > 0 {
        lemma_error_lines(ls.drop_last());
        let e = error_lines(ls.drop_last());
        if has_error(ls.last()) {
            assert forall|i: int| 0 <= i < e.push(ls.last()).len() implies has_error(
                #[trigger] e.push(ls.last())[i],
            ) by {
                if i < e.len() {
                    assert(e.push(ls.last())[i] == e[i]);
                }
            }
        }
    }
}

/// The last `n` items (all of them when there are fewer).
pub open spec fn last_n<T>(s: Seq<T>, n: nat) -> Seq<T> {
    if s.len() > n {
        s.skip(s.len() - n)
    } else {
        s
    }
}

/// The lines a log file shows: its last `n` lines, or its last `n` error
/// lines.
pub open spec fn file_tail_of(content: Seq<char>, n: usize, errors_only: bool) -> Seq<Seq<char>> {
    let ls = text_lines(content);
    last_n(
        if errors_only {
            error_lines(ls)
        } else {
            ls
        },
        n as nat,
    )
}

/// Asked for errors only, a log file shows nothing but lines that read as
/// trouble, and never more than were asked for.
pub proof fn law_error_tail(content: Seq<char>, n: usize)
    ensures
        file_tail_of(content, n, true).len() <= n,
        forall|i: int|
            0 <= i < file_tail_of(content, n, true).len() ==> has_error(
                #[trigger] file_tail_of(content, n, true)[i],
            ),
{
    let e = error_lines(text_lines(content));
    lemma_error_lines(text_lines(content));
    if e.len() > n {
        assert forall|i: int| 0 <= i < e.skip(e.len() - n).len() implies has_error(
            #[trigger] e.skip(e.len() - n)[i],
        ) by {
            assert(e.skip(e.len() - n)[i] == e[i + e.len() - n]);
        }
    }
}

pub fn file_tail(content: &str, n: usize, errors_only: bool) -> (r: Vec<String>)
    ensures
        r@.map_values(|x: String| x@) == file_tail_of(content@, n, errors_only),
{
    let ls = lines_of(content);
    let ghost lv = ls@.map_values(|l: Vec<char>| l@);
    let mut kept: Vec<String> = Vec::new();
    let mut i: usize = 0;
    while i < ls.len()
        invariant
            i <= ls@.len(),
            lv == ls@.map_values(|l: Vec<char>| l@),
            kept@.map_values(|l: String| l@) == if errors_only {
                error_lines(lv.take(i as int))
            } else {
                lv.take(i as int)
            },
        decreases ls@.len() - i,
    {
        assert(lv.take(i + 1).drop_last() =~= lv.take(i as int));
        assert(lv.take(i + 1) =~= lv.take(i as int).push(lv[i as int]));
        let s = string_of(&ls[i]);
        if !errors_only || contains_error(s.as_str()) {
            push_arg(&mut kept, s);
        }
        i = i + 1;
    }
    assert(lv.take(ls@.len() as int) =~= lv);
    let ghost kv = kept@.map_values(|l: String| l@);
    let len: usize = kept.len();
    let from: usize = if len > n {
        len - n
    } else {
        0
    };
    let mut out: Vec<String> = Vec::new();
    let mut j: usize = from;
    while j < len
        invariant
            from <= j <= len == kept@.len(),
            kv == kept@.map_values(|l: String| l@),
            out@.map_values(|l: String| l@) == kv.subrange(from as int, j as int),
        decreases len - j,
    {
        push_arg(&mut out, clone_string(&kept[j]));
        assert(kv.subrange(from as int, j + 1) =~= kv.subrange(from as int, j as int).push(
            kv[j as int],
        ));
        j = j + 1;
    }
    assert(kv.subrange(from as int, len as int) =~= last_n(kv, n as nat));
    out
}

// ─── Blanking out secrets ────────────────────────────────────────────────────

/// Words after which a value is blanked out, in the order they are tried.
pub open spec fn secret_words() -> Seq<Seq<char>> {
    seq!["password"@, "secret"@, "token"@, "key"@, "auth"@, "credential"@]
}

/// The first `=` or `:` in `s` at an index `>= i`.
pub open spec fn first_sep_from(s: Seq<char>, i: int) -> Option<int>
    decreases s.len() - i,
{
    if i < 0 || i >= s.len() {
        None
    } else if s[i] == '=' || s[i] == ':' {
        Some(i)
    } else {
        first_sep_from(s, i + 1)
    }
}

/// The text of `s` from byte `b` on (a boundary).
pub open spec fn from_byte(s: Seq<char>, b: int) -> Seq<char> {
    s.skip(char_index_of_byte(s, b))
}

/// The end of a pass once the word is found ending at byte `a`: when a `=`
/// or `:` follows, up to 40 bytes after it become `[REDACTED]`. `None`
/// where a byte offset the pass slices at falls inside a character.
pub open spec fn redact_after(s: Seq<char>, a: int) -> Option<Seq<char>> {
    if !is_boundary(s, a) {
        None
    } else {
        let after = from_byte(s, a);
        match first_sep_from(after, 0) {
            None => Some(s),
            Some(j) => {
                let mf: int = a + byte_offset(after, j) + 1;
                let mt = if byte_len(s) < mf + 40 {
                    byte_len(s) as int
                } else {
                    mf + 40
                };
                if !is_boundary(s, mf) || !is_boundary(s, mt) {
                    None
                } else {
                    Some(take_bytes(s, mf) + "[REDACTED]"@ + from_byte(s, mt))
                }
            },
        }
    }
}

/// One word's pass: where the lower-case line first names `kw`, the value
/// after it is blanked out (see `redact_after`).
pub open spec fn redact_once(s: Seq<char>, kw: Seq<char>) -> Option<Seq<char>> {
    let lower = lowercase(s);
    match find_first(lower, kw) {
        None => Some(s),
        Some(ci) => redact_after(s, (byte_offset(lower, ci) + byte_len(kw)) as int),
    }
}

/// The passes for `kws`, in order; `None` once one fails.
pub open spec fn redact_all(s: Seq<char>, kws: Seq<Seq<char>>) -> Option<Seq<char>>
    decreases kws.len(),
{
    if kws.len() == 0 {
        Some(s)
    } else {
        match redact_all(s, kws.drop_last()) {
            Some(t) => redact_once(t, kws.last()),
            None => None,
        }
    }
}

/// A log line as shown: secrets blanked out, then cut to 297 bytes and
/// marked with `...` when longer than 300. `None` where a byte offset the
/// text is cut at falls inside a character (there `str` slicing panics).
pub open spec fn sanitized_line(line: Seq<char>) -> Option<Seq<char>> {
    match redact_all(line, secret_words()) {
        Some(t) => if byte_len(t) > 300 {
            if is_boundary(t, 297) {
                Some(take_bytes(t, 297) + "..."@)
            } else {
                None
            }
        } else {
            Some(t)
        },
        None => None,
    }
}

fn width(c: char) -> (r: u128)
    ensures
        r == char_width(c),
{
    let u: u32 = c as u32;
    if u < 0x80 {
        1
    } else if u < 0x800 {
        2
    } else if u < 0x10000 {
        3
    } else {
        4
    }
}

/// Byte offset of index `i`.
fn offset_of(v: &[char], i: usize) -> (r: u128)
    requires
        i <= v@.len(),
    ensures
        r == byte_offset(v@, i as int),
        r <= 4 * i,
{
    let mut k: usize = 0;
    let mut total: u128 = 0;
    while k < i
        invariant
            k <= i <= v@.len(),
            total == byte_len(v@.take(k as int)),
            total <= 4 * k,
        decreases i - k,
    {
        proof {
            lemma_byte_len_push(v@.take(k as int), v@[k as int]);
            assert(v@.take(k as int).push(v@[k as int]) =~= v@.take(k + 1));
        }
        total = total + width(v[k]);
        k = k + 1;
    }
    total
}

/// Byte length of `v`.
fn bytes_of(v: &[char]) -> (r: u128)
    ensures
        r == byte_len(v@),
        r <= 4 * v@.len(),
{
    let r = offset_of(v, v.len());
    assert(v@.take(v@.len() as int) =~= v@);
    r
}

/// Character index of byte offset `b`, when `b` is a boundary.
fn index_at(v: &[char], b: u128) -> (r: Option<usize>)
    ensures
        match r {
            Some(i) => is_boundary(v@, b as int) && i == char_index_of_byte(v@, b as int) && i
                <= v@.len() && byte_offset(v@, i as int) == b,
            None => !is_boundary(v@, b as int),
        },
{
    let mut i: usize = 0;
    let mut total: u128 = 0;
    proof {
        assert(v@.skip(0) =~= v@);
    }
    while i < v.len() && width(v[i]) <= b - total
        invariant
            i <= v@.len(),
            total == byte_len(v@.take(i as int)),
            total <= b,
            take_bytes(v@, b as int) == v@.take(i as int) + take_bytes(v@.skip(i as int), b - total),
        decreases v.len() - i,
    {
        let w: u128 = width(v[i]);
        proof {
            lemma_byte_len_push(v@.take(i as int), v@[i as int]);
            assert(v@.take(i as int).push(v@[i as int]) =~= v@.take(i + 1));
            let t = v@.skip(i as int);
            assert(t[0] == v@[i as int]);
            assert(t.drop_first() =~= v@.skip(i + 1));
            assert(v@.take(i as int) + (seq![v@[i as int]] + take_bytes(v@.skip(i + 1), b - total
                - w)) =~= v@.take(i + 1) + take_bytes(v@.skip(i + 1), b - total - w));
        }
        total = total + w;
        i = i + 1;
    }
    proof {
        let t = v@.skip(i as int);
        if i < v@.len() {
            assert(t[0] == v@[i as int]);
        }
        assert(take_bytes(t, b - total) =~= Seq::<char>::empty());
        assert(take_bytes(v@, b as int) =~= v@.take(i as int));
        lemma_byte_len_concat(v@.take(i as int), v@.skip(i as int));
        assert(v@.take(i as int) + v@.skip(i as int) =~= v@);
    }
    if total == b {
        Some(i)
    } else {
        None
    }
}

fn first_sep(v: &[char]) -> (r: Option<usize>)
    ensures
        match r {
            Some(j) => j < v@.len() && first_sep_from(v@, 0) == Some(j as int),
            None => first_sep_from(v@, 0) is None,
        },
{
    let mut k: usize = v.len();
    let mut found: Option<usize> = None;
    while k > 0
        invariant
            k <= v@.len(),
            match found {
                Some(j) => j < v@.len() && first_sep_from(v@, k as int) == Some(j as int),
                None => first_sep_from(v@, k as int) is None,
            },
        decreases k,
    {
        k = k - 1;
        if v[k] == '=' || v[k] == ':' {
            found = Some(k);
        }
    }
    found
}

fn redact_after_exec(v: &Vec<char>, a: u128) -> (r: Option<Vec<char>>)
    requires
        a <= 0x10_0000_0000_0000_0000,
    ensures
        match r {
            Some(t) => redact_after(v@, a as int) == Some(t@),
            None => redact_after(v@, a as int) is None,
        },
{
    assert(v@.subrange(0, v@.len() as int) =~= v@);
    match index_at(v, a) {
        None => None,
        Some(ai) => {
            let after = slice_chars(v, ai, v.len());
            assert(after@ =~= v@.skip(ai as int));
            match first_sep(&after) {
                None => Some(slice_chars(v, 0, v.len())),
                Some(j) => {
                    let o3: u128 = offset_of(&after, j);
                    let jj: usize = j;
                    assert(o3 <= 4 * jj);
                    let mf: u128 = a + o3 + 1;
                    let len: u128 = bytes_of(v);
                    let mt: u128 = if len < mf + 40 {
                        len
                    } else {
                        mf + 40
                    };
                    match (index_at(v, mf), index_at(v, mt)) {
                        (Some(i1), Some(i2)) => {
                            proof {
                                lemma_take_bytes_props(v@, mf as int);
                            }
                            let mut out = slice_chars(v, 0, i1);
                            push_str(&mut out, "[REDACTED]");
                            push_chars(&mut out, &slice_chars(v, i2, v.len()));
                            assert(v@.subrange(i2 as int, v@.len() as int) =~= v@.skip(i2 as int));
                            assert(v@.subrange(0, i1 as int) =~= v@.take(i1 as int));
                            assert(out@ =~= take_bytes(v@, mf as int) + "[REDACTED]"@ + from_byte(
                                v@,
                                mt as int,
                            ));
                            Some(out)
                        },
                        _ => None,
                    }
                },
            }
        },
    }
}

fn redact_word(v: &Vec<char>, kw: &str) -> (r: Option<Vec<char>>)
    requires
        kw@.len() > 0,
    ensures
        match r {
            Some(t) => redact_once(v@, kw@) == Some(t@),
            None => redact_once(v@, kw@) is None,
        },
{
    let sv = string_of(v);
    let lo = to_lowercase(sv.as_str());
    let lower = chars_of(lo.as_str());
    assert(lower@ == lowercase(v@));
    let k = chars_of(kw);
    assert(v@.subrange(0, v@.len() as int) =~= v@);
    match find_chars(&lower, &k) {
        None => Some(slice_chars(v, 0, v.len())),
        Some(ci) => {
            let ll: usize = lower.len();
            proof {
                crate::text::lemma_find_from_props(lower@, k@, 0);
                let kk = find_first(lower@, k@)->0;
                assert(0 <= kk <= ll);
                assert(ci == kk as usize);
                assert(ci as int == kk);
            }
            let o1: u128 = offset_of(&lower, ci);
            let o2: u128 = bytes_of(&k);
            let c: usize = ci;
            let kl: usize = k.len();
            assert(o1 <= 4 * c);
            assert(o2 <= 4 * kl);
            assert(find_first(lowercase(v@), kw@) == Some(ci as int));
            assert(o1 + o2 == byte_offset(lowercase(v@), ci as int) + byte_len(kw@));
            let r = redact_after_exec(v, o1 + o2);
            assert(redact_once(v@, kw@) == redact_after(v@, (o1 + o2) as int));
            r
        },
    }
}

/// A line that names no secret word and fits in 300 bytes is shown as it is.
pub proof fn law_plain_line_kept(line: Seq<char>)
    requires
        forall|k: int| 0 <= k < secret_words().len() ==> !contains_seq(
            lowercase(line),
            #[trigger] secret_words()[k],
        ),
        byte_len(line) <= 300,
    ensures
        sanitized_line(line) == Some(line),
{
    let ws = secret_words();
    assert forall|j: int| 0 <= j <= ws.len() implies redact_all(line, #[trigger] ws.take(j))
        == Some(line) by {
        lemma_redact_all_plain(line, ws, j);
    }
    assert(ws.take(ws.len() as int) =~= ws);
}

proof fn lemma_redact_all_plain(line: Seq<char>, ws: Seq<Seq<char>>, j: int)
    requires
        0 <= j <= ws.len(),
        forall|k: int| 0 <= k < ws.len() ==> !contains_seq(lowercase(line), #[trigger] ws[k]),
    ensures
        redact_all(line, ws.take(j)) == Some(line),
    decreases j,
{
    if j > 0 {
        assert(ws.take(j).drop_last() =~= ws.take(j - 1));
        assert(ws.take(j).last() == ws[j - 1]);
        lemma_redact_all_plain(line, ws, j - 1);
        assert(!contains_seq(lowercase(line), ws[j - 1]));
    } else {
        assert(ws.take(0) =~= Seq::<Seq<char>>::empty());
    }
}

/// A log line made fit to show (see `sanitized_line`); `None` where a cut
/// by bytes would fall inside a character.
pub fn sanitize_line(line: &str) -> (r: Option<String>)
    ensures
        match r {
            Some(t) => sanitized_line(line@) == Some(t@) && byte_len(t@) <= 300,
            None => sanitized_line(line@) is None,
        },
{
    let ghost ws = secret_words();
    let mut cur = chars_of(line);
    let mut done: usize = 0;
    let words: [&str; 6] = ["password", "secret", "token", "key", "auth", "credential"];
    proof {
        reveal_strlit("password");
        reveal_strlit("secret");
        reveal_strlit("token");
        reveal_strlit("key");
        reveal_strlit("auth");
        reveal_strlit("credential");
        assert(ws.take(0) =~= Seq::<Seq<char>>::empty());
        assert(forall|i: int| 0 <= i < 6 ==> (#[trigger] ws[i]).len() > 0);
    }
    while done < 6
        invariant
            done <= 6,
            ws == secret_words(),
            words@.len() == 6,
            forall|i: int| 0 <= i < 6 ==> (#[trigger] words@[i])@ == ws[i],
            forall|i: int| 0 <= i < 6 ==> (#[trigger] ws[i]).len() > 0,
            redact_all(line@, ws.take(done as int)) == Some(cur@),
        decreases 6 - done,
    {
        let w: &str = words[done];
        assert(w@ == ws[done as int]);
        assert(ws.take(done + 1).drop_last() =~= ws.take(done as int));
        assert(ws.take(done + 1).last() == ws[done as int]);
        match redact_word(&cur, w) {
            Some(t) => {
                cur = t;
            },
            None => {
                proof {
                    assert(ws.take(6) =~= ws);
                    lemma_redact_all_none(line@, ws, done as int + 1);
                }
                return None;
            },
        }
        done = done + 1;
    }
    assert(ws.take(6) =~= ws);
    let len: u128 = bytes_of(&cur);
    if len > 300 {
        match index_at(&cur, 297) {
            Some(i) => {
                proof {
                    lemma_take_bytes_props(cur@, 297);
                    lemma_byte_len_concat(cur@.take(i as int), "..."@);
                    reveal_strlit("...");
                    assert(byte_len("..."@) == 3) by {
                        reveal_with_fuel(byte_len, 4);
                    }
                }
                let mut out = slice_chars(&cur, 0, i);
                assert(out@ =~= cur@.take(i as int));
                push_str(&mut out, "...");
                Some(string_of(&out))
            },
            None => None,
        }
    } else {
        Some(string_of(&cur))
    }
}

proof fn lemma_redact_all_none(s: Seq<char>, ws: Seq<Seq<char>>, k: int)
    requires
        0 < k <= ws.len(),
        redact_all(s, ws.take(k)) is None,
    ensures
        redact_all(s, ws) is None,
    decreases ws.len() - k,
{
    if k < ws.len() {
        assert(ws.take(k + 1).drop_last() =~= ws.take(k));
        lemma_redact_all_none(s, ws, k + 1);
    } else {
        assert(ws.take(k) =~= ws);
    }
}

// ─── The answer ──────────────────────────────────────────────────────────────

/// The lines as shown, when every one of them can be.
pub open spec fn shown_lines(ls: Seq<Seq<char>>) -> Option<Seq<Seq<char>>>
    decreases ls.len(),
{
    if ls.len() == 0 {
        Some(Seq::empty())
    } else {
        match (shown_lines(ls.drop_last()), sanitized_line(ls.last())) {
            (Some(xs), Some(t)) => Some(xs.push(t)),
            _ => None,
        }
    }
}

/// The answer: the lines as shown, how many read as trouble, and where they
/// came from. `None` where a line cannot be cut at its byte offsets.
pub fn log_result(source: &str, lines: &Vec<String>, errors_only: bool) -> (r: Option<Json>)
    ensures
        match shown_lines(lines@.map_values(|l: String| l@)) {
            Some(shown) => r matches Some(j) && j.text@ == raw_object_text(
                seq![
                    ("error_count"@, crate::text::dec(error_count(shown))),
                    ("errors_only"@, if errors_only {
                        "true"@
                    } else {
                        "false"@
                    }),
                    ("lines_shown"@, crate::text::dec(shown.len())),
                    ("log"@, str_array_text(shown)),
                    ("source"@, json_quoted(source@)),
                ],
            ),
            None => r is None,
        },
{
    let ghost lv = lines@.map_values(|l: String| l@);
    let mut shown: Vec<String> = Vec::new();
    let mut count: usize = 0;
    let mut i: usize = 0;
    while i < lines.len()
        invariant
            i <= lines@.len(),
            lv == lines@.map_values(|l: String| l@),
            shown_lines(lv.take(i as int)) == Some(shown@.map_values(|l: String| l@)),
            count == error_count(shown@.map_values(|l: String| l@)),
            shown@.len() == i,
            count <= i,
        decreases lines@.len() - i,
    {
        assert(lv.take(i + 1).drop_last() =~= lv.take(i as int));
        assert(lv.take(i + 1).last() == lines@[i as int]@);
        match sanitize_line(lines[i].as_str()) {
            Some(t) => {
                let bad: bool = contains_error(t.as_str());
                let ghost prev = shown@.map_values(|l: String| l@);
                push_arg(&mut shown, t);
                assert(shown@.map_values(|l: String| l@).drop_last() =~= prev);
                if bad {
                    count = count + 1;
                }
            },
            None => {
                proof {
                    lemma_shown_none(lv, i as int + 1);
                }
                return None;
            },
        }
        i = i + 1;
    }
    assert(lv.take(lines@.len() as int) =~= lv);
    let ghost sv = shown@.map_values(|l: String| l@);
    let n: usize = shown.len();
    let mut es: Vec<(String, Json)> = Vec::new();
    es.push((lit("error_count"), uint_value(count as u64)));
    es.push((lit("errors_only"), bool_value(errors_only)));
    es.push((lit("lines_shown"), uint_value(n as u64)));
    es.push((lit("log"), str_array(&shown)));
    es.push((lit("source"), string_value(lit(source))));
    let ghost e = es@;
    let r = object_of(es);
    assert(entry_pairs(e) =~= seq![
        ("error_count"@, crate::text::dec(error_count(sv))),
        ("errors_only"@, if errors_only {
            "true"@
        } else {
            "false"@
        }),
        ("lines_shown"@, crate::text::dec(sv.len())),
        ("log"@, str_array_text(sv)),
        ("source"@, json_quoted(source@)),
    ]);
    Some(r)
}

proof fn lemma_shown_none(ls: Seq<Seq<char>>, k: int)
    requires
        0 < k <= ls.len(),
        shown_lines(ls.take(k)) is None,
    ensures
        shown_lines(ls) is None,
    decreases ls.len() - k,
{
    if k < ls.len() {
        assert(ls.take(k + 1).drop_last() =~= ls.take(k));
        lemma_shown_none(ls, k + 1);
    } else {
        assert(ls.take(k) =~= ls);
    }
}

} // verus!
