//! A plain model of parsed JSON values, with the accessors the rest of the
//! library reads them through.
//!
//! Each node keeps its compact JSON serialisation in `text`; numbers keep the
//! integer views and the fixed-point renderings the summaries print.
use vstd::prelude::*;
use crate::text::{chars_of, dec, dec_signed, push_decimal_signed, push_decimal_wide, push_str, string_of};
use crate::summary::{join, join_push};

verus! {

/// A JSON number: its integer views (as `as_u64` / `as_i64` give them) and
/// its value printed with 0 and 1 decimal places.
pub struct JsonNumber {
    pub as_u64: Option<u64>,
    pub as_i64: Option<i64>,
    pub fixed0: String,
    pub fixed1: String,
}

pub enum JsonKind {
    Null,
    Bool(bool),
    Number(JsonNumber),
    Str(String),
    Array(Vec<Json>),
    /// Entries in iteration order; keys are distinct.
    Object(Vec<(String, Json)>),
}

/// A JSON value together with its compact serialisation.
pub struct Json {
    pub kind: JsonKind,
    pub text: String,
}

/// First entry with key `k`.
pub open spec fn lookup(es: Seq<(String, Json)>, k: Seq<char>) -> Option<Json>
    decreases es.len(),
{
    if es.len() == 0 {
        None
    } else if es[0].0@ == k {
        Some(es[0].1)
    } else {
        lookup(es.drop_first(), k)
    }
}

/// `value.get(key)`: the member of an object (`None` for other values).
pub open spec fn obj_get(v: Json, k: Seq<char>) -> Option<Json> {
    match v.kind {
        JsonKind::Object(es) => lookup(es@, k),
        _ => None,
    }
}

/// `value[key]` where a missing value reads as `Null` (here: `None`).
pub open spec fn idx(v: Option<Json>, k: Seq<char>) -> Option<Json> {
    match v {
        Some(j) => obj_get(j, k),
        None => None,
    }
}

pub open spec fn has(v: Option<Json>, k: Seq<char>) -> bool {
    idx(v, k) is Some
}

pub open spec fn as_str(v: Option<Json>) -> Option<Seq<char>> {
    match v {
        Some(j) => match j.kind {
            JsonKind::Str(s) => Some(s@),
            _ => None,
        },
        None => None,
    }
}

pub open spec fn str_or(v: Option<Json>, d: Seq<char>) -> Seq<char> {
    match as_str(v) {
        Some(s) => s,
        None => d,
    }
}

pub open spec fn as_bool(v: Option<Json>) -> Option<bool> {
    match v {
        Some(j) => match j.kind {
            JsonKind::Bool(b) => Some(b),
            _ => None,
        },
        None => None,
    }
}

pub open spec fn as_u64(v: Option<Json>) -> Option<u64> {
    match v {
        Some(j) => match j.kind {
            JsonKind::Number(n) => n.as_u64,
            _ => None,
        },
        None => None,
    }
}

pub open spec fn as_i64(v: Option<Json>) -> Option<i64> {
    match v {
        Some(j) => match j.kind {
            JsonKind::Number(n) => n.as_i64,
            _ => None,
        },
        None => None,
    }
}

/// `as_f64()` printed with `{:.0}`.
pub open spec fn fixed0(v: Option<Json>) -> Option<Seq<char>> {
    match v {
        Some(j) => match j.kind {
            JsonKind::Number(n) => Some(n.fixed0@),
            _ => None,
        },
        None => None,
    }
}

/// `as_f64()` printed with `{:.1}`.
pub open spec fn fixed1(v: Option<Json>) -> Option<Seq<char>> {
    match v {
        Some(j) => match j.kind {
            JsonKind::Number(n) => Some(n.fixed1@),
            _ => None,
        },
        None => None,
    }
}

pub open spec fn as_array(v: Option<Json>) -> Option<Seq<Json>> {
    match v {
        Some(j) => match j.kind {
            JsonKind::Array(a) => Some(a@),
            _ => None,
        },
        None => None,
    }
}

pub open spec fn opt_ref(v: Option<&Json>) -> Option<Json> {
    match v {
        Some(j) => Some(*j),
        None => None,
    }
}

pub fn chars_eq(a: &[char], b: &[char]) -> (r: bool)
    ensures
        r == (a@ == b@),
{
    if a.len() != b.len() {
        return false;
    }
    let mut i: usize = 0;
    while i < a.len()
        invariant
            a@.len() == b@.len(),
            i <= a@.len(),
            forall|j: int| 0 <= j < i ==> a@[j] == b@[j],
        decreases a.len() - i,
    {
        if a[i] != b[i] {
            return false;
        }
        i = i + 1;
    }
    assert(a@ =~= b@);
    true
}

/// `v.get(key)`.
pub fn get<'a>(v: &'a Json, key: &str) -> (r: Option<&'a Json>)
    ensures
        opt_ref(r) == obj_get(*v, key@),
{
    match &v.kind {
        JsonKind::Object(es) => {
            let kc = chars_of(key);
            let mut i: usize = 0;
            assert(es@.skip(0) =~= es@);
            assert(obj_get(*v, key@) == lookup(es@, key@));
            while i < es.len()
                invariant
                    i <= es@.len(),
                    kc@ == key@,
                    obj_get(*v, key@) == lookup(es@, key@),
                    lookup(es@, key@) == lookup(es@.skip(i as int), key@),
                decreases es.len() - i,
            {
                let ghost rest = es@.skip(i as int);
                assert(rest[0] == es@[i as int]);
                let ec = chars_of(es[i].0.as_str());
                if chars_eq(&ec, &kc) {
                    assert(rest[0].0@ == key@);
                    assert(lookup(rest, key@) == Some(rest[0].1));
                    assert(es@[i as int].1 == es[i as int].1);
                    return Some(&es[i].1);
                }
                assert(rest.drop_first() =~= es@.skip(i + 1));
                i = i + 1;
            }
            None
        },
        _ => None,
    }
}

/// `v[key]` on a possibly missing value.
pub fn at<'a>(v: Option<&'a Json>, key: &str) -> (r: Option<&'a Json>)
    ensures
        opt_ref(r) == idx(opt_ref(v), key@),
{
    match v {
        Some(j) => get(j, key),
        None => None,
    }
}

pub fn get_str(v: Option<&Json>) -> (r: Option<Vec<char>>)
    ensures
        match r {
            Some(s) => as_str(opt_ref(v)) == Some(s@),
            None => as_str(opt_ref(v)) is None,
        },
{
    match v {
        Some(j) => match &j.kind {
            JsonKind::Str(s) => Some(chars_of(s.as_str())),
            _ => None,
        },
        None => None,
    }
}

pub fn get_str_or(v: Option<&Json>, d: &str) -> (r: Vec<char>)
    ensures
        r@ == str_or(opt_ref(v), d@),
{
    match get_str(v) {
        Some(s) => s,
        None => chars_of(d),
    }
}

pub fn get_bool(v: Option<&Json>) -> (r: Option<bool>)
    ensures
        r == as_bool(opt_ref(v)),
{
    match v {
        Some(j) => match &j.kind {
            JsonKind::Bool(b) => Some(*b),
            _ => None,
        },
        None => None,
    }
}

pub fn get_u64(v: Option<&Json>) -> (r: Option<u64>)
    ensures
        r == as_u64(opt_ref(v)),
{
    match v {
        Some(j) => match &j.kind {
            JsonKind::Number(n) => n.as_u64,
            _ => None,
        },
        None => None,
    }
}

pub fn get_i64(v: Option<&Json>) -> (r: Option<i64>)
    ensures
        r == as_i64(opt_ref(v)),
{
    match v {
        Some(j) => match &j.kind {
            JsonKind::Number(n) => n.as_i64,
            _ => None,
        },
        None => None,
    }
}

pub fn get_fixed0(v: Option<&Json>) -> (r: Option<Vec<char>>)
    ensures
        match r {
            Some(s) => fixed0(opt_ref(v)) == Some(s@),
            None => fixed0(opt_ref(v)) is None,
        },
{
    match v {
        Some(j) => match &j.kind {
            JsonKind::Number(n) => Some(chars_of(n.fixed0.as_str())),
            _ => None,
        },
        None => None,
    }
}

pub fn get_fixed1(v: Option<&Json>) -> (r: Option<Vec<char>>)
    ensures
        match r {
            Some(s) => fixed1(opt_ref(v)) == Some(s@),
            None => fixed1(opt_ref(v)) is None,
        },
{
    match v {
        Some(j) => match &j.kind {
            JsonKind::Number(n) => Some(chars_of(n.fixed1.as_str())),
            _ => None,
        },
        None => None,
    }
}

pub fn get_array<'a>(v: Option<&'a Json>) -> (r: Option<&'a Vec<Json>>)
    ensures
        match r {
            Some(a) => as_array(opt_ref(v)) == Some(a@),
            None => as_array(opt_ref(v)) is None,
        },
{
    match v {
        Some(j) => match &j.kind {
            JsonKind::Array(a) => Some(a),
            _ => None,
        },
        None => None,
    }
}

// ─── JSON string literals ────────────────────────────────────────────────────

/// Lowercase hexadecimal digit of `d` (0..16).
pub open spec fn hex_digit(d: nat) -> char {
    if d < 10 {
        (('0' as u32) + d) as char
    } else {
        (('a' as u32) + d - 10) as char
    }
}

/// How `serde_json` writes one character inside a string literal: quote and
/// backslash escaped, the named control escapes, other control characters as
/// `\u00XX`, everything else as is.
pub open spec fn json_escape(c: char) -> Seq<char> {
    if c == '"' {
        seq!['\\', '"']
    } else if c == '\\' {
        seq!['\\', '\\']
    } else if c == '\n' {
        seq!['\\', 'n']
    } else if c == '\r' {
        seq!['\\', 'r']
    } else if c == '\t' {
        seq!['\\', 't']
    } else if (c as u32) == 8 {
        seq!['\\', 'b']
    } else if (c as u32) == 12 {
        seq!['\\', 'f']
    } else if (c as u32) < 32 {
        seq!['\\', 'u', '0', '0', hex_digit((c as u32 / 16) as nat), hex_digit((c as u32 % 16) as nat)]
    } else {
        seq![c]
    }
}

pub open spec fn json_escape_all(s: Seq<char>) -> Seq<char>
    decreases s.len(),
{
    if s.len() == 0 {
        Seq::empty()
    } else {
        json_escape_all(s.drop_last()) + json_escape(s.last())
    }
}

/// No character of `s` needs escaping.
pub open spec fn plain_text(s: Seq<char>) -> bool {
    forall|i: int| 0 <= i < s.len() ==> (#[trigger] s[i]) != '"' && s[i] != '\\' && (s[i] as u32) >= 32
}

/// Text that needs no escaping is written as it is.
pub proof fn lemma_plain_escape(s: Seq<char>)
    requires
        plain_text(s),
    ensures
        json_escape_all(s) == s,
    decreases s.len(),
{
    if s.len() > 0 {
        assert(plain_text(s.drop_last())) by {
            assert forall|i: int| 0 <= i < s.drop_last().len() implies (#[trigger] s.drop_last()[i]) != '"'
                && s.drop_last()[i] != '\\' && (s.drop_last()[i] as u32) >= 32 by {
                assert(s.drop_last()[i] == s[i]);
            }
        }
        lemma_plain_escape(s.drop_last());
        let c = s.last();
        assert(c == s[s.len() - 1]);
        assert(c != '\n' && c != '\r' && c != '\t');
        assert(json_escape(c) == seq![c]);
        assert(s.drop_last() + seq![c] =~= s);
    }
}

/// The JSON string literal of `s`.
pub open spec fn json_quoted(s: Seq<char>) -> Seq<char> {
    seq!['"'] + json_escape_all(s) + seq!['"']
}

/// Calls `serde_json::to_string` on a `str`: the string as a JSON literal,
/// escaped as `json_escape` says (serialising a `str` into memory cannot
/// fail; the error arm is never taken).
#[verifier::external_body]
pub fn json_quote(s: &str) -> (r: String)
    ensures
        r@ == json_quoted(s@),
{
    match serde_json::to_string(s) {
        Ok(t) => t,
        Err(_) => String::new(),
    }
}

// ─── Copies ──────────────────────────────────────────────────────────────────

fn clone_number(n: &JsonNumber) -> (r: JsonNumber)
    ensures
        r.as_u64 == n.as_u64,
        r.as_i64 == n.as_i64,
        r.fixed0@ == n.fixed0@,
        r.fixed1@ == n.fixed1@,
{
    JsonNumber {
        as_u64: n.as_u64,
        as_i64: n.as_i64,
        fixed0: n.fixed0.clone(),
        fixed1: n.fixed1.clone(),
    }
}

/// `a` and `b` are the same value node for node: the same kinds, the same
/// strings, numbers, keys and texts at every level.
pub open spec fn same_json(a: Json, b: Json) -> bool
    decreases a,
{
    &&& a.text@ == b.text@
    &&& match (a.kind, b.kind) {
        (JsonKind::Null, JsonKind::Null) => true,
        (JsonKind::Bool(x), JsonKind::Bool(y)) => x == y,
        (JsonKind::Number(x), JsonKind::Number(y)) => x.as_u64 == y.as_u64 && x.as_i64 == y.as_i64
            && x.fixed0@ == y.fixed0@ && x.fixed1@ == y.fixed1@,
        (JsonKind::Str(x), JsonKind::Str(y)) => x@ == y@,
        (JsonKind::Array(xs), JsonKind::Array(ys)) => xs.len() == ys.len() && forall|i: int|
            0 <= i < xs.len() ==> same_json(#[trigger] xs[i], ys[i]),
        (JsonKind::Object(xs), JsonKind::Object(ys)) => xs.len() == ys.len() && forall|i: int|
            0 <= i < xs.len() ==> (#[trigger] xs[i]).0@ == ys[i].0@ && same_json(xs[i].1, ys[i].1),
        _ => false,
    }
}

/// A copy of a value, built node by node.
pub fn clone_json(j: &Json) -> (r: Json)
    ensures
        r.text@ == j.text@,
        same_json(r, *j),
    decreases j,
{
    let kind = match &j.kind {
        JsonKind::Null => JsonKind::Null,
        JsonKind::Bool(b) => JsonKind::Bool(*b),
        JsonKind::Number(n) => JsonKind::Number(clone_number(n)),
        JsonKind::Str(s) => JsonKind::Str(s.clone()),
        JsonKind::Array(a) => {
            let mut out: Vec<Json> = Vec::new();
            let mut i: usize = 0;
            while i < a.len()
                invariant
                    i <= a@.len(),
                    j.kind == JsonKind::Array(*a),
                    out@.len() == i,
                    forall|q: int| 0 <= q < i ==> same_json(#[trigger] out@[q], a@[q]),
                decreases a@.len() - i,
            {
                proof {
                    vstd::std_specs::vec::axiom_vec_index_decreases(*a, i as int);
                    assert(decreases_to!(*j => j.kind));
                    assert(decreases_to!(j.kind => j.kind->Array_0));
                    assert(decreases_to!(*j => a[i as int]));
                }
                out.push(clone_json(&a[i]));
                i = i + 1;
            }
            JsonKind::Array(out)
        },
        JsonKind::Object(es) => {
            let mut out: Vec<(String, Json)> = Vec::new();
            let mut i: usize = 0;
            while i < es.len()
                invariant
                    i <= es@.len(),
                    j.kind == JsonKind::Object(*es),
                    out@.len() == i,
                    forall|q: int|
                        0 <= q < i ==> (#[trigger] out@[q]).0@ == es@[q].0@ && same_json(out@[q].1, es@[q].1),
                decreases es@.len() - i,
            {
                proof {
                    vstd::std_specs::vec::axiom_vec_index_decreases(*es, i as int);
                    assert(decreases_to!(*j => j.kind));
                    assert(decreases_to!(j.kind => j.kind->Object_0));
                    assert(decreases_to!(es[i as int] => es[i as int].1));
                    assert(decreases_to!(*j => es[i as int].1));
                }
                out.push((es[i].0.clone(), clone_json(&es[i].1)));
                i = i + 1;
            }
            JsonKind::Object(out)
        },
    };
    Json { kind, text: j.text.clone() }
}

// ─── Building values ─────────────────────────────────────────────────────────

pub fn null_value() -> (r: Json)
    ensures
        r.kind is Null,
        r.text@ == "null"@,
{
    Json { kind: JsonKind::Null, text: string_of(&chars_of("null")) }
}

pub fn bool_value(b: bool) -> (r: Json)
    ensures
        r.kind == JsonKind::Bool(b),
        r.text@ == if b {
            "true"@
        } else {
            "false"@
        },
{
    Json {
        kind: JsonKind::Bool(b),
        text: string_of(
            &chars_of(
                if b {
                    "true"
                } else {
                    "false"
                },
            ),
        ),
    }
}

pub fn string_value(s: String) -> (r: Json)
    ensures
        r.kind matches JsonKind::Str(t) && t@ == s@,
        r.text@ == json_quoted(s@),
{
    let q = json_quote(s.as_str());
    Json { kind: JsonKind::Str(s), text: q }
}

/// The gap between neighbouring doubles around `m`: 1 below 2^53, and
/// twice as wide with each power of two above.
pub open spec fn double_spacing(m: nat) -> nat
    decreases m,
{
    if m < 9007199254740992 {
        1
    } else {
        2 * double_spacing(m / 2)
    }
}

/// `m` rounded to the nearest double, a tie going to the even mantissa.
pub open spec fn nearest_double(m: nat) -> nat {
    let p = double_spacing(m);
    let q = m / p;
    let r = m % p;
    if 2 * r > p || (2 * r == p && q % 2 == 1) {
        (q + 1) * p
    } else {
        q * p
    }
}

/// The value of `n as f64`, an integer again.
pub open spec fn as_double(n: int) -> int {
    if n < 0 {
        -(nearest_double((-n) as nat) as int)
    } else {
        nearest_double(n as nat) as int
    }
}

proof fn lemma_spacing_positive(m: nat)
    ensures
        double_spacing(m) >= 1,
    decreases m,
{
    if m >= 9007199254740992 {
        lemma_spacing_positive(m / 2);
    }
}

proof fn lemma_spacing_quotient(m: nat)
    requires
        m >= 1,
    ensures
        m / double_spacing(m) >= 1,
    decreases m,
{
    lemma_spacing_positive(m);
    if m >= 9007199254740992 {
        lemma_spacing_quotient(m / 2);
        lemma_spacing_positive(m / 2);
        let d = double_spacing(m / 2);
        vstd::arithmetic::div_mod::lemma_div_denominator(m as int, 2, d as int);
        assert(double_spacing(m) == 2 * d);
        assert(m / double_spacing(m) == m / (2 * d));
        assert(((m / 2) as int) / (d as int) >= 1);
        assert((m as int / 2) / (d as int) == (m as int) / (2 * (d as int)));
        assert(m / (2 * d) == (m as int) / (2 * (d as int)));
    } else {
        assert(double_spacing(m) == 1);
        vstd::arithmetic::div_mod::lemma_div_basics(m as int);
    }
}

proof fn lemma_nearest_positive(m: nat)
    requires
        m >= 1,
    ensures
        nearest_double(m) >= 1,
{
    lemma_spacing_quotient(m);
    lemma_spacing_positive(m);
    let p = double_spacing(m);
    let q = m / p;
    assert(q * p >= 1 && (q + 1) * p >= 1) by (nonlinear_arith)
        requires
            q >= 1,
            p >= 1,
    {}
}

/// `m as f64`, as an integer.
fn round_to_double(m: u64) -> (r: u128)
    ensures
        r == nearest_double(m as nat),
{
    let mut p: u64 = 1;
    let mut small: u64 = m;
    while small >= 9007199254740992
        invariant
            1 <= p <= 4096,
            small == m / p,
            double_spacing(m as nat) == p * double_spacing(small as nat),
        decreases small,
    {
        proof {
            vstd::arithmetic::div_mod::lemma_fundamental_div_mod(m as int, p as int);
            assert(p * small <= m);
            assert(p < 2048) by (nonlinear_arith)
                requires
                    small >= 9007199254740992,
                    p * small <= m,
                    m < 18446744073709551616,
            {}
            vstd::arithmetic::div_mod::lemma_div_denominator(m as int, p as int, 2);
            let ghost half = double_spacing((small / 2) as nat);
            assert(p * (2 * half) == (p * 2) * half) by (nonlinear_arith);
        }
        small = small / 2;
        p = p * 2;
    }
    proof {
        lemma_spacing_positive(m as nat);
        let one = double_spacing(small as nat);
        assert(one == 1);
        assert(p * one == p) by (nonlinear_arith)
            requires
                one == 1,
        {}
        assert(double_spacing(m as nat) == p);
    }
    let r: u64 = m % p;
    let up: bool = 2 * r > p || (2 * r == p && small % 2 == 1);
    let q: u128 = if up {
        small as u128 + 1
    } else {
        small as u128
    };
    assert(small == m as nat / double_spacing(m as nat));
    assert(r == m as nat % double_spacing(m as nat));
    assert(q * (p as u128) <= 9007199254740992 * 4096) by (nonlinear_arith)
        requires
            q <= 9007199254740992,
            p <= 4096,
    {}
    q * (p as u128)
}

/// A number holding the integer `n` exactly; `m` is its magnitude and
/// its float renderings are those of `n as f64`.
fn integer_number(negative: bool, m: u64) -> (r: Json)
    requires
        negative ==> m > 0,
    ensures
        r.kind matches JsonKind::Number(x) && x.fixed0@ == (if negative {
            seq!['-'] + dec(nearest_double(m as nat))
        } else {
            dec(nearest_double(m as nat))
        }) && x.fixed1@ == x.fixed0@ + ".0"@ && x.as_u64 == (if negative {
            None
        } else {
            Some(m)
        }) && x.as_i64 == (if negative {
            if m <= 9223372036854775808 {
                Some((-(m as int)) as i64)
            } else {
                None
            }
        } else if m <= 9223372036854775807 {
            Some(m as i64)
        } else {
            None
        }),
        r.text@ == (if negative {
            seq!['-'] + dec(m as nat)
        } else {
            dec(m as nat)
        }),
{
    let f = round_to_double(m);
    let mut d: Vec<char> = Vec::new();
    let mut t: Vec<char> = Vec::new();
    if negative {
        d.push('-');
        t.push('-');
    }
    push_decimal_wide(&mut d, f);
    push_decimal_wide(&mut t, m as u128);
    let mut d1: Vec<char> = d.clone();
    push_str(&mut d1, ".0");
    let as_i64: Option<i64> = if negative {
        if m == 9223372036854775808 {
            Some(i64::MIN)
        } else if m < 9223372036854775808 {
            Some(-(m as i64))
        } else {
            None
        }
    } else if m <= 9223372036854775807 {
        Some(m as i64)
    } else {
        None
    };
    let num = JsonNumber {
        as_u64: if negative {
            None
        } else {
            Some(m)
        },
        as_i64,
        fixed0: string_of(&d),
        fixed1: string_of(&d1),
    };
    Json { kind: JsonKind::Number(num), text: string_of(&t) }
}

/// A JSON integer, as serde_json keeps an `i64`.
pub fn int_value(n: i64) -> (r: Json)
    ensures
        r.kind matches JsonKind::Number(x) && x.as_i64 == Some(n) && x.as_u64 == (if n >= 0 {
            Some(n as u64)
        } else {
            None
        }) && x.fixed0@ == dec_signed(as_double(n as int)) && x.fixed1@ == dec_signed(
            as_double(n as int),
        ) + ".0"@,
        r.text@ == dec_signed(n as int),
{
    if n < 0 {
        let m: u64 = ((-(n + 1)) as u64) + 1;
        let r = integer_number(true, m);
        proof {
            lemma_nearest_positive(m as nat);
        }
        r
    } else {
        integer_number(false, n as u64)
    }
}

/// A JSON integer, as serde_json keeps a `u64`.
pub fn uint_value(n: u64) -> (r: Json)
    ensures
        r.kind matches JsonKind::Number(x) && x.as_u64 == Some(n) && x.as_i64 == (if n
            <= 9223372036854775807 {
            Some(n as i64)
        } else {
            None
        }) && x.fixed0@ == dec(nearest_double(n as nat)) && x.fixed1@ == dec(nearest_double(n as nat)) + ".0"@,
        r.text@ == dec(n as nat),
{
    integer_number(false, n)
}

/// `"key":value` texts of object entries.
pub open spec fn entry_texts(es: Seq<(String, Json)>) -> Seq<Seq<char>> {
    Seq::new(es.len(), |i: int| json_quoted(es[i].0@) + ":"@ + es[i].1.text@)
}

/// The compact text of an object with these entries, in this order.
pub open spec fn object_text(es: Seq<(String, Json)>) -> Seq<char> {
    "{"@ + join(entry_texts(es), ","@) + "}"@
}

/// An object of these entries (given in the order they are written).
pub fn object_value(entries: Vec<(String, Json)>) -> (r: Json)
    ensures
        r.kind == JsonKind::Object(entries),
        r.text@ == object_text(entries@),
{
    let mut body: Vec<char> = Vec::new();
    let mut i: usize = 0;
    while i < entries.len()
        invariant
            i <= entries@.len(),
            body@ == join(entry_texts(entries@).take(i as int), ","@),
        decreases entries@.len() - i,
    {
        let mut t: Vec<char> = Vec::new();
        push_str(&mut t, json_quote(entries[i].0.as_str()).as_str());
        push_str(&mut t, ":");
        push_str(&mut t, entries[i].1.text.as_str());
        join_push(&mut body, i, ",", &t, Ghost(entry_texts(entries@).take(i as int)));
        assert(entry_texts(entries@).take(i + 1) =~= entry_texts(entries@).take(i as int).push(t@));
        i = i + 1;
    }
    assert(entry_texts(entries@).take(entries@.len() as int) =~= entry_texts(entries@));
    let mut out: Vec<char> = Vec::new();
    push_str(&mut out, "{");
    push_str(&mut out, string_of(&body).as_str());
    push_str(&mut out, "}");
    Json { kind: JsonKind::Object(entries), text: string_of(&out) }
}

/// The compact text of an array of these values.
pub open spec fn array_text(items: Seq<Json>) -> Seq<char> {
    "["@ + join(Seq::new(items.len(), |i: int| items[i].text@), ","@) + "]"@
}

pub fn array_value(items: Vec<Json>) -> (r: Json)
    ensures
        r.kind == JsonKind::Array(items),
        r.text@ == array_text(items@),
{
    let ghost ts = Seq::new(items@.len(), |i: int| items@[i].text@);
    let mut body: Vec<char> = Vec::new();
    let mut i: usize = 0;
    while i < items.len()
        invariant
            i <= items@.len(),
            ts == Seq::new(items@.len(), |i: int| items@[i].text@),
            body@ == join(ts.take(i as int), ","@),
        decreases items@.len() - i,
    {
        let t = chars_of(items[i].text.as_str());
        join_push(&mut body, i, ",", &t, Ghost(ts.take(i as int)));
        assert(ts.take(i + 1) =~= ts.take(i as int).push(t@));
        i = i + 1;
    }
    assert(ts.take(items@.len() as int) =~= ts);
    let mut out: Vec<char> = Vec::new();
    push_str(&mut out, "[");
    push_str(&mut out, string_of(&body).as_str());
    push_str(&mut out, "]");
    Json { kind: JsonKind::Array(items), text: string_of(&out) }
}

} // verus!
