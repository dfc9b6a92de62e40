//! Character-sequence model of strings and the text operations the rest of
//! the library is written with.
//!
//! A `String` or `&str` is viewed as a `Seq<char>`.  Byte offsets, which the
//! runtime uses for lengths and slicing, are recovered with `byte_len`.
use vstd::prelude::*;

verus! {

// ─── UTF-8 byte lengths ──────────────────────────────────────────────────────

/// Number of bytes the UTF-8 encoding of `c` takes.
pub open spec fn char_width(c: char) -> nat {
    if (c as u32) < 0x80 {
        1
    } else if (c as u32) < 0x800 {
        2
    } else if (c as u32) < 0x10000 {
        3
    } else {
        4
    }
}

/// Number of bytes the UTF-8 encoding of `s` takes (what `str::len` returns).
pub open spec fn byte_len(s: Seq<char>) -> nat
    decreases s.len(),
{
    if s.len() == 0 {
        0
    } else {
        char_width(s[0]) + byte_len(s.drop_first())
    }
}

pub proof fn lemma_byte_len_concat(a: Seq<char>, b: Seq<char>)
    ensures
        byte_len(a + b) == byte_len(a) + byte_len(b),
    decreases a.len(),
{
    if a.len() == 0 {
        assert(a + b =~= b);
    } else {
        assert((a + b).drop_first() =~= a.drop_first() + b);
        lemma_byte_len_concat(a.drop_first(), b);
    }
}

pub proof fn lemma_byte_len_push(a: Seq<char>, c: char)
    ensures
        byte_len(a.push(c)) == byte_len(a) + char_width(c),
{
    lemma_byte_len_concat(a, seq![c]);
    assert(a.push(c) =~= a + seq![c]);
    assert(seq![c].drop_first() =~= Seq::<char>::empty());
    assert(byte_len(Seq::<char>::empty()) == 0);
    assert(byte_len(seq![c]) == char_width(c));
}

pub proof fn lemma_byte_len_bounds(s: Seq<char>)
    ensures
        s.len() <= byte_len(s) <= 4 * s.len(),
    decreases s.len(),
{
    if s.len() > 0 {
        lemma_byte_len_bounds(s.drop_first());
    }
}

/// All characters are ASCII.
pub open spec fn all_ascii(s: Seq<char>) -> bool {
    forall|i: int| 0 <= i < s.len() ==> (#[trigger] s[i] as u32) < 0x80
}

pub proof fn lemma_byte_len_ascii(s: Seq<char>)
    requires
        all_ascii(s),
    ensures
        byte_len(s) == s.len(),
    decreases s.len(),
{
    if s.len() > 0 {
        assert((s[0] as u32) < 0x80);
        assert forall|i: int| 0 <= i < s.drop_first().len() implies (#[trigger] s.drop_first()[i]
            as u32) < 0x80 by {
            assert(s.drop_first()[i] == s[i + 1]);
        }
        lemma_byte_len_ascii(s.drop_first());
    }
}

/// The byte length agrees with vstd's UTF-8 encoding.
pub proof fn lemma_byte_len_is_utf8_len(s: Seq<char>)
    ensures
        byte_len(s) == vstd::utf8::encode_utf8(s).len(),
    decreases s.len(),
{
    if s.len() > 0 {
        let c: u32 = s[0] as u32;
        vstd::utf8::char_is_scalar(s[0]);
        lemma_byte_len_is_utf8_len(s.drop_first());
        assert(vstd::utf8::encode_scalar(c).len() == char_width(s[0]));
    }
}

/// Longest prefix of `s` whose encoding fits in `n` bytes.
pub open spec fn take_bytes(s: Seq<char>, n: int) -> Seq<char>
    decreases s.len(),
{
    if s.len() == 0 || char_width(s[0]) > n {
        Seq::empty()
    } else {
        seq![s[0]] + take_bytes(s.drop_first(), n - char_width(s[0]))
    }
}

/// Byte offset `n` falls between two characters of `s` (or at either end).
pub open spec fn is_boundary(s: Seq<char>, n: int) -> bool {
    0 <= n <= byte_len(s) && byte_len(take_bytes(s, n)) == n
}

/// Byte offset of the character at index `i`.
pub open spec fn byte_offset(s: Seq<char>, i: int) -> nat {
    byte_len(s.take(i))
}

pub proof fn lemma_take_bytes_all(s: Seq<char>, n: int)
    requires
        byte_len(s) <= n,
    ensures
        take_bytes(s, n) == s,
    decreases s.len(),
{
    if s.len() > 0 {
        lemma_take_bytes_all(s.drop_first(), n - char_width(s[0]));
        assert(s =~= seq![s[0]] + s.drop_first());
    }
}

pub proof fn lemma_take_bytes_props(s: Seq<char>, n: int)
    ensures
        take_bytes(s, n).len() <= s.len(),
        take_bytes(s, n) == s.take(take_bytes(s, n).len() as int),
        byte_len(take_bytes(s, n)) <= (if n < 0 { 0 } else { n }),
    decreases s.len(),
{
    if s.len() > 0 && char_width(s[0]) <= n {
        let t = take_bytes(s.drop_first(), n - char_width(s[0]));
        lemma_take_bytes_props(s.drop_first(), n - char_width(s[0]));
        assert(seq![s[0]] + t =~= s.take(t.len() + 1 as int));
        assert((seq![s[0]] + t).drop_first() =~= t);
    }
}

/// `take_bytes` of a prefix taken at its exact byte length gives that prefix.
pub proof fn lemma_take_bytes_of_prefix(s: Seq<char>, i: int)
    requires
        0 <= i <= s.len(),
    ensures
        take_bytes(s, byte_len(s.take(i)) as int) == s.take(i),
    decreases s.len(),
{
    if i == 0 {
        assert(s.take(0) =~= Seq::<char>::empty());
        if s.len() > 0 {
            assert(char_width(s[0]) > 0);
        }
    } else {
        assert(s.take(i).drop_first() =~= s.drop_first().take(i - 1));
        assert(s.take(i)[0] == s[0]);
        lemma_take_bytes_of_prefix(s.drop_first(), i - 1);
        assert(seq![s[0]] + s.drop_first().take(i - 1) =~= s.take(i));
    }
}

// ─── Character classes ───────────────────────────────────────────────────────

/// Unicode `White_Space` property (what `char::is_whitespace` tests).
pub open spec fn is_ws(c: char) -> bool {
    let u = c as u32;
    (0x9 <= u <= 0xD) || u == 0x20 || u == 0x85 || u == 0xA0 || u == 0x1680 || (0x2000 <= u
        <= 0x200A) || u == 0x2028 || u == 0x2029 || u == 0x202F || u == 0x205F || u == 0x3000
}

pub fn is_whitespace(c: char) -> (r: bool)
    ensures
        r == is_ws(c),
{
    let u: u32 = c as u32;
    (0x9 <= u && u <= 0xD) || u == 0x20 || u == 0x85 || u == 0xA0 || u == 0x1680 || (0x2000 <= u
        && u <= 0x200A) || u == 0x2028 || u == 0x2029 || u == 0x202F || u == 0x205F || u == 0x3000
}

pub open spec fn is_ascii_digit_spec(c: char) -> bool {
    '0' <= c <= '9'
}

pub open spec fn is_ascii_alnum_spec(c: char) -> bool {
    ('0' <= c <= '9') || ('a' <= c <= 'z') || ('A' <= c <= 'Z')
}

pub fn is_ascii_alnum(c: char) -> (r: bool)
    ensures
        r == is_ascii_alnum_spec(c),
{
    ('0' <= c && c <= '9') || ('a' <= c && c <= 'z') || ('A' <= c && c <= 'Z')
}

/// What `char::is_alphabetic` answers (the Unicode `Alphabetic` property).
pub uninterp spec fn alphabetic(c: char) -> bool;

/// Calls `char::is_alphabetic`; its answer depends on `c` alone.
#[verifier::external_body]
pub fn is_alphabetic(c: char) -> (r: bool)
    ensures
        r == alphabetic(c),
{
    c.is_alphabetic()
}

/// What `str::to_lowercase` returns (Unicode lowercase mapping).
pub uninterp spec fn lowercase(s: Seq<char>) -> Seq<char>;

/// Calls `str::to_lowercase`; its result depends on the text alone.
#[verifier::external_body]
pub fn to_lowercase(s: &str) -> (r: String)
    ensures
        r@ == lowercase(s@),
{
    s.to_lowercase()
}

/// ASCII lowercase of one character (what `char::to_ascii_lowercase` does).
pub open spec fn ascii_lower(c: char) -> char {
    if 'A' <= c <= 'Z' {
        ((c as u32) + 32) as char
    } else {
        c
    }
}

// ─── Conversions between `str` and character vectors ────────────────────────

/// Collects `s.chars()` into a vector: the characters of `s`, in order.
#[verifier::external_body]
pub fn chars_of(s: &str) -> (v: Vec<char>)
    ensures
        v@ == s@,
{
    s.chars().collect()
}

/// Collects characters into a `String` (`FromIterator<char>`).
#[verifier::external_body]
pub fn string_of(v: &[char]) -> (s: String)
    ensures
        s@ == v@,
{
    v.iter().collect()
}

/// Appends the characters of a literal or other `&str` to a character vector.
pub fn push_str(out: &mut Vec<char>, s: &str)
    ensures
        final(out)@ == old(out)@ + s@,
{
    let v = chars_of(s);
    push_chars(out, &v);
}

pub fn push_chars(out: &mut Vec<char>, v: &[char])
    ensures
        final(out)@ == old(out)@ + v@,
{
    let mut i: usize = 0;
    while i < v.len()
        invariant
            i <= v@.len(),
            out@ == old(out)@ + v@.take(i as int),
        decreases v.len() - i,
    {
        out.push(v[i]);
        i = i + 1;
        assert(v@.take(i as int) =~= v@.take(i - 1).push(v@[i - 1]));
    }
    assert(v@.take(v@.len() as int) =~= v@);
}

// ─── Searching ───────────────────────────────────────────────────────────────

/// `n` occurs in `h` starting at character index `i`.
pub open spec fn occurs_at(h: Seq<char>, n: Seq<char>, i: int) -> bool {
    0 <= i && i + n.len() <= h.len() && h.subrange(i, i + n.len()) == n
}

/// First occurrence of `n` in `h` at an index `>= i`.
pub open spec fn find_from(h: Seq<char>, n: Seq<char>, i: int) -> Option<int>
    decreases h.len() - i,
{
    if i < 0 || i + n.len() > h.len() {
        None
    } else if occurs_at(h, n, i) {
        Some(i)
    } else if i >= h.len() {
        None
    } else {
        find_from(h, n, i + 1)
    }
}

/// First occurrence of `n` in `h` (what `str::find` locates), as a character index.
pub open spec fn find_first(h: Seq<char>, n: Seq<char>) -> Option<int> {
    find_from(h, n, 0)
}

pub open spec fn contains_seq(h: Seq<char>, n: Seq<char>) -> bool {
    find_first(h, n) is Some
}

pub proof fn lemma_find_from_props(h: Seq<char>, n: Seq<char>, i: int)
    requires
        0 <= i,
    ensures
        match find_from(h, n, i) {
            Some(k) => i <= k && occurs_at(h, n, k) && forall|j: int|
                i <= j < k ==> !occurs_at(h, n, j),
            None => forall|j: int| i <= j ==> !occurs_at(h, n, j),
        },
    decreases h.len() - i,
{
    if i + n.len() > h.len() {
    } else if occurs_at(h, n, i) {
    } else if i >= h.len() {
        assert(n.len() == 0);
        assert(h.subrange(i, i) =~= n);
    } else {
        lemma_find_from_props(h, n, i + 1);
    }
}

fn matches_at(h: &[char], n: &[char], i: usize) -> (r: bool)
    requires
        i + n@.len() <= h@.len(),
    ensures
        r == occurs_at(h@, n@, i as int),
{
    let mut k: usize = 0;
    while k < n.len()
        invariant
            i + n@.len() <= h.len(),
            k <= n@.len(),
            forall|j: int| 0 <= j < k ==> h@[i + j] == n@[j],
        decreases n.len() - k,
    {
        if h[i + k] != n[k] {
            assert(h@.subrange(i as int, i + n@.len())[k as int] != n@[k as int]);
            return false;
        }
        k = k + 1;
    }
    assert(h@.subrange(i as int, i + n@.len()) =~= n@);
    true
}

/// First occurrence of `n` in `h` at character index `>= start`.
pub fn find_chars_from(h: &[char], n: &[char], start: usize) -> (r: Option<usize>)
    ensures
        r == (match find_from(h@, n@, start as int) {
            Some(k) => Some(k as usize),
            None => None,
        }),
{
    if n.len() > h.len() {
        assert(find_from(h@, n@, start as int) is None);
        return None;
    }
    if n.len() == 0 {
        if start <= h.len() {
            assert(h@.subrange(start as int, start as int) =~= n@);
            return Some(start);
        } else {
            return None;
        }
    }
    let hl: usize = h.len();
    assert(hl == h@.len());
    let last: usize = h.len() - n.len();
    let mut i: usize = start;
    while i <= last
        invariant
            last == h@.len() - n@.len(),
            h@.len() == hl,
            n@.len() > 0,
            start <= i,
            find_from(h@, n@, start as int) == find_from(h@, n@, i as int),
        decreases last + 1 - i,
    {
        if matches_at(h, n, i) {
            return Some(i);
        }
        i = i + 1;
    }
    None
}

/// First occurrence of `n` in `h`, as a character index.
pub fn find_chars(h: &[char], n: &[char]) -> (r: Option<usize>)
    ensures
        r == (match find_first(h@, n@) {
            Some(k) => Some(k as usize),
            None => None,
        }),
{
    find_chars_from(h, n, 0)
}

pub fn contains_chars(h: &[char], n: &[char]) -> (r: bool)
    ensures
        r == contains_seq(h@, n@),
{
    find_chars(h, n).is_some()
}

/// `h` contains the text of `n`.
pub fn contains_str(h: &[char], n: &str) -> (r: bool)
    ensures
        r == contains_seq(h@, n@),
{
    let nv = chars_of(n);
    contains_chars(h, &nv)
}

pub open spec fn starts_with_seq(h: Seq<char>, p: Seq<char>) -> bool {
    p.len() <= h.len() && h.take(p.len() as int) == p
}

pub fn starts_with_chars(h: &[char], p: &[char]) -> (r: bool)
    ensures
        r == starts_with_seq(h@, p@),
{
    if p.len() > h.len() {
        return false;
    }
    let r: bool = matches_at(h, p, 0);
    assert(h@.subrange(0, p@.len() as int) =~= h@.take(p@.len() as int));
    r
}

// ─── Slicing, trimming, replacing ────────────────────────────────────────────

pub fn slice_chars(v: &[char], from: usize, to: usize) -> (r: Vec<char>)
    requires
        from <= to <= v@.len(),
    ensures
        r@ == v@.subrange(from as int, to as int),
{
    let mut out: Vec<char> = Vec::new();
    let mut i: usize = from;
    while i < to
        invariant
            from <= i <= to <= v@.len(),
            out@ == v@.subrange(from as int, i as int),
        decreases to - i,
    {
        out.push(v[i]);
        i = i + 1;
        assert(out@ =~= v@.subrange(from as int, i as int));
    }
    out
}

/// Index of the first character of `s` that is not whitespace (`s.len()` if none).
pub open spec fn ws_prefix_len(s: Seq<char>) -> int
    decreases s.len(),
{
    if s.len() > 0 && is_ws(s[0]) {
        1 + ws_prefix_len(s.drop_first())
    } else {
        0
    }
}

/// Number of trailing whitespace characters of `s`.
pub open spec fn ws_suffix_len(s: Seq<char>) -> int
    decreases s.len(),
{
    if s.len() > 0 && is_ws(s.last()) {
        1 + ws_suffix_len(s.drop_last())
    } else {
        0
    }
}

/// `str::trim_start`.
pub open spec fn trim_start(s: Seq<char>) -> Seq<char> {
    s.skip(ws_prefix_len(s))
}

/// `str::trim_end`.
pub open spec fn trim_end(s: Seq<char>) -> Seq<char> {
    s.take(s.len() - ws_suffix_len(s))
}

/// `str::trim`.
pub open spec fn trim(s: Seq<char>) -> Seq<char> {
    trim_end(trim_start(s))
}

pub proof fn lemma_ws_prefix_len(s: Seq<char>, i: int)
    requires
        0 <= i <= s.len(),
        forall|j: int| 0 <= j < i ==> is_ws(#[trigger] s[j]),
    ensures
        ws_prefix_len(s) == i + ws_prefix_len(s.skip(i)),
        0 <= ws_prefix_len(s) <= s.len(),
    decreases i,
{
    if i == 0 {
        assert(s.skip(0) =~= s);
        lemma_ws_prefix_bounds(s);
    } else {
        assert(is_ws(s[0]));
        assert forall|j: int| 0 <= j < i - 1 implies is_ws(#[trigger] s.drop_first()[j]) by {
            assert(s.drop_first()[j] == s[j + 1]);
        }
        lemma_ws_prefix_len(s.drop_first(), i - 1);
        assert(s.drop_first().skip(i - 1) =~= s.skip(i));
    }
}

pub proof fn lemma_ws_prefix_bounds(s: Seq<char>)
    ensures
        0 <= ws_prefix_len(s) <= s.len(),
        forall|j: int| 0 <= j < ws_prefix_len(s) ==> is_ws(#[trigger] s[j]),
        ws_prefix_len(s) < s.len() ==> !is_ws(s[ws_prefix_len(s)]),
    decreases s.len(),
{
    if s.len() > 0 && is_ws(s[0]) {
        lemma_ws_prefix_bounds(s.drop_first());
        assert forall|j: int| 0 <= j < ws_prefix_len(s) implies is_ws(#[trigger] s[j]) by {
            if j > 0 {
                assert(s[j] == s.drop_first()[j - 1]);
            }
        }
        if ws_prefix_len(s) < s.len() {
            assert(s[ws_prefix_len(s)] == s.drop_first()[ws_prefix_len(s.drop_first())]);
        }
    }
}

pub proof fn lemma_ws_suffix_len(s: Seq<char>, i: int)
    requires
        0 <= i <= s.len(),
        forall|j: int| s.len() - i <= j < s.len() ==> is_ws(#[trigger] s[j]),
    ensures
        ws_suffix_len(s) == i + ws_suffix_len(s.take(s.len() - i)),
    decreases i,
{
    if i == 0 {
        assert(s.take(s.len() as int) =~= s);
    } else {
        assert(is_ws(s.last()));
        assert forall|j: int| s.drop_last().len() - (i - 1) <= j < s.drop_last().len() implies is_ws(
            #[trigger] s.drop_last()[j],
        ) by {
            assert(s.drop_last()[j] == s[j]);
        }
        lemma_ws_suffix_len(s.drop_last(), i - 1);
        assert(s.drop_last().take(s.drop_last().len() - (i - 1)) =~= s.take(s.len() - i));
    }
}

pub proof fn lemma_ws_suffix_bounds(s: Seq<char>)
    ensures
        0 <= ws_suffix_len(s) <= s.len(),
    decreases s.len(),
{
    if s.len() > 0 && is_ws(s.last()) {
        lemma_ws_suffix_bounds(s.drop_last());
    }
}

proof fn lemma_ws_suffix_stop(s: Seq<char>)
    ensures
        0 <= ws_suffix_len(s) <= s.len(),
        ws_suffix_len(s) < s.len() ==> !is_ws(s[s.len() - 1 - ws_suffix_len(s)]),
    decreases s.len(),
{
    if s.len() > 0 && is_ws(s.last()) {
        lemma_ws_suffix_stop(s.drop_last());
        if ws_suffix_len(s) < s.len() {
            assert(s[s.len() - 1 - ws_suffix_len(s)] == s.drop_last()[s.drop_last().len() - 1
                - ws_suffix_len(s.drop_last())]);
        }
    }
}

/// Trimming a trimmed text changes nothing.
pub proof fn lemma_trim_idempotent(s: Seq<char>)
    ensures
        trim(trim(s)) == trim(s),
{
    lemma_ws_prefix_bounds(s);
    let t = trim_start(s);
    lemma_ws_suffix_stop(t);
    let u = trim(s);
    assert(u == t.take(t.len() - ws_suffix_len(t)));
    if u.len() > 0 {
        assert(u[0] == t[0]);
        assert(t[0] == s[ws_prefix_len(s)]);
        assert(u[u.len() - 1] == t[t.len() - 1 - ws_suffix_len(t)]);
    }
    assert(ws_prefix_len(u) == 0);
    assert(u.skip(0) =~= u);
    assert(ws_suffix_len(u) == 0);
    assert(u.take(u.len() as int) =~= u);
}

/// Number of leading whitespace characters.
pub fn leading_ws(v: &[char]) -> (r: usize)
    ensures
        r == ws_prefix_len(v@),
{
    let mut i: usize = 0;
    while i < v.len() && is_whitespace(v[i])
        invariant
            i <= v@.len(),
            forall|j: int| 0 <= j < i ==> is_ws(#[trigger] v@[j]),
        decreases v.len() - i,
    {
        i = i + 1;
    }
    proof {
        lemma_ws_prefix_len(v@, i as int);
        let rest = v@.skip(i as int);
        if i < v@.len() {
            assert(rest[0] == v@[i as int]);
        } else {
            assert(rest.len() == 0);
        }
    }
    i
}

/// Number of trailing whitespace characters.
pub fn trailing_ws(v: &[char]) -> (r: usize)
    ensures
        r == ws_suffix_len(v@),
        r <= v@.len(),
{
    let mut i: usize = 0;
    while i < v.len() && is_whitespace(v[v.len() - 1 - i])
        invariant
            i <= v@.len(),
            forall|j: int| v@.len() - i <= j < v@.len() ==> is_ws(#[trigger] v@[j]),
        decreases v.len() - i,
    {
        i = i + 1;
    }
    proof {
        lemma_ws_suffix_len(v@, i as int);
        let rest = v@.take(v@.len() - i);
        if i < v@.len() {
            assert(rest.last() == v@[v@.len() - 1 - i]);
        } else {
            assert(rest.len() == 0);
        }
    }
    i
}

pub fn trim_chars(v: &[char]) -> (r: Vec<char>)
    ensures
        r@ == trim(v@),
{
    let a: usize = leading_ws(v);
    proof {
        lemma_ws_prefix_bounds(v@);
    }
    let rest = slice_chars(v, a, v.len());
    assert(rest@ =~= trim_start(v@));
    let b: usize = trailing_ws(&rest);
    let out = slice_chars(&rest, 0, rest.len() - b);
    assert(out@ =~= trim(v@));
    out
}

pub fn trim_start_chars(v: &[char]) -> (r: Vec<char>)
    ensures
        r@ == trim_start(v@),
{
    let a: usize = leading_ws(v);
    proof {
        lemma_ws_prefix_bounds(v@);
    }
    let rest = slice_chars(v, a, v.len());
    assert(rest@ =~= trim_start(v@));
    rest
}

pub fn trim_end_chars(v: &[char]) -> (r: Vec<char>)
    ensures
        r@ == trim_end(v@),
{
    let b: usize = trailing_ws(v);
    let out = slice_chars(v, 0, v.len() - b);
    assert(out@ =~= trim_end(v@));
    out
}

/// `str::replace(pat, with)`: every non-overlapping occurrence of `p`, scanned
/// from the left, replaced by `r`.
pub open spec fn replace_all(s: Seq<char>, p: Seq<char>, r: Seq<char>) -> Seq<char>
    recommends
        p.len() > 0,
    decreases s.len(),
{
    if p.len() == 0 {
        s
    } else {
        match find_first(s, p) {
            None => s,
            Some(i) => if 0 <= i && i + p.len() <= s.len() {
                s.take(i) + r + replace_all(s.skip(i + p.len()), p, r)
            } else {
                s
            },
        }
    }
}

pub proof fn lemma_find_from_shift(s: Seq<char>, p: Seq<char>, k: int, i: int)
    requires
        0 <= k <= s.len(),
        0 <= i,
    ensures
        find_from(s.skip(k), p, i) == (match find_from(s, p, k + i) {
            Some(j) => Some(j - k),
            None => None,
        }),
    decreases s.len() - k - i,
{
    let t = s.skip(k);
    if i + p.len() > t.len() {
    } else {
        assert(t.subrange(i, i + p.len()) =~= s.subrange(k + i, k + i + p.len()));
        if occurs_at(t, p, i) {
        } else if i >= t.len() {
        } else {
            lemma_find_from_shift(s, p, k, i + 1);
        }
    }
}

/// Removing a pattern never lengthens a text, and leaves its length as it
/// was only when the pattern does not occur.
pub proof fn lemma_remove_all_len(s: Seq<char>, p: Seq<char>)
    requires
        p.len() > 0,
    ensures
        replace_all(s, p, Seq::empty()).len() <= s.len(),
        replace_all(s, p, Seq::empty()).len() == s.len() ==> find_first(s, p) is None,
    decreases s.len(),
{
    lemma_find_from_props(s, p, 0);
    match find_first(s, p) {
        None => {},
        Some(i) => {
            lemma_remove_all_len(s.skip(i + p.len()), p);
        },
    }
}

/// `s.replace(p, r)` for a non-empty pattern.
pub fn replace_chars(s: &[char], p: &[char], r: &[char]) -> (out: Vec<char>)
    requires
        p@.len() > 0,
    ensures
        out@ == replace_all(s@, p@, r@),
{
    let mut out: Vec<char> = Vec::new();
    let mut pos: usize = 0;
    let sl: usize = s.len();
    proof {
        assert(s@.skip(0) =~= s@);
    }
    loop
        invariant
            p@.len() > 0,
            sl == s@.len(),
            pos <= s@.len(),
            out@ + replace_all(s@.skip(pos as int), p@, r@) == replace_all(s@, p@, r@),
        decreases s@.len() - pos,
    {
        let found = find_chars_from(s, p, pos);
        proof {
            lemma_find_from_shift(s@, p@, pos as int, 0);
            lemma_find_from_props(s@, p@, pos as int);
        }
        match found {
            None => {
                let tail = slice_chars(s, pos, s.len());
                push_chars(&mut out, &tail);
                assert(tail@ =~= s@.skip(pos as int));
                return out;
            },
            Some(k) => {
                let ghost t = s@.skip(pos as int);
                let ghost old_out = out@;
                assert(find_from(s@, p@, pos as int) is Some);
                let ghost j = find_from(s@, p@, pos as int)->0;
                assert(j + p@.len() <= s@.len());
                assert(j == k);
                let mid = slice_chars(s, pos, k);
                push_chars(&mut out, &mid);
                push_chars(&mut out, r);
                proof {
                    let rest = replace_all(s@.skip(k + p@.len()), p@, r@);
                    assert(mid@ =~= t.take(k - pos));
                    assert(t.skip(k - pos + p@.len()) =~= s@.skip(k + p@.len()));
                    assert(find_first(t, p@) == Some(k - pos));
                    assert(replace_all(t, p@, r@) == t.take(k - pos) + r@ + rest);
                    assert(out@ + rest =~= old_out + (mid@ + r@ + rest));
                }
                pos = k + p.len();
            },
        }
    }
}

} // verus!

verus! {

// ─── Decimal formatting ──────────────────────────────────────────────────────

pub open spec fn digit_char(d: nat) -> char {
    (('0' as u32) + d) as char
}

/// Decimal digits of `n`, as `{}` prints an unsigned integer.
pub open spec fn dec(n: nat) -> Seq<char>
    decreases n,
{
    if n < 10 {
        seq![digit_char(n)]
    } else {
        dec(n / 10).push(digit_char(n % 10))
    }
}

/// `{}` of a signed integer.
pub open spec fn dec_signed(n: int) -> Seq<char> {
    if n < 0 {
        seq!['-'] + dec((-n) as nat)
    } else {
        dec(n as nat)
    }
}

pub fn push_decimal(out: &mut Vec<char>, n: u64)
    ensures
        final(out)@ == old(out)@ + dec(n as nat),
    decreases n,
{
    if n >= 10 {
        push_decimal(out, n / 10);
    }
    let d: u32 = (n % 10) as u32;
    let c: char = char_from_digit(d);
    out.push(c);
    assert(old(out)@ + dec(n as nat) =~= if n >= 10 {
        old(out)@ + dec((n / 10) as nat) + seq![c]
    } else {
        old(out)@ + seq![c]
    });
}

/// `push_decimal` for values past `u64`.
pub fn push_decimal_wide(out: &mut Vec<char>, n: u128)
    ensures
        final(out)@ == old(out)@ + dec(n as nat),
    decreases n,
{
    if n >= 10 {
        push_decimal_wide(out, n / 10);
    }
    let d: u32 = (n % 10) as u32;
    let c: char = char_from_digit(d);
    out.push(c);
    assert(old(out)@ + dec(n as nat) =~= if n >= 10 {
        old(out)@ + dec((n / 10) as nat) + seq![c]
    } else {
        old(out)@ + seq![c]
    });
}

fn char_from_digit(d: u32) -> (c: char)
    requires
        d < 10,
    ensures
        c == digit_char(d as nat),
{
    if d == 0 {
        '0'
    } else if d == 1 {
        '1'
    } else if d == 2 {
        '2'
    } else if d == 3 {
        '3'
    } else if d == 4 {
        '4'
    } else if d == 5 {
        '5'
    } else if d == 6 {
        '6'
    } else if d == 7 {
        '7'
    } else if d == 8 {
        '8'
    } else {
        '9'
    }
}

pub fn push_decimal_signed(out: &mut Vec<char>, n: i64)
    ensures
        final(out)@ == old(out)@ + dec_signed(n as int),
{
    if n < 0 {
        out.push('-');
        let m: u64 = ((-(n + 1)) as u64) + 1;
        push_decimal(out, m);
        assert(old(out)@ + dec_signed(n as int) =~= old(out)@.push('-') + dec(m as nat));
    } else {
        push_decimal(out, n as u64);
    }
}

// ─── Decimal parsing ─────────────────────────────────────────────────────────

pub open spec fn is_digit(c: char) -> bool {
    '0' <= c <= '9'
}

pub open spec fn all_digits(s: Seq<char>) -> bool {
    forall|i: int| 0 <= i < s.len() ==> is_digit(#[trigger] s[i])
}

/// Value of a string of decimal digits.
pub open spec fn digits_value(s: Seq<char>) -> nat
    decreases s.len(),
{
    if s.len() == 0 {
        0
    } else {
        digits_value(s.drop_last()) * 10 + ((s.last() as u32) - ('0' as u32)) as nat
    }
}

/// What `str::parse::<u64>` accepts: an optional `+`, then one or more
/// digits, with a value that fits.
pub open spec fn parse_u64_spec(s: Seq<char>) -> Option<u64> {
    let body = if s.len() > 0 && s[0] == '+' {
        s.drop_first()
    } else {
        s
    };
    if body.len() == 0 || !all_digits(body) || digits_value(body) > u64::MAX {
        None
    } else {
        Some(digits_value(body) as u64)
    }
}

/// What `str::parse::<i64>` accepts: an optional sign, then one or more
/// digits, with a value that fits.
pub open spec fn parse_i64_spec(s: Seq<char>) -> Option<i64> {
    let neg = s.len() > 0 && s[0] == '-';
    let body = if s.len() > 0 && (s[0] == '-' || s[0] == '+') {
        s.drop_first()
    } else {
        s
    };
    if body.len() == 0 || !all_digits(body) {
        None
    } else {
        let v: int = if neg {
            -digits_value(body)
        } else {
            digits_value(body) as int
        };
        if i64::MIN <= v <= i64::MAX {
            Some(v as i64)
        } else {
            None
        }
    }
}

proof fn lemma_digits_value_mono(s: Seq<char>, i: int, j: int)
    requires
        0 <= i <= j <= s.len(),
    ensures
        digits_value(s.take(i)) <= digits_value(s.take(j)),
    decreases j - i,
{
    if i < j {
        lemma_digits_value_mono(s, i, j - 1);
        assert(s.take(j).drop_last() =~= s.take(j - 1));
    }
}

/// Digits of `s[from..]` read as a number while it stays at most `limit`;
/// `None` when a character is not a digit, there are none, or the value
/// passes `limit`.
fn digits_upto(s: &[char], from: usize, limit: u64) -> (r: Option<u64>)
    requires
        from <= s@.len(),
    ensures
        match r {
            Some(v) => s@.skip(from as int).len() > 0 && all_digits(s@.skip(from as int)) && v
                == digits_value(s@.skip(from as int)) && v <= limit,
            None => s@.skip(from as int).len() == 0 || !all_digits(s@.skip(from as int))
                || digits_value(s@.skip(from as int)) > limit,
        },
{
    let ghost body = s@.skip(from as int);
    if from == s.len() {
        return None;
    }
    let mut v: u64 = 0;
    let mut i: usize = from;
    while i < s.len()
        invariant
            from <= i <= s@.len(),
            body == s@.skip(from as int),
            all_digits(body.take(i - from)),
            v == digits_value(body.take(i - from)),
            v <= limit,
        decreases s@.len() - i,
    {
        let c = s[i];
        if !('0' <= c && c <= '9') {
            assert(body[i - from] == c);
            return None;
        }
        let d: u64 = ((c as u32) - ('0' as u32)) as u64;
        assert(body.take(i - from + 1).drop_last() =~= body.take(i - from));
        assert(body.take(i - from + 1).last() == c);
        if d > limit || v > (limit - d) / 10 {
            proof {
                if d <= limit {
                    assert(v * 10 + d > limit) by (nonlinear_arith)
                        requires
                            v > (limit - d) / 10,
                            d <= limit,
                    ;
                }
                lemma_digits_value_mono(body, i - from + 1, body.len() as int);
                assert(body.take(body.len() as int) =~= body);
            }
            return None;
        }
        assert(v * 10 + d <= limit) by (nonlinear_arith)
            requires
                v <= (limit - d) / 10,
                d <= limit,
        ;
        v = v * 10 + d;
        i = i + 1;
        assert(all_digits(body.take(i - from))) by {
            assert forall|j: int| 0 <= j < i - from implies is_digit(#[trigger] body.take(i - from)[j]) by {
                if j < i - from - 1 {
                    assert(body.take(i - from)[j] == body.take(i - from - 1)[j]);
                }
            }
        }
    }
    assert(body.take(body.len() as int) =~= body);
    Some(v)
}

/// `str::parse::<u64>`.
pub fn parse_u64(s: &[char]) -> (r: Option<u64>)
    ensures
        r == parse_u64_spec(s@),
{
    let from: usize = if s.len() > 0 && s[0] == '+' {
        1
    } else {
        0
    };
    assert(s@.skip(0) =~= s@);
    assert(s@.skip(1) =~= s@.drop_first());
    digits_upto(s, from, u64::MAX)
}

/// `str::parse::<i64>`.
pub fn parse_i64(s: &[char]) -> (r: Option<i64>)
    ensures
        r == parse_i64_spec(s@),
{
    let neg: bool = s.len() > 0 && s[0] == '-';
    let from: usize = if s.len() > 0 && (s[0] == '-' || s[0] == '+') {
        1
    } else {
        0
    };
    assert(s@.skip(0) =~= s@);
    assert(s@.skip(1) =~= s@.drop_first());
    if neg {
        match digits_upto(s, from, 0x8000_0000_0000_0000u64) {
            Some(m) => {
                if m == 0x8000_0000_0000_0000u64 {
                    Some(i64::MIN)
                } else {
                    Some(-(m as i64))
                }
            },
            None => None,
        }
    } else {
        match digits_upto(s, from, 0x7fff_ffff_ffff_ffffu64) {
            Some(m) => Some(m as i64),
            None => None,
        }
    }
}

// ─── Words ───────────────────────────────────────────────────────────────────

/// `str::split_whitespace`: the maximal runs of non-whitespace characters.
pub open spec fn ws_tokens(s: Seq<char>) -> Seq<Seq<char>>
    decreases s.len(),
{
    if s.len() == 0 {
        Seq::empty()
    } else {
        let t = ws_tokens(s.drop_last());
        let c = s.last();
        if is_ws(c) {
            t
        } else if s.len() >= 2 && !is_ws(s[s.len() - 2]) && t.len() > 0 {
            t.update(t.len() - 1, t.last().push(c))
        } else {
            t.push(seq![c])
        }
    }
}

pub fn split_ws(text: &[char]) -> (r: Vec<Vec<char>>)
    ensures
        r@.map_values(|t: Vec<char>| t@) == ws_tokens(text@),
{
    let mut out: Vec<Vec<char>> = Vec::new();
    let mut i: usize = 0;
    while i < text.len()
        invariant
            i <= text@.len(),
            out@.map_values(|t: Vec<char>| t@) == ws_tokens(text@.take(i as int)),
        decreases text@.len() - i,
    {
        let ghost prev = out@.map_values(|t: Vec<char>| t@);
        assert(text@.take(i + 1).drop_last() =~= text@.take(i as int));
        let c = text[i];
        if is_whitespace(c) {
        } else if i >= 1 && !is_whitespace(text[i - 1]) && out.len() > 0 {
            let mut cur = out.pop().unwrap();
            cur.push(c);
            out.push(cur);
            assert(out@.map_values(|t: Vec<char>| t@) =~= prev.update(
                prev.len() - 1,
                prev.last().push(c),
            ));
        } else {
            let mut cur: Vec<char> = Vec::new();
            cur.push(c);
            out.push(cur);
            assert(out@.map_values(|t: Vec<char>| t@) =~= prev.push(seq![c]));
        }
        i = i + 1;
    }
    assert(text@.take(text@.len() as int) =~= text@);
    out
}

/// What `char::is_numeric` answers (Unicode numeric categories).
pub uninterp spec fn numeric(c: char) -> bool;

/// Calls `char::is_numeric`; its answer depends on `c` alone.
#[verifier::external_body]
pub fn is_numeric(c: char) -> (r: bool)
    ensures
        r == numeric(c),
{
    c.is_numeric()
}

} // verus!
