//! ChatML prompt construction, conversation history, response clean-up and
//! slash-command detection.
//!
//! TinyLlama uses the ChatML layout
//! `<|system|>\n{system}\n<|user|>\n{user}\n<|assistant|>\n`.
use std::collections::VecDeque;
use vstd::prelude::*;
use vstd::string::StrSliceExecFns;
use crate::text::{
    byte_len, byte_offset, char_width, chars_of, find_chars, find_first, is_boundary, is_whitespace,
    is_ws, lemma_byte_len_concat, lemma_byte_len_push, lemma_find_from_props,
    lemma_take_bytes_props, lemma_ws_prefix_bounds, leading_ws, lowercase, push_str,
    replace_all, replace_chars, slice_chars, string_of, take_bytes, to_lowercase, trailing_ws,
    trim, trim_chars, trim_end, trim_end_chars, trim_start, trim_start_chars, all_ascii,
    lemma_byte_len_ascii, push_chars, ws_prefix_len, ws_suffix_len, lemma_remove_all_len, lemma_trim_idempotent,
    occurs_at,
};
use crate::summary::{summarise, try_summarise_plugin_result, PluginOutput};

verus! {

/// Prompt size beyond which older history turns are dropped (bytes).
pub const MAX_CONTEXT_CHARS: usize = 6000;

/// Number of user+assistant pairs kept in the history.
pub const MAX_HISTORY_TURNS: usize = 4;

/// Expected maximum length of a reply (bytes).
pub const MAX_RESPONSE_CHARS: usize = 512;

// ─── Conversation history ────────────────────────────────────────────────────

#[derive(PartialEq, Eq, Structural, Clone, Copy, Debug)]
pub enum Role {
    User,
    Assistant,
}

pub struct Turn {
    pub role: Role,
    pub content: String,
}

/// Sliding window over the most recent turns.
pub struct ConversationHistory {
    turns: VecDeque<Turn>,
}

/// The last `n` elements of `s` (all of `s` when it is shorter).
pub open spec fn keep_last<A>(s: Seq<A>, n: int) -> Seq<A> {
    if s.len() <= n {
        s
    } else {
        s.skip(s.len() - n)
    }
}

impl View for ConversationHistory {
    type V = Seq<Turn>;

    closed spec fn view(&self) -> Seq<Turn> {
        self.turns@
    }
}

impl ConversationHistory {
    /// Invariant: never more than `MAX_HISTORY_TURNS * 2` turns.
    pub closed spec fn wf(&self) -> bool {
        self.turns@.len() <= 2 * MAX_HISTORY_TURNS
    }

    pub fn new() -> (r: Self)
        ensures
            r@ == Seq::<Turn>::empty(),
            r.wf(),
    {
        ConversationHistory { turns: VecDeque::new() }
    }

    /// Appends a turn and drops the oldest ones so that only the last
    /// `MAX_HISTORY_TURNS * 2` remain.
    pub fn push(&mut self, role: Role, content: String)
        ensures
            final(self)@ == keep_last(
                old(self)@.push(Turn { role, content }),
                2 * MAX_HISTORY_TURNS as int,
            ),
            final(self).wf(),
    {
        let ghost all = self.turns@.push(Turn { role, content });
        self.turns.push_back(Turn { role, content });
        while self.turns.len() > MAX_HISTORY_TURNS * 2
            invariant
                self.turns@.len() >= 2 * MAX_HISTORY_TURNS ==> self.turns@ == all.skip(
                    all.len() - self.turns@.len(),
                ),
                self.turns@.len() < 2 * MAX_HISTORY_TURNS ==> self.turns@ == all,
                self.turns@.len() <= all.len(),
            decreases self.turns@.len(),
        {
            let ghost before = self.turns@;
            let _ = self.turns.pop_front();
            assert(self.turns@ =~= all.skip(all.len() - self.turns@.len()));
        }
        proof {
            if all.len() > 2 * MAX_HISTORY_TURNS {
                assert(self.turns@ == all.skip(all.len() - 2 * MAX_HISTORY_TURNS));
            } else if self.turns@.len() == 2 * MAX_HISTORY_TURNS {
                assert(all.skip(0) =~= all);
            }
        }
    }

    pub fn clear(&mut self)
        ensures
            final(self)@ == Seq::<Turn>::empty(),
            final(self).wf(),
    {
        self.turns.clear();
    }

    pub fn len(&self) -> (r: usize)
        ensures
            r == self@.len(),
    {
        self.turns.len()
    }

    /// The turn at position `i`, oldest first.
    pub fn get(&self, i: usize) -> (r: &Turn)
        requires
            i < self@.len(),
        ensures
            *r == self@[i as int],
    {
        &self.turns[i]
    }
}

/// Once at its cap, pushing one turn keeps the length unchanged and the
/// window slides by one: the oldest turn leaves, the new one is last.
pub proof fn law_history_slides(turns: Seq<Turn>, t: Turn)
    requires
        turns.len() == 2 * MAX_HISTORY_TURNS,
    ensures
        keep_last(turns.push(t), 2 * MAX_HISTORY_TURNS as int) == turns.skip(1).push(t),
{
    assert(turns.push(t).skip(1) =~= turns.skip(1).push(t));
}

// ─── Slash commands ──────────────────────────────────────────────────────────

/// Index of the first whitespace character of `s`, if any.
pub open spec fn first_ws(s: Seq<char>) -> Option<int>
    decreases s.len(),
{
    if s.len() == 0 {
        None
    } else if is_ws(s[0]) {
        Some(0)
    } else {
        match first_ws(s.drop_first()) {
            Some(i) => Some(i + 1),
            None => None,
        }
    }
}

/// `(command, args)` of a slash command: the message is trimmed; it must
/// start with `/`; the command runs up to the first whitespace character and
/// the rest, trimmed, is the argument text.
pub open spec fn slash_command(msg: Seq<char>) -> Option<(Seq<char>, Seq<char>)> {
    let m = trim(msg);
    if m.len() == 0 || m[0] != '/' {
        None
    } else {
        let w = m.skip(1);
        match first_ws(w) {
            Some(k) => Some((w.take(k), trim(w.skip(k + 1)))),
            None => Some((w, Seq::empty())),
        }
    }
}

pub proof fn lemma_first_ws(s: Seq<char>, k: int)
    requires
        0 <= k <= s.len(),
        forall|j: int| 0 <= j < k ==> !is_ws(#[trigger] s[j]),
        k < s.len() ==> is_ws(s[k]),
    ensures
        first_ws(s) == (if k < s.len() {
            Some(k)
        } else {
            None::<int>
        }),
    decreases k,
{
    if k > 0 {
        assert(!is_ws(s[0]));
        assert forall|j: int| 0 <= j < k - 1 implies !is_ws(#[trigger] s.drop_first()[j]) by {
            assert(s.drop_first()[j] == s[j + 1]);
        }
        if k < s.len() {
            assert(s.drop_first()[k - 1] == s[k]);
        }
        lemma_first_ws(s.drop_first(), k - 1);
    }
}

/// Returns `(command_name, args)` if the message is a slash command.
pub fn parse_slash_command(msg: &str) -> (r: Option<(&str, &str)>)
    ensures
        match slash_command(msg@) {
            None => r is None,
            Some((c, a)) => r matches Some((rc, ra)) && rc@ == c && ra@ == a,
        },
{
    let v = chars_of(msg);
    let n: usize = msg.unicode_len();
    assert(n == v@.len());
    let a: usize = leading_ws(&v);
    proof {
        lemma_ws_prefix_bounds(v@);
    }
    let rest = slice_chars(&v, a, n);
    let b: usize = trailing_ws(&rest);
    let end: usize = n - b;
    let ghost m = trim(v@);
    assert(m =~= v@.subrange(a as int, end as int));
    if a >= end || v[a] != '/' {
        return None;
    }
    let ghost w = m.skip(1);
    // locate the first whitespace after the slash
    let mut k: usize = a + 1;
    while k < end && !is_whitespace(v[k])
        invariant
            a + 1 <= k <= end <= n == v@.len(),
            w =~= v@.subrange(a + 1, end as int),
            forall|j: int| a + 1 <= j < k ==> !is_ws(#[trigger] v@[j]),
        decreases end - k,
    {
        k = k + 1;
    }
    proof {
        assert forall|j: int| 0 <= j < k - (a + 1) implies !is_ws(#[trigger] w[j]) by {
            assert(w[j] == v@[a + 1 + j]);
        }
        if k < end {
            assert(w[k - (a + 1)] == v@[k as int]);
        }
        lemma_first_ws(w, k - (a + 1));
    }
    let cmd: &str = msg.substring_char(a + 1, k);
    assert(cmd@ =~= w.take(k - (a + 1)));
    if k == end {
        assert(w.take(w.len() as int) =~= w);
        let args: &str = msg.substring_char(end, end);
        assert(args@ =~= Seq::<char>::empty());
        return Some((cmd, args));
    }
    let tail = slice_chars(&v, k + 1, end);
    assert(tail@ =~= w.skip(k - (a + 1) + 1));
    let ta: usize = leading_ws(&tail);
    proof {
        lemma_ws_prefix_bounds(tail@);
    }
    let tail2 = slice_chars(&tail, ta, tail.len());
    let tb: usize = trailing_ws(&tail2);
    let args: &str = msg.substring_char(k + 1 + ta, end - tb);
    assert(args@ =~= trim(tail@));
    Some((cmd, args))
}

// ─── Response post-processing ────────────────────────────────────────────────

/// One pass over a reply, removing each ChatML marker in turn.
pub open spec fn strip_pass(raw: Seq<char>) -> Seq<char> {
    replace_all(
        replace_all(
            replace_all(
                replace_all(replace_all(raw, "<|system|>"@, Seq::empty()), "<|user|>"@, Seq::empty()),
                "<|assistant|>"@,
                Seq::empty(),
            ),
            "<|endoftext|>"@,
            Seq::empty(),
        ),
        "</s>"@,
        Seq::empty(),
    )
}

/// The ChatML markers that may leak into a reply.
pub open spec fn marker(k: int) -> Seq<char> {
    if k == 0 {
        "<|system|>"@
    } else if k == 1 {
        "<|user|>"@
    } else if k == 2 {
        "<|assistant|>"@
    } else if k == 3 {
        "<|endoftext|>"@
    } else {
        "</s>"@
    }
}

/// Text left after removing leaked markers: passes are repeated until one
/// removes nothing, so markers that a removal joins together go too.
pub open spec fn strip_markers(raw: Seq<char>) -> Seq<char>
    decreases raw.len(),
{
    let t = strip_pass(raw);
    if t.len() < raw.len() {
        strip_markers(t)
    } else {
        raw
    }
}

proof fn lemma_strip_pass(s: Seq<char>)
    ensures
        strip_pass(s).len() <= s.len(),
        strip_pass(s).len() == s.len() ==> forall|k: int| 0 <= k < 5 ==> find_first(s, #[trigger] marker(k)) is None,
{
    reveal_strlit("<|system|>");
    reveal_strlit("<|user|>");
    reveal_strlit("<|assistant|>");
    reveal_strlit("<|endoftext|>");
    reveal_strlit("</s>");
    let e = Seq::<char>::empty();
    let r1 = replace_all(s, "<|system|>"@, e);
    let r2 = replace_all(r1, "<|user|>"@, e);
    let r3 = replace_all(r2, "<|assistant|>"@, e);
    let r4 = replace_all(r3, "<|endoftext|>"@, e);
    lemma_remove_all_len(s, "<|system|>"@);
    lemma_remove_all_len(r1, "<|user|>"@);
    lemma_remove_all_len(r2, "<|assistant|>"@);
    lemma_remove_all_len(r3, "<|endoftext|>"@);
    lemma_remove_all_len(r4, "</s>"@);
    if strip_pass(s).len() == s.len() {
        assert(r1 == s);
        assert(r2 == s);
        assert(r3 == s);
        assert(r4 == s);
        assert forall|k: int| 0 <= k < 5 implies find_first(s, #[trigger] marker(k)) is None by {
            if k == 0 {
            } else if k == 1 {
            } else if k == 2 {
            } else if k == 3 {
            } else {
            }
        }
    }
}

/// No marker is left after stripping.
pub proof fn law_markers_stripped(raw: Seq<char>)
    ensures
        forall|k: int| 0 <= k < 5 ==> find_first(strip_markers(raw), #[trigger] marker(k)) is None,
    decreases raw.len(),
{
    lemma_strip_pass(raw);
    if strip_pass(raw).len() < raw.len() {
        law_markers_stripped(strip_pass(raw));
    }
}

/// First index in `s` holding `.` or `\n`.
pub open spec fn first_stop(s: Seq<char>) -> Option<int>
    decreases s.len(),
{
    if s.len() == 0 {
        None
    } else if s[0] == '.' || s[0] == '\n' {
        Some(0)
    } else {
        match first_stop(s.drop_first()) {
            Some(i) => Some(i + 1),
            None => None,
        }
    }
}

/// Last index in `s` holding `.`, `!`, `?` or `\n`.
pub open spec fn last_boundary_mark(s: Seq<char>) -> Option<int>
    decreases s.len(),
{
    if s.len() == 0 {
        None
    } else if s.last() == '.' || s.last() == '!' || s.last() == '?' || s.last() == '\n' {
        Some(s.len() - 1)
    } else {
        last_boundary_mark(s.drop_last())
    }
}

/// Character index whose byte offset in `s` is `b` (when `b` is a boundary).
pub open spec fn char_index_of_byte(s: Seq<char>, b: int) -> int {
    take_bytes(s, b).len() as int
}

/// Byte position in the stripped text where "as an ai" starts in its
/// lowercase form, if it does.
pub open spec fn boilerplate_pos(s: Seq<char>) -> Option<int> {
    match find_first(lowercase(s), "as an ai"@) {
        Some(i) => Some(byte_offset(lowercase(s), i) as int),
        None => None,
    }
}

/// The reply with a leading "As an AI ..." sentence removed: when the phrase
/// starts within the first 20 bytes, everything up to and including the next
/// `.` or newline goes, together with the whitespace after it.
pub open spec fn drop_boilerplate(s: Seq<char>) -> Seq<char> {
    match boilerplate_pos(s) {
        Some(p) => if p < 20 {
            let i = char_index_of_byte(s, p);
            match first_stop(s.skip(i)) {
                Some(e) => trim_start(s.skip(i + e + 1)),
                None => s,
            }
        } else {
            s
        },
        None => s,
    }
}

/// Number of leading newlines.
pub open spec fn nl_prefix_len(s: Seq<char>) -> int
    decreases s.len(),
{
    if s.len() > 0 && s[0] == '\n' {
        1 + nl_prefix_len(s.drop_first())
    } else {
        0
    }
}

/// Every run of three or more newlines shortened to two.
pub open spec fn squeeze_newlines(s: Seq<char>) -> Seq<char>
    decreases s.len(),
{
    if s.len() == 0 {
        s
    } else {
        let r = squeeze_newlines(s.drop_last());
        if s.last() == '\n' && r.len() >= 2 && r[r.len() - 1] == '\n' && r[r.len() - 2] == '\n' {
            r
        } else {
            r.push(s.last())
        }
    }
}

/// Trimmed text before the length cap.
pub open spec fn cleaned_untruncated(raw: Seq<char>) -> Seq<char> {
    let s = drop_boilerplate(strip_markers(raw));
    trim(squeeze_newlines(s.skip(nl_prefix_len(s))))
}

/// The clean-up is defined: the runtime would not slice inside a character.
pub open spec fn clean_response_defined(raw: Seq<char>) -> bool {
    let s = strip_markers(raw);
    &&& match boilerplate_pos(s) {
        Some(p) => p < 20 ==> is_boundary(s, p),
        None => true,
    }
    &&& (byte_len(cleaned_untruncated(raw)) > MAX_RESPONSE_CHARS ==> is_boundary(
        cleaned_untruncated(raw),
        MAX_RESPONSE_CHARS as int,
    ))
}

pub open spec fn fallback_reply() -> Seq<char> {
    "I'm sorry, I couldn't generate a response. Please try again."@
}

/// What `clean_response` returns.
/// The cleaned text cut to `MAX_RESPONSE_CHARS` bytes at the last sentence end.
pub open spec fn capped(t: Seq<char>) -> Seq<char> {
    if byte_len(t) > MAX_RESPONSE_CHARS {
        let budget = take_bytes(t, MAX_RESPONSE_CHARS as int);
        match last_boundary_mark(budget) {
            Some(p) => budget.take(p + 1),
            None => trim_end(budget) + "…"@,
        }
    } else {
        t
    }
}

/// A character after which a reply may be cut: `.`, `!`, `?` or a newline.
pub open spec fn ends_sentence(c: char) -> bool {
    c == '.' || c == '!' || c == '?' || c == '\n'
}

/// When the text runs past `MAX_RESPONSE_CHARS` bytes, it is cut to its
/// first `MAX_RESPONSE_CHARS` bytes and then just after the last `.`, `!`,
/// `?` or newline among them: no such character follows the cut within the
/// budget. With none in the budget, the budget loses its trailing
/// whitespace and gets "…" appended.
pub proof fn law_cut_at_last_sentence_end(t: Seq<char>)
    requires
        byte_len(t) > MAX_RESPONSE_CHARS,
    ensures
        ({
            let budget = take_bytes(t, MAX_RESPONSE_CHARS as int);
            &&& (exists|j: int| 0 <= j < budget.len() && ends_sentence(#[trigger] budget[j]))
                ==> exists|k: int|
                #![trigger budget[k]]
                0 <= k < budget.len() && ends_sentence(budget[k]) && capped(t) == budget.take(k + 1)
                    && forall|j: int| k < j < budget.len() ==> !ends_sentence(#[trigger] budget[j])
            &&& (forall|j: int| 0 <= j < budget.len() ==> !ends_sentence(#[trigger] budget[j]))
                ==> capped(t) == trim_end(budget) + "…"@
        }),
{
    let budget = take_bytes(t, MAX_RESPONSE_CHARS as int);
    lemma_last_mark_is_last(budget);
    match last_boundary_mark(budget) {
        Some(k) => {
            assert(ends_sentence(budget[k]));
        },
        None => {},
    }
}

/// `last_boundary_mark` finds the last sentence end, and finds none only
/// where there is none.
proof fn lemma_last_mark_is_last(s: Seq<char>)
    ensures
        last_boundary_mark(s) matches Some(k) ==> 0 <= k < s.len() && ends_sentence(s[k]) && forall|
            j: int,
        | k < j < s.len() ==> !ends_sentence(#[trigger] s[j]),
        last_boundary_mark(s) is None ==> forall|j: int|
            0 <= j < s.len() ==> !ends_sentence(#[trigger] s[j]),
    decreases s.len(),
{
    if s.len() > 0 {
        lemma_last_mark_is_last(s.drop_last());
        assert forall|j: int| 0 <= j < s.len() - 1 implies s.drop_last()[j] == #[trigger] s[j] by {}
    }
}

/// The reply: the text cut to the cap, trimmed again (a cut may end at a
/// newline); the apology when nothing is left.
pub open spec fn cleaned(raw: Seq<char>) -> Seq<char> {
    let s = trim(capped(cleaned_untruncated(raw)));
    if s.len() == 0 {
        fallback_reply()
    } else {
        s
    }
}

/// A cleaned reply is never blank and never starts or ends with
/// whitespace: when nothing is left of the model's text, the apology is
/// given instead.
pub proof fn law_reply_never_blank(raw: Seq<char>)
    ensures
        trim(cleaned(raw)).len() > 0,
        trim(cleaned(raw)) == cleaned(raw),
{
    let f = fallback_reply();
    reveal_strlit("I'm sorry, I couldn't generate a response. Please try again.");
    assert(f[0] == 'I');
    assert(f[f.len() - 1] == '.');
    assert(ws_prefix_len(f) == 0);
    assert(f.skip(0) =~= f);
    assert(ws_suffix_len(f) == 0);
    assert(f.take(f.len() as int) =~= f);
    assert(trim(f) == f);
    lemma_trim_idempotent(capped(cleaned_untruncated(raw)));
}

fn remove_all(v: &[char], pat: &str) -> (r: Vec<char>)
    requires
        pat@.len() > 0,
    ensures
        r@ == replace_all(v@, pat@, Seq::empty()),
{
    let p = chars_of(pat);
    let e: Vec<char> = Vec::new();
    replace_chars(v, &p, &e)
}

fn first_stop_exec(v: &[char], from: usize) -> (r: Option<usize>)
    requires
        from <= v@.len(),
    ensures
        r == (match first_stop(v@.skip(from as int)) {
            Some(e) => Some((e + from) as usize),
            None => None,
        }),
        r matches Some(k) ==> from <= k && k + 1 <= v@.len() && first_stop(v@.skip(from as int))
            == Some(k - from),
        r is None ==> first_stop(v@.skip(from as int)) is None,
{
    let mut k: usize = from;
    while k < v.len() && v[k] != '.' && v[k] != '\n'
        invariant
            from <= k <= v@.len(),
            forall|j: int| from <= j < k ==> v@[j] != '.' && v@[j] != '\n',
        decreases v.len() - k,
    {
        k = k + 1;
    }
    proof {
        lemma_first_stop(v@.skip(from as int), k - from);
    }
    if k < v.len() {
        Some(k)
    } else {
        None
    }
}

proof fn lemma_first_stop(s: Seq<char>, k: int)
    requires
        0 <= k <= s.len(),
        forall|j: int| 0 <= j < k ==> s[j] != '.' && s[j] != '\n',
        k < s.len() ==> s[k] == '.' || s[k] == '\n',
    ensures
        first_stop(s) == (if k < s.len() {
            Some(k)
        } else {
            None::<int>
        }),
    decreases k,
{
    if k > 0 {
        assert forall|j: int| 0 <= j < k - 1 implies s.drop_first()[j] != '.' && s.drop_first()[j]
            != '\n' by {
            assert(s.drop_first()[j] == s[j + 1]);
        }
        if k < s.len() {
            assert(s.drop_first()[k - 1] == s[k]);
        }
        lemma_first_stop(s.drop_first(), k - 1);
    }
}

/// Sum of the UTF-8 widths of `v[..i]`.
fn width_of(c: char) -> (r: usize)
    ensures
        r == char_width(c),
{
    let u: u32 = c as u32;
    if u < 0x80 {
        1
    } else if u < 0x800 {
        2
    } else if u < 0x10000 {
        3
    } else {
        4
    }
}

/// Byte length of `v`, or `None` when it exceeds `cap`.
pub fn byte_len_upto(v: &[char], cap: usize) -> (r: Option<usize>)
    ensures
        match r {
            Some(n) => n == byte_len(v@) && n <= cap,
            None => byte_len(v@) > cap,
        },
{
    let mut i: usize = 0;
    let mut total: usize = 0;
    while i < v.len()
        invariant
            i <= v@.len(),
            total == byte_len(v@.take(i as int)),
            total <= cap,
        decreases v.len() - i,
    {
        let w: usize = width_of(v[i]);
        proof {
            lemma_byte_len_push(v@.take(i as int), v@[i as int]);
            assert(v@.take(i as int).push(v@[i as int]) =~= v@.take(i + 1));
        }
        if w > cap - total {
            proof {
                lemma_byte_len_concat(v@.take(i + 1), v@.skip(i + 1));
                assert(v@.take(i + 1) + v@.skip(i + 1) =~= v@);
            }
            return None;
        }
        total = total + w;
        i = i + 1;
    }
    assert(v@.take(v@.len() as int) =~= v@);
    Some(total)
}

/// Character index of byte offset `b` within `v`, when `b` is a boundary.
pub fn char_index_at_byte(v: &[char], b: usize) -> (r: Option<usize>)
    ensures
        match r {
            Some(i) => is_boundary(v@, b as int) && i == char_index_of_byte(v@, b as int) && i
                <= v@.len() && byte_offset(v@, i as int) == b,
            None => !is_boundary(v@, b as int),
        },
{
    let mut i: usize = 0;
    let mut total: usize = 0;
    proof {
        assert(v@.skip(0) =~= v@);
    }
    while i < v.len() && width_of(v[i]) <= b - total
        invariant
            i <= v@.len(),
            total == byte_len(v@.take(i as int)),
            total <= b,
            take_bytes(v@, b as int) == v@.take(i as int) + take_bytes(v@.skip(i as int), b - total),
        decreases v.len() - i,
    {
        let w: usize = width_of(v[i]);
        proof {
            lemma_byte_len_push(v@.take(i as int), v@[i as int]);
            assert(v@.take(i as int).push(v@[i as int]) =~= v@.take(i + 1));
            let t = v@.skip(i as int);
            assert(t[0] == v@[i as int]);
            assert(t.drop_first() =~= v@.skip(i + 1));
            assert(v@.take(i as int) + (seq![v@[i as int]] + take_bytes(v@.skip(i + 1), b - total
                - w)) =~= v@.take(i + 1) + take_bytes(v@.skip(i + 1), b - total - w));
        }
        total = total + w;
        i = i + 1;
    }
    proof {
        let t = v@.skip(i as int);
        if i < v@.len() {
            assert(t[0] == v@[i as int]);
        }
        assert(take_bytes(t, b - total) =~= Seq::<char>::empty());
        assert(take_bytes(v@, b as int) =~= v@.take(i as int));
        lemma_byte_len_concat(v@.take(i as int), v@.skip(i as int));
        assert(v@.take(i as int) + v@.skip(i as int) =~= v@);
    }
    if total == b {
        Some(i)
    } else {
        None
    }
}

/// Index one past the last `.`, `!`, `?` or newline in `v`, if any.
fn last_mark(v: &[char]) -> (r: Option<usize>)
    ensures
        r == (match last_boundary_mark(v@) {
            Some(p) => Some(p as usize),
            None => None,
        }),
        r matches Some(p) ==> p < v@.len() && last_boundary_mark(v@) == Some(p as int),
        r is None ==> last_boundary_mark(v@) is None,
{
    let mut k: usize = v.len();
    assert(v@.take(v@.len() as int) =~= v@);
    while k > 0 && v[k - 1] != '.' && v[k - 1] != '!' && v[k - 1] != '?' && v[k - 1] != '\n'
        invariant
            k <= v@.len(),
            last_boundary_mark(v@) == last_boundary_mark(v@.take(k as int)),
        decreases k,
    {
        assert(v@.take(k as int).drop_last() =~= v@.take(k - 1));
        k = k - 1;
    }
    assert(v@.take(v@.len() as int) =~= v@);
    if k == 0 {
        assert(v@.take(0).len() == 0);
        None
    } else {
        Some(k - 1)
    }
}

fn squeeze_exec(v: &[char]) -> (r: Vec<char>)
    ensures
        r@ == squeeze_newlines(v@),
{
    let mut out: Vec<char> = Vec::new();
    let mut i: usize = 0;
    while i < v.len()
        invariant
            i <= v@.len(),
            out@ == squeeze_newlines(v@.take(i as int)),
        decreases v.len() - i,
    {
        let c: char = v[i];
        let n: usize = out.len();
        assert(v@.take(i + 1).drop_last() =~= v@.take(i as int));
        if !(c == '\n' && n >= 2 && out[n - 1] == '\n' && out[n - 2] == '\n') {
            out.push(c);
        }
        i = i + 1;
    }
    assert(v@.take(v@.len() as int) =~= v@);
    out
}

fn skip_newlines(v: &[char]) -> (r: usize)
    ensures
        r == nl_prefix_len(v@),
        r <= v@.len(),
{
    let mut i: usize = 0;
    assert(v@.skip(0) =~= v@);
    while i < v.len() && v[i] == '\n'
        invariant
            i <= v@.len(),
            nl_prefix_len(v@) == i + nl_prefix_len(v@.skip(i as int)),
        decreases v.len() - i,
    {
        assert(v@.skip(i as int).drop_first() =~= v@.skip(i + 1));
        i = i + 1;
    }
    proof {
        if i < v@.len() {
            assert(v@.skip(i as int)[0] == v@[i as int]);
        }
    }
    i
}

proof fn lemma_nl_prefix_start(s: Seq<char>)
    ensures
        nl_prefix_len(s) == 0 || (s.len() > 0 && s[0] == '\n'),
        0 <= nl_prefix_len(s) <= s.len(),
    decreases s.len(),
{
    if s.len() > 0 && s[0] == '\n' {
        lemma_nl_prefix_start(s.drop_first());
    }
}

/// Removes leaked ChatML markers, a leading "As an AI ..." sentence,
/// leading newlines and runs of blank lines; trims; cuts the reply at the
/// last sentence end within `MAX_RESPONSE_CHARS` bytes; never returns
/// blank text.
pub fn clean_response(raw: &str) -> (r: String)
    requires
        clean_response_defined(raw@),
    ensures
        r@ == cleaned(raw@),
{
    match try_clean_response(raw) {
        Some(r) => r,
        None => {
            assert(false);
            String::new()
        },
    }
}

fn strip_pass_exec(v0: &Vec<char>) -> (r: Vec<char>)
    ensures
        r@ == strip_pass(v0@),
{
    proof {
        reveal_strlit("<|system|>");
        reveal_strlit("<|user|>");
        reveal_strlit("<|assistant|>");
        reveal_strlit("<|endoftext|>");
        reveal_strlit("</s>");
    }
    let v1 = remove_all(v0, "<|system|>");
    let v2 = remove_all(&v1, "<|user|>");
    let v3 = remove_all(&v2, "<|assistant|>");
    let v4 = remove_all(&v3, "<|endoftext|>");
    remove_all(&v4, "</s>")
}

fn strip_markers_exec(v: Vec<char>) -> (r: Vec<char>)
    ensures
        r@ == strip_markers(v@),
{
    let ghost orig = v@;
    let mut cur = v;
    loop
        invariant
            orig == v@,
            strip_markers(cur@) == strip_markers(orig),
        decreases cur@.len(),
    {
        let t = strip_pass_exec(&cur);
        if t.len() < cur.len() {
            assert(strip_markers(cur@) == strip_markers(t@));
            cur = t;
        } else {
            assert(strip_markers(cur@) == cur@);
            return cur;
        }
    }
}

/// `clean_response` where it is defined; `None` exactly where the runtime
/// would have to cut the text inside a character.
pub fn try_clean_response(raw: &str) -> (r: Option<String>)
    ensures
        r is Some <==> clean_response_defined(raw@),
        r matches Some(x) ==> x@ == cleaned(raw@),
{
    proof {
        reveal_strlit("<|system|>");
        reveal_strlit("<|user|>");
        reveal_strlit("<|assistant|>");
        reveal_strlit("<|endoftext|>");
        reveal_strlit("</s>");
    }
    let s = strip_markers_exec(chars_of(raw));
    assert(s@ == strip_markers(raw@));
    let s_str = string_of(&s);
    let lower_str = to_lowercase(s_str.as_str());
    let lower = chars_of(lower_str.as_str());
    let pat = chars_of("as an ai");
    let ghost sm = s@;
    assert(lower@ == lowercase(sm));
    assert(pat@ == "as an ai"@);
    let mut s2: Vec<char> = s;
    match find_chars(&lower, &pat) {
        Some(i) => {
            proof {
                lemma_find_from_props(lower@, pat@, 0);
            }
            let ln: usize = lower.len();
            assert(find_first(lower@, pat@) is Some);
            assert(find_first(lower@, pat@)->0 + pat@.len() <= ln);
            assert(find_first(lower@, pat@) == Some(i as int));
            let lp = slice_chars(&lower, 0, i);
            let pos: Option<usize> = byte_len_upto(&lp, 20);
            assert(lp@ =~= lower@.take(i as int));
            assert(boilerplate_pos(sm) == Some(byte_offset(lower@, i as int) as int));
            if let Some(p) = pos {
                if p < 20 {
                    let ci = char_index_at_byte(&s2, p);
                    if let Some(ci) = ci {
                        assert(ci == char_index_of_byte(sm, p as int));
                        if let Some(e) = first_stop_exec(&s2, ci) {
                            let n2: usize = s2.len();
                            let rest = slice_chars(&s2, e + 1, n2);
                            assert(rest@ =~= sm.skip(e + 1));
                            assert(sm.skip(ci as int).skip(e - ci + 1) =~= sm.skip(e + 1));
                            s2 = trim_start_chars(&rest);
                            assert(s2@ == drop_boilerplate(sm));
                        } else {
                            assert(first_stop(sm.skip(ci as int)) is None);
                            assert(s2@ == drop_boilerplate(sm));
                        }
                    } else {
                        return None;
                    }
                } else {
                    assert(s2@ == drop_boilerplate(sm));
                }
            } else {
                assert(byte_offset(lower@, i as int) > 20);
                assert(s2@ == drop_boilerplate(sm));
            }
        },
        None => {
            assert(boilerplate_pos(sm) is None);
            assert(s2@ == drop_boilerplate(sm));
        },
    }
    assert(s2@ == drop_boilerplate(strip_markers(raw@)));
    let k: usize = skip_newlines(&s2);
    proof {
        lemma_nl_prefix_start(s2@);
    }
    let s3 = slice_chars(&s2, k, s2.len());
    assert(s3@ =~= s2@.skip(nl_prefix_len(s2@)));
    let s4 = squeeze_exec(&s3);
    let t = trim_chars(&s4);
    assert(t@ == cleaned_untruncated(raw@));
    let out: Vec<char> = match byte_len_upto(&t, MAX_RESPONSE_CHARS) {
        Some(_) => t,
        None => {
            let ci = char_index_at_byte(&t, MAX_RESPONSE_CHARS);
            let ci: usize = match ci {
                Some(ci) => ci,
                None => {
                    return None;
                },
            };
            proof {
                lemma_take_bytes_props(t@, MAX_RESPONSE_CHARS as int);
            }
            let budget = slice_chars(&t, 0, ci);
            assert(budget@ =~= take_bytes(t@, MAX_RESPONSE_CHARS as int));
            match last_mark(&budget) {
                Some(p) => {
                    let nb: usize = budget.len();
                    assert(p < nb);
                    slice_chars(&budget, 0, p + 1)
                },
                None => {
                    let mut b = trim_end_chars(&budget);
                    push_str(&mut b, "…");
                    b
                },
            }
        },
    };
    assert(out@ == capped(t@));
    let trimmed = trim_chars(&out);
    if trimmed.len() == 0 {
        let fb = chars_of("I'm sorry, I couldn't generate a response. Please try again.");
        return Some(string_of(&fb));
    }
    Some(string_of(&trimmed))
}

} // verus!

verus! {

// ─── Prompt construction ─────────────────────────────────────────────────────

/// Longest system prompt the clock labels can produce (bytes).
pub const MAX_SYSTEM_BYTES: usize = 428;

pub open spec fn sys_prefix() -> Seq<char> {
    "You are Fabio, a helpful AI assistant running on a Raspberry Pi 4. Today is "@
}

pub open spec fn sys_suffix() -> Seq<char> {
    ".\nYou are concise, accurate, and friendly. You reply in plain text "@ + "—"@
        + " no markdown, no code blocks unless asked. Keep replies under 3 sentences unless more detail is needed. If a slash-command result is shown, summarise it clearly for the user. Never repeat the question. Never say 'As an AI'. Just answer directly."@
}

/// The system prompt for a date label (`%A %d %B %Y`) and a time label (`%H:%M`).
pub open spec fn system_text(date: Seq<char>, time: Seq<char>) -> Seq<char> {
    sys_prefix() + date + ", "@ + time + sys_suffix()
}

/// What the clock labels can be: ASCII, the date at most 30 characters
/// (weekday and month names of at most 9 letters, a signed year of at most 7
/// characters), the time exactly 5.
pub open spec fn labels_ok(date: Seq<char>, time: Seq<char>) -> bool {
    date.len() <= 30 && all_ascii(date) && time.len() == 5 && all_ascii(time)
}

/// Local date and time labels for the system prompt, formatted by chrono
/// with `%A %d %B %Y` and `%H:%M`.  The contract states only what holds of
/// every clock reading: the labels are ASCII, the date at most 30
/// characters (English weekday and month names, a year of at most 7
/// characters with its sign) and the time exactly 5 (two-digit hour and
/// minute).  Which instant is read is not stated.
#[verifier::external_body]
fn local_date_time_labels() -> (r: (String, String))
    ensures
        labels_ok(r.0@, r.1@),
{
    let now = chrono::Local::now();
    (now.format("%A %d %B %Y").to_string(), now.format("%H:%M").to_string())
}

proof fn lemma_system_text_len(date: Seq<char>, time: Seq<char>)
    requires
        labels_ok(date, time),
    ensures
        byte_len(system_text(date, time)) <= MAX_SYSTEM_BYTES,
{
    let a = "You are Fabio, a helpful AI assistant running on a Raspberry Pi 4. Today is "@;
    let b = ".\nYou are concise, accurate, and friendly. You reply in plain text "@;
    let c = " no markdown, no code blocks unless asked. Keep replies under 3 sentences unless more detail is needed. If a slash-command result is shown, summarise it clearly for the user. Never repeat the question. Never say 'As an AI'. Just answer directly."@;
    reveal_strlit("You are Fabio, a helpful AI assistant running on a Raspberry Pi 4. Today is ");
    reveal_strlit(".\nYou are concise, accurate, and friendly. You reply in plain text ");
    reveal_strlit(" no markdown, no code blocks unless asked. Keep replies under 3 sentences unless more detail is needed. If a slash-command result is shown, summarise it clearly for the user. Never repeat the question. Never say 'As an AI'. Just answer directly.");
    reveal_strlit("—");
    reveal_strlit(", ");
    assert(all_ascii(a));
    assert(all_ascii(b));
    assert(all_ascii(c));
    assert(all_ascii(", "@));
    lemma_byte_len_ascii(a);
    lemma_byte_len_ascii(b);
    lemma_byte_len_ascii(c);
    lemma_byte_len_ascii(", "@);
    lemma_byte_len_ascii(date);
    lemma_byte_len_ascii(time);
    assert(byte_len("—"@) == 3) by {
        assert("—"@.len() == 1);
        assert("—"@[0] == '\u{2014}');
        assert(('\u{2014}' as u32) == 0x2014u32);
        assert(char_width("—"@[0]) == 3);
        assert("—"@.drop_first() =~= Seq::<char>::empty());
        assert(byte_len(Seq::<char>::empty()) == 0);
    }
    lemma_byte_len_concat(b, "—"@);
    lemma_byte_len_concat(b + "—"@, c);
    lemma_byte_len_concat(a, date);
    lemma_byte_len_concat(a + date, ", "@);
    lemma_byte_len_concat(a + date + ", "@, time);
    lemma_byte_len_concat(a + date + ", "@ + time, sys_suffix());
}

pub open spec fn turn_text(t: Turn) -> Seq<char> {
    match t.role {
        Role::User => "<|user|>\n"@ + t.content@ + "\n"@,
        Role::Assistant => "<|assistant|>\n"@ + t.content@ + "\n"@,
    }
}

/// The history rendered in ChatML, oldest turn first.
pub open spec fn turns_text(ts: Seq<Turn>) -> Seq<char>
    decreases ts.len(),
{
    if ts.len() == 0 {
        Seq::empty()
    } else {
        turns_text(ts.drop_last()) + turn_text(ts.last())
    }
}

/// The text of the current user turn: the message alone, or the plugin
/// summary followed by the message.  `None` when the summary is undefined.
pub open spec fn user_turn(user: Seq<char>, plugin: Option<&PluginOutput>) -> Option<Seq<char>> {
    match plugin {
        None => Some(user),
        Some(p) => match summarise(p.raw@, p.parsed) {
            Some(sm) => Some("The user ran a command. Here is the result:\n"@ + sm
                + "\n\nUser message: "@ + user),
            None => None,
        },
    }
}

/// A full ChatML prompt.
pub open spec fn render(system: Seq<char>, turns: Seq<Turn>, ut: Seq<char>) -> Seq<char> {
    "<|system|>\n"@ + system + "\n"@ + turns_text(turns) + "<|user|>\n"@ + ut + "\n<|assistant|>\n"@
}

/// Everything after the system prompt.
pub open spec fn render_tail(turns: Seq<Turn>, ut: Seq<char>) -> Seq<char> {
    turns_text(turns) + "<|user|>\n"@ + ut + "\n<|assistant|>\n"@
}

/// The prompt that keeps only the last two exchanges fits the context budget
/// whatever the clock reads (bytes: 12 around the system prompt, at most
/// `MAX_SYSTEM_BYTES` for it, then the rest).
pub open spec fn prompt_fits(turns: Seq<Turn>, ut: Seq<char>) -> bool {
    12 + MAX_SYSTEM_BYTES + byte_len(render_tail(keep_last(turns, 4), ut)) <= MAX_CONTEXT_CHARS
}

proof fn lemma_render_len(system: Seq<char>, turns: Seq<Turn>, ut: Seq<char>)
    ensures
        byte_len(render(system, turns, ut)) == 12 + byte_len(system) + byte_len(
            render_tail(turns, ut),
        ),
{
    reveal_strlit("<|system|>\n");
    reveal_strlit("\n");
    assert(all_ascii("<|system|>\n"@));
    assert(all_ascii("\n"@));
    lemma_byte_len_ascii("<|system|>\n"@);
    lemma_byte_len_ascii("\n"@);
    let t = render_tail(turns, ut);
    assert(render(system, turns, ut) =~= "<|system|>\n"@ + system + "\n"@ + t);
    lemma_byte_len_concat("<|system|>\n"@, system);
    lemma_byte_len_concat("<|system|>\n"@ + system, "\n"@);
    lemma_byte_len_concat("<|system|>\n"@ + system + "\n"@, t);
}

proof fn lemma_turns_text_suffix(ts: Seq<Turn>, k: int)
    requires
        0 <= k <= ts.len(),
    ensures
        turns_text(ts) == turns_text(ts.take(k)) + turns_text(ts.skip(k)),
    decreases ts.len() - k,
{
    if k == ts.len() {
        assert(ts.take(k) =~= ts);
        assert(ts.skip(k) =~= Seq::<Turn>::empty());
        assert(turns_text(ts) + Seq::<char>::empty() =~= turns_text(ts));
    } else {
        lemma_turns_text_suffix(ts.drop_last(), k);
        assert(ts.drop_last().take(k) =~= ts.take(k));
        assert(ts.skip(k).drop_last() =~= ts.drop_last().skip(k));
        assert(ts.skip(k).last() == ts.last());
    }
}

/// Dropping older turns never lengthens the prompt.
proof fn lemma_keep_last_shorter(turns: Seq<Turn>, ut: Seq<char>, n: int)
    requires
        n >= 0,
    ensures
        byte_len(render_tail(keep_last(turns, n), ut)) <= byte_len(render_tail(turns, ut)),
{
    if turns.len() > n {
        let k = turns.len() - n;
        lemma_turns_text_suffix(turns, k);
        let rest = "<|user|>\n"@ + ut + "\n<|assistant|>\n"@;
        assert(render_tail(turns, ut) =~= turns_text(turns.take(k)) + (turns_text(turns.skip(k))
            + rest));
        assert(render_tail(keep_last(turns, n), ut) =~= turns_text(turns.skip(k)) + rest);
        lemma_byte_len_concat(turns_text(turns.take(k)), turns_text(turns.skip(k)) + rest);
    }
}

/// Whatever the clock reads, the prompt built when the budget holds fits.
pub proof fn law_prompt_within_budget(
    date: Seq<char>,
    time: Seq<char>,
    turns: Seq<Turn>,
    ut: Seq<char>,
)
    requires
        labels_ok(date, time),
        prompt_fits(turns, ut),
    ensures
        byte_len(render(system_text(date, time), keep_last(turns, 4), ut)) <= MAX_CONTEXT_CHARS,
{
    lemma_system_text_len(date, time);
    lemma_render_len(system_text(date, time), keep_last(turns, 4), ut);
}

fn push_turns(out: &mut Vec<char>, history: &ConversationHistory, from: usize)
    requires
        from <= history@.len(),
    ensures
        final(out)@ == old(out)@ + turns_text(history@.skip(from as int)),
{
    let n: usize = history.len();
    let mut i: usize = from;
    assert(history@.subrange(from as int, from as int) =~= Seq::<Turn>::empty());
    while i < n
        invariant
            n == history@.len(),
            from <= i <= n,
            out@ == old(out)@ + turns_text(history@.subrange(from as int, i as int)),
        decreases n - i,
    {
        let t: &Turn = history.get(i);
        let ghost before = out@;
        match t.role {
            Role::User => push_str(out, "<|user|>\n"),
            Role::Assistant => push_str(out, "<|assistant|>\n"),
        }
        let c = chars_of(t.content.as_str());
        push_chars(out, &c);
        push_str(out, "\n");
        proof {
            let s = history@.subrange(from as int, i + 1);
            assert(s.drop_last() =~= history@.subrange(from as int, i as int));
            assert(s.last() == *t);
            assert(out@ =~= before + turn_text(*t));
        }
        i = i + 1;
    }
    assert(history@.subrange(from as int, n as int) =~= history@.skip(from as int));
}

/// The ChatML prompt with the given system text, the history from turn
/// `from` on, and the given user turn.
pub fn render_prompt(system: &str, history: &ConversationHistory, from: usize, user_turn_text: &str) -> (r: Vec<char>)
    requires
        from <= history@.len(),
    ensures
        r@ == render(system@, history@.skip(from as int), user_turn_text@),
{
    let mut out: Vec<char> = Vec::new();
    push_str(&mut out, "<|system|>\n");
    push_str(&mut out, system);
    push_str(&mut out, "\n");
    push_turns(&mut out, history, from);
    push_str(&mut out, "<|user|>\n");
    push_str(&mut out, user_turn_text);
    push_str(&mut out, "\n<|assistant|>\n");
    out
}

/// The current user turn's text, or `None` where the plugin summary is undefined.
pub fn user_turn_text(user_message: &str, plugin_result: Option<&PluginOutput>) -> (r: Option<String>)
    ensures
        match r {
            Some(x) => user_turn(user_message@, plugin_result) == Some(x@),
            None => user_turn(user_message@, plugin_result) is None,
        },
{
    match plugin_result {
        None => Some(string_of(&chars_of(user_message))),
        Some(p) => match try_summarise_plugin_result(p) {
            Some(sm) => {
                let mut out: Vec<char> = Vec::new();
                push_str(&mut out, "The user ran a command. Here is the result:\n");
                push_str(&mut out, sm.as_str());
                push_str(&mut out, "\n\nUser message: ");
                push_str(&mut out, user_message);
                Some(string_of(&out))
            },
            None => None,
        },
    }
}

/// The system prompt for given date and time labels.
pub fn system_prompt(date: &str, time: &str) -> (r: String)
    ensures
        r@ == system_text(date@, time@),
{
    let mut out: Vec<char> = Vec::new();
    push_str(&mut out, "You are Fabio, a helpful AI assistant running on a Raspberry Pi 4. Today is ");
    push_str(&mut out, date);
    push_str(&mut out, ", ");
    push_str(&mut out, time);
    push_str(&mut out, ".\nYou are concise, accurate, and friendly. You reply in plain text ");
    push_str(&mut out, "—");
    push_str(&mut out, " no markdown, no code blocks unless asked. Keep replies under 3 sentences unless more detail is needed. If a slash-command result is shown, summarise it clearly for the user. Never repeat the question. Never say 'As an AI'. Just answer directly.");
    string_of(&out)
}

/// The budget check `build_prompt` needs, computed: `Some(true)` when the
/// reduced prompt fits whatever the clock reads, `Some(false)` when it may
/// not, `None` when the plugin summary is undefined.
pub fn prompt_fits_check(
    history: &ConversationHistory,
    user_message: &str,
    plugin_result: Option<&PluginOutput>,
) -> (r: Option<bool>)
    ensures
        match r {
            Some(b) => user_turn(user_message@, plugin_result) matches Some(ut) && b
                == prompt_fits(history@, ut),
            None => user_turn(user_message@, plugin_result) is None,
        },
{
    let ut = match user_turn_text(user_message, plugin_result) {
        Some(ut) => ut,
        None => {
            return None;
        },
    };
    let n: usize = history.len();
    let from: usize = if n > 4 {
        n - 4
    } else {
        0
    };
    assert(history@.skip(from as int) == keep_last(history@, 4)) by {
        if n <= 4 {
            assert(history@.skip(0) =~= history@);
        }
    }
    let mut tail: Vec<char> = Vec::new();
    push_turns(&mut tail, history, from);
    push_str(&mut tail, "<|user|>\n");
    push_str(&mut tail, ut.as_str());
    push_str(&mut tail, "\n<|assistant|>\n");
    assert(tail@ =~= render_tail(keep_last(history@, 4), ut@));
    let cap: usize = MAX_CONTEXT_CHARS - 12 - MAX_SYSTEM_BYTES;
    Some(byte_len_upto(&tail, cap).is_some())
}

/// Builds the ChatML prompt: system prompt with the current date and time,
/// the history, and the user turn (with the plugin summary when a plugin
/// ran).  When that prompt exceeds `MAX_CONTEXT_CHARS` bytes it is built
/// again, with a fresh clock reading, from the last two exchanges only.
pub fn build_prompt(
    history: &ConversationHistory,
    user_message: &str,
    plugin_result: Option<&PluginOutput>,
) -> (r: String)
    requires
        user_turn(user_message@, plugin_result) matches Some(ut) && prompt_fits(history@, ut),
    ensures
        user_turn(user_message@, plugin_result) matches Some(ut) && exists|d: Seq<char>, t: Seq<char>|
            #![trigger system_text(d, t)]
            labels_ok(d, t) && {
                let full = render(system_text(d, t), history@, ut);
                if byte_len(full) <= MAX_CONTEXT_CHARS {
                    r@ == full
                } else {
                    exists|d2: Seq<char>, t2: Seq<char>|
                        #![trigger system_text(d2, t2)]
                        labels_ok(d2, t2) && r@ == render(
                            system_text(d2, t2),
                            keep_last(history@, 4),
                            ut,
                        )
                }
            },
        byte_len(r@) <= MAX_CONTEXT_CHARS,
{
    let ut = match user_turn_text(user_message, plugin_result) {
        Some(ut) => ut,
        None => {
            assert(false);
            String::new()
        },
    };
    let (date, time) = local_date_time_labels();
    let system = system_prompt(date.as_str(), time.as_str());
    let full = render_prompt(system.as_str(), history, 0, ut.as_str());
    assert(history@.skip(0) =~= history@);
    proof {
        law_prompt_within_budget(date@, time@, history@, ut@);
        lemma_keep_last_shorter(history@, ut@, 4);
        lemma_render_len(system@, history@, ut@);
        lemma_render_len(system@, keep_last(history@, 4), ut@);
    }
    match byte_len_upto(&full, MAX_CONTEXT_CHARS) {
        Some(_) => {
            assert(system_text(date@, time@) == system@);
            string_of(&full)
        },
        None => {
            let n: usize = history.len();
            let from: usize = if n > 4 {
                n - 4
            } else {
                0
            };
            assert(history@.skip(from as int) == keep_last(history@, 4)) by {
                if n <= 4 {
                    assert(history@.skip(0) =~= history@);
                }
            }
            let (date2, time2) = local_date_time_labels();
            let system2 = system_prompt(date2.as_str(), time2.as_str());
            let reduced = render_prompt(system2.as_str(), history, from, ut.as_str());
            proof {
                law_prompt_within_budget(date2@, time2@, history@, ut@);
                assert(system_text(date@, time@) == system@);
                assert(system_text(date2@, time2@) == system2@);
            }
            string_of(&reduced)
        },
    }
}

/// `build_prompt` with the date and time labels given rather than read
/// from the clock: the whole history when the prompt fits the budget,
/// else only its last four turns.
pub fn build_prompt_at(
    history: &ConversationHistory,
    user_message: &str,
    plugin_result: Option<&PluginOutput>,
    date: &str,
    time: &str,
) -> (r: String)
    requires
        user_turn(user_message@, plugin_result) matches Some(ut) && prompt_fits(history@, ut),
        labels_ok(date@, time@),
    ensures
        user_turn(user_message@, plugin_result) matches Some(ut) && {
            let full = render(system_text(date@, time@), history@, ut);
            if byte_len(full) <= MAX_CONTEXT_CHARS {
                r@ == full
            } else {
                r@ == render(system_text(date@, time@), keep_last(history@, 4), ut)
            }
        },
        byte_len(r@) <= MAX_CONTEXT_CHARS,
{
    let ut = match user_turn_text(user_message, plugin_result) {
        Some(ut) => ut,
        None => {
            assert(false);
            String::new()
        },
    };
    let system = system_prompt(date, time);
    let full = render_prompt(system.as_str(), history, 0, ut.as_str());
    assert(history@.skip(0) =~= history@);
    proof {
        law_prompt_within_budget(date@, time@, history@, ut@);
        lemma_keep_last_shorter(history@, ut@, 4);
        lemma_render_len(system@, history@, ut@);
        lemma_render_len(system@, keep_last(history@, 4), ut@);
    }
    match byte_len_upto(&full, MAX_CONTEXT_CHARS) {
        Some(_) => string_of(&full),
        None => {
            let n: usize = history.len();
            let from: usize = if n > 4 {
                n - 4
            } else {
                0
            };
            assert(history@.skip(from as int) == keep_last(history@, 4)) by {
                if n <= 4 {
                    assert(history@.skip(0) =~= history@);
                }
            }
            let reduced = render_prompt(system.as_str(), history, from, ut.as_str());
            string_of(&reduced)
        },
    }
}

// ─── No marker in a reply ────────────────────────────────────────────────────

/// `p` occurs nowhere in `s`.
pub open spec fn absent(s: Seq<char>, p: Seq<char>) -> bool {
    forall|i: int| !#[trigger] occurs_at(s, p, i)
}

proof fn lemma_absent_find(s: Seq<char>, p: Seq<char>)
    ensures
        absent(s, p) <==> find_first(s, p) is None,
{
    lemma_find_from_props(s, p, 0);
}

proof fn lemma_absent_skip(s: Seq<char>, p: Seq<char>, a: int)
    requires
        absent(s, p),
        0 <= a <= s.len(),
    ensures
        absent(s.skip(a), p),
{
    assert forall|i: int| !#[trigger] occurs_at(s.skip(a), p, i) by {
        if occurs_at(s.skip(a), p, i) {
            assert(s.skip(a).subrange(i, i + p.len()) =~= s.subrange(a + i, a + i + p.len()));
            assert(occurs_at(s, p, a + i));
        }
    }
}

proof fn lemma_absent_take(s: Seq<char>, p: Seq<char>, a: int)
    requires
        absent(s, p),
        0 <= a <= s.len(),
    ensures
        absent(s.take(a), p),
{
    assert forall|i: int| !#[trigger] occurs_at(s.take(a), p, i) by {
        if occurs_at(s.take(a), p, i) {
            assert(s.take(a).subrange(i, i + p.len()) =~= s.subrange(i, i + p.len()));
            assert(occurs_at(s, p, i));
        }
    }
}

proof fn lemma_absent_trim(s: Seq<char>, p: Seq<char>)
    requires
        absent(s, p),
    ensures
        absent(trim_start(s), p),
        absent(trim(s), p),
{
    lemma_ws_prefix_bounds(s);
    lemma_absent_skip(s, p, ws_prefix_len(s));
    let t = trim_start(s);
    crate::text::lemma_ws_suffix_bounds(t);
    lemma_absent_take(t, p, t.len() - ws_suffix_len(t));
}

proof fn lemma_absent_push(x: Seq<char>, p: Seq<char>, c: char)
    requires
        absent(x, p),
        p.len() > 0,
        p.last() != c,
    ensures
        absent(x.push(c), p),
{
    assert forall|i: int| !#[trigger] occurs_at(x.push(c), p, i) by {
        if occurs_at(x.push(c), p, i) {
            if i + p.len() <= x.len() {
                assert(x.push(c).subrange(i, i + p.len()) =~= x.subrange(i, i + p.len()));
                assert(occurs_at(x, p, i));
            } else {
                assert(x.push(c).subrange(i, i + p.len())[p.len() - 1] == c);
            }
        }
    }
}

proof fn lemma_squeeze_len(s: Seq<char>)
    ensures
        squeeze_newlines(s).len() <= s.len(),
    decreases s.len(),
{
    if s.len() > 0 {
        lemma_squeeze_len(s.drop_last());
    }
}

/// A newline-free tail of the squeezed text is the same tail of the text.
proof fn lemma_squeeze_tail(s: Seq<char>, m: int)
    requires
        0 <= m <= squeeze_newlines(s).len(),
        forall|j: int|
            squeeze_newlines(s).len() - m <= j < squeeze_newlines(s).len() ==> #[trigger] squeeze_newlines(s)[j]
                != '\n',
    ensures
        m <= s.len(),
        squeeze_newlines(s).subrange(squeeze_newlines(s).len() - m, squeeze_newlines(s).len() as int)
            == s.subrange(s.len() - m, s.len() as int),
    decreases s.len(),
{
    lemma_squeeze_len(s);
    if s.len() > 0 && m > 0 {
        let q = squeeze_newlines(s);
        let r = squeeze_newlines(s.drop_last());
        let c = s.last();
        lemma_squeeze_len(s.drop_last());
        if c == '\n' && r.len() >= 2 && r[r.len() - 1] == '\n' && r[r.len() - 2] == '\n' {
            assert(q[q.len() - 1] == '\n');
        } else {
            assert(q == r.push(c));
            assert(q[q.len() - 1] == c);
            assert forall|j: int| r.len() - (m - 1) <= j < r.len() implies #[trigger] r[j] != '\n' by {
                assert(q[j] == r[j]);
            }
            lemma_squeeze_tail(s.drop_last(), m - 1);
            let d = s.drop_last();
            assert(q.subrange(q.len() - m, q.len() as int) =~= r.subrange(
                r.len() - (m - 1),
                r.len() as int,
            ).push(c));
            assert(s.subrange(s.len() - m, s.len() as int) =~= d.subrange(
                d.len() - (m - 1),
                d.len() as int,
            ).push(c));
        }
    } else {
        assert(squeeze_newlines(s).subrange(
            squeeze_newlines(s).len() - m,
            squeeze_newlines(s).len() as int,
        ) =~= Seq::<char>::empty());
        assert(s.subrange(s.len() - m, s.len() as int) =~= Seq::<char>::empty());
    }
}

proof fn lemma_absent_squeeze(s: Seq<char>, p: Seq<char>)
    requires
        absent(s, p),
        p.len() > 0,
        forall|j: int| 0 <= j < p.len() ==> #[trigger] p[j] != '\n',
    ensures
        absent(squeeze_newlines(s), p),
    decreases s.len(),
{
    if s.len() > 0 {
        let d = s.drop_last();
        assert(d == s.take(s.len() - 1));
        lemma_absent_take(s, p, s.len() - 1);
        lemma_absent_squeeze(d, p);
        let r = squeeze_newlines(d);
        let q = squeeze_newlines(s);
        let c = s.last();
        if !(c == '\n' && r.len() >= 2 && r[r.len() - 1] == '\n' && r[r.len() - 2] == '\n') {
            assert(q == r.push(c));
            assert forall|i: int| !#[trigger] occurs_at(q, p, i) by {
                if occurs_at(q, p, i) {
                    if i + p.len() <= r.len() {
                        assert(q.subrange(i, i + p.len()) =~= r.subrange(i, i + p.len()));
                        assert(occurs_at(r, p, i));
                    } else {
                        let m = p.len() as int;
                        assert(i == q.len() - m);
                        assert forall|j: int| q.len() - m <= j < q.len() implies #[trigger] q[j] != '\n' by {
                            assert(q[j] == q.subrange(i, i + p.len())[j - i]);
                        }
                        lemma_squeeze_tail(s, m);
                        assert(occurs_at(s, p, s.len() - m));
                    }
                }
            }
        }
    }
}

proof fn lemma_first_stop_bound(s: Seq<char>)
    ensures
        first_stop(s) matches Some(e) ==> 0 <= e < s.len(),
    decreases s.len(),
{
    if s.len() > 0 {
        lemma_first_stop_bound(s.drop_first());
    }
}

proof fn lemma_last_mark_bound(s: Seq<char>)
    ensures
        last_boundary_mark(s) matches Some(e) ==> 0 <= e < s.len(),
    decreases s.len(),
{
    if s.len() > 0 {
        lemma_last_mark_bound(s.drop_last());
    }
}

proof fn lemma_marker_shape(k: int)
    requires
        0 <= k < 5,
    ensures
        marker(k).len() > 0,
        marker(k)[0] == '<',
        marker(k).last() == '>',
        forall|j: int| 0 <= j < marker(k).len() ==> #[trigger] marker(k)[j] != '\n',
{
    reveal_strlit("<|system|>");
    reveal_strlit("<|user|>");
    reveal_strlit("<|assistant|>");
    reveal_strlit("<|endoftext|>");
    reveal_strlit("</s>");
}

/// No leaked ChatML marker is left anywhere in a cleaned reply.
pub proof fn law_reply_has_no_markers(raw: Seq<char>)
    ensures
        forall|k: int| 0 <= k < 5 ==> find_first(cleaned(raw), #[trigger] marker(k)) is None,
{
    assert forall|k: int| 0 <= k < 5 implies find_first(cleaned(raw), #[trigger] marker(k)) is None by {
        let p = marker(k);
        lemma_marker_shape(k);
        law_markers_stripped(raw);
        let s0 = strip_markers(raw);
        lemma_absent_find(s0, p);
        // Dropping a leading "As an AI ..." sentence keeps a tail.
        let s1 = drop_boilerplate(s0);
        assert(absent(s1, p)) by {
            match boilerplate_pos(s0) {
                Some(b) => if b < 20 {
                    let i = char_index_of_byte(s0, b);
                    lemma_take_bytes_props(s0, b);
                    lemma_first_stop_bound(s0.skip(i));
                    match first_stop(s0.skip(i)) {
                        Some(e) => {
                            lemma_absent_skip(s0, p, i + e + 1);
                            lemma_absent_trim(s0.skip(i + e + 1), p);
                        },
                        None => {},
                    }
                },
                None => {},
            }
        }
        lemma_nl_prefix_start(s1);
        lemma_absent_skip(s1, p, nl_prefix_len(s1));
        let s2 = squeeze_newlines(s1.skip(nl_prefix_len(s1)));
        lemma_absent_squeeze(s1.skip(nl_prefix_len(s1)), p);
        let t = trim(s2);
        lemma_absent_trim(s2, p);
        assert(t == cleaned_untruncated(raw));
        let c = capped(t);
        assert(absent(c, p)) by {
            if byte_len(t) > MAX_RESPONSE_CHARS {
                let budget = take_bytes(t, MAX_RESPONSE_CHARS as int);
                lemma_take_bytes_props(t, MAX_RESPONSE_CHARS as int);
                lemma_absent_take(t, p, budget.len() as int);
                lemma_last_mark_bound(budget);
                match last_boundary_mark(budget) {
                    Some(q) => {
                        lemma_absent_take(budget, p, q + 1);
                    },
                    None => {
                        reveal_strlit("…");
                        lemma_absent_trim(budget, p);
                        assert(trim_end(budget) == budget.take(budget.len() - ws_suffix_len(budget)));
                        crate::text::lemma_ws_suffix_bounds(budget);
                        lemma_absent_take(budget, p, budget.len() - ws_suffix_len(budget));
                        assert(trim_end(budget) + "…"@ =~= trim_end(budget).push('…'));
                        lemma_absent_push(trim_end(budget), p, '…');
                    },
                }
            }
        }
        lemma_absent_trim(c, p);
        let f = fallback_reply();
        assert(absent(f, p)) by {
            reveal_strlit("I'm sorry, I couldn't generate a response. Please try again.");
            assert forall|i: int| !#[trigger] occurs_at(f, p, i) by {
                if occurs_at(f, p, i) {
                    assert(f.subrange(i, i + p.len())[0] == f[i]);
                    assert(f[i] != '<');
                }
            }
        }
        lemma_absent_find(cleaned(raw), p);
    }
}

} // verus!
