//! Telegram bot logic: which updates are answered, how replies are split to
//! the message limit, and the texts exchanged with the Bot API and the local
//! chat API. The HTTP calls themselves are made outside.
use vstd::prelude::*;
use crate::errors::AppError;
use crate::json::{
    as_str, at, get, get_str, idx, json_quote, json_quoted, Json, JsonKind,
};
use crate::text::{
    chars_of, dec, dec_signed, parse_i64, parse_i64_spec, push_decimal,
    push_decimal_signed, push_str, string_of, trim, trim_chars,
};

verus! {

/// Seconds a `getUpdates` call waits for news.
pub const POLL_TIMEOUT_SECS: u64 = 30;

/// Longest message Telegram accepts (characters).
pub const MAX_TEXT_LENGTH: usize = 4096;

// ─── Splitting long replies ──────────────────────────────────────────────────

/// Index of the last newline in `t[start..end)`.
pub open spec fn last_newline(t: Seq<char>, start: int, end: int) -> Option<int>
    decreases end - start,
{
    if end <= start {
        None
    } else if t[end - 1] == '\n' {
        Some(end - 1)
    } else {
        last_newline(t, start, end - 1)
    }
}

/// Where the chunk that starts at `start` ends: after the last newline
/// within `max` characters, or after `max` characters when there is none,
/// or at the end of the text.
pub open spec fn chunk_end(t: Seq<char>, max: nat, start: int) -> int {
    let end = if start + max < t.len() {
        start + max
    } else {
        t.len() as int
    };
    if end < t.len() {
        match last_newline(t, start, end) {
            Some(i) => i + 1,
            None => end,
        }
    } else {
        end
    }
}

pub proof fn lemma_last_newline(t: Seq<char>, start: int, end: int)
    ensures
        last_newline(t, start, end) matches Some(i) ==> start <= i < end && t[i] == '\n',
    decreases end - start,
{
    if end > start && t[end - 1] != '\n' {
        lemma_last_newline(t, start, end - 1);
    }
}

pub proof fn lemma_chunk_end(t: Seq<char>, max: nat, start: int)
    requires
        0 <= start < t.len(),
        max > 0,
    ensures
        start < chunk_end(t, max, start) <= t.len(),
        chunk_end(t, max, start) <= start + max,
{
    let end = if start + max < t.len() {
        start + max
    } else {
        t.len() as int
    };
    lemma_last_newline(t, start, end);
}

/// Chunks of `t` from `start` on.
pub open spec fn chunks_from(t: Seq<char>, max: nat, start: int) -> Seq<Seq<char>>
    decreases t.len() - start,
{
    if start < 0 || start >= t.len() || max == 0 {
        Seq::empty()
    } else {
        let e = chunk_end(t, max, start);
        if e <= start || e > t.len() {
            Seq::empty()
        } else {
            seq![t.subrange(start, e)] + chunks_from(t, max, e)
        }
    }
}

/// `text` in chunks of at most `max` characters, broken after a newline
/// where one falls within the limit.
pub open spec fn message_chunks(t: Seq<char>, max: nat) -> Seq<Seq<char>> {
    if t.len() <= max {
        seq![t]
    } else {
        chunks_from(t, max, 0)
    }
}

/// The chunks joined back together.
pub open spec fn concat(cs: Seq<Seq<char>>) -> Seq<char>
    decreases cs.len(),
{
    if cs.len() == 0 {
        Seq::empty()
    } else {
        cs[0] + concat(cs.drop_first())
    }
}

proof fn lemma_chunks_from(t: Seq<char>, max: nat, start: int)
    requires
        0 <= start <= t.len(),
        max > 0,
    ensures
        concat(chunks_from(t, max, start)) == t.subrange(start, t.len() as int),
        forall|i: int|
            0 <= i < chunks_from(t, max, start).len() ==> 0 < (#[trigger] chunks_from(
                t,
                max,
                start,
            )[i]).len() <= max,
    decreases t.len() - start,
{
    if start < t.len() {
        lemma_chunk_end(t, max, start);
        let e = chunk_end(t, max, start);
        lemma_chunks_from(t, max, e);
        let rest = chunks_from(t, max, e);
        let cs = chunks_from(t, max, start);
        assert(cs == seq![t.subrange(start, e)] + rest);
        assert(cs.drop_first() =~= rest);
        assert(t.subrange(start, t.len() as int) =~= t.subrange(start, e) + t.subrange(e, t.len() as int));
        assert forall|i: int| 0 <= i < cs.len() implies 0 < (#[trigger] cs[i]).len() <= max by {
            if i > 0 {
                assert(cs[i] == rest[i - 1]);
            }
        }
    } else {
        assert(t.subrange(start, t.len() as int) =~= Seq::<char>::empty());
    }
}

/// Splitting loses nothing and keeps to the limit: the chunks put together
/// give the text back, and each is non-empty (unless the text is) and at
/// most `max` characters long.
pub proof fn law_split_message_lossless(t: Seq<char>, max: nat)
    requires
        max > 0,
    ensures
        concat(message_chunks(t, max)) == t,
        forall|i: int|
            0 <= i < message_chunks(t, max).len() ==> (#[trigger] message_chunks(t, max)[i]).len()
                <= max,
        t.len() > 0 ==> forall|i: int|
            0 <= i < message_chunks(t, max).len() ==> (#[trigger] message_chunks(t, max)[i]).len()
                > 0,
{
    if t.len() <= max {
        assert(concat(seq![t]) =~= t + concat(seq![t].drop_first()));
        assert(seq![t].drop_first() =~= Seq::<Seq<char>>::empty());
        assert(t + Seq::<char>::empty() =~= t);
    } else {
        lemma_chunks_from(t, max, 0);
        assert(t.subrange(0, t.len() as int) =~= t);
    }
}

/// Index just past the last newline in `v[start..end)`, if any.
fn find_last_newline(v: &Vec<char>, start: usize, end: usize) -> (r: Option<usize>)
    requires
        start <= end <= v@.len(),
    ensures
        match r {
            Some(i) => last_newline(v@, start as int, end as int) == Some(i as int),
            None => last_newline(v@, start as int, end as int) is None,
        },
{
    let mut e: usize = end;
    while e > start
        invariant
            start <= e <= end,
            end <= v@.len(),
            last_newline(v@, start as int, end as int) == last_newline(v@, start as int, e as int),
        decreases e - start,
    {
        if v[e - 1] == '\n' {
            return Some(e - 1);
        }
        e = e - 1;
    }
    None
}

/// Splits a reply into messages of at most `max_len` characters, breaking
/// after a newline where possible.
pub fn split_message(text: &str, max_len: usize) -> (r: Vec<String>)
    requires
        max_len > 0,
    ensures
        r@.len() == message_chunks(text@, max_len as nat).len(),
        forall|i: int|
            0 <= i < r@.len() ==> (#[trigger] r@[i])@ == message_chunks(text@, max_len as nat)[i],
{
    let v = chars_of(text);
    let mut out: Vec<String> = Vec::new();
    if v.len() <= max_len {
        out.push(string_of(&v));
        return out;
    }
    let n: usize = v.len();
    let mut start: usize = 0;
    let ghost all = chunks_from(v@, max_len as nat, 0);
    while start < n
        invariant
            n == v@.len(),
            v@ == text@,
            max_len > 0,
            start <= n,
            all == chunks_from(v@, max_len as nat, 0),
            all == out@.map_values(|s: String| s@) + chunks_from(v@, max_len as nat, start as int),
        decreases n - start,
    {
        proof {
            lemma_chunk_end(v@, max_len as nat, start as int);
        }
        let end: usize = if max_len < n - start {
            start + max_len
        } else {
            n
        };
        let split: usize = if end < n {
            match find_last_newline(&v, start, end) {
                Some(i) => i + 1,
                None => end,
            }
        } else {
            end
        };
        assert(split as int == chunk_end(v@, max_len as nat, start as int));
        let mut piece: Vec<char> = Vec::new();
        let mut k: usize = start;
        while k < split
            invariant
                start <= k <= split,
                split <= v@.len(),
                piece@ == v@.subrange(start as int, k as int),
            decreases split - k,
        {
            piece.push(v[k]);
            k = k + 1;
            assert(piece@ =~= v@.subrange(start as int, k as int));
        }
        let ghost before = out@;
        out.push(string_of(&piece));
        proof {
            let rest = chunks_from(v@, max_len as nat, split as int);
            assert(chunks_from(v@, max_len as nat, start as int) == seq![v@.subrange(
                start as int,
                split as int,
            )] + rest);
            assert(out@.map_values(|s: String| s@) =~= before.map_values(|s: String| s@).push(
                piece@,
            ));
            assert(out@.map_values(|s: String| s@) + rest =~= before.map_values(|s: String| s@)
                + chunks_from(v@, max_len as nat, start as int));
        }
        start = split;
    }
    proof {
        assert(chunks_from(v@, max_len as nat, n as int) =~= Seq::<Seq<char>>::empty());
        assert(all =~= out@.map_values(|s: String| s@));
        assert forall|i: int| 0 <= i < out@.len() implies (#[trigger] out@[i])@ == all[i] by {
            assert(out@.map_values(|s: String| s@)[i] == out@[i]@);
        }
    }
    out
}

// ─── Bot API types ───────────────────────────────────────────────────────────

pub struct TgUpdate {
    pub update_id: i64,
    pub message: Option<TgMessage>,
}

pub struct TgMessage {
    pub message_id: i64,
    pub chat: TgChat,
    pub text: Option<String>,
    pub from: Option<TgUser>,
}

pub struct TgChat {
    pub id: i64,
}

pub struct TgUser {
    pub id: i64,
    pub first_name: String,
    pub username: Option<String>,
}

/// The envelope of every Bot API reply.
pub struct TgResponse<T> {
    pub ok: bool,
    pub result: Option<T>,
    pub description: Option<String>,
}

/// The updates of a `getUpdates` reply, or its error.
pub fn updates_of(resp: TgResponse<Vec<TgUpdate>>) -> (r: Result<Vec<TgUpdate>, AppError>)
    ensures
        match r {
            Ok(us) => resp.ok && match resp.result {
                Some(v) => us@ == v@,
                None => us@.len() == 0,
            },
            Err(e) => !resp.ok && (e matches AppError::TelegramError(m) && m@ == match resp.description {
                Some(d) => d@,
                None => "Unknown Telegram error"@,
            }),
        },
{
    if !resp.ok {
        let m = match resp.description {
            Some(d) => d,
            None => string_of(&chars_of("Unknown Telegram error")),
        };
        return Err(AppError::TelegramError(m));
    }
    match resp.result {
        Some(v) => Ok(v),
        None => Ok(Vec::new()),
    }
}

/// The next `getUpdates` offset after seeing an update: one past the
/// highest update id seen.
pub fn next_offset(offset: i64, update_id: i64) -> (r: i64)
    requires
        update_id < i64::MAX,
    ensures
        r == if offset >= update_id + 1 {
            offset as int
        } else {
            update_id + 1
        },
{
    if offset >= update_id + 1 {
        offset
    } else {
        update_id + 1
    }
}

/// Name shown for the sender: the username, else the first name, else
/// `unknown`.
pub open spec fn sender_name_of(from: Option<TgUser>) -> Seq<char> {
    match from {
        Some(u) => match u.username {
            Some(n) => n@,
            None => u.first_name@,
        },
        None => "unknown"@,
    }
}

pub fn sender_name(msg: &TgMessage) -> (r: String)
    ensures
        r@ == sender_name_of(msg.from),
{
    match &msg.from {
        Some(u) => match &u.username {
            Some(n) => n.clone(),
            None => u.first_name.clone(),
        },
        None => string_of(&chars_of("unknown")),
    }
}

// ─── The bot ─────────────────────────────────────────────────────────────────

/// The bot's settings.
pub struct TelegramBot {
    pub token: String,
    /// Chats the bot answers; empty: all chats.
    pub allowed_chats: Vec<i64>,
    /// Base URL of the local chat API.
    pub api_base: String,
}

pub open spec fn chat_allowed(allowed: Seq<i64>, chat_id: i64) -> bool {
    allowed.len() == 0 || allowed.contains(chat_id)
}

/// What to do with an update: answer `(chat, text)`, or nothing.
pub open spec fn update_action(allowed: Seq<i64>, u: TgUpdate) -> Option<(i64, Seq<char>)> {
    match u.message {
        None => None,
        Some(m) => if !chat_allowed(allowed, m.chat.id) {
            None
        } else {
            match m.text {
                Some(t) => Some((m.chat.id, t@)),
                None => None,
            }
        },
    }
}

impl TelegramBot {
    pub fn new(token: String, api_base: String, allowed_chats: Vec<i64>) -> (r: Self)
        ensures
            r.token == token,
            r.api_base == api_base,
            r.allowed_chats == allowed_chats,
    {
        TelegramBot { token, allowed_chats, api_base }
    }

    /// `https://api.telegram.org/bot<token>`.
    pub fn base(&self) -> (r: String)
        ensures
            r@ == "https://api.telegram.org/bot"@ + self.token@,
    {
        let mut out: Vec<char> = Vec::new();
        push_str(&mut out, "https://api.telegram.org/bot");
        push_str(&mut out, self.token.as_str());
        string_of(&out)
    }

    /// The long-polling URL for updates from `offset` on.
    pub fn updates_url(&self, offset: i64) -> (r: String)
        ensures
            r@ == "https://api.telegram.org/bot"@ + self.token@ + "/getUpdates?offset="@
                + dec_signed(offset as int) + "&timeout="@ + dec(POLL_TIMEOUT_SECS as nat),
    {
        let mut out: Vec<char> = Vec::new();
        push_str(&mut out, "https://api.telegram.org/bot");
        push_str(&mut out, self.token.as_str());
        push_str(&mut out, "/getUpdates?offset=");
        push_decimal_signed(&mut out, offset);
        push_str(&mut out, "&timeout=");
        push_decimal(&mut out, POLL_TIMEOUT_SECS);
        string_of(&out)
    }

    /// The URL messages are sent to.
    pub fn send_url(&self) -> (r: String)
        ensures
            r@ == "https://api.telegram.org/bot"@ + self.token@ + "/sendMessage"@,
    {
        let mut out: Vec<char> = Vec::new();
        push_str(&mut out, "https://api.telegram.org/bot");
        push_str(&mut out, self.token.as_str());
        push_str(&mut out, "/sendMessage");
        string_of(&out)
    }

    /// The local chat API's completion URL.
    pub fn chat_api_url(&self) -> (r: String)
        ensures
            r@ == self.api_base@ + "/v1/chat/completions"@,
    {
        let mut out: Vec<char> = Vec::new();
        push_str(&mut out, self.api_base.as_str());
        push_str(&mut out, "/v1/chat/completions");
        string_of(&out)
    }

    /// Whether messages from `chat_id` are answered.
    pub fn accepts_chat(&self, chat_id: i64) -> (r: bool)
        ensures
            r == chat_allowed(self.allowed_chats@, chat_id),
    {
        if self.allowed_chats.len() == 0 {
            return true;
        }
        let mut i: usize = 0;
        while i < self.allowed_chats.len()
            invariant
                i <= self.allowed_chats@.len(),
                forall|j: int| 0 <= j < i ==> self.allowed_chats@[j] != chat_id,
            decreases self.allowed_chats@.len() - i,
        {
            if self.allowed_chats[i] == chat_id {
                assert(self.allowed_chats@[i as int] == chat_id);
                return true;
            }
            i = i + 1;
        }
        false
    }

    /// The chat and text to answer for an update, if any: updates without a
    /// message, from chats outside the allowlist, or without text are
    /// ignored.
    pub fn incoming(&self, update: &TgUpdate) -> (r: Option<(i64, String)>)
        ensures
            match r {
                Some((c, t)) => update_action(self.allowed_chats@, *update) == Some((c, t@)),
                None => update_action(self.allowed_chats@, *update) is None,
            },
    {
        match &update.message {
            None => None,
            Some(m) => {
                if !self.accepts_chat(m.chat.id) {
                    return None;
                }
                match &m.text {
                    Some(t) => Some((m.chat.id, t.clone())),
                    None => None,
                }
            },
        }
    }
}

// ─── Talking to the chat API ─────────────────────────────────────────────────

/// The completion request for a user's text:
/// `{"max_tokens":512,"messages":[{"content":<text>,"role":"user"}],"model":"local"}`.
pub open spec fn forward_body_text(text: Seq<char>) -> Seq<char> {
    "{\"max_tokens\":512,\"messages\":[{\"content\":"@ + json_quoted(text)
        + ",\"role\":\"user\"}],\"model\":\"local\"}"@
}

pub fn forward_body(text: &str) -> (r: String)
    ensures
        r@ == forward_body_text(text@),
{
    let mut out: Vec<char> = Vec::new();
    push_str(&mut out, "{\"max_tokens\":512,\"messages\":[{\"content\":");
    let q = json_quote(text);
    push_str(&mut out, q.as_str());
    push_str(&mut out, ",\"role\":\"user\"}],\"model\":\"local\"}");
    string_of(&out)
}

/// How the chat API answered.
pub enum ApiReply {
    /// The request did not get through.
    Unreachable,
    /// A reply came that is not JSON.
    Unparsable,
    /// The reply's JSON.
    Parsed(Json),
}

/// `json["choices"][0]["message"]["content"]` as a string, when there is one.
pub open spec fn reply_content(j: Json) -> Option<Seq<char>> {
    match j.kind {
        JsonKind::Object(es) => match crate::json::lookup(es@, "choices"@) {
            Some(cs) => match cs.kind {
                JsonKind::Array(a) => if a@.len() > 0 {
                    as_str(idx(idx(Some(a@[0]), "message"@), "content"@))
                } else {
                    None
                },
                _ => None,
            },
            None => None,
        },
        _ => None,
    }
}

/// The text sent back to the Telegram user.
pub open spec fn reply_text(r: ApiReply) -> Seq<char> {
    match r {
        ApiReply::Unreachable => "\u{26a0}\u{fe0f} Could not reach the AI backend. Please try again."@,
        ApiReply::Unparsable => "\u{26a0}\u{fe0f} Internal error \u{2014} could not parse response."@,
        ApiReply::Parsed(j) => match reply_content(j) {
            Some(t) => t,
            None => "(empty response)"@,
        },
    }
}

pub fn reply_from_api(r: &ApiReply) -> (t: String)
    ensures
        t@ == reply_text(*r),
{
    match r {
        ApiReply::Unreachable => string_of(
            &chars_of("\u{26a0}\u{fe0f} Could not reach the AI backend. Please try again."),
        ),
        ApiReply::Unparsable => string_of(
            &chars_of("\u{26a0}\u{fe0f} Internal error \u{2014} could not parse response."),
        ),
        ApiReply::Parsed(j) => {
            let content = match get(j, "choices") {
                Some(cs) => match &cs.kind {
                    JsonKind::Array(a) => if a.len() > 0 {
                        get_str(at(at(Some(&a[0]), "message"), "content"))
                    } else {
                        None
                    },
                    _ => None,
                },
                None => None,
            };
            match content {
                Some(t) => string_of(&t),
                None => string_of(&chars_of("(empty response)")),
            }
        },
    }
}

/// The `sendMessage` body; `markdown` picks the `Markdown` parse mode, else
/// the empty one (the plain-text retry).
pub open spec fn send_payload_text(chat_id: i64, text: Seq<char>, markdown: bool) -> Seq<char> {
    "{\"chat_id\":"@ + dec_signed(chat_id as int) + ",\"text\":"@ + json_quoted(text)
        + ",\"parse_mode\":"@ + if markdown {
        "\"Markdown\"}"@
    } else {
        "\"\"}"@
    }
}

pub fn send_payload(chat_id: i64, text: &str, markdown: bool) -> (r: String)
    ensures
        r@ == send_payload_text(chat_id, text@, markdown),
{
    let mut out: Vec<char> = Vec::new();
    push_str(&mut out, "{\"chat_id\":");
    push_decimal_signed(&mut out, chat_id);
    push_str(&mut out, ",\"text\":");
    let q = json_quote(text);
    push_str(&mut out, q.as_str());
    push_str(&mut out, ",\"parse_mode\":");
    if markdown {
        push_str(&mut out, "\"Markdown\"}");
    } else {
        push_str(&mut out, "\"\"}");
    }
    string_of(&out)
}

// ─── Settings ────────────────────────────────────────────────────────────────

/// Pieces of `s` between commas.
pub open spec fn split_commas(s: Seq<char>) -> Seq<Seq<char>>
    decreases s.len(),
{
    if s.len() == 0 {
        seq![Seq::<char>::empty()]
    } else {
        let rest = split_commas(s.drop_last());
        if s.last() == ',' {
            rest.push(Seq::empty())
        } else {
            rest.update(rest.len() - 1, rest.last().push(s.last()))
        }
    }
}

proof fn lemma_split_commas_len(s: Seq<char>)
    ensures
        split_commas(s).len() >= 1,
    decreases s.len(),
{
    if s.len() > 0 {
        lemma_split_commas_len(s.drop_last());
    }
}

/// Chat ids that parse, in order.
pub open spec fn parsed_ids(parts: Seq<Seq<char>>) -> Seq<i64>
    decreases parts.len(),
{
    if parts.len() == 0 {
        Seq::empty()
    } else {
        let rest = parsed_ids(parts.drop_last());
        match parse_i64_spec(trim(parts.last())) {
            Some(v) => rest.push(v),
            None => rest,
        }
    }
}

/// The allowlist from its setting: comma-separated chat ids; pieces that
/// are not integers are skipped.
pub fn parse_allowed_chats(setting: &str) -> (r: Vec<i64>)
    ensures
        r@ == parsed_ids(split_commas(setting@)),
{
    let s = chars_of(setting);
    let mut parts: Vec<Vec<char>> = Vec::new();
    parts.push(Vec::new());
    let mut i: usize = 0;
    while i < s.len()
        invariant
            i <= s@.len(),
            parts@.len() >= 1,
            parts@.map_values(|p: Vec<char>| p@) == split_commas(s@.take(i as int)),
        decreases s@.len() - i,
    {
        let ghost prev = parts@.map_values(|p: Vec<char>| p@);
        assert(s@.take(i + 1).drop_last() =~= s@.take(i as int));
        if s[i] == ',' {
            parts.push(Vec::new());
            assert(parts@.map_values(|p: Vec<char>| p@) =~= prev.push(Seq::empty()));
        } else {
            let last: usize = parts.len() - 1;
            let mut cur = parts.pop().unwrap();
            cur.push(s[i]);
            parts.push(cur);
            assert(parts@.map_values(|p: Vec<char>| p@) =~= prev.update(
                prev.len() - 1,
                prev.last().push(s@[i as int]),
            ));
        }
        i = i + 1;
    }
    assert(s@.take(s@.len() as int) =~= s@);
    let ghost ps = parts@.map_values(|p: Vec<char>| p@);
    let mut out: Vec<i64> = Vec::new();
    let mut k: usize = 0;
    while k < parts.len()
        invariant
            k <= parts@.len(),
            ps == parts@.map_values(|p: Vec<char>| p@),
            out@ == parsed_ids(ps.take(k as int)),
        decreases parts@.len() - k,
    {
        assert(ps.take(k + 1).drop_last() =~= ps.take(k as int));
        assert(ps.take(k + 1).last() == parts@[k as int]@);
        let t = trim_chars(&parts[k]);
        match parse_i64(&t) {
            Some(v) => out.push(v),
            None => {},
        }
        k = k + 1;
    }
    assert(ps.take(ps.len() as int) =~= ps);
    out
}

} // verus!
