//! Token accounting and the mock inference used when no model file exists.
use vstd::prelude::*;
use crate::errors::AppError;
use crate::plugin_manager::lit;
use crate::text::{
    alphabetic, ascii_lower, byte_len, char_width, chars_of, dec, is_alphabetic, is_whitespace,
    is_ws, lemma_byte_len_push, push_decimal, push_str, string_of, trim, trim_chars,
};

verus! {

/// Result of one inference request with its token counts.
pub struct InferResult {
    pub text: String,
    /// Number of tokens in the prompt.
    pub prompt_tokens: u32,
    /// Number of tokens generated.
    pub completion_tokens: u32,
}

/// Number of leading alphabetic characters of `s`.
pub open spec fn alpha_run(s: Seq<char>) -> int
    decreases s.len(),
{
    if s.len() > 0 && alphabetic(s[0]) {
        1 + alpha_run(s.drop_first())
    } else {
        0
    }
}

/// Extra tokens charged for a word of `bytes` bytes: one per 4 bytes beyond
/// the first 4 (the byte count is taken as a `u32`).
pub open spec fn word_extra(bytes: nat) -> nat {
    let b = bytes % 0x1_0000_0000;
    if b >= 4 {
        ((b - 4) / 4) as nat
    } else {
        0
    }
}

/// The token estimate: every character counts one; a character that starts
/// a run of alphabetic characters takes the whole run with it and adds
/// `word_extra` of the run's byte length.
pub open spec fn bpe_count(s: Seq<char>) -> nat
    decreases s.len(),
{
    if s.len() == 0 {
        0
    } else if alphabetic(s[0]) {
        let w = alpha_run(s);
        if 0 < w <= s.len() {
            1 + word_extra(byte_len(s.take(w))) + bpe_count(s.skip(w))
        } else {
            0
        }
    } else {
        1 + bpe_count(s.drop_first())
    }
}

proof fn lemma_alpha_run_bounds(s: Seq<char>)
    ensures
        0 <= alpha_run(s) <= s.len(),
        s.len() > 0 && alphabetic(s[0]) ==> alpha_run(s) >= 1,
    decreases s.len(),
{
    if s.len() > 0 && alphabetic(s[0]) {
        lemma_alpha_run_bounds(s.drop_first());
    }
}

proof fn lemma_alpha_run(s: Seq<char>, k: int)
    requires
        0 <= k <= s.len(),
        forall|j: int| 0 <= j < k ==> alphabetic(#[trigger] s[j]),
        k < s.len() ==> !alphabetic(s[k]),
    ensures
        alpha_run(s) == k,
    decreases k,
{
    if k > 0 {
        assert forall|j: int| 0 <= j < k - 1 implies alphabetic(#[trigger] s.drop_first()[j]) by {
            assert(s.drop_first()[j] == s[j + 1]);
        }
        if k < s.len() {
            assert(s.drop_first()[k - 1] == s[k]);
        }
        assert(alphabetic(s[0]));
        lemma_alpha_run(s.drop_first(), k - 1);
    }
}

/// The token estimate when it fits a `u32` (`None` exactly when it does
/// not).
pub fn bpe_estimate_checked(text: &str) -> (r: Option<u32>)
    ensures
        match r {
            Some(n) => n == bpe_count(text@) && (text@.len() > 0 ==> n >= 1),
            None => bpe_count(text@) > u32::MAX,
        },
{
    let v = chars_of(text);
    let n: usize = v.len();
    if n == 0 {
        return Some(0);
    }
    let mut count: u32 = 0;
    let mut i: usize = 0;
    assert(v@.skip(0) =~= v@);
    while i < n
        invariant
            n == v@.len(),
            v@ == text@,
            i <= n,
            bpe_count(v@) == count + bpe_count(v@.skip(i as int)),
            i > 0 ==> count >= 1,
        decreases n - i,
    {
        let ghost rest = v@.skip(i as int);
        assert(rest[0] == v@[i as int]);
        proof {
            lemma_alpha_run_bounds(rest);
        }
        let ch: char = v[i];
        let ghost before = count;
        count = match count.checked_add(1) {
            Some(c) => c,
            None => {
                proof {
                    if alphabetic(rest[0]) {
                        assert(bpe_count(rest) >= 1);
                    } else {
                        assert(bpe_count(rest) >= 1);
                    }
                }
                return None;
            },
        };
        if is_alphabetic(ch) {
            let mut j: usize = i + 1;
            let mut wlen: u32 = (width_of(ch) as u32);
            proof {
                assert(v@.subrange(i as int, i + 1) =~= seq![ch]);
                lemma_byte_len_push(Seq::<char>::empty(), ch);
                assert(Seq::<char>::empty().push(ch) =~= seq![ch]);
            }
            while j < n && is_alphabetic(v[j])
                invariant
                    n == v@.len(),
                    i < j <= n,
                    forall|q: int| i <= q < j ==> alphabetic(#[trigger] v@[q]),
                    wlen as nat == byte_len(v@.subrange(i as int, j as int)) % 0x1_0000_0000,
                decreases n - j,
            {
                let w: u32 = width_of(v[j]) as u32;
                proof {
                    lemma_byte_len_push(v@.subrange(i as int, j as int), v@[j as int]);
                    assert(v@.subrange(i as int, j as int).push(v@[j as int]) =~= v@.subrange(
                        i as int,
                        j + 1,
                    ));
                }
                wlen = wlen.wrapping_add(w);
                j = j + 1;
            }
            proof {
                assert forall|q: int| 0 <= q < j - i implies alphabetic(#[trigger] rest[q]) by {
                    assert(rest[q] == v@[i + q]);
                }
                if j < n {
                    assert(rest[j - i] == v@[j as int]);
                }
                lemma_alpha_run(rest, j - i);
                assert(rest.take(j - i) =~= v@.subrange(i as int, j as int));
                assert(rest.skip(j - i) =~= v@.skip(j as int));
            }
            let extra: u32 = if wlen >= 4 {
                (wlen - 4) / 4
            } else {
                0
            };
            proof {
                assert(extra == word_extra(byte_len(rest.take(j - i))));
                assert(bpe_count(rest) == 1 + extra + bpe_count(v@.skip(j as int)));
            }
            count = match count.checked_add(extra) {
                Some(c) => c,
                None => {
                    return None;
                },
            };
            i = j;
        } else {
            assert(rest.drop_first() =~= v@.skip(i + 1));
            i = i + 1;
        }
    }
    assert(v@.skip(n as int).len() == 0);
    Some(count)
}

/// Token estimate of `text`: 0 for empty text, otherwise `bpe_count`, which
/// is at least 1.
pub fn bpe_estimate(text: &str) -> (r: u32)
    requires
        bpe_count(text@) <= u32::MAX,
    ensures
        r == bpe_count(text@),
        text@.len() > 0 ==> r >= 1,
{
    match bpe_estimate_checked(text) {
        Some(n) => n,
        None => 0,
    }
}

fn width_of(c: char) -> (r: usize)
    ensures
        r == char_width(c),
        r <= 4,
{
    let u: u32 = c as u32;
    if u < 0x80 {
        1
    } else if u < 0x800 {
        2
    } else if u < 0x10000 {
        3
    } else {
        4
    }
}

/// Number of maximal runs of non-whitespace characters (what
/// `split_whitespace().count()` gives).
pub open spec fn word_count(s: Seq<char>) -> nat
    decreases s.len(),
{
    if s.len() == 0 {
        0
    } else {
        let starts = !is_ws(s.last()) && (s.len() == 1 || is_ws(s[s.len() - 2]));
        word_count(s.drop_last()) + if starts {
            1nat
        } else {
            0nat
        }
    }
}

pub open spec fn mock_text(prompt: Seq<char>) -> Seq<char> {
    "[MOCK] Prompt had "@ + dec(word_count(prompt)) + " words. Set MODEL_PATH to a valid .gguf file for real inference."@
}

/// Reply produced when no model is loaded.
pub fn mock_infer(prompt: &str) -> (r: String)
    ensures
        r@ == mock_text(prompt@),
{
    let v = chars_of(prompt);
    let mut words: usize = 0;
    let mut i: usize = 0;
    while i < v.len()
        invariant
            i <= v@.len(),
            words == word_count(v@.take(i as int)),
            words <= i,
        decreases v.len() - i,
    {
        assert(v@.take(i + 1).drop_last() =~= v@.take(i as int));
        if !is_whitespace(v[i]) && (i == 0 || is_whitespace(v[i - 1])) {
            words = words + 1;
        }
        i = i + 1;
    }
    assert(v@.take(v@.len() as int) =~= v@);
    let mut out: Vec<char> = Vec::new();
    push_str(&mut out, "[MOCK] Prompt had ");
    push_decimal(&mut out, words as u64);
    push_str(&mut out, " words. Set MODEL_PATH to a valid .gguf file for real inference.");
    string_of(&out)
}

/// What the worker answers in mock mode: the mock reply with both token
/// counts estimated.
pub open spec fn mock_result_ok(prompt: Seq<char>) -> bool {
    bpe_count(prompt) <= u32::MAX && bpe_count(mock_text(prompt)) <= u32::MAX
}

pub fn mock_result(prompt: &str) -> (r: InferResult)
    requires
        mock_result_ok(prompt@),
    ensures
        r.text@ == mock_text(prompt@),
        r.prompt_tokens == bpe_count(prompt@),
        r.completion_tokens == bpe_count(mock_text(prompt@)),
{
    let prompt_tokens: u32 = bpe_estimate(prompt);
    let text = mock_infer(prompt);
    let completion_tokens: u32 = bpe_estimate(text.as_str());
    InferResult { text, prompt_tokens, completion_tokens }
}

// ─── The worker ──────────────────────────────────────────────────────────────

/// Requests waiting for or in inference at most; more are refused with
/// `QueueFull`.
pub const QUEUE_CAPACITY: usize = 32;
/// Longest wait for one inference (seconds); then `Timeout`.
pub const INFERENCE_TIMEOUT_SECS: u64 = 60;

/// `AGENT_MODE` turns agent mode on when it is `true` (any case) or `1`.
pub open spec fn agent_mode_of(value: Option<Seq<char>>) -> bool {
    match value {
        Some(v) => (v.len() == 4 && forall|i: int| 0 <= i < 4 ==> ascii_lower(#[trigger] v[i])
            == "true"@[i]) || v == "1"@,
        None => false,
    }
}

pub fn agent_mode_enabled(value: Option<&str>) -> (r: bool)
    ensures
        r == agent_mode_of(match value {
            Some(v) => Some(v@),
            None => None,
        }),
{
    match value {
        None => false,
        Some(v) => {
            let c = chars_of(v);
            let t = chars_of("true");
            proof {
                reveal_strlit("true");
                reveal_strlit("1");
            }
            if c.len() == 1 && c[0] == '1' {
                assert(c@ =~= "1"@);
                return true;
            }
            if c.len() != 4 {
                assert(c@ != "1"@ || c@.len() == 1);
                return false;
            }
            let mut i: usize = 0;
            while i < 4
                invariant
                    i <= 4,
                    c@.len() == 4,
                    c@ == v@,
                    value == Some(v),
                    t@.len() == 4,
                    t@ == "true"@,
                    forall|j: int| 0 <= j < i ==> ascii_lower(#[trigger] c@[j]) == t@[j],
                decreases 4 - i,
            {
                let ch = c[i];
                let cu: u32 = ch as u32;
                let tu: u32 = t[i] as u32;
                let same: bool = if 'A' <= ch && ch <= 'Z' {
                    cu + 32 == tu
                } else {
                    ch == t[i]
                };
                proof {
                    vstd::utf8::char_u32_cast(t@[i as int], tu);
                }
                if !same {
                    proof {
                        reveal_strlit("1");
                        reveal_strlit("true");
                        if 'A' <= ch && ch <= 'Z' {
                            assert((((cu + 32) as char) as u32) == cu + 32);
                        }
                        assert(ascii_lower(c@[i as int]) != "true"@[i as int]);
                        assert(c@ != "1"@);
                    }
                    return false;
                }
                i = i + 1;
            }
            true
        },
    }
}

/// What `Path::file_name` gives for `path`, as text.
pub uninterp spec fn path_file_name(path: Seq<char>) -> Option<Seq<char>>;

/// Calls `Path::file_name` (and `to_str`); depends on the path alone.
#[verifier::external_body]
fn file_name(path: &str) -> (r: Option<String>)
    ensures
        match r {
            Some(n) => path_file_name(path@) == Some(n@),
            None => path_file_name(path@) is None,
        },
{
    std::path::Path::new(path).file_name().and_then(|n| n.to_str()).map(|n| n.to_string())
}

/// The model's name: the file name of its path, else `unknown-model`.
pub fn model_name_of(model_path: &str) -> (r: String)
    ensures
        r@ == match path_file_name(model_path@) {
            Some(n) => n,
            None => "unknown-model"@,
        },
{
    match file_name(model_path) {
        Some(n) => n,
        None => lit("unknown-model"),
    }
}

/// The error every request gets when the model failed to load.
pub fn model_load_failed(cause: &str) -> (r: AppError)
    ensures
        r matches AppError::LlmError(m) && m@ == "Model load failed: "@ + cause@,
{
    let mut out: Vec<char> = Vec::new();
    push_str(&mut out, "Model load failed: ");
    push_str(&mut out, cause);
    AppError::LlmError(string_of(&out))
}

/// The result of a real inference: the output trimmed, the prompt's token
/// count as the model reported it, the completion's estimated.
pub fn inference_result(output: &str, prompt_tokens: u32) -> (r: InferResult)
    requires
        bpe_count(trim(output@)) <= u32::MAX,
    ensures
        r.text@ == trim(output@),
        r.prompt_tokens == prompt_tokens,
        r.completion_tokens == bpe_count(trim(output@)),
{
    let text = string_of(&trim_chars(&chars_of(output)));
    let completion_tokens: u32 = bpe_estimate(text.as_str());
    InferResult { text, prompt_tokens, completion_tokens }
}

/// `mock_result` where both estimates fit a `u32`; `None` exactly where
/// one does not.
pub fn try_mock_result(prompt: &str) -> (r: Option<InferResult>)
    ensures
        match r {
            Some(x) => mock_result_ok(prompt@) && x.text@ == mock_text(prompt@) && x.prompt_tokens
                == bpe_count(prompt@) && x.completion_tokens == bpe_count(mock_text(prompt@)),
            None => !mock_result_ok(prompt@),
        },
{
    let text = mock_infer(prompt);
    match (bpe_estimate_checked(prompt), bpe_estimate_checked(text.as_str())) {
        (Some(p), Some(c)) => Some(InferResult { text, prompt_tokens: p, completion_tokens: c }),
        _ => None,
    }
}

/// `inference_result` where the completion's estimate fits a `u32`; `None`
/// exactly where it does not.
pub fn try_inference_result(output: &str, prompt_tokens: u32) -> (r: Option<InferResult>)
    ensures
        match r {
            Some(x) => x.text@ == trim(output@) && x.prompt_tokens == prompt_tokens
                && x.completion_tokens == bpe_count(trim(output@)),
            None => bpe_count(trim(output@)) > u32::MAX,
        },
{
    let text = string_of(&trim_chars(&chars_of(output)));
    match bpe_estimate_checked(text.as_str()) {
        Some(c) => Some(InferResult { text, prompt_tokens, completion_tokens: c }),
        None => None,
    }
}

} // verus!
