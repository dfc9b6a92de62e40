//! The OpenAI-compatible chat endpoint: which message is answered, the
//! built-in commands, routing of slash-commands to plugins, the replies for
//! every outcome, and the response document.
//!
//! Locks, the plugin process and the model call are outside; the handler
//! there walks through these steps.
use vstd::prelude::*;
use crate::errors::AppError;
use crate::llm_client::{llm_error_text, LlmError};
use crate::plugin_manager::{
    format_help, help_text, is_command_listing, lit, plugin_error_text, PluginError, PluginManager,
    PluginResponse,
};
use crate::prompt_engine::{
    build_prompt, clean_response_defined, cleaned, keep_last, labels_ok, parse_slash_command,
    prompt_fits, render, slash_command, system_text, try_clean_response, user_turn,
    ConversationHistory, Role, Turn, MAX_CONTEXT_CHARS, MAX_HISTORY_TURNS,
};
use crate::summary::{summarise_fields, summarise_reply, PluginOutput};
use crate::text::{
    byte_len, chars_of, dec, lowercase, push_decimal, push_str, string_of, to_lowercase, trim,
    trim_chars,
};

verus! {

/// Completion limit when the request names none.
pub const DEFAULT_MAX_TOKENS: u32 = 256;

pub struct ChatMessage {
    pub role: String,
    pub content: String,
}

pub struct ChatRequest {
    pub model: String,
    pub messages: Vec<ChatMessage>,
    pub max_tokens: u32,
    pub stream: bool,
}

pub struct ChatChoice {
    pub index: u32,
    pub message: ChatMessage,
    pub finish_reason: String,
}

pub struct TokenUsage {
    pub prompt_tokens: u32,
    pub completion_tokens: u32,
    pub total_tokens: u32,
}

pub struct ChatResponse {
    pub id: String,
    pub object: String,
    pub created: u64,
    pub model: String,
    pub choices: Vec<ChatChoice>,
    pub usage: TokenUsage,
}

// ─── Streaming ───────────────────────────────────────────────────────────────

/// Why a request for a streamed reply is refused.
pub open spec fn stream_refusal_text() -> Seq<char> {
    "Streaming responses (stream: true) are not supported"@
}

/// Replies are sent whole: a request that asks for a stream is refused
/// (`400`).
pub fn check_stream(req: &ChatRequest) -> (r: Result<(), AppError>)
    ensures
        match r {
            Ok(()) => !req.stream,
            Err(e) => req.stream && (e matches AppError::InvalidRequest(m) && m@ == stream_refusal_text()),
        },
{
    if req.stream {
        Err(AppError::InvalidRequest(lit("Streaming responses (stream: true) are not supported")))
    } else {
        Ok(())
    }
}

// ─── The message answered ────────────────────────────────────────────────────

/// The trimmed content of the last message with role `user` (empty when
/// there is none).
pub open spec fn latest_user(ms: Seq<ChatMessage>) -> Seq<char>
    decreases ms.len(),
{
    if ms.len() == 0 {
        Seq::empty()
    } else if ms.last().role@ == "user"@ {
        trim(ms.last().content@)
    } else {
        latest_user(ms.drop_last())
    }
}

pub fn latest_user_message(messages: &[ChatMessage]) -> (r: String)
    ensures
        r@ == latest_user(messages@),
{
    let mut i: usize = messages.len();
    assert(messages@.take(i as int) =~= messages@);
    while i > 0
        invariant
            i <= messages@.len(),
            latest_user(messages@) == latest_user(messages@.take(i as int)),
        decreases i,
    {
        assert(messages@.take(i as int).drop_last() =~= messages@.take(i - 1));
        assert(messages@.take(i as int).last() == messages@[i - 1]);
        let role = chars_of(messages[i - 1].role.as_str());
        if crate::json::chars_eq(&role, &chars_of("user")) {
            return string_of(&trim_chars(&chars_of(messages[i - 1].content.as_str())));
        }
        i = i - 1;
    }
    String::new()
}

/// Rough token count of a reply: a quarter of its length in bytes.
pub open spec fn approx_tokens_of(t: Seq<char>) -> u32 {
    (((byte_len(t) as usize) as u32) / 4) as u32
}

pub fn approx_tokens(text: &str) -> (r: u32)
    ensures
        r == approx_tokens_of(text@),
{
    let n: usize = text.len();
    proof {
        crate::text::lemma_byte_len_is_utf8_len(text@);
    }
    (n as u32) / 4
}

// ─── Built-in commands ───────────────────────────────────────────────────────

/// Commands answered without a plugin or the model.
#[derive(PartialEq, Eq, Structural, Clone, Copy)]
pub enum Builtin {
    Help,
    Reset,
    Status,
}

pub open spec fn builtin_of(msg: Seq<char>) -> Option<Builtin> {
    let l = lowercase(trim(msg));
    if l == "/help"@ || l == "help"@ {
        Some(Builtin::Help)
    } else if l == "/reset"@ || l == "/clear"@ {
        Some(Builtin::Reset)
    } else if l == "/status"@ {
        Some(Builtin::Status)
    } else {
        None
    }
}

fn is_text(v: &Vec<char>, lit: &str) -> (r: bool)
    ensures
        r == (v@ == lit@),
{
    crate::json::chars_eq(v, &chars_of(lit))
}

pub fn builtin_command(msg: &str) -> (r: Option<Builtin>)
    ensures
        r == builtin_of(msg@),
{
    let t = string_of(&trim_chars(&chars_of(msg)));
    let l = chars_of(to_lowercase(t.as_str()).as_str());
    if is_text(&l, "/help") || is_text(&l, "help") {
        Some(Builtin::Help)
    } else if is_text(&l, "/reset") || is_text(&l, "/clear") {
        Some(Builtin::Reset)
    } else if is_text(&l, "/status") {
        Some(Builtin::Status)
    } else {
        None
    }
}

/// The first line of the `/help` reply.
pub open spec fn help_title() -> Seq<char> {
    "Fabio-Claw\n"@
}

pub open spec fn status_text(n: nat) -> Seq<char> {
    "Fabio-Claw is running. "@ + dec(n) + " commands available. Type /help for the full list."@
}

/// The reply to a built-in command; `/reset` and `/clear` empty the
/// history.
pub fn builtin_reply(kind: Builtin, pm: &PluginManager, history: &mut ConversationHistory) -> (r:
    String)
    requires
        pm.wf(),
    ensures
        kind == Builtin::Help ==> final(history)@ == old(history)@ && exists|l: Seq<(String, String)>|
            #![trigger help_text(l)]
            is_command_listing(*pm, l) && r@ == help_title() + help_text(l),
        kind == Builtin::Reset ==> final(history)@ == Seq::<Turn>::empty() && r@
            == "Conversation history cleared."@,
        kind == Builtin::Status ==> final(history)@ == old(history)@ && r@ == status_text(
            pm.commands().len(),
        ),
{
    match kind {
        Builtin::Help => {
            let l = pm.list_commands();
            let mut out: Vec<char> = Vec::new();
            push_str(&mut out, "Fabio-Claw\n");
            push_str(&mut out, format_help(&l).as_str());
            string_of(&out)
        },
        Builtin::Reset => {
            history.clear();
            lit("Conversation history cleared.")
        },
        Builtin::Status => {
            let n: usize = pm.list_commands().len();
            let mut out: Vec<char> = Vec::new();
            push_str(&mut out, "Fabio-Claw is running. ");
            push_decimal(&mut out, n as u64);
            push_str(&mut out, " commands available. Type /help for the full list.");
            string_of(&out)
        },
    }
}

// ─── Routing ─────────────────────────────────────────────────────────────────

/// Where a user message goes.
pub enum ChatRoute {
    /// Nothing to answer: `400 Empty user message`.
    Empty,
    /// A built-in command.
    Builtin(Builtin),
    /// A slash-command for a plugin.
    Plugin { command: String, args: String },
    /// Plain chat for the model.
    Model,
}

pub fn route(user_msg: &str) -> (r: ChatRoute)
    ensures
        user_msg@.len() == 0 ==> r is Empty,
        user_msg@.len() > 0 ==> (builtin_of(user_msg@) matches Some(b) ==> r == ChatRoute::Builtin(b)),
        user_msg@.len() > 0 && builtin_of(user_msg@) is None ==> match slash_command(user_msg@) {
            Some((c, a)) => r matches ChatRoute::Plugin { command, args } && command@ == c && args@
                == a,
            None => r is Model,
        },
{
    if chars_of(user_msg).len() == 0 {
        return ChatRoute::Empty;
    }
    match builtin_command(user_msg) {
        Some(b) => ChatRoute::Builtin(b),
        None => match parse_slash_command(user_msg) {
            Some((c, a)) => ChatRoute::Plugin {
                command: string_of(&chars_of(c)),
                args: string_of(&chars_of(a)),
            },
            None => ChatRoute::Model,
        },
    }
}

// ─── Plugin outcomes ─────────────────────────────────────────────────────────

/// What a plugin call leads to.
pub enum PluginStage {
    /// Answer with this text, without the model.
    Reply(String),
    /// Ask the model about this summary of a successful reply.
    Summary(String),
    /// The summary would cut a string inside a character.
    Unrenderable,
}

pub open spec fn opt_text(o: Option<String>) -> Option<Seq<char>> {
    match o {
        Some(s) => Some(s@),
        None => None,
    }
}

/// The summary of a plugin's reply (as it reads after a JSON round trip).
pub open spec fn reply_summary(resp: PluginResponse) -> Option<Seq<char>> {
    summarise_reply(Some(resp.success), opt_text(resp.error), Some(resp.result))
}

pub open spec fn plugin_failure_text(result: Result<PluginResponse, PluginError>) -> Seq<char> {
    match result {
        Ok(resp) => "\u{26a0} Command failed: "@ + match resp.error {
            Some(e) => e@,
            None => "Unknown plugin error"@,
        },
        Err(PluginError::NotFound(c)) => "Unknown command: /"@ + c@
            + ". Type /help to see available commands."@,
        Err(PluginError::Timeout(n)) => "\u{26a0} Plugin "@ + n@
            + " timed out. The Raspberry Pi may be under load."@,
        Err(e) => "\u{26a0} "@ + plugin_error_text(e),
    }
}

pub fn plugin_stage(result: Result<PluginResponse, PluginError>) -> (r: PluginStage)
    ensures
        match result {
            Ok(resp) => match reply_summary(resp) {
                None => r is Unrenderable,
                Some(s) => if resp.success {
                    r matches PluginStage::Summary(t) && t@ == s
                } else {
                    r matches PluginStage::Reply(t) && t@ == plugin_failure_text(result)
                },
            },
            Err(_) => r matches PluginStage::Reply(t) && t@ == plugin_failure_text(result),
        },
{
    match result {
        Ok(resp) => {
            let err: Option<&str> = match &resp.error {
                Some(e) => Some(e.as_str()),
                None => None,
            };
            let summary = summarise_fields(Some(resp.success), err, Some(&resp.result));
            match summary {
                None => PluginStage::Unrenderable,
                Some(s) => {
                    if resp.success {
                        PluginStage::Summary(string_of(&s))
                    } else {
                        let mut out: Vec<char> = Vec::new();
                        push_str(&mut out, "\u{26a0} Command failed: ");
                        match &resp.error {
                            Some(e) => push_str(&mut out, e.as_str()),
                            None => push_str(&mut out, "Unknown plugin error"),
                        }
                        PluginStage::Reply(string_of(&out))
                    }
                },
            }
        },
        Err(PluginError::NotFound(c)) => {
            let mut out: Vec<char> = Vec::new();
            push_str(&mut out, "Unknown command: /");
            push_str(&mut out, c.as_str());
            push_str(&mut out, ". Type /help to see available commands.");
            PluginStage::Reply(string_of(&out))
        },
        Err(PluginError::Timeout(n)) => {
            let mut out: Vec<char> = Vec::new();
            push_str(&mut out, "\u{26a0} Plugin ");
            push_str(&mut out, n.as_str());
            push_str(&mut out, " timed out. The Raspberry Pi may be under load.");
            PluginStage::Reply(string_of(&out))
        },
        Err(e) => {
            let m = e.message();
            let mut out: Vec<char> = Vec::new();
            push_str(&mut out, "\u{26a0} ");
            push_str(&mut out, m.as_str());
            PluginStage::Reply(string_of(&out))
        },
    }
}

// ─── The model's turn ────────────────────────────────────────────────────────

/// The prompt for the model and its approximate token count.
pub fn model_prompt(
    history: &ConversationHistory,
    user_msg: &str,
    plugin_result: Option<&PluginOutput>,
) -> (r: (String, u32))
    requires
        user_turn(user_msg@, plugin_result) matches Some(ut) && prompt_fits(history@, ut),
    ensures
        user_turn(user_msg@, plugin_result) matches Some(ut) && exists|d: Seq<char>, t: Seq<char>|
            #![trigger system_text(d, t)]
            labels_ok(d, t) && {
                let full = render(system_text(d, t), history@, ut);
                if byte_len(full) <= MAX_CONTEXT_CHARS {
                    r.0@ == full
                } else {
                    exists|d2: Seq<char>, t2: Seq<char>|
                        #![trigger system_text(d2, t2)]
                        labels_ok(d2, t2) && r.0@ == render(
                            system_text(d2, t2),
                            keep_last(history@, 4),
                            ut,
                        )
                }
            },
        r.1 == approx_tokens_of(r.0@),
{
    let p = build_prompt(history, user_msg, plugin_result);
    let n = approx_tokens(p.as_str());
    (p, n)
}

/// The reply after the model was asked.
pub enum ModelStage {
    Reply(String),
    /// `500 LLM error: ...` (plain chat has no fallback).
    Failed(String),
    /// Cleaning the reply would cut a string inside a character.
    Unrenderable,
}

/// The model's text cleaned; when the model failed, the plugin summary
/// (if a plugin ran) cleaned, else an error.
pub fn model_stage(outcome: Result<String, LlmError>, fallback: Option<String>) -> (r: ModelStage)
    ensures
        ({
            let text = match outcome {
                Ok(t) => Some(t@),
                Err(_) => opt_text(fallback),
            };
            match text {
                Some(t) => if clean_response_defined(t) {
                    r matches ModelStage::Reply(x) && x@ == cleaned(t)
                } else {
                    r is Unrenderable
                },
                None => outcome matches Err(e) && (r matches ModelStage::Failed(m) && m@ == "LLM error: "@
                    + llm_error_text(e)),
            }
        }),
{
    let text: Option<String> = match &outcome {
        Ok(t) => Some(t.clone()),
        Err(_) => fallback,
    };
    match text {
        Some(t) => match try_clean_response(t.as_str()) {
            Some(c) => ModelStage::Reply(c),
            None => ModelStage::Unrenderable,
        },
        None => match &outcome {
            Err(e) => {
                let m = e.message();
                let mut out: Vec<char> = Vec::new();
                push_str(&mut out, "LLM error: ");
                push_str(&mut out, m.as_str());
                ModelStage::Failed(string_of(&out))
            },
            Ok(_) => ModelStage::Unrenderable,
        },
    }
}

// ─── The response ────────────────────────────────────────────────────────────

/// Records the exchange in the history.
pub fn record_exchange(history: &mut ConversationHistory, user_msg: String, reply: String)
    ensures
        final(history)@ == keep_last(
            keep_last(
                old(history)@.push(Turn { role: Role::User, content: user_msg }),
                2 * MAX_HISTORY_TURNS as int,
            ).push(Turn { role: Role::Assistant, content: reply }),
            2 * MAX_HISTORY_TURNS as int,
        ),
{
    history.push(Role::User, user_msg);
    history.push(Role::Assistant, reply);
}

/// The completion document for `content`, created at `created` (seconds
/// since the epoch).
pub fn make_response(
    model: &str,
    content: &str,
    prompt_tokens: u32,
    completion_tokens: u32,
    created: u64,
) -> (r: ChatResponse)
    requires
        prompt_tokens + completion_tokens <= u32::MAX,
    ensures
        r.id@ == "chatcmpl-"@ + dec(created as nat),
        r.object@ == "chat.completion"@,
        r.created == created,
        r.model@ == model@,
        r.choices@.len() == 1,
        r.choices@[0].index == 0,
        r.choices@[0].message.role@ == "assistant"@,
        r.choices@[0].message.content@ == content@,
        r.choices@[0].finish_reason@ == "stop"@,
        r.usage.prompt_tokens == prompt_tokens,
        r.usage.completion_tokens == completion_tokens,
        r.usage.total_tokens == prompt_tokens + completion_tokens,
{
    let mut id: Vec<char> = Vec::new();
    push_str(&mut id, "chatcmpl-");
    push_decimal(&mut id, created);
    let mut choices: Vec<ChatChoice> = Vec::new();
    choices.push(
        ChatChoice {
            index: 0,
            message: ChatMessage { role: lit("assistant"), content: string_of(&chars_of(content)) },
            finish_reason: lit("stop"),
        },
    );
    ChatResponse {
        id: string_of(&id),
        object: lit("chat.completion"),
        created,
        model: string_of(&chars_of(model)),
        choices,
        usage: TokenUsage {
            prompt_tokens,
            completion_tokens,
            total_tokens: prompt_tokens + completion_tokens,
        },
    }
}

} // verus!
