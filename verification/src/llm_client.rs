//! The HTTP LLM backends (a llama.cpp server or Ollama): where requests go,
//! the limits and stop sequences they carry, and the errors they report.
//! Sampling parameters are floating point and the requests are sent
//! outside.
use vstd::prelude::*;
use crate::text::{dec, push_decimal, push_str, string_of};
use crate::plugin_manager::lit;

verus! {

pub const LLM_PORT_LLAMACPP: u16 = 8080;
pub const LLM_PORT_OLLAMA: u16 = 11434;
/// Request timeout (milliseconds).
pub const REQUEST_TIMEOUT_MS: u64 = 30000;
/// Most tokens a completion may ask for.
pub const MAX_PREDICT: u32 = 512;

/// Which server answers completions.
#[derive(PartialEq, Eq, Structural, Clone, Copy)]
pub enum LlmBackend {
    /// llama.cpp server (`/completion`).
    LlamaCpp,
    /// Ollama (`/api/generate`).
    Ollama,
}

/// Errors of a completion request.
pub enum LlmError {
    Network(String),
    Server(u16, String),
    Parse(String),
    Timeout,
}

pub open spec fn llm_error_text(e: LlmError) -> Seq<char> {
    match e {
        LlmError::Network(m) => "LLM network error: "@ + m@,
        LlmError::Server(c, m) => "LLM server error "@ + dec(c as nat) + ": "@ + m@,
        LlmError::Parse(m) => "LLM response parse error: "@ + m@,
        LlmError::Timeout => "LLM request timed out"@,
    }
}

impl LlmError {
    pub fn message(&self) -> (r: String)
        ensures
            r@ == llm_error_text(*self),
    {
        let mut out: Vec<char> = Vec::new();
        match self {
            LlmError::Network(m) => {
                push_str(&mut out, "LLM network error: ");
                push_str(&mut out, m.as_str());
            },
            LlmError::Server(c, m) => {
                push_str(&mut out, "LLM server error ");
                push_decimal(&mut out, *c as u64);
                push_str(&mut out, ": ");
                push_str(&mut out, m.as_str());
            },
            LlmError::Parse(m) => {
                push_str(&mut out, "LLM response parse error: ");
                push_str(&mut out, m.as_str());
            },
            LlmError::Timeout => {
                push_str(&mut out, "LLM request timed out");
            },
        }
        string_of(&out)
    }
}

pub open spec fn backend_port(b: LlmBackend) -> u16 {
    match b {
        LlmBackend::LlamaCpp => LLM_PORT_LLAMACPP,
        LlmBackend::Ollama => LLM_PORT_OLLAMA,
    }
}

/// `http://localhost:<port>` of a backend.
pub fn base_url(backend: LlmBackend) -> (r: String)
    ensures
        r@ == "http://localhost"@ + ":"@ + dec(backend_port(backend) as nat),
{
    let mut out: Vec<char> = Vec::new();
    push_str(&mut out, "http://localhost");
    push_str(&mut out, ":");
    let port: u16 = match backend {
        LlmBackend::LlamaCpp => LLM_PORT_LLAMACPP,
        LlmBackend::Ollama => LLM_PORT_OLLAMA,
    };
    push_decimal(&mut out, port as u64);
    string_of(&out)
}

pub open spec fn probe_path(b: LlmBackend) -> Seq<char> {
    match b {
        LlmBackend::LlamaCpp => "/health"@,
        LlmBackend::Ollama => "/api/tags"@,
    }
}

/// The URL probed to detect a running backend.
pub fn probe_url(backend: LlmBackend) -> (r: String)
    ensures
        r@ == "http://localhost"@ + ":"@ + dec(backend_port(backend) as nat) + probe_path(backend),
{
    let mut out: Vec<char> = Vec::new();
    push_str(&mut out, base_url(backend).as_str());
    match backend {
        LlmBackend::LlamaCpp => push_str(&mut out, "/health"),
        LlmBackend::Ollama => push_str(&mut out, "/api/tags"),
    }
    string_of(&out)
}

pub open spec fn completion_path(b: LlmBackend) -> Seq<char> {
    match b {
        LlmBackend::LlamaCpp => "/completion"@,
        LlmBackend::Ollama => "/api/generate"@,
    }
}

/// Where completions of `backend` are requested, under `base_url`.
pub fn completion_url(base_url: &str, backend: LlmBackend) -> (r: String)
    ensures
        r@ == base_url@ + completion_path(backend),
{
    let mut out: Vec<char> = Vec::new();
    push_str(&mut out, base_url);
    match backend {
        LlmBackend::LlamaCpp => push_str(&mut out, "/completion"),
        LlmBackend::Ollama => push_str(&mut out, "/api/generate"),
    }
    string_of(&out)
}

/// Tokens asked for: the request's limit, at most 512.
pub fn n_predict(max_tokens: u32) -> (r: u32)
    ensures
        r == if max_tokens < MAX_PREDICT {
            max_tokens
        } else {
            MAX_PREDICT
        },
{
    if max_tokens < MAX_PREDICT {
        max_tokens
    } else {
        MAX_PREDICT
    }
}

pub open spec fn stop_texts(b: LlmBackend) -> Seq<Seq<char>> {
    match b {
        LlmBackend::LlamaCpp => seq!["<|user|>"@, "<|system|>"@, "</s>"@, "\n\nUser:"@, "\nUser:"@],
        LlmBackend::Ollama => seq!["<|user|>"@, "<|system|>"@, "</s>"@, "\n\nUser:"@],
    }
}

/// Stop sequences that keep the model from echoing the prompt or leaking
/// chat markers.
pub fn stop_sequences(backend: LlmBackend) -> (r: Vec<String>)
    ensures
        r@.map_values(|s: String| s@) == stop_texts(backend),
{
    let mut v: Vec<String> = Vec::new();
    v.push(lit("<|user|>"));
    v.push(lit("<|system|>"));
    v.push(lit("</s>"));
    v.push(lit("\n\nUser:"));
    match backend {
        LlmBackend::LlamaCpp => {
            v.push(lit("\nUser:"));
        },
        LlmBackend::Ollama => {},
    }
    assert(v@.map_values(|s: String| s@) =~= stop_texts(backend));
    v
}

/// A non-success HTTP status with the body the server sent.
pub fn server_error(status: u16, body: String) -> (r: LlmError)
    ensures
        r matches LlmError::Server(c, b) && c == status && b@ == body@,
{
    LlmError::Server(status, body)
}

} // verus!
