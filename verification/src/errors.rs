//! The runtime's error type: its message and the HTTP status it answers with.
use vstd::prelude::*;
use crate::json::{json_quote, json_quoted};
use crate::text::{dec, push_decimal, push_str, string_of};

verus! {

/// Errors of the runtime. Causes raised by outside libraries (database, I/O,
/// JSON) are carried as their message.
pub enum AppError {
    LlmError(String),
    DatabaseError(String),
    PluginError(String),
    SecurityError(String),
    ConfigError(String),
    QueueFull,
    Timeout(u64),
    Cancelled,
    InvalidRequest(String),
    IoError(String),
    SerdeError(String),
    SchedulerError(String),
    TelegramError(String),
}

pub open spec fn app_error_text(e: AppError) -> Seq<char> {
    match e {
        AppError::LlmError(m) => "LLM inference error: "@ + m@,
        AppError::DatabaseError(m) => "Database error: "@ + m@,
        AppError::PluginError(m) => "Plugin error: "@ + m@,
        AppError::SecurityError(m) => "Security error: "@ + m@,
        AppError::ConfigError(m) => "Configuration error: "@ + m@,
        AppError::QueueFull => "Queue full - server overloaded"@,
        AppError::Timeout(s) => "Inference timeout after "@ + dec(s as nat) + "s"@,
        AppError::Cancelled => "Request cancelled"@,
        AppError::InvalidRequest(m) => "Invalid request: "@ + m@,
        AppError::IoError(m) => "IO error: "@ + m@,
        AppError::SerdeError(m) => "Serialization error: "@ + m@,
        AppError::SchedulerError(m) => "Scheduler error: "@ + m@,
        AppError::TelegramError(m) => "Telegram error: "@ + m@,
    }
}

pub open spec fn app_error_status(e: AppError) -> u16 {
    match e {
        AppError::QueueFull => 429,
        AppError::Timeout(_) => 504,
        AppError::InvalidRequest(_) => 400,
        AppError::SecurityError(_) => 403,
        _ => 500,
    }
}

/// `{"error":{"message":<message>,"type":"edge_runtime_error"}}`.
pub open spec fn error_body_text(message: Seq<char>) -> Seq<char> {
    "{\"error\":{\"message\":"@ + json_quoted(message) + ",\"type\":\"edge_runtime_error\"}}"@
}

impl AppError {
    pub fn message(&self) -> (r: String)
        ensures
            r@ == app_error_text(*self),
    {
        let mut out: Vec<char> = Vec::new();
        match self {
            AppError::LlmError(m) => {
                push_str(&mut out, "LLM inference error: ");
                push_str(&mut out, m.as_str());
            },
            AppError::DatabaseError(m) => {
                push_str(&mut out, "Database error: ");
                push_str(&mut out, m.as_str());
            },
            AppError::PluginError(m) => {
                push_str(&mut out, "Plugin error: ");
                push_str(&mut out, m.as_str());
            },
            AppError::SecurityError(m) => {
                push_str(&mut out, "Security error: ");
                push_str(&mut out, m.as_str());
            },
            AppError::ConfigError(m) => {
                push_str(&mut out, "Configuration error: ");
                push_str(&mut out, m.as_str());
            },
            AppError::QueueFull => {
                push_str(&mut out, "Queue full - server overloaded");
            },
            AppError::Timeout(s) => {
                push_str(&mut out, "Inference timeout after ");
                push_decimal(&mut out, *s);
                push_str(&mut out, "s");
            },
            AppError::Cancelled => {
                push_str(&mut out, "Request cancelled");
            },
            AppError::InvalidRequest(m) => {
                push_str(&mut out, "Invalid request: ");
                push_str(&mut out, m.as_str());
            },
            AppError::IoError(m) => {
                push_str(&mut out, "IO error: ");
                push_str(&mut out, m.as_str());
            },
            AppError::SerdeError(m) => {
                push_str(&mut out, "Serialization error: ");
                push_str(&mut out, m.as_str());
            },
            AppError::SchedulerError(m) => {
                push_str(&mut out, "Scheduler error: ");
                push_str(&mut out, m.as_str());
            },
            AppError::TelegramError(m) => {
                push_str(&mut out, "Telegram error: ");
                push_str(&mut out, m.as_str());
            },
        }
        string_of(&out)
    }

    /// The HTTP status the error is answered with.
    pub fn status_code(&self) -> (r: u16)
        ensures
            r == app_error_status(*self),
    {
        match self {
            AppError::QueueFull => 429,
            AppError::Timeout(_) => 504,
            AppError::InvalidRequest(_) => 400,
            AppError::SecurityError(_) => 403,
            _ => 500,
        }
    }

    /// The JSON body the error is answered with.
    pub fn body(&self) -> (r: String)
        ensures
            r@ == error_body_text(app_error_text(*self)),
    {
        let m = self.message();
        let mut out: Vec<char> = Vec::new();
        push_str(&mut out, "{\"error\":{\"message\":");
        let q = json_quote(m.as_str());
        push_str(&mut out, q.as_str());
        push_str(&mut out, ",\"type\":\"edge_runtime_error\"}}");
        string_of(&out)
    }
}

} // verus!
