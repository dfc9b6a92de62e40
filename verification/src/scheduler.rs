//! Cron-style scheduled tasks: when a task is due, what runs, and the task
//! records and requests of the task API. The store, the clock and the
//! background loop are outside.
use vstd::prelude::*;
use chrono::TimeZone;
use std::str::FromStr;
use crate::agent::tool_for;
use crate::errors::AppError;
use crate::plugin_manager::lit;
use crate::plugins::{PluginManifest, PluginRegistry};
use crate::text::{chars_of, lowercase, push_str, string_of};

verus! {

/// Seconds between two looks at the task list.
pub const POLL_INTERVAL_SECS: u64 = 30;

/// An instant in UTC: seconds since the epoch and nanoseconds within it.
#[derive(PartialEq, Eq, Structural, Clone, Copy)]
pub struct UtcTime {
    pub secs: i64,
    pub nanos: u32,
}

/// `a` is not later than `b`.
pub open spec fn not_after(a: UtcTime, b: UtcTime) -> bool {
    a.secs < b.secs || (a.secs == b.secs && a.nanos <= b.nanos)
}

/// The first time after `(secs, nanos)` at which the cron expression fires,
/// as `(secs, nanos)`; `None` when the expression does not parse or there
/// is no such time.
pub uninterp spec fn cron_next_after(expr: Seq<char>, secs: i64, nanos: u32) -> Option<(i64, u32)>;

/// Parses the expression with `cron::Schedule::from_str` and takes the first
/// time of `after(..)`; the answer depends on the expression and the
/// instant alone. The search starts one second after `after`, which chrono
/// must represent: `after` is held to the instants it prints.
#[verifier::external_body]
fn cron_next(expr: &str, after: UtcTime) -> (r: Option<UtcTime>)
    requires
        printable(after),
    ensures
        match r {
            Some(t) => cron_next_after(expr@, after.secs, after.nanos) == Some((t.secs, t.nanos)),
            None => cron_next_after(expr@, after.secs, after.nanos) is None,
        },
{
    let start = match chrono::Utc.timestamp_opt(after.secs, after.nanos).single() {
        Some(t) => t,
        None => return None,
    };
    match cron::Schedule::from_str(expr) {
        Ok(s) => s.after(&start).next().map(
            |t| UtcTime { secs: t.timestamp(), nanos: t.timestamp_subsec_nanos() },
        ),
        Err(_) => None,
    }
}

/// The RFC 3339 text of an instant, as `DateTime::<Utc>::to_rfc3339` writes
/// it.
pub uninterp spec fn rfc3339_text(secs: i64, nanos: u32) -> Seq<char>;

/// Calls `to_rfc3339`; the text depends on the instant alone.
#[verifier::external_body]
pub(crate) fn rfc3339(t: UtcTime) -> (r: String)
    requires
        -8_334_601_315_200 <= t.secs <= 8_210_266_876_798,
        t.nanos < 1_000_000_000,
    ensures
        r@ == rfc3339_text(t.secs, t.nanos),
{
    match chrono::Utc.timestamp_opt(t.secs, t.nanos).single() {
        Some(d) => d.to_rfc3339(),
        None => String::new(),
    }
}

/// The instant printed as `YYYY-MM-DD HH:MM UTC`, as
/// `DateTime::<Utc>::format("%Y-%m-%d %H:%M UTC").to_string()` writes it.
pub uninterp spec fn utc_minute_text(secs: i64, nanos: u32) -> Seq<char>;

/// Calls `DateTime::<Utc>::format` with the fixed, valid format
/// `%Y-%m-%d %H:%M UTC`; the text depends on the instant alone.
#[verifier::external_body]
pub(crate) fn format_utc_minute(t: UtcTime) -> (r: String)
    requires
        -8_334_601_315_200 <= t.secs <= 8_210_266_876_798,
        t.nanos < 1_000_000_000,
    ensures
        r@ == utc_minute_text(t.secs, t.nanos),
{
    match chrono::Utc.timestamp_opt(t.secs, t.nanos).single() {
        Some(d) => d.format("%Y-%m-%d %H:%M UTC").to_string(),
        None => String::new(),
    }
}

/// An instant chrono can represent and print, one second short of its
/// last one so that the instant a second later (where a cron search
/// starts) exists too: years -262143 to 262142.
pub open spec fn printable(t: UtcTime) -> bool {
    -8_334_601_315_200 <= t.secs <= 8_210_266_876_798 && t.nanos < 1_000_000_000
}

/// The next time the cron expression fires after `after`.
pub fn next_run_time(cron_expr: &str, after: UtcTime) -> (r: Option<UtcTime>)
    requires
        printable(after),
    ensures
        match r {
            Some(t) => cron_next_after(cron_expr@, after.secs, after.nanos) == Some((t.secs, t.nanos)),
            None => cron_next_after(cron_expr@, after.secs, after.nanos) is None,
        },
{
    cron_next(cron_expr, after)
}

/// A task that runs a plugin command on a cron schedule.
pub struct ScheduledTask {
    pub id: Option<i64>,
    pub name: String,
    /// Six-field cron expression (seconds first).
    pub cron_expr: String,
    /// Plugin command or plugin name.
    pub command: String,
    pub args: String,
    pub enabled: bool,
    pub last_run: Option<UtcTime>,
    pub next_run: Option<UtcTime>,
    pub created_at: UtcTime,
}

/// An enabled task runs when its next run time has come, or at once when
/// it has none.
pub open spec fn due(task: ScheduledTask, now: UtcTime) -> bool {
    task.enabled && match task.next_run {
        Some(next) => not_after(next, now),
        None => true,
    }
}

pub fn is_due(task: &ScheduledTask, now: UtcTime) -> (r: bool)
    ensures
        r == due(*task, now),
{
    if !task.enabled {
        return false;
    }
    match task.next_run {
        Some(next) => next.secs < now.secs || (next.secs == now.secs && next.nanos <= now.nanos),
        None => true,
    }
}

/// The tasks (by position) that run at `now`, in list order.
pub fn due_tasks(tasks: &Vec<ScheduledTask>, now: UtcTime) -> (r: Vec<usize>)
    ensures
        forall|i: int| 0 <= i < r@.len() ==> (#[trigger] r@[i]) < tasks@.len() && due(
            tasks@[r@[i] as int],
            now,
        ),
        forall|i: int, j: int| 0 <= i < j < r@.len() ==> r@[i] < r@[j],
        forall|k: int| 0 <= k < tasks@.len() && due(#[trigger] tasks@[k], now) ==> r@.contains(k as usize),
{
    let mut out: Vec<usize> = Vec::new();
    let mut k: usize = 0;
    while k < tasks.len()
        invariant
            k <= tasks@.len(),
            forall|i: int| 0 <= i < out@.len() ==> (#[trigger] out@[i]) < k && due(
                tasks@[out@[i] as int],
                now,
            ),
            forall|i: int, j: int| 0 <= i < j < out@.len() ==> out@[i] < out@[j],
            forall|q: int| 0 <= q < k && due(#[trigger] tasks@[q], now) ==> out@.contains(q as usize),
        decreases tasks@.len() - k,
    {
        if is_due(&tasks[k], now) {
            let ghost prev = out@;
            out.push(k);
            assert forall|q: int| 0 <= q < k + 1 && due(#[trigger] tasks@[q], now) implies out@.contains(
                q as usize,
            ) by {
                if q < k {
                    let i = choose|i: int| 0 <= i < prev.len() && prev[i] == q as usize;
                    assert(out@[i] == prev[i]);
                } else {
                    assert(out@[prev.len() as int] == k);
                }
            }
        }
        k = k + 1;
    }
    out
}

/// Run times after a run at `now`: last run now, next run from the cron
/// expression.
pub fn run_times_after(task: &ScheduledTask, now: UtcTime) -> (r: (UtcTime, Option<UtcTime>))
    requires
        printable(now),
    ensures
        r.0 == now,
        match r.1 {
            Some(t) => cron_next_after(task.cron_expr@, now.secs, now.nanos) == Some((t.secs, t.nanos)),
            None => cron_next_after(task.cron_expr@, now.secs, now.nanos) is None,
        },
{
    (now, next_run_time(task.cron_expr.as_str(), now))
}

/// The plugin a task's command names (as a command first, then as a plugin
/// name).
pub fn task_plugin<'a>(registry: &'a PluginRegistry, task: &ScheduledTask) -> (r: Option<&'a PluginManifest>)
    requires
        registry.wf(),
    ensures
        match r {
            Some(m) => tool_for(*registry, task.command@) == Some(*m),
            None => tool_for(*registry, task.command@) is None,
        },
{
    registry.resolve_tool(task.command.as_str())
}

/// The system task registered at startup: `hourly-datetime`, firing at
/// second 0 of every minute, disabled until a user enables it.
pub open spec fn default_task_is(t: ScheduledTask, now: UtcTime) -> bool {
    &&& t.id is None
    &&& t.name@ == "hourly-datetime"@
    &&& t.cron_expr@ == "0 * * * * *"@
    &&& t.command@ == "datetime"@
    &&& t.args@ == ""@
    &&& !t.enabled
    &&& t.last_run is None
    &&& match t.next_run {
        Some(x) => cron_next_after("0 * * * * *"@, now.secs, now.nanos) == Some((x.secs, x.nanos)),
        None => cron_next_after("0 * * * * *"@, now.secs, now.nanos) is None,
    }
    &&& t.created_at == now
}

/// The system tasks registered at startup.
pub fn default_tasks(now: UtcTime) -> (r: Vec<ScheduledTask>)
    requires
        printable(now),
    ensures
        r@.len() == 1,
        default_task_is(r@[0], now),
{
    let cron_expr = lit("0 * * * * *");
    let next = next_run_time(cron_expr.as_str(), now);
    let mut v: Vec<ScheduledTask> = Vec::new();
    v.push(
        ScheduledTask {
            id: None,
            name: lit("hourly-datetime"),
            cron_expr,
            command: lit("datetime"),
            args: lit(""),
            enabled: false,
            last_run: None,
            next_run: next,
            created_at: now,
        },
    );
    v
}

/// The default tasks not stored yet: a task of the same name is left as
/// it is, so seeding at startup never overwrites what a user changed.
pub fn defaults_to_seed(stored: &Vec<ScheduledTask>, now: UtcTime) -> (r: Vec<ScheduledTask>)
    requires
        printable(now),
    ensures
        (exists|i: int| 0 <= i < stored@.len() && (#[trigger] stored@[i]).name@ == "hourly-datetime"@)
            ==> r@.len() == 0,
        (forall|i: int| 0 <= i < stored@.len() ==> (#[trigger] stored@[i]).name@ != "hourly-datetime"@)
            ==> r@.len() == 1 && default_task_is(r@[0], now),
{
    let name = chars_of("hourly-datetime");
    let mut i: usize = 0;
    while i < stored.len()
        invariant
            i <= stored@.len(),
            name@ == "hourly-datetime"@,
            forall|j: int| 0 <= j < i ==> (#[trigger] stored@[j]).name@ != "hourly-datetime"@,
        decreases stored@.len() - i,
    {
        if crate::json::chars_eq(&chars_of(stored[i].name.as_str()), &name) {
            return Vec::new();
        }
        i = i + 1;
    }
    default_tasks(now)
}

// ─── The task API ────────────────────────────────────────────────────────────

pub struct CreateTaskRequest {
    pub name: String,
    pub cron_expr: String,
    pub command: String,
    pub args: String,
    pub enabled: bool,
}

/// A task as the API shows it, times in RFC 3339.
pub struct TaskResponse {
    pub name: String,
    pub cron_expr: String,
    pub command: String,
    pub args: String,
    pub enabled: bool,
    pub last_run: Option<String>,
    pub next_run: Option<String>,
    pub created_at: String,
}

pub open spec fn opt_rfc3339(t: Option<UtcTime>) -> Option<Seq<char>> {
    match t {
        Some(x) => Some(rfc3339_text(x.secs, x.nanos)),
        None => None,
    }
}

pub open spec fn task_printable(t: ScheduledTask) -> bool {
    &&& printable(t.created_at)
    &&& (t.last_run matches Some(x) ==> printable(x))
    &&& (t.next_run matches Some(x) ==> printable(x))
}

impl TaskResponse {
    pub fn from_task(t: ScheduledTask) -> (r: Self)
        requires
            task_printable(t),
        ensures
            r.name == t.name,
            r.cron_expr == t.cron_expr,
            r.command == t.command,
            r.args == t.args,
            r.enabled == t.enabled,
            match r.last_run {
                Some(s) => opt_rfc3339(t.last_run) == Some(s@),
                None => t.last_run is None,
            },
            match r.next_run {
                Some(s) => opt_rfc3339(t.next_run) == Some(s@),
                None => t.next_run is None,
            },
            r.created_at@ == rfc3339_text(t.created_at.secs, t.created_at.nanos),
    {
        let last_run = match t.last_run {
            Some(x) => Some(rfc3339(x)),
            None => None,
        };
        let next_run = match t.next_run {
            Some(x) => Some(rfc3339(x)),
            None => None,
        };
        TaskResponse {
            name: t.name,
            cron_expr: t.cron_expr,
            command: t.command,
            args: t.args,
            enabled: t.enabled,
            last_run,
            next_run,
            created_at: rfc3339(t.created_at),
        }
    }
}

/// A new task must have a name and a command the registry knows.
pub fn validate_task(req: &CreateTaskRequest, registry: &PluginRegistry) -> (r: Result<(), AppError>)
    requires
        registry.wf(),
    ensures
        match r {
            Ok(()) => req.name@.len() > 0 && (registry.for_command(lowercase(req.command@)) is Some
                || registry.for_name(req.command@) is Some),
            Err(AppError::InvalidRequest(m)) => if req.name@.len() == 0 {
                m@ == "Task name cannot be empty"@
            } else {
                registry.for_command(lowercase(req.command@)) is None && registry.for_name(
                    req.command@,
                ) is None && m@ == "Unknown command '"@ + req.command@
                    + "'. Type /help to see available commands."@
            },
            Err(_) => false,
        },
{
    if chars_of(req.name.as_str()).len() == 0 {
        return Err(AppError::InvalidRequest(lit("Task name cannot be empty")));
    }
    if registry.resolve(req.command.as_str()).is_none() && registry.resolve_by_name(
        req.command.as_str(),
    ).is_none() {
        let mut out: Vec<char> = Vec::new();
        push_str(&mut out, "Unknown command '");
        push_str(&mut out, req.command.as_str());
        push_str(&mut out, "'. Type /help to see available commands.");
        return Err(AppError::InvalidRequest(string_of(&out)));
    }
    Ok(())
}

/// The task a create request stores, its next run computed from `now`.
pub fn new_task(req: CreateTaskRequest, now: UtcTime) -> (r: ScheduledTask)
    requires
        printable(now),
    ensures
        r.id is None,
        r.name == req.name,
        r.cron_expr == req.cron_expr,
        r.command == req.command,
        r.args == req.args,
        r.enabled == req.enabled,
        r.last_run is None,
        match r.next_run {
            Some(t) => cron_next_after(req.cron_expr@, now.secs, now.nanos) == Some((t.secs, t.nanos)),
            None => cron_next_after(req.cron_expr@, now.secs, now.nanos) is None,
        },
        r.created_at == now,
{
    let next = next_run_time(req.cron_expr.as_str(), now);
    ScheduledTask {
        id: None,
        name: req.name,
        cron_expr: req.cron_expr,
        command: req.command,
        args: req.args,
        enabled: req.enabled,
        last_run: None,
        next_run: next,
        created_at: now,
    }
}

/// The stored task with the created task's name, or the error when it is
/// not there.
pub fn saved_task(tasks: Vec<ScheduledTask>, name: &str) -> (r: Result<ScheduledTask, AppError>)
    ensures
        match r {
            Ok(t) => t.name@ == name@ && exists|i: int|
                0 <= i < tasks@.len() && tasks@[i] == t && forall|j: int|
                    0 <= j < i ==> (#[trigger] tasks@[j]).name@ != name@,
            Err(e) => (forall|i: int| 0 <= i < tasks@.len() ==> (#[trigger] tasks@[i]).name@ != name@)
                && (e matches AppError::SchedulerError(m) && m@ == "Task not found after creation"@),
        },
{
    let nc = chars_of(name);
    let mut found: Option<usize> = None;
    let mut i: usize = 0;
    while i < tasks.len() && found.is_none()
        invariant
            nc@ == name@,
            i <= tasks@.len(),
            match found {
                None => forall|j: int| 0 <= j < i ==> (#[trigger] tasks@[j]).name@ != name@,
                Some(k) => k < tasks@.len() && tasks@[k as int].name@ == name@ && forall|j: int|
                    0 <= j < k ==> (#[trigger] tasks@[j]).name@ != name@,
            },
        decreases tasks@.len() - i,
    {
        if crate::json::chars_eq(&chars_of(tasks[i].name.as_str()), &nc) {
            found = Some(i);
        }
        i = i + 1;
    }
    match found {
        Some(k) => {
            let ghost all = tasks@;
            let mut tasks = tasks;
            let t = tasks.swap_remove(k);
            assert(all[k as int] == t);
            Ok(t)
        },
        None => Err(AppError::SchedulerError(lit("Task not found after creation"))),
    }
}

} // verus!
