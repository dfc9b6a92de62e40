//! The updater plugin: a read-only look at pending updates and a written
//! plan of the steps to apply them. It never runs an update itself.
use vstd::prelude::*;
use crate::json::{array_text, array_value, bool_value, int_value, json_quoted, string_value, Json};
use crate::plugin_manager::{lit, str_is};
use crate::plugin_tools::common::{
    args_text, entry_pairs, object_of, payload_args, raw_object_text, str_array, str_array_text,
};
use crate::plugin_tools::files::{lines_of, text_lines};
use crate::summary::join;
use crate::text::{
    chars_of, contains_seq, contains_str, dec, lowercase, push_decimal, push_str, slice_chars,
    split_ws, starts_with_chars, starts_with_seq, string_of, to_lowercase, trim, trim_chars,
    ws_tokens,
};

verus! {

/// Actions that ask for a plan rather than a check.
pub open spec fn is_plan_action(a: Seq<char>) -> bool {
    a == "plan"@ || a == "update-plan"@
}

pub fn plan_requested(action: &str) -> (r: bool)
    ensures
        r == is_plan_action(action@),
{
    str_is(action, "plan") || str_is(action, "update-plan")
}

/// The target a request names: its trimmed arguments in lower case.
pub fn update_target(payload: &Json) -> (r: String)
    ensures
        r@ == lowercase(args_text(*payload)),
{
    to_lowercase(payload_args(payload).as_str())
}

/// System packages are meant when nothing or `system`/`apt` is named.
pub open spec fn wants_system(target: Seq<char>) -> bool {
    target.len() == 0 || contains_seq(target, "system"@) || contains_seq(target, "apt"@)
}

/// The runtime itself is meant when nothing or `fabio` is named.
pub open spec fn wants_runtime(target: Seq<char>) -> bool {
    target.len() == 0 || contains_seq(target, "fabio"@)
}

/// Which parts a target covers: (system packages, runtime).
pub fn update_scope(target: &str) -> (r: (bool, bool))
    ensures
        r.0 == wants_system(target@),
        r.1 == wants_runtime(target@),
{
    let t = chars_of(target);
    let empty: bool = t.len() == 0;
    let system: bool = empty || contains_str(&t, "system") || contains_str(&t, "apt");
    let runtime: bool = empty || contains_str(&t, "fabio");
    (system, runtime)
}

// ─── Pending packages ────────────────────────────────────────────────────────

/// The package an `Inst <name> ...` line of a simulated upgrade names.
pub open spec fn inst_name(line: Seq<char>) -> Option<Seq<char>> {
    if starts_with_seq(line, "Inst "@) && ws_tokens(line.skip(5)).len() > 0 {
        Some(ws_tokens(line.skip(5))[0])
    } else {
        None
    }
}

/// The packages named by these lines, in order.
pub open spec fn inst_names(lines: Seq<Seq<char>>) -> Seq<Seq<char>>
    decreases lines.len(),
{
    if lines.len() == 0 {
        Seq::empty()
    } else {
        let before = inst_names(lines.drop_last());
        match inst_name(lines.last()) {
            Some(n) => before.push(n),
            None => before,
        }
    }
}

/// At most the first `n` items.
pub open spec fn at_most<T>(s: Seq<T>, n: int) -> Seq<T> {
    if s.len() > n {
        s.take(n)
    } else {
        s
    }
}

/// The upgradable packages a simulated upgrade lists: the first 30.
pub open spec fn upgradable_packages(stdout: Seq<char>) -> Seq<Seq<char>> {
    at_most(inst_names(text_lines(stdout)), 30)
}

fn inst_name_of(line: &Vec<char>) -> (r: Option<Vec<char>>)
    ensures
        match r {
            Some(n) => inst_name(line@) == Some(n@),
            None => inst_name(line@) is None,
        },
{
    let prefix = chars_of("Inst ");
    if !starts_with_chars(line, &prefix) {
        return None;
    }
    proof {
        reveal_strlit("Inst ");
    }
    let rest = slice_chars(line, 5, line.len());
    assert(rest@ =~= line@.skip(5));
    let mut toks = split_ws(&rest);
    assert(toks@.map_values(|t: Vec<char>| t@).len() == toks@.len());
    if toks.len() == 0 {
        None
    } else {
        assert(toks@.map_values(|t: Vec<char>| t@)[0] == toks@[0]@);
        Some(toks.swap_remove(0))
    }
}

/// The packages a simulated `apt-get upgrade` would install (its stdout).
pub fn upgradable(stdout: &str) -> (r: Vec<String>)
    ensures
        r@.map_values(|s: String| s@) == upgradable_packages(stdout@),
{
    let lines = lines_of(stdout);
    let ghost ls = lines@.map_values(|l: Vec<char>| l@);
    let mut out: Vec<String> = Vec::new();
    let mut i: usize = 0;
    while i < lines.len()
        invariant
            i <= lines@.len(),
            ls == lines@.map_values(|l: Vec<char>| l@),
            out@.map_values(|s: String| s@) == at_most(inst_names(ls.take(i as int)), 30),
        decreases lines@.len() - i,
    {
        let ghost before = inst_names(ls.take(i as int));
        assert(ls.take(i + 1).drop_last() =~= ls.take(i as int));
        assert(ls.take(i + 1).last() == lines@[i as int]@);
        let ghost prev = out@.map_values(|s: String| s@);
        match inst_name_of(&lines[i]) {
            Some(n) => {
                if out.len() < 30 {
                    out.push(string_of(&n));
                    assert(out@.map_values(|s: String| s@) =~= prev.push(n@));
                    assert(at_most(before.push(n@), 30) =~= before.push(n@));
                } else {
                    assert(at_most(before.push(n@), 30) =~= at_most(before, 30));
                }
            },
            None => {},
        }
        i = i + 1;
    }
    assert(ls.take(lines@.len() as int) =~= ls);
    out
}

/// `{"available_updates":n,"packages":[..first 20..],"status":..}`.
pub open spec fn apt_report_text(packages: Seq<Seq<char>>) -> Seq<char> {
    raw_object_text(
        seq![
            ("available_updates"@, dec(packages.len())),
            ("packages"@, str_array_text(at_most(packages, 20))),
            ("status"@, json_quoted(
                if packages.len() == 0 {
                    "up_to_date"@
                } else {
                    "updates_available"@
                },
            )),
        ],
    )
}

/// The system part of a check, from the output of a simulated upgrade.
pub fn apt_report(stdout: &str) -> (r: Json)
    ensures
        r.text@ == apt_report_text(upgradable_packages(stdout@)),
{
    let mut pkgs = upgradable(stdout);
    let ghost all = pkgs@.map_values(|s: String| s@);
    let n: usize = pkgs.len();
    assert(pkgs@.len() == all.len());
    assert(n <= 30);
    let status = if n == 0 {
        lit("up_to_date")
    } else {
        lit("updates_available")
    };
    pkgs.truncate(20);
    assert(pkgs@.map_values(|s: String| s@) =~= at_most(all, 20));
    let mut es: Vec<(String, Json)> = Vec::new();
    es.push((lit("available_updates"), int_value(n as i64)));
    es.push((lit("packages"), str_array(&pkgs)));
    es.push((lit("status"), string_value(status)));
    let ghost e = es@;
    let r = object_of(es);
    assert(entry_pairs(e) =~= seq![
        ("available_updates"@, dec(all.len())),
        ("packages"@, str_array_text(at_most(all, 20))),
        ("status"@, json_quoted(
            if all.len() == 0 {
                "up_to_date"@
            } else {
                "updates_available"@
            },
        )),
    ]);
    r
}

/// The system part of a check when the simulation could not be run.
pub fn apt_failure(cause: &str) -> (r: Json)
    ensures
        r.text@ == raw_object_text(
            seq![("error"@, json_quoted(cause@)), ("status"@, json_quoted("check_failed"@))],
        ),
{
    let mut es: Vec<(String, Json)> = Vec::new();
    es.push((lit("error"), string_value(lit(cause))));
    es.push((lit("status"), string_value(lit("check_failed"))));
    let ghost e = es@;
    let r = object_of(es);
    assert(entry_pairs(e) =~= seq![
        ("error"@, json_quoted(cause@)),
        ("status"@, json_quoted("check_failed"@)),
    ]);
    r
}

/// The recent commits as the runtime report gives them.
pub open spec fn commits_text(git_log: Option<String>) -> Seq<char> {
    match git_log {
        Some(l) => trim(l@),
        None => "git unavailable"@,
    }
}

/// The runtime part of a check: where the binary lives and the recent
/// commits (`git log` output, trimmed), or that git could not be run.
pub fn runtime_report(git_log: Option<String>) -> (r: Json)
    ensures
        r.text@ == raw_object_text(
            seq![
                ("binary_path"@, json_quoted("/usr/local/bin/fabio-claw"@)),
                ("git_recent_commits"@, json_quoted(commits_text(git_log))),
            ],
        ),
{
    let ghost c = commits_text(git_log);
    let commits = match git_log {
        Some(l) => string_of(&trim_chars(&chars_of(l.as_str()))),
        None => lit("git unavailable"),
    };
    assert(commits@ == c);
    let mut es: Vec<(String, Json)> = Vec::new();
    es.push((lit("binary_path"), string_value(lit("/usr/local/bin/fabio-claw"))));
    es.push((lit("git_recent_commits"), string_value(commits)));
    let ghost e = es@;
    let r = object_of(es);
    assert(entry_pairs(e) =~= seq![
        ("binary_path"@, json_quoted("/usr/local/bin/fabio-claw"@)),
        ("git_recent_commits"@, json_quoted(c)),
    ]);
    r
}

/// `unix:<seconds>`, or `unknown` when the clock is before the epoch.
pub fn unix_stamp(secs: Option<u64>) -> (r: String)
    ensures
        r@ == match secs {
            Some(s) => "unix:"@ + dec(s as nat),
            None => "unknown"@,
        },
{
    match secs {
        Some(s) => {
            let mut out: Vec<char> = Vec::new();
            push_str(&mut out, "unix:");
            push_decimal(&mut out, s);
            string_of(&out)
        },
        None => lit("unknown"),
    }
}

/// The note a check carries.
pub open spec fn check_note() -> Seq<char> {
    "READ-ONLY check \u{2014} no changes made. Use /update-plan for steps."@
}

/// The entries of a check report, keys in order.
pub open spec fn check_entries(
    system: Option<Seq<char>>,
    runtime: Option<Seq<char>>,
    checked_at: Seq<char>,
) -> Seq<(Seq<char>, Seq<char>)> {
    seq![("checked_at"@, json_quoted(checked_at))] + match runtime {
        Some(t) => seq![("fabio_claw"@, t)],
        None => Seq::empty(),
    } + seq![("note"@, json_quoted(check_note())), ("safe_mode"@, "true"@)] + match system {
        Some(t) => seq![("system"@, t)],
        None => Seq::empty(),
    }
}

/// The text of a part, when there is one.
pub open spec fn text_of(part: Option<Json>) -> Option<Seq<char>> {
    match part {
        Some(j) => Some(j.text@),
        None => None,
    }
}

/// The result of a check, from the parts that were looked at.
pub fn check_report(system: Option<Json>, runtime: Option<Json>, checked_at: &str) -> (r: Json)
    ensures
        r.text@ == raw_object_text(
            check_entries(text_of(system), text_of(runtime), checked_at@),
        ),
{
    let ghost st = text_of(system);
    let ghost rt = text_of(runtime);
    let mut es: Vec<(String, Json)> = Vec::new();
    es.push((lit("checked_at"), string_value(lit(checked_at))));
    let ghost e1 = es@;
    match runtime {
        Some(j) => es.push((lit("fabio_claw"), j)),
        None => {},
    }
    let ghost e2 = es@;
    es.push((lit("note"), string_value(lit(
        "READ-ONLY check \u{2014} no changes made. Use /update-plan for steps.",
    ))));
    es.push((lit("safe_mode"), bool_value(true)));
    let ghost e3 = es@;
    match system {
        Some(j) => es.push((lit("system"), j)),
        None => {},
    }
    let ghost e = es@;
    let r = object_of(es);
    proof {
        reveal_strlit("true");
        assert(entry_pairs(e1) =~= seq![("checked_at"@, json_quoted(checked_at@))]);
        assert(entry_pairs(e2) =~= entry_pairs(e1) + match rt {
            Some(t) => seq![("fabio_claw"@, t)],
            None => Seq::empty(),
        });
        assert(entry_pairs(e3) =~= entry_pairs(e2) + seq![
            ("note"@, json_quoted(check_note())),
            ("safe_mode"@, "true"@),
        ]);
        assert(entry_pairs(e) =~= entry_pairs(e3) + match st {
            Some(t) => seq![("system"@, t)],
            None => Seq::empty(),
        });
        assert(entry_pairs(e) =~= check_entries(st, rt, checked_at@));
    }
    r
}

// ─── The update plan ─────────────────────────────────────────────────────────

/// The kinds of step a plan can hold.
#[derive(Clone, Copy, Debug, PartialEq, Eq, Structural)]
pub enum PlanStep {
    System,
    Runtime,
    Plugins,
    Verify,
}

/// The steps of a plan: system packages, then the runtime and its plugins,
/// then a health check, which is always there.
pub open spec fn plan_steps(system: bool, runtime: bool) -> Seq<PlanStep> {
    (if system {
        seq![PlanStep::System]
    } else {
        Seq::empty()
    }) + (if runtime {
        seq![PlanStep::Runtime, PlanStep::Plugins]
    } else {
        Seq::empty()
    }) + seq![PlanStep::Verify]
}

/// The commands a step lists.
pub open spec fn step_commands(k: PlanStep) -> Seq<Seq<char>> {
    match k {
        PlanStep::System => seq![
            "sudo apt-get update"@,
            "sudo apt-get upgrade -y"@,
            "sudo apt-get autoremove -y"@,
        ],
        PlanStep::Runtime => seq![
            "cd ~/fabio-claw"@,
            "git pull origin main"@,
            "cargo build --release"@,
            "sudo cp target/release/fabio-claw /usr/local/bin/"@,
            "sudo systemctl restart fabio-claw"@,
        ],
        PlanStep::Plugins => seq![
            "cd ~/fabio-claw/plugins"@,
            "cargo build --release"@,
            "sudo cp target/release/plugin-* /opt/fabio-claw/plugins/"@,
            "sudo systemctl restart fabio-claw"@,
        ],
        PlanStep::Verify => seq![
            "curl http://localhost:8080/health"@,
            "curl http://localhost:8080/health/ready"@,
            "journalctl -u fabio-claw | tail -20"@,
        ],
    }
}

/// The text of step number `n` of kind `k`.
pub open spec fn step_text(k: PlanStep, n: nat) -> Seq<char> {
    let cmds = ("commands"@, str_array_text(step_commands(k)));
    let step = ("step"@, dec(n));
    raw_object_text(
        match k {
            PlanStep::System => seq![
                ("action"@, json_quoted("Update system packages"@)),
                cmds,
                ("requires_reboot"@, "false"@),
                ("risk"@, json_quoted("low"@)),
                step,
            ],
            PlanStep::Runtime => seq![
                ("action"@, json_quoted("Update fabio-claw runtime"@)),
                cmds,
                ("downtime_estimate"@, json_quoted("30-60 minutes on Raspberry Pi"@)),
                ("risk"@, json_quoted("medium"@)),
                step,
            ],
            PlanStep::Plugins => seq![
                ("action"@, json_quoted("Rebuild and reinstall plugins"@)),
                cmds,
                ("risk"@, json_quoted("low"@)),
                step,
            ],
            PlanStep::Verify => seq![
                ("action"@, json_quoted("Verify health after update"@)),
                cmds,
                ("risk"@, json_quoted("none"@)),
                step,
            ],
        },
    )
}

fn push_lit(v: &mut Vec<String>, s: &str)
    ensures
        final(v)@.map_values(|x: String| x@) == old(v)@.map_values(|x: String| x@).push(s@),
{
    v.push(lit(s));
    assert(v@.map_values(|x: String| x@) =~= old(v)@.map_values(|x: String| x@).push(s@));
}

fn step_command_list(k: PlanStep) -> (r: Vec<String>)
    ensures
        r@.map_values(|x: String| x@) == step_commands(k),
{
    let mut v: Vec<String> = Vec::new();
    assert(v@.map_values(|x: String| x@) =~= Seq::empty());
    match k {
        PlanStep::System => {
            push_lit(&mut v, "sudo apt-get update");
            push_lit(&mut v, "sudo apt-get upgrade -y");
            push_lit(&mut v, "sudo apt-get autoremove -y");
        },
        PlanStep::Runtime => {
            push_lit(&mut v, "cd ~/fabio-claw");
            push_lit(&mut v, "git pull origin main");
            push_lit(&mut v, "cargo build --release");
            push_lit(&mut v, "sudo cp target/release/fabio-claw /usr/local/bin/");
            push_lit(&mut v, "sudo systemctl restart fabio-claw");
        },
        PlanStep::Plugins => {
            push_lit(&mut v, "cd ~/fabio-claw/plugins");
            push_lit(&mut v, "cargo build --release");
            push_lit(&mut v, "sudo cp target/release/plugin-* /opt/fabio-claw/plugins/");
            push_lit(&mut v, "sudo systemctl restart fabio-claw");
        },
        PlanStep::Verify => {
            push_lit(&mut v, "curl http://localhost:8080/health");
            push_lit(&mut v, "curl http://localhost:8080/health/ready");
            push_lit(&mut v, "journalctl -u fabio-claw | tail -20");
        },
    }
    v
}

/// One step of a plan, numbered `n`.
pub fn plan_step(k: PlanStep, n: u8) -> (r: Json)
    ensures
        r.text@ == step_text(k, n as nat),
{
    let cmds = step_command_list(k);
    let ghost cs = cmds@.map_values(|x: String| x@);
    let mut es: Vec<(String, Json)> = Vec::new();
    match k {
        PlanStep::System => {
            es.push((lit("action"), string_value(lit("Update system packages"))));
            es.push((lit("commands"), str_array(&cmds)));
            es.push((lit("requires_reboot"), bool_value(false)));
            es.push((lit("risk"), string_value(lit("low"))));
        },
        PlanStep::Runtime => {
            es.push((lit("action"), string_value(lit("Update fabio-claw runtime"))));
            es.push((lit("commands"), str_array(&cmds)));
            es.push(
                (lit("downtime_estimate"), string_value(lit("30-60 minutes on Raspberry Pi"))),
            );
            es.push((lit("risk"), string_value(lit("medium"))));
        },
        PlanStep::Plugins => {
            es.push((lit("action"), string_value(lit("Rebuild and reinstall plugins"))));
            es.push((lit("commands"), str_array(&cmds)));
            es.push((lit("risk"), string_value(lit("low"))));
        },
        PlanStep::Verify => {
            es.push((lit("action"), string_value(lit("Verify health after update"))));
            es.push((lit("commands"), str_array(&cmds)));
            es.push((lit("risk"), string_value(lit("none"))));
        },
    }
    es.push((lit("step"), int_value(n as i64)));
    let ghost e = es@;
    let r = object_of(es);
    proof {
        reveal_strlit("false");
        let cmds_pair = ("commands"@, str_array_text(step_commands(k)));
        let step = ("step"@, dec(n as nat));
        match k {
            PlanStep::System => {
                assert(entry_pairs(e) =~= seq![
                    ("action"@, json_quoted("Update system packages"@)),
                    cmds_pair,
                    ("requires_reboot"@, "false"@),
                    ("risk"@, json_quoted("low"@)),
                    step,
                ]);
            },
            PlanStep::Runtime => {
                assert(entry_pairs(e) =~= seq![
                    ("action"@, json_quoted("Update fabio-claw runtime"@)),
                    cmds_pair,
                    ("downtime_estimate"@, json_quoted("30-60 minutes on Raspberry Pi"@)),
                    ("risk"@, json_quoted("medium"@)),
                    step,
                ]);
            },
            PlanStep::Plugins => {
                assert(entry_pairs(e) =~= seq![
                    ("action"@, json_quoted("Rebuild and reinstall plugins"@)),
                    cmds_pair,
                    ("risk"@, json_quoted("low"@)),
                    step,
                ]);
            },
            PlanStep::Verify => {
                assert(entry_pairs(e) =~= seq![
                    ("action"@, json_quoted("Verify health after update"@)),
                    cmds_pair,
                    ("risk"@, json_quoted("none"@)),
                    step,
                ]);
            },
        }
    }
    r
}

/// The warning a plan carries.
pub open spec fn plan_warning() -> Seq<char> {
    "Review each step before executing. No commands have been run."@
}

/// The entries of a plan generated at `at`, keys in order.
pub open spec fn plan_entries(system: bool, runtime: bool, at: Seq<char>) -> Seq<
    (Seq<char>, Seq<char>),
> {
    let ks = plan_steps(system, runtime);
    seq![
        ("plan_generated_at"@, json_quoted(at)),
        ("safe_mode"@, "true"@),
        ("steps"@, "["@ + join(
            Seq::new(ks.len(), |i: int| step_text(ks[i], (i + 1) as nat)),
            ","@,
        ) + "]"@),
        ("total_steps"@, dec(ks.len())),
        ("warning"@, json_quoted(plan_warning())),
    ]
}

/// The text of a plan generated at `at`.
pub open spec fn plan_text(system: bool, runtime: bool, at: Seq<char>) -> Seq<char> {
    raw_object_text(plan_entries(system, runtime, at))
}

/// Every answer says it is in safe mode, and every plan ends with the
/// health check after the steps for the parts chosen.
pub proof fn law_safe_answers(
    system: Option<Seq<char>>,
    runtime: Option<Seq<char>>,
    at: Seq<char>,
    plan_system: bool,
    plan_runtime: bool,
)
    ensures
        check_entries(system, runtime, at).contains(("safe_mode"@, "true"@)),
        plan_entries(plan_system, plan_runtime, at).contains(("safe_mode"@, "true"@)),
        plan_steps(plan_system, plan_runtime).last() == PlanStep::Verify,
        plan_steps(plan_system, plan_runtime).len() == 1 + (if plan_system {
            1int
        } else {
            0
        }) + (if plan_runtime {
            2int
        } else {
            0
        }),
{
    let c = check_entries(system, runtime, at);
    let k: int = 1 + (if runtime is Some {
        1int
    } else {
        0
    });
    assert(c[k + 1] == ("safe_mode"@, "true"@));
    assert(plan_entries(plan_system, plan_runtime, at)[1] == ("safe_mode"@, "true"@));
}

/// The plan for the chosen parts: numbered steps, nothing run.
pub fn update_plan(system: bool, runtime: bool, generated_at: &str) -> (r: Json)
    ensures
        r.text@ == plan_text(system, runtime, generated_at@),
{
    let ghost ks = plan_steps(system, runtime);
    let mut kinds: Vec<PlanStep> = Vec::new();
    if system {
        kinds.push(PlanStep::System);
    }
    if runtime {
        kinds.push(PlanStep::Runtime);
        kinds.push(PlanStep::Plugins);
    }
    kinds.push(PlanStep::Verify);
    assert(kinds@ =~= ks);
    let mut steps: Vec<Json> = Vec::new();
    let mut i: usize = 0;
    while i < kinds.len()
        invariant
            i <= kinds@.len() <= 4,
            kinds@ == ks,
            steps@.len() == i,
            forall|j: int|
                0 <= j < i ==> (#[trigger] steps@[j]).text@ == step_text(ks[j], (j + 1) as nat),
        decreases kinds@.len() - i,
    {
        steps.push(plan_step(kinds[i], (i + 1) as u8));
        i = i + 1;
    }
    let n: usize = steps.len();
    let ghost sv = steps@;
    let mut es: Vec<(String, Json)> = Vec::new();
    es.push((lit("plan_generated_at"), string_value(lit(generated_at))));
    es.push((lit("safe_mode"), bool_value(true)));
    es.push((lit("steps"), array_value(steps)));
    es.push((lit("total_steps"), int_value(n as i64)));
    es.push((lit(
        "warning",
    ), string_value(lit("Review each step before executing. No commands have been run."))));
    let ghost e = es@;
    let r = object_of(es);
    proof {
        reveal_strlit("true");
        assert(Seq::new(sv.len(), |j: int| sv[j].text@) =~= Seq::new(
            ks.len(),
            |j: int| step_text(ks[j], (j + 1) as nat),
        ));
        assert(entry_pairs(e) =~= seq![
            ("plan_generated_at"@, json_quoted(generated_at@)),
            ("safe_mode"@, "true"@),
            ("steps"@, array_text(sv)),
            ("total_steps"@, dec(ks.len())),
            ("warning"@, json_quoted(plan_warning())),
        ]);
    }
    r
}

} // verus!
