//! ReAct-style agent: the model answers with `<thought>`, `<action>`,
//! `<action_input>` and `<answer>` tags; tool observations are fed back
//! until an answer comes or the step limit is reached.
//!
//! The model and the tools are called outside; `AgentRun` decides what
//! happens next from what they returned.
use vstd::prelude::*;
use crate::errors::{app_error_text, AppError};
use crate::json::{as_str, at, get, get_str, idx, Json};
use crate::plugin_manager::{args_payload, args_payload_text, clone_string, lit, PluginRequest, PluginResponse};
use crate::plugins::{PluginManifest, PluginRegistry, PluginRunner};
use crate::security::DeviceIdentity;
use crate::summary::{join, join_push};
use crate::text::{
    chars_of, find_chars, find_chars_from, find_first, find_from, push_chars, push_str,
    slice_chars, string_of, trim, trim_chars,
};

verus! {

/// Most model calls in one run.
pub const MAX_STEPS: usize = 8;

// ─── Reading the model's output ──────────────────────────────────────────────

/// The trimmed text between the first `<tag>` and the next `</tag>`.
pub open spec fn tag_content(t: Seq<char>, tag: Seq<char>) -> Option<Seq<char>> {
    let open = seq!['<'] + tag + seq!['>'];
    let close = seq!['<', '/'] + tag + seq!['>'];
    match find_first(t, open) {
        None => None,
        Some(i) => {
            let start = i + open.len();
            match find_from(t, close, start) {
                None => None,
                Some(e) => Some(trim(t.subrange(start, e))),
            }
        },
    }
}

/// The trimmed contents of `<tag>...</tag>`, if the text has them.
pub fn extract_tag(text: &str, tag: &str) -> (r: Option<String>)
    ensures
        match r {
            Some(s) => tag_content(text@, tag@) == Some(s@),
            None => tag_content(text@, tag@) is None,
        },
{
    let t = chars_of(text);
    let tl: usize = t.len();
    let tg = chars_of(tag);
    let mut open: Vec<char> = Vec::new();
    open.push('<');
    push_chars(&mut open, &tg);
    open.push('>');
    let mut close: Vec<char> = Vec::new();
    close.push('<');
    close.push('/');
    push_chars(&mut close, &tg);
    close.push('>');
    assert(open@ =~= seq!['<'] + tag@ + seq!['>']);
    assert(close@ =~= seq!['<', '/'] + tag@ + seq!['>']);
    match find_chars(&t, &open) {
        None => None,
        Some(i) => {
            proof {
                crate::text::lemma_find_from_props(t@, open@, 0);
            }
            let start: usize = i + open.len();
            match find_chars_from(&t, &close, start) {
                None => None,
                Some(e) => {
                    proof {
                        crate::text::lemma_find_from_props(t@, close@, start as int);
                    }
                    let inner = slice_chars(&t, start, e);
                    Some(string_of(&trim_chars(&inner)))
                },
            }
        },
    }
}

pub open spec fn opt_view(o: Option<String>) -> Option<Seq<char>> {
    match o {
        Some(s) => Some(s@),
        None => None,
    }
}

/// One step of a run.
pub struct AgentStep {
    pub thought: String,
    pub action: Option<String>,
    pub action_input: Option<Json>,
    pub observation: Option<String>,
    pub answer: Option<String>,
}

/// The step holds these values.
pub open spec fn step_is(
    s: AgentStep,
    thought: Seq<char>,
    action: Option<Seq<char>>,
    input: Option<Json>,
    observation: Option<Seq<char>>,
    answer: Option<Seq<char>>,
) -> bool {
    &&& s.thought@ == thought
    &&& opt_view(s.action) == action
    &&& s.action_input == input
    &&& opt_view(s.observation) == observation
    &&& opt_view(s.answer) == answer
}

/// The step read from model output `t`; `input` is what the text of its
/// `action_input` tag parses to as JSON, when it does.
pub open spec fn parsed_step_is(s: AgentStep, t: Seq<char>, input: Option<Json>) -> bool {
    step_is(
        s,
        match tag_content(t, "thought"@) {
            Some(x) => x,
            None => trim(t),
        },
        tag_content(t, "action"@),
        if tag_content(t, "action_input"@) is Some {
            input
        } else {
            None
        },
        tag_content(t, "observation"@),
        tag_content(t, "answer"@),
    )
}

/// Reads the tags of the model's output. `action_input` is the JSON parse
/// of the `action_input` tag's text, when it parses (it is ignored when the
/// tag is missing).
pub fn parse_react_output(text: &str, action_input: Option<Json>) -> (r: AgentStep)
    ensures
        parsed_step_is(r, text@, action_input),
{
    let thought = match extract_tag(text, "thought") {
        Some(t) => t,
        None => string_of(&trim_chars(&chars_of(text))),
    };
    let has_input = extract_tag(text, "action_input").is_some();
    AgentStep {
        thought,
        action: extract_tag(text, "action"),
        action_input: if has_input {
            action_input
        } else {
            None
        },
        observation: extract_tag(text, "observation"),
        answer: extract_tag(text, "answer"),
    }
}

// ─── Tools ───────────────────────────────────────────────────────────────────

/// `input["args"]` when it is a string, else the whole input as JSON text.
pub open spec fn tool_args_text(input: Json) -> Seq<char> {
    match as_str(idx(Some(input), "args"@)) {
        Some(a) => a,
        None => input.text@,
    }
}

pub fn tool_args(input: &Json) -> (r: String)
    ensures
        r@ == tool_args_text(*input),
{
    match get_str(get(input, "args")) {
        Some(a) => string_of(&a),
        None => input.text.clone(),
    }
}

/// The observation for a tool the registry does not know.
pub open spec fn unknown_tool_text(action: Seq<char>) -> Seq<char> {
    "{\"error\": \"Unknown tool '"@ + action + "'.\"}"@
}

pub fn unknown_tool(action: &str) -> (r: String)
    ensures
        r@ == unknown_tool_text(action@),
{
    let mut out: Vec<char> = Vec::new();
    push_str(&mut out, "{\"error\": \"Unknown tool '");
    push_str(&mut out, action);
    push_str(&mut out, "'.\"}");
    string_of(&out)
}

/// The request for a tool call: the plugin's default action with
/// `{"args": args}`.
pub fn tool_request(manifest: &PluginManifest, args: &str) -> (r: PluginRequest)
    ensures
        r.action@ == manifest.default_action@,
        r.payload.text@ == args_payload_text(true, args@),
{
    PluginRequest {
        action: clone_string(&manifest.default_action),
        payload: args_payload(true, args),
    }
}

/// The observation fed back after a tool call.
pub open spec fn observation_text(outcome: Result<PluginResponse, AppError>) -> Seq<char> {
    match outcome {
        Ok(resp) => if resp.success {
            resp.result.text@
        } else {
            "{\"error\": \""@ + match resp.error {
                Some(e) => e@,
                None => "plugin error"@,
            } + "\"}"@
        },
        Err(e) => "{\"error\": \""@ + app_error_text(e) + "\"}"@,
    }
}

/// A successful plugin reply is fed back as the JSON text of its result;
/// an `{"error": "..."}` observation comes only from a failed reply (its
/// error, or "plugin error") or from a runner error (its message).
pub proof fn law_observation_of_reply(outcome: Result<PluginResponse, AppError>)
    ensures
        match outcome {
            Ok(resp) => if resp.success {
                observation_text(outcome) == resp.result.text@
            } else {
                observation_text(outcome) == "{\"error\": \""@ + (if resp.error is Some {
                    resp.error->0@
                } else {
                    "plugin error"@
                }) + "\"}"@
            },
            Err(e) => observation_text(outcome) == "{\"error\": \""@ + app_error_text(e) + "\"}"@,
        },
{
}

pub fn tool_observation(outcome: &Result<PluginResponse, AppError>) -> (r: String)
    ensures
        r@ == observation_text(*outcome),
{
    match outcome {
        Ok(resp) => {
            if resp.success {
                resp.result.text.clone()
            } else {
                let mut out: Vec<char> = Vec::new();
                push_str(&mut out, "{\"error\": \"");
                match &resp.error {
                    Some(e) => push_str(&mut out, e.as_str()),
                    None => push_str(&mut out, "plugin error"),
                }
                push_str(&mut out, "\"}");
                string_of(&out)
            }
        },
        Err(e) => {
            let m = e.message();
            let mut out: Vec<char> = Vec::new();
            push_str(&mut out, "{\"error\": \"");
            push_str(&mut out, m.as_str());
            push_str(&mut out, "\"}");
            string_of(&out)
        },
    }
}

/// `- name: description` for each tool definition that has both.
pub open spec fn tool_lines(tools: Seq<Json>) -> Seq<Seq<char>>
    decreases tools.len(),
{
    if tools.len() == 0 {
        Seq::empty()
    } else {
        let rest = tool_lines(tools.drop_last());
        let f = idx(Some(tools.last()), "function"@);
        match (as_str(idx(f, "name"@)), as_str(idx(f, "description"@))) {
            (Some(n), Some(d)) => rest.push("- "@ + n + ": "@ + d),
            _ => rest,
        }
    }
}

/// The tool list shown to the model.
pub open spec fn tools_description_text(tools: Seq<Json>) -> Seq<char> {
    if tools.len() == 0 {
        "(no tools available)"@
    } else {
        join(tool_lines(tools), "\n"@)
    }
}

pub fn build_tools_description(tools: &Vec<Json>) -> (r: String)
    ensures
        r@ == tools_description_text(tools@),
{
    if tools.len() == 0 {
        return lit("(no tools available)");
    }
    let mut out: Vec<char> = Vec::new();
    let mut count: usize = 0;
    let mut i: usize = 0;
    while i < tools.len()
        invariant
            i <= tools@.len(),
            count <= i,
            count == tool_lines(tools@.take(i as int)).len(),
            out@ == join(tool_lines(tools@.take(i as int)), "\n"@),
        decreases tools@.len() - i,
    {
        assert(tools@.take(i + 1).drop_last() =~= tools@.take(i as int));
        let f = get(&tools[i], "function");
        let n = get_str(at(f, "name"));
        let d = get_str(at(f, "description"));
        match (n, d) {
            (Some(n), Some(d)) => {
                let mut line: Vec<char> = Vec::new();
                push_str(&mut line, "- ");
                push_chars(&mut line, &n);
                push_str(&mut line, ": ");
                push_chars(&mut line, &d);
                join_push(&mut out, count, "\n", &line, Ghost(tool_lines(tools@.take(i as int))));
                count = count + 1;
            },
            _ => {},
        }
        i = i + 1;
    }
    assert(tools@.take(tools@.len() as int) =~= tools@);
    string_of(&out)
}

/// The plugin a tool name stands for: the one registered for it as a
/// command, else the one of that name.
pub open spec fn tool_for(registry: PluginRegistry, action: Seq<char>) -> Option<PluginManifest> {
    match registry.for_command(crate::text::lowercase(action)) {
        Some(m) => Some(m),
        None => registry.for_name(action),
    }
}

impl PluginRegistry {
    pub fn resolve_tool(&self, action: &str) -> (r: Option<&PluginManifest>)
        requires
            self.wf(),
        ensures
            match r {
                Some(m) => tool_for(*self, action@) == Some(*m),
                None => tool_for(*self, action@) is None,
            },
    {
        match self.resolve(action) {
            Some(m) => Some(m),
            None => self.resolve_by_name(action),
        }
    }
}

// ─── The run ─────────────────────────────────────────────────────────────────

/// The opening prompt: the system prompt, the tools, the answer format and
/// the user's query, in ChatML.
pub open spec fn seed_prompt(system: Seq<char>, tools: Seq<char>, query: Seq<char>) -> Seq<char> {
    "<|system|>\n"@ + system + "\nYou have access to the following tools:\n"@ + tools
        + "\n\nTo use a tool respond ONLY with:\n<thought>your reasoning</thought>\n<action>tool-name</action>\n<action_input>{\"args\": \"...\"}</action_input>\n\nWhen you have a final answer respond ONLY with:\n<thought>reasoning</thought>\n<answer>your final answer</answer>\n<|user|>\n"@
        + query + "\n<|assistant|>\n"@
}

/// The system prompt used when none is given.
pub open spec fn default_system() -> Seq<char> {
    "You are a helpful assistant."@
}

/// What the run answers when it runs out of steps.
pub open spec fn step_limit_text() -> Seq<char> {
    "I've reached my step limit. Please rephrase or break your request into smaller parts."@
}

/// What to do after the model has spoken.
pub enum AgentMove {
    /// The run is over with this answer.
    Answer(String),
    /// Call the tool `action` with `args`, then report the observation.
    UseTool { action: String, args: String },
}

/// A run in progress.
pub struct AgentRun {
    prompt: String,
    steps: Vec<AgentStep>,
    step_num: usize,
    pending: Option<AgentStep>,
}

impl AgentRun {
    /// The prompt the model is given next.
    pub closed spec fn prompt_text(&self) -> Seq<char> {
        self.prompt@
    }

    /// The steps recorded so far.
    pub closed spec fn step_list(&self) -> Seq<AgentStep> {
        self.steps@
    }

    /// Model calls made so far.
    pub closed spec fn calls(&self) -> nat {
        self.step_num as nat
    }

    /// The step waiting for its tool's observation.
    pub closed spec fn waiting(&self) -> Option<AgentStep> {
        self.pending
    }

    /// A new run for `user_query`.
    pub fn start(system_prompt: Option<&str>, tools_desc: &str, user_query: &str) -> (r: Self)
        ensures
            r.prompt_text() == seed_prompt(
                match system_prompt {
                    Some(s) => s@,
                    None => default_system(),
                },
                tools_desc@,
                user_query@,
            ),
            r.step_list().len() == 0,
            r.calls() == 0,
            r.waiting() is None,
    {
        let mut out: Vec<char> = Vec::new();
        push_str(&mut out, "<|system|>\n");
        match system_prompt {
            Some(s) => push_str(&mut out, s),
            None => push_str(&mut out, "You are a helpful assistant."),
        }
        push_str(&mut out, "\nYou have access to the following tools:\n");
        push_str(&mut out, tools_desc);
        push_str(
            &mut out,
            "\n\nTo use a tool respond ONLY with:\n<thought>your reasoning</thought>\n<action>tool-name</action>\n<action_input>{\"args\": \"...\"}</action_input>\n\nWhen you have a final answer respond ONLY with:\n<thought>reasoning</thought>\n<answer>your final answer</answer>\n<|user|>\n",
        );
        push_str(&mut out, user_query);
        push_str(&mut out, "\n<|assistant|>\n");
        AgentRun { prompt: string_of(&out), steps: Vec::new(), step_num: 0, pending: None }
    }

    pub fn prompt(&self) -> (r: &str)
        ensures
            r@ == self.prompt_text(),
    {
        self.prompt.as_str()
    }

    /// Whether the model may be called again.
    pub fn can_continue(&self) -> (r: bool)
        ensures
            r == (self.calls() < MAX_STEPS),
    {
        self.step_num < MAX_STEPS
    }

    /// The answer when the step limit is reached.
    pub fn step_limit_answer() -> (r: String)
        ensures
            r@ == step_limit_text(),
    {
        lit("I've reached my step limit. Please rephrase or break your request into smaller parts.")
    }

    /// The recorded steps.
    pub fn into_steps(self) -> (r: Vec<AgentStep>)
        ensures
            r@ == self.step_list(),
    {
        self.steps
    }

    /// After the model answered with `raw` (`action_input`: the JSON parse
    /// of its `action_input` tag). An answer ends the run; an action with
    /// input asks for a tool call; anything else ends the run with the
    /// thought.
    pub fn after_output(&mut self, raw: &str, action_input: Option<Json>) -> (r: AgentMove)
        requires
            old(self).calls() < MAX_STEPS,
            old(self).waiting() is None,
        ensures
            final(self).calls() == old(self).calls() + 1,
            final(self).calls() <= MAX_STEPS,
            final(self).prompt_text() == old(self).prompt_text(),
            match r {
                AgentMove::Answer(a) => {
                    &&& final(self).waiting() is None
                    &&& final(self).step_list().len() == old(self).step_list().len() + 1
                    &&& final(self).step_list().take(old(self).step_list().len() as int)
                        == old(self).step_list()
                    &&& parsed_step_is(final(self).step_list().last(), raw@, action_input)
                    &&& match tag_content(raw@, "answer"@) {
                        Some(x) => a@ == x,
                        None => !(tag_content(raw@, "action"@) is Some && tag_content(
                            raw@,
                            "action_input"@,
                        ) is Some && action_input is Some)
                            && a@ == final(self).step_list().last().thought@,
                    }
                },
                AgentMove::UseTool { action, args } => {
                    &&& tag_content(raw@, "answer"@) is None
                    &&& tag_content(raw@, "action"@) == Some(action@)
                    &&& tag_content(raw@, "action_input"@) is Some
                    &&& action_input matches Some(j) && args@ == tool_args_text(j)
                    &&& final(self).step_list() == old(self).step_list()
                    &&& final(self).waiting() matches Some(p) && parsed_step_is(
                        p,
                        raw@,
                        action_input,
                    )
                },
            },
    {
        let step = parse_react_output(raw, action_input);
        self.step_num = self.step_num + 1;
        let ghost old_steps = self.steps@;
        match &step.answer {
            Some(a) => {
                let ans = a.clone();
                self.steps.push(step);
                assert(self.steps@.take(old_steps.len() as int) =~= old_steps);
                return AgentMove::Answer(ans);
            },
            None => {},
        }
        let call = match (&step.action, &step.action_input) {
            (Some(act), Some(input)) => Some((act.clone(), tool_args(input))),
            _ => None,
        };
        match call {
            Some((action, args)) => {
                self.pending = Some(step);
                AgentMove::UseTool { action, args }
            },
            None => {
                let t = step.thought.clone();
                self.steps.push(step);
                assert(self.steps@.take(old_steps.len() as int) =~= old_steps);
                AgentMove::Answer(t)
            },
        }
    }

    /// After the tool of the waiting step returned `observation`: the step
    /// is recorded with it, and the model's output and the observation are
    /// added to the prompt.
    pub fn after_observation(&mut self, raw: &str, observation: String)
        requires
            old(self).waiting() is Some,
        ensures
            final(self).waiting() is None,
            final(self).calls() == old(self).calls(),
            final(self).prompt_text() == old(self).prompt_text() + raw@ + "\n<observation>"@
                + observation@ + "</observation>\n"@,
            final(self).step_list().len() == old(self).step_list().len() + 1,
            final(self).step_list().take(old(self).step_list().len() as int)
                == old(self).step_list(),
            old(self).waiting() matches Some(p) && step_is(
                final(self).step_list().last(),
                p.thought@,
                opt_view(p.action),
                p.action_input,
                Some(observation@),
                None,
            ),
    {
        let mut out: Vec<char> = chars_of(self.prompt.as_str());
        push_str(&mut out, raw);
        push_str(&mut out, "\n<observation>");
        push_str(&mut out, observation.as_str());
        push_str(&mut out, "</observation>\n");
        self.prompt = string_of(&out);
        let ghost old_steps = self.steps@;
        let p = self.pending.take();
        match p {
            Some(p) => {
                let step = AgentStep {
                    thought: p.thought,
                    action: p.action,
                    action_input: p.action_input,
                    observation: Some(observation),
                    answer: None,
                };
                self.steps.push(step);
                assert(self.steps@.take(old_steps.len() as int) =~= old_steps);
            },
            None => {},
        }
    }
}

// ─── The runner ──────────────────────────────────────────────────────────────

/// What an agent run works with: the plugins it may call as tools, the
/// identity that checks their signatures and the runner that starts them.
pub struct AgentRunner {
    pub plugins: PluginRegistry,
    pub device: DeviceIdentity,
    pub plugin_runner: PluginRunner,
}

impl AgentRunner {
    pub fn new(plugins: PluginRegistry, device: DeviceIdentity, plugin_dir: &str) -> (r: Self)
        ensures
            r.plugins == plugins,
            r.device == device,
            r.plugin_runner.dir() == plugin_dir@,
    {
        AgentRunner { plugins, device, plugin_runner: PluginRunner::new(plugin_dir) }
    }

    /// A new run for `user_query`, with every registered plugin offered as
    /// a tool.
    pub fn begin(&self, user_query: &str, system_prompt: Option<&str>) -> (r: AgentRun)
        requires
            self.plugins.wf(),
        ensures
            exists|tools: Seq<Json>|
                #[trigger] self.plugins.tools_listed(tools) && r.prompt_text() == seed_prompt(
                    match system_prompt {
                        Some(s) => s@,
                        None => default_system(),
                    },
                    tools_description_text(tools),
                    user_query@,
                ),
            r.step_list().len() == 0,
            r.calls() == 0,
            r.waiting() is None,
    {
        let tools = self.plugins.as_tools();
        let desc = build_tools_description(&tools);
        AgentRun::start(system_prompt, desc.as_str(), user_query)
    }

    /// The plugin and the request for a tool call; for a tool that no
    /// plugin stands for, the observation that says so.
    pub fn tool_call(&self, action: &str, args: &str) -> (r: Result<(&PluginManifest, PluginRequest), String>)
        requires
            self.plugins.wf(),
        ensures
            match r {
                Ok((m, req)) => {
                    &&& tool_for(self.plugins, action@) == Some(*m)
                    &&& req.action@ == m.default_action@
                    &&& req.payload.text@ == args_payload_text(true, args@)
                },
                Err(e) => tool_for(self.plugins, action@) is None && e@ == unknown_tool_text(action@),
            },
    {
        match self.plugins.resolve_tool(action) {
            Some(m) => Ok((m, tool_request(m, args))),
            None => Err(unknown_tool(action)),
        }
    }
}

} // verus!
