//! Plugin registry with command lookup, the response cache, action routing
//! and the `/help` listing.
//!
//! Scanning the plugin directory and running plugin processes is I/O and
//! happens outside; this module makes every decision around them.
use vstd::prelude::*;
use crate::text::{
    byte_len, chars_of, contains_seq, contains_str, dec, push_chars, push_decimal, push_str,
    string_of, trim, trim_chars,
};
use crate::json::{chars_eq, json_quote, json_quoted, Json, JsonKind};
use crate::summary::{join, pfx, prefix_bytes};

verus! {

/// Longest a plugin may run (milliseconds).
pub const PLUGIN_TIMEOUT_MS: u64 = 8000;

/// Cache lifetime of system-info results (seconds).
pub const CACHE_TTL_SECS: u64 = 10;

/// Cache lifetime of weather results (seconds).
pub const CACHE_TTL_WEATHER: u64 = 300;

/// A plugin's manifest (`<name>.json` next to its binary).
pub struct PluginManifest {
    pub name: String,
    pub version: String,
    pub description: String,
    pub commands: Vec<String>,
    pub default_action: String,
    pub payload_from_args: bool,
    pub cacheable: bool,
    pub cache_ttl_secs: u64,
}

pub struct RegisteredPlugin {
    pub manifest: PluginManifest,
    pub binary_path: String,
}

/// A plugin's reply.
pub struct PluginResponse {
    pub success: bool,
    pub result: Json,
    pub error: Option<String>,
}

pub enum PluginError {
    NotFound(String),
    Timeout(String),
    SpawnFailed(String),
    InvalidResponse(String),
    IoError(String),
}

pub open spec fn plugin_error_text(e: PluginError) -> Seq<char> {
    match e {
        PluginError::NotFound(c) => "No plugin handles /"@ + c@,
        PluginError::Timeout(n) => "Plugin "@ + n@ + " timed out after "@ + dec(
            (PLUGIN_TIMEOUT_MS / 1000) as nat,
        ) + "s"@,
        PluginError::SpawnFailed(m) => "Plugin launch failed: "@ + m@,
        PluginError::InvalidResponse(m) => "Plugin returned invalid response: "@ + m@,
        PluginError::IoError(m) => "Plugin I/O error: "@ + m@,
    }
}

impl PluginError {
    /// The error as the user reads it.
    pub fn message(&self) -> (r: String)
        ensures
            r@ == plugin_error_text(*self),
    {
        let mut out: Vec<char> = Vec::new();
        match self {
            PluginError::NotFound(c) => {
                push_str(&mut out, "No plugin handles /");
                push_str(&mut out, c.as_str());
            },
            PluginError::Timeout(n) => {
                push_str(&mut out, "Plugin ");
                push_str(&mut out, n.as_str());
                push_str(&mut out, " timed out after ");
                push_decimal(&mut out, PLUGIN_TIMEOUT_MS / 1000);
                push_str(&mut out, "s");
            },
            PluginError::SpawnFailed(m) => {
                push_str(&mut out, "Plugin launch failed: ");
                push_str(&mut out, m.as_str());
            },
            PluginError::InvalidResponse(m) => {
                push_str(&mut out, "Plugin returned invalid response: ");
                push_str(&mut out, m.as_str());
            },
            PluginError::IoError(m) => {
                push_str(&mut out, "Plugin I/O error: ");
                push_str(&mut out, m.as_str());
            },
        }
        string_of(&out)
    }
}

impl PluginResponse {
    /// A failed reply carrying `msg`.
    pub fn error(msg: String) -> (r: Self)
        ensures
            !r.success,
            r.result.kind is Null,
            r.result.text@ == "null"@,
            r.error matches Some(e) && e@ == msg@,
    {
        PluginResponse { success: false, result: crate::json::null_value(), error: Some(msg) }
    }
}

// ─── String helpers ──────────────────────────────────────────────────────────

pub(crate) fn str_is(s: &str, lit: &str) -> (r: bool)
    ensures
        r == (s@ == lit@),
{
    let a = chars_of(s);
    let b = chars_of(lit);
    chars_eq(&a, &b)
}

pub(crate) fn clone_string(s: &String) -> (r: String)
    ensures
        r@ == s@,
{
    s.clone()
}

// ─── Cache lifetimes and actions ─────────────────────────────────────────────

pub open spec fn cache_ttl(name: Seq<char>) -> u64 {
    if name == "plugin-datetime"@ {
        5
    } else if name == "plugin-system-info"@ {
        CACHE_TTL_SECS
    } else if name == "plugin-weather"@ {
        CACHE_TTL_WEATHER
    } else {
        0
    }
}

/// Seconds a result of the named plugin stays cached (0: not cached).
pub fn cache_ttl_for(plugin_name: &str, _args: &str) -> (r: u64)
    ensures
        r == cache_ttl(plugin_name@),
{
    if str_is(plugin_name, "plugin-datetime") {
        5
    } else if str_is(plugin_name, "plugin-system-info") {
        CACHE_TTL_SECS
    } else if str_is(plugin_name, "plugin-weather") {
        CACHE_TTL_WEATHER
    } else {
        0
    }
}

/// The action sent for `command` to the named plugin: a few commands of a
/// multi-command plugin map to their own action, all others to the
/// manifest's default.
pub open spec fn action_for(name: Seq<char>, command: Seq<char>, default: Seq<char>) -> Seq<char> {
    if name == "plugin-scheduler"@ && command == "jobs"@ {
        "jobs"@
    } else if name == "plugin-scheduler"@ && command == "remind"@ {
        "remind"@
    } else if name == "plugin-rag-local"@ && command == "search-doc"@ {
        "search"@
    } else if name == "plugin-rag-internet"@ && command == "web-rag"@ {
        "rag"@
    } else if name == "plugin-system-info"@ && command == "uptime"@ {
        "uptime"@
    } else if name == "plugin-system-info"@ && command == "disk"@ {
        "disk"@
    } else if name == "plugin-log-tail"@ && command == "errors"@ {
        "errors"@
    } else if name == "plugin-updater"@ && command == "update-plan"@ {
        "plan"@
    } else if name == "plugin-word-builder"@ && command == "doc-template"@ {
        "template"@
    } else if name == "plugin-excel-builder"@ && command == "sheet-template"@ {
        "template"@
    } else {
        default
    }
}

pub(crate) fn lit(s: &str) -> (r: String)
    ensures
        r@ == s@,
{
    string_of(&chars_of(s))
}

pub fn resolve_action(command: &str, plugin: &RegisteredPlugin) -> (r: String)
    ensures
        r@ == action_for(plugin.manifest.name@, command@, plugin.manifest.default_action@),
{
    let name: &str = plugin.manifest.name.as_str();
    if str_is(name, "plugin-scheduler") && str_is(command, "jobs") {
        lit("jobs")
    } else if str_is(name, "plugin-scheduler") && str_is(command, "remind") {
        lit("remind")
    } else if str_is(name, "plugin-rag-local") && str_is(command, "search-doc") {
        lit("search")
    } else if str_is(name, "plugin-rag-internet") && str_is(command, "web-rag") {
        lit("rag")
    } else if str_is(name, "plugin-system-info") && str_is(command, "uptime") {
        lit("uptime")
    } else if str_is(name, "plugin-system-info") && str_is(command, "disk") {
        lit("disk")
    } else if str_is(name, "plugin-log-tail") && str_is(command, "errors") {
        lit("errors")
    } else if str_is(name, "plugin-updater") && str_is(command, "update-plan") {
        lit("plan")
    } else if str_is(name, "plugin-word-builder") && str_is(command, "doc-template") {
        lit("template")
    } else if str_is(name, "plugin-excel-builder") && str_is(command, "sheet-template") {
        lit("template")
    } else {
        clone_string(&plugin.manifest.default_action)
    }
}

// ─── /help ───────────────────────────────────────────────────────────────────

pub open spec fn spaces(n: int) -> Seq<char> {
    Seq::new(if n < 0 {
        0
    } else {
        n as nat
    }, |i: int| ' ')
}

/// `"  /{cmd:<width}  {desc}"`: the command left-aligned and padded with
/// spaces to `width` characters.
pub open spec fn help_line(cmd: Seq<char>, desc: Seq<char>, width: int) -> Seq<char> {
    "  /"@ + cmd + spaces(width - cmd.len()) + "  "@ + desc
}

/// Greatest byte length (as `str::len` reports it) among the commands (0 for none).
pub open spec fn max_cmd_len(cs: Seq<(String, String)>) -> nat
    decreases cs.len(),
{
    if cs.len() == 0 {
        0
    } else {
        let m = max_cmd_len(cs.drop_last());
        let l = (byte_len(cs.last().0@) as usize) as nat;
        if l > m {
            l
        } else {
            m
        }
    }
}

pub open spec fn help_lines(cs: Seq<(String, String)>, width: int) -> Seq<Seq<char>>
    decreases cs.len(),
{
    if cs.len() == 0 {
        Seq::empty()
    } else {
        help_lines(cs.drop_last(), width).push(help_line(cs.last().0@, cs.last().1@, width))
    }
}

pub open spec fn help_text(cs: Seq<(String, String)>) -> Seq<char> {
    if cs.len() == 0 {
        "No plugins registered. Check /opt/fabio-claw/plugins/"@
    } else {
        "Available commands:\n"@ + join(help_lines(cs, max_cmd_len(cs) as int), "\n"@)
    }
}

fn byte_len_of(s: &str) -> (r: usize)
    ensures
        r == byte_len(s@) as usize,
{
    let l: usize = s.len();
    proof {
        crate::text::lemma_byte_len_is_utf8_len(s@);
    }
    l
}

/// The `/help` text: one padded line per `(command, description)`.
pub fn format_help(commands: &[(String, String)]) -> (r: String)
    ensures
        r@ == help_text(commands@),
{
    if commands.len() == 0 {
        return lit("No plugins registered. Check /opt/fabio-claw/plugins/");
    }
    let mut width: usize = 0;
    let mut i: usize = 0;
    while i < commands.len()
        invariant
            i <= commands@.len(),
            width == max_cmd_len(commands@.take(i as int)),
        decreases commands.len() - i,
    {
        assert(commands@.take(i + 1).drop_last() =~= commands@.take(i as int));
        let l: usize = byte_len_of(commands[i].0.as_str());
        if l > width {
            width = l;
        }
        i = i + 1;
    }
    assert(commands@.take(commands@.len() as int) =~= commands@);
    let mut body: Vec<char> = Vec::new();
    let mut j: usize = 0;
    while j < commands.len()
        invariant
            j <= commands@.len(),
            width == max_cmd_len(commands@),
            help_lines(commands@.take(j as int), width as int).len() == j,
            body@ == join(help_lines(commands@.take(j as int), width as int), "\n"@),
        decreases commands.len() - j,
    {
        assert(commands@.take(j + 1).drop_last() =~= commands@.take(j as int));
        let cmd = chars_of(commands[j].0.as_str());
        let mut line: Vec<char> = Vec::new();
        push_str(&mut line, "  /");
        push_chars(&mut line, &cmd);
        let mut k: usize = cmd.len();
        let ghost base = line@;
        while k < width
            invariant
                cmd@.len() <= k <= width || (k == cmd@.len() && k >= width),
                line@ == base + spaces(k - cmd@.len()),
            decreases width - k,
        {
            line.push(' ');
            k = k + 1;
            assert(line@ =~= base + spaces(k - cmd@.len()));
        }
        assert(line@ =~= base + spaces(width - cmd@.len()));
        push_str(&mut line, "  ");
        push_str(&mut line, commands[j].1.as_str());
        crate::summary::join_push(
            &mut body,
            j,
            "\n",
            &line,
            Ghost(help_lines(commands@.take(j as int), width as int)),
        );
        j = j + 1;
    }
    assert(commands@.take(commands@.len() as int) =~= commands@);
    let mut out: Vec<char> = Vec::new();
    push_str(&mut out, "Available commands:\n");
    push_chars(&mut out, &body);
    string_of(&out)
}

} // verus!

verus! {

// ─── Ordering of command names ───────────────────────────────────────────────

/// Strict lexicographic order by code point (the order of `String`s).
pub open spec fn lex_lt(a: Seq<char>, b: Seq<char>) -> bool
    decreases a.len(),
{
    if a.len() == 0 {
        b.len() > 0
    } else if b.len() == 0 {
        false
    } else if (a[0] as u32) < (b[0] as u32) {
        true
    } else if a[0] == b[0] {
        lex_lt(a.drop_first(), b.drop_first())
    } else {
        false
    }
}

pub proof fn lemma_lex_total(a: Seq<char>, b: Seq<char>)
    requires
        a != b,
    ensures
        lex_lt(a, b) || lex_lt(b, a),
    decreases a.len(),
{
    if a.len() > 0 && b.len() > 0 && a[0] == b[0] {
        if a.drop_first() == b.drop_first() {
            assert(a =~= seq![a[0]] + a.drop_first());
            assert(b =~= seq![b[0]] + b.drop_first());
        }
        lemma_lex_total(a.drop_first(), b.drop_first());
    } else if a.len() > 0 && b.len() > 0 {
        vstd::utf8::char_u32_cast(a[0], a[0] as u32);
        vstd::utf8::char_u32_cast(b[0], b[0] as u32);
        assert((a[0] as u32) != (b[0] as u32));
    } else if a.len() == 0 && b.len() == 0 {
        assert(a =~= b);
    }
}

pub proof fn lemma_lex_irreflexive(a: Seq<char>)
    ensures
        !lex_lt(a, a),
    decreases a.len(),
{
    if a.len() > 0 {
        lemma_lex_irreflexive(a.drop_first());
    }
}

pub fn lex_less(a: &[char], b: &[char]) -> (r: bool)
    ensures
        r == lex_lt(a@, b@),
{
    let mut i: usize = 0;
    assert(a@.skip(0) =~= a@);
    assert(b@.skip(0) =~= b@);
    while i < a.len() && i < b.len() && a[i] == b[i]
        invariant
            i <= a@.len(),
            i <= b@.len(),
            lex_lt(a@, b@) == lex_lt(a@.skip(i as int), b@.skip(i as int)),
        decreases a.len() - i,
    {
        proof {
            assert(a@.skip(i as int).drop_first() =~= a@.skip(i + 1));
            assert(b@.skip(i as int).drop_first() =~= b@.skip(i + 1));
        }
        i = i + 1;
    }
    proof {
        if i < a@.len() {
            assert(a@.skip(i as int)[0] == a@[i as int]);
        }
        if i < b@.len() {
            assert(b@.skip(i as int)[0] == b@[i as int]);
        }
    }
    if i == a.len() {
        i < b.len()
    } else if i == b.len() {
        false
    } else {
        let x: u32 = a[i] as u32;
        let y: u32 = b[i] as u32;
        x < y
    }
}

// ─── Registry and cache ──────────────────────────────────────────────────────

/// A cached reply with its creation time and lifetime.
pub struct CacheEntry {
    pub response: PluginResponse,
    /// Monotonic clock reading at creation (nanoseconds).
    pub created_at_ns: u64,
    pub ttl_secs: u64,
}

/// Less than `ttl` seconds have passed since `created` (elapsed time never
/// negative).
pub open spec fn fresh(created: u64, ttl: u64, now: u64) -> bool {
    (if now >= created {
        now - created
    } else {
        0
    }) < ttl * 1_000_000_000
}

impl CacheEntry {
    pub fn is_fresh(&self, now_ns: u64) -> (r: bool)
        ensures
            r == fresh(self.created_at_ns, self.ttl_secs, now_ns),
    {
        let elapsed: u64 = if now_ns >= self.created_at_ns {
            now_ns - self.created_at_ns
        } else {
            0
        };
        (elapsed as u128) < (self.ttl_secs as u128) * 1_000_000_000u128
    }
}

/// Index bound to `k` in an association list (first match).
pub open spec fn assoc<V>(es: Seq<(String, V)>, k: Seq<char>) -> Option<V>
    decreases es.len(),
{
    if es.len() == 0 {
        None
    } else if es[0].0@ == k {
        Some(es[0].1)
    } else {
        assoc(es.drop_first(), k)
    }
}

/// Keys of an association list are pairwise distinct.
pub open spec fn distinct_keys<V>(es: Seq<(String, V)>) -> bool {
    forall|i: int, j: int| 0 <= i < j < es.len() ==> es[i].0@ != es[j].0@
}

/// Command → plugin registry and the reply cache.
///
/// The maps from command (or name) are association lists with distinct
/// keys (`wf`), not `HashMap`s: vstd's `HashMap` contracts hold only for
/// keys it knows to obey its key model (integers, `bool`), and `String` is
/// not one of them, so nothing about a lookup could be proved; the lists
/// make every lookup, insertion and listing provable. A later entry for a key replaces the
/// earlier one, as a map insert does.
pub struct PluginManager {
    plugins: Vec<RegisteredPlugin>,
    registry: Vec<(String, usize)>,
    cache: Vec<(String, CacheEntry)>,
}

impl PluginManager {
    pub closed spec fn wf(&self) -> bool {
        &&& distinct_keys(self.registry@)
        &&& distinct_keys(self.cache@)
        &&& forall|i: int| 0 <= i < self.registry@.len() ==> (#[trigger] self.registry@[i]).1
            < self.plugins@.len()
    }

    /// The plugin that handles `cmd`.
    pub closed spec fn handler(&self, cmd: Seq<char>) -> Option<RegisteredPlugin> {
        match assoc(self.registry@, cmd) {
            Some(i) => Some(self.plugins@[i as int]),
            None => None,
        }
    }

    /// The registered commands.
    pub closed spec fn commands(&self) -> Seq<Seq<char>> {
        self.registry@.map_values(|e: (String, usize)| e.0@)
    }

    /// The cached entry under `key`.
    pub closed spec fn cached(&self, key: Seq<char>) -> Option<CacheEntry> {
        assoc(self.cache@, key)
    }

    /// An empty registry; plugins found on disk are added with `register`.
    pub fn new() -> (r: Self)
        ensures
            r.wf(),
            forall|c: Seq<char>| r.handler(c) is None,
            r.commands().len() == 0,
    {
        PluginManager { plugins: Vec::new(), registry: Vec::new(), cache: Vec::new() }
    }

    /// Registers a plugin for each of its commands; a command already taken
    /// moves to the new plugin.
    pub fn register(&mut self, plugin: RegisteredPlugin)
        requires
            old(self).wf(),
        ensures
            final(self).wf(),
            forall|c: Seq<char>|
                #![trigger final(self).handler(c)]
                if plugin.manifest.commands@.map_values(|s: String| s@).contains(c) {
                    final(self).handler(c) == Some(plugin)
                } else {
                    final(self).handler(c) == old(self).handler(c)
                },
            forall|c: Seq<char>| final(self).cached(c) == old(self).cached(c),
    {
        let idx: usize = self.plugins.len();
        let ghost cmds = plugin.manifest.commands@.map_values(|s: String| s@);
        let n: usize = plugin.manifest.commands.len();
        let mut names: Vec<String> = Vec::new();
        let mut k: usize = 0;
        while k < n
            invariant
                n == plugin.manifest.commands@.len(),
                k <= n,
                names@.len() == k,
                forall|j: int| 0 <= j < k ==> (#[trigger] names@[j])@ == plugin.manifest.commands@[j]@,
            decreases n - k,
        {
            names.push(clone_string(&plugin.manifest.commands[k]));
            k = k + 1;
        }
        let ghost pl = plugin;
        self.plugins.push(plugin);
        let ghost before = *self;
        assert(before.plugins@ == old(self).plugins@.push(pl));
        let mut i: usize = 0;
        while i < n
            invariant
                n == names@.len(),
                i <= n,
                idx == self.plugins@.len() - 1,
                self.plugins@ == before.plugins@,
                before.plugins@ == old(self).plugins@.push(pl),
                before.registry@ == old(self).registry@,
                old(self).wf(),
                self.cache@ == before.cache@,
                distinct_keys(self.registry@),
                distinct_keys(self.cache@),
                forall|q: int| 0 <= q < self.registry@.len() ==> (#[trigger] self.registry@[q]).1
                    < self.plugins@.len(),
                forall|c: Seq<char>|
                    #![trigger assoc(self.registry@, c)]
                    if (exists|j: int| 0 <= j < i && (#[trigger] names@[j])@ == c) {
                        assoc(self.registry@, c) == Some(idx)
                    } else {
                        assoc(self.registry@, c) == assoc(before.registry@, c)
                    },
            decreases n - i,
        {
            let key = clone_string(&names[i]);
            let ghost prev = self.registry@;
            assoc_set(&mut self.registry, key, idx);
            proof {
                assert forall|c: Seq<char>|
                    #![trigger assoc(self.registry@, c)]
                    if (exists|j: int| 0 <= j < i + 1 && (#[trigger] names@[j])@ == c) {
                        assoc(self.registry@, c) == Some(idx)
                    } else {
                        assoc(self.registry@, c) == assoc(before.registry@, c)
                    } by {
                    if c == names@[i as int]@ {
                    } else {
                        if exists|j: int| 0 <= j < i + 1 && (#[trigger] names@[j])@ == c {
                            let j = choose|j: int| 0 <= j < i + 1 && (#[trigger] names@[j])@ == c;
                            assert(j < i);
                        }
                    }
                }
            }
            i = i + 1;
        }
        proof {
            assert forall|c: Seq<char>| #![trigger self.handler(c)]
                if cmds.contains(c) {
                    self.handler(c) == Some(pl)
                } else {
                    self.handler(c) == old(self).handler(c)
                } by {
                if cmds.contains(c) {
                    let j = choose|j: int| 0 <= j < cmds.len() && cmds[j] == c;
                    assert(names@[j]@ == c);
                    assert(assoc(self.registry@, c) == Some(idx));
                    assert(self.plugins@[idx as int] == pl);
                } else {
                    if exists|j: int| 0 <= j < n && (#[trigger] names@[j])@ == c {
                        let j = choose|j: int| 0 <= j < n && (#[trigger] names@[j])@ == c;
                        assert(cmds[j] == c);
                    }
                    assert(assoc(self.registry@, c) == assoc(before.registry@, c));
                    match assoc(before.registry@, c) {
                        Some(q) => {
                            lemma_assoc_in(before.registry@, c);
                            let w = choose|w: int| 0 <= w < before.registry@.len() && before.registry@[w].0@ == c
                                && before.registry@[w].1 == q;
                            assert(before.registry@[w].1 < old(self).plugins@.len());
                            assert(self.plugins@[q as int] == old(self).plugins@[q as int]);
                        },
                        None => {},
                    }
                }
            }
        }
    }

    /// The plugin registered for `command`, if any.
    pub fn find(&self, command: &str) -> (r: Option<&RegisteredPlugin>)
        requires
            self.wf(),
        ensures
            match r {
                Some(p) => self.handler(command@) == Some(*p),
                None => self.handler(command@) is None,
            },
    {
        match assoc_get(&self.registry, command) {
            Some(i) => {
                proof {
                    lemma_assoc_in(self.registry@, command@);
                }
                Some(&self.plugins[i])
            },
            None => None,
        }
    }
}

/// A bound value comes from some entry.
pub(crate) proof fn lemma_assoc_in<V>(es: Seq<(String, V)>, k: Seq<char>)
    ensures
        assoc(es, k) matches Some(v) ==> exists|i: int| 0 <= i < es.len() && es[i].0@ == k && es[i].1
            == v,
    decreases es.len(),
{
    if es.len() > 0 && es[0].0@ != k {
        lemma_assoc_in(es.drop_first(), k);
        if assoc(es, k) is Some {
            let i = choose|i: int|
                0 <= i < es.drop_first().len() && es.drop_first()[i].0@ == k && es.drop_first()[i].1
                    == assoc(es, k)->0;
            assert(es[i + 1] == es.drop_first()[i]);
        }
    }
}

pub(crate) proof fn lemma_assoc_at<V>(es: Seq<(String, V)>, i: int)
    requires
        distinct_keys(es),
        0 <= i < es.len(),
    ensures
        assoc(es, es[i].0@) == Some(es[i].1),
    decreases es.len(),
{
    if i > 0 {
        assert(es.drop_first()[i - 1] == es[i]);
        assert(distinct_keys(es.drop_first())) by {
            assert forall|a: int, b: int| 0 <= a < b < es.drop_first().len() implies es.drop_first()[a].0@
                != es.drop_first()[b].0@ by {
                assert(es.drop_first()[a] == es[a + 1]);
                assert(es.drop_first()[b] == es[b + 1]);
            }
        }
        assert(es[0].0@ != es[i].0@);
        lemma_assoc_at(es.drop_first(), i - 1);
    }
}

pub(crate) proof fn lemma_assoc_absent<V>(es: Seq<(String, V)>, k: Seq<char>)
    requires
        forall|i: int| 0 <= i < es.len() ==> (#[trigger] es[i]).0@ != k,
    ensures
        assoc(es, k) is None,
    decreases es.len(),
{
    if es.len() > 0 {
        assert(es[0].0@ != k);
        assert forall|i: int| 0 <= i < es.drop_first().len() implies (#[trigger] es.drop_first()[i]).0@
            != k by {
            assert(es.drop_first()[i] == es[i + 1]);
        }
        lemma_assoc_absent(es.drop_first(), k);
    }
}

/// Position of key `k`, if present.
pub(crate) fn assoc_find<V>(es: &Vec<(String, V)>, k: &[char]) -> (r: Option<usize>)
    ensures
        match r {
            Some(i) => i < es@.len() && es@[i as int].0@ == k@ && forall|j: int|
                0 <= j < i ==> (#[trigger] es@[j]).0@ != k@,
            None => forall|j: int| 0 <= j < es@.len() ==> (#[trigger] es@[j]).0@ != k@,
        },
{
    let mut i: usize = 0;
    while i < es.len()
        invariant
            i <= es@.len(),
            forall|j: int| 0 <= j < i ==> (#[trigger] es@[j]).0@ != k@,
        decreases es.len() - i,
    {
        let kc = chars_of(es[i].0.as_str());
        if chars_eq(&kc, k) {
            return Some(i);
        }
        i = i + 1;
    }
    None
}

pub(crate) proof fn lemma_assoc_first<V>(es: Seq<(String, V)>, i: int, k: Seq<char>)
    requires
        0 <= i < es.len(),
        es[i].0@ == k,
        forall|j: int| 0 <= j < i ==> (#[trigger] es[j]).0@ != k,
    ensures
        assoc(es, k) == Some(es[i].1),
    decreases i,
{
    if i > 0 {
        assert forall|j: int| 0 <= j < i - 1 implies (#[trigger] es.drop_first()[j]).0@ != k by {
            assert(es.drop_first()[j] == es[j + 1]);
        }
        assert(es[0].0@ != k);
        lemma_assoc_first(es.drop_first(), i - 1, k);
    }
}

pub(crate) fn assoc_get<V: Copy>(es: &Vec<(String, V)>, k: &str) -> (r: Option<V>)
    ensures
        r == assoc(es@, k@),
{
    let kc = chars_of(k);
    match assoc_find(es, &kc) {
        Some(i) => {
            proof {
                lemma_assoc_first(es@, i as int, k@);
            }
            Some(es[i].1)
        },
        None => {
            proof {
                lemma_assoc_absent(es@, k@);
            }
            None
        },
    }
}

/// Binds `k` to `v`, replacing an earlier binding.
pub(crate) fn assoc_set<V>(es: &mut Vec<(String, V)>, k: String, v: V)
    requires
        distinct_keys(old(es)@),
    ensures
        distinct_keys(final(es)@),
        forall|c: Seq<char>|
            #![trigger assoc(final(es)@, c)]
            if c == k@ {
                assoc(final(es)@, c) == Some(v)
            } else {
                assoc(final(es)@, c) == assoc(old(es)@, c)
            },
        forall|j: int| 0 <= j < final(es)@.len() ==> ((#[trigger] final(es)@[j]).1 == v || exists|q: int|
            0 <= q < old(es)@.len() && old(es)@[q] == final(es)@[j]),
{
    let kc = chars_of(k.as_str());
    let ghost ks = k@;
    let ghost pre = es@;
    match assoc_find(es, &kc) {
        Some(i) => {
            let _ = es.remove(i);
            es.insert(i, (k, v));
            proof {
                assert(es@ =~= pre.update(i as int, (es@[i as int].0, v)));
                assert(distinct_keys(es@)) by {
                    assert forall|a: int, b: int| 0 <= a < b < es@.len() implies es@[a].0@
                        != es@[b].0@ by {
                        if a != i && b != i {
                            assert(es@[a] == pre[a] && es@[b] == pre[b]);
                        } else if a == i {
                            assert(es@[b] == pre[b]);
                        } else {
                            assert(es@[a] == pre[a]);
                        }
                    }
                }
                assert forall|c: Seq<char>| #![trigger assoc(es@, c)]
                    if c == ks {
                        assoc(es@, c) == Some(v)
                    } else {
                        assoc(es@, c) == assoc(pre, c)
                    } by {
                    if c == ks {
                        lemma_assoc_at(es@, i as int);
                    } else {
                        assoc_update_other(pre, i as int, (es@[i as int].0, v), c);
                    }
                }
            }
        },
        None => {
            es.push((k, v));
            proof {
                assert(distinct_keys(es@)) by {
                    assert forall|a: int, b: int| 0 <= a < b < es@.len() implies es@[a].0@
                        != es@[b].0@ by {
                        assert(es@[a] == pre[a]);
                    }
                }
                assert forall|c: Seq<char>| #![trigger assoc(es@, c)]
                    if c == ks {
                        assoc(es@, c) == Some(v)
                    } else {
                        assoc(es@, c) == assoc(pre, c)
                    } by {
                    if c == ks {
                        lemma_assoc_at(es@, pre.len() as int);
                    } else {
                        assoc_push_other(pre, (es@[pre.len() as int].0, v), c);
                    }
                }
            }
        },
    }
    proof {
        assert forall|j: int| 0 <= j < es@.len() implies ((#[trigger] es@[j]).1 == v || exists|q: int|
            0 <= q < pre.len() && pre[q] == es@[j]) by {
            if es@[j].1 != v {
                assert(j < pre.len() && pre[j] == es@[j]);
            }
        }
    }
}

proof fn assoc_update_other<V>(es: Seq<(String, V)>, i: int, e: (String, V), c: Seq<char>)
    requires
        0 <= i < es.len(),
        es[i].0@ != c,
        e.0@ != c,
    ensures
        assoc(es.update(i, e), c) == assoc(es, c),
    decreases es.len(),
{
    if i > 0 {
        assert(es.update(i, e).drop_first() =~= es.drop_first().update(i - 1, e));
        if es[0].0@ != c {
            assoc_update_other(es.drop_first(), i - 1, e, c);
        }
    } else {
        assert(es.update(0, e).drop_first() =~= es.drop_first());
    }
}

proof fn assoc_push_other<V>(es: Seq<(String, V)>, e: (String, V), c: Seq<char>)
    requires
        e.0@ != c,
    ensures
        assoc(es.push(e), c) == assoc(es, c),
    decreases es.len(),
{
    if es.len() == 0 {
        assert(es.push(e).drop_first() =~= Seq::<(String, V)>::empty());
        assert(es.push(e)[0] == e);
        assert(assoc(es.push(e).drop_first(), c) is None);
    } else {
        assert(es.push(e)[0] == es[0]);
        assert(es.push(e).drop_first() =~= es.drop_first().push(e));
        if es[0].0@ != c {
            assoc_push_other(es.drop_first(), e, c);
        }
    }
}

} // verus!

verus! {

// ─── Requests sent to plugins ────────────────────────────────────────────────

/// What a plugin reads on stdin.
pub struct PluginRequest {
    pub action: String,
    pub payload: Json,
}

/// `{"action":<action>,"payload":<payload>}`, compact.
pub open spec fn request_text(action: Seq<char>, payload: Seq<char>) -> Seq<char> {
    "{\"action\":"@ + json_quoted(action) + ",\"payload\":"@ + payload + "}"@
}

impl PluginRequest {
    /// The request as compact JSON text.
    pub fn to_json(&self) -> (r: String)
        ensures
            r@ == request_text(self.action@, self.payload.text@),
    {
        let mut out: Vec<char> = Vec::new();
        push_str(&mut out, "{\"action\":");
        let q = json_quote(self.action.as_str());
        push_str(&mut out, q.as_str());
        push_str(&mut out, ",\"payload\":");
        push_str(&mut out, self.payload.text.as_str());
        push_str(&mut out, "}");
        string_of(&out)
    }
}

/// Text of the payload: `{"args":<args>}` when the manifest takes its payload
/// from the arguments, `{}` otherwise.
pub open spec fn args_payload_text(from_args: bool, args: Seq<char>) -> Seq<char> {
    if from_args {
        "{\"args\":"@ + json_quoted(args) + "}"@
    } else {
        "{}"@
    }
}

/// The payload sent with a call.
pub fn args_payload(payload_from_args: bool, args: &str) -> (r: Json)
    ensures
        r.text@ == args_payload_text(payload_from_args, args@),
        r.kind matches JsonKind::Object(es) && if payload_from_args {
            &&& es@.len() == 1
            &&& es@[0].0@ == "args"@
            &&& es@[0].1.kind matches JsonKind::Str(a) && a@ == args@
            &&& es@[0].1.text@ == json_quoted(args@)
        } else {
            es@.len() == 0
        },
{
    let mut entries: Vec<(String, Json)> = Vec::new();
    let mut out: Vec<char> = Vec::new();
    if payload_from_args {
        let q = json_quote(args);
        push_str(&mut out, "{\"args\":");
        push_str(&mut out, q.as_str());
        push_str(&mut out, "}");
        let v = Json { kind: JsonKind::Str(string_of(&chars_of(args))), text: q };
        entries.push((lit("args"), v));
    } else {
        push_str(&mut out, "{}");
    }
    Json { kind: JsonKind::Object(entries), text: string_of(&out) }
}

/// Key under which a plugin's reply to `args` is cached.
pub open spec fn cache_key_text(plugin_name: Seq<char>, args: Seq<char>) -> Seq<char> {
    plugin_name + ":"@ + args
}

pub fn cache_key(plugin_name: &str, args: &str) -> (r: String)
    ensures
        r@ == cache_key_text(plugin_name@, args@),
{
    let mut out: Vec<char> = Vec::new();
    push_str(&mut out, plugin_name);
    push_str(&mut out, ":");
    push_str(&mut out, args);
    string_of(&out)
}

// ─── Reading a plugin's reply ────────────────────────────────────────────────

/// The trimmed reply text, or `InvalidResponse("empty response")` when only
/// whitespace came back.
pub fn check_output(raw: &str) -> (r: Result<String, PluginError>)
    ensures
        match r {
            Ok(t) => t@ == trim(raw@) && trim(raw@).len() > 0,
            Err(e) => trim(raw@).len() == 0 && (e matches PluginError::InvalidResponse(m)
                && m@ == "empty response"@),
        },
{
    let t = trim_chars(&chars_of(raw));
    if t.len() == 0 {
        Err(PluginError::InvalidResponse(lit("empty response")))
    } else {
        Ok(string_of(&t))
    }
}

/// Most bytes of an unparsable reply quoted in the error.
pub const RAW_QUOTE_BYTES: usize = 120;

/// The error for a reply that is not a valid `PluginResponse`: the parser's
/// message and the first 120 bytes of the reply.
pub fn invalid_response(parse_error: &str, raw: &str) -> (r: PluginError)
    requires
        pfx(raw@, RAW_QUOTE_BYTES as nat) is Some,
    ensures
        r matches PluginError::InvalidResponse(m) && m@ == parse_error@ + " \u{2014} raw: "@ + pfx(
            raw@,
            RAW_QUOTE_BYTES as nat,
        )->0,
{
    let head = prefix_bytes(&chars_of(raw), RAW_QUOTE_BYTES);
    let mut out: Vec<char> = Vec::new();
    push_str(&mut out, parse_error);
    push_str(&mut out, " \u{2014} raw: ");
    match head {
        Some(h) => push_chars(&mut out, &h),
        None => {},
    }
    PluginError::InvalidResponse(string_of(&out))
}

/// What to do while a plugin process runs.
pub enum WaitStep {
    /// The process has exited: read its output.
    Exited,
    /// Still running: sleep and poll again.
    Poll,
    /// Over the time limit: kill it and report a timeout.
    TimedOut,
}

pub open spec fn wait_step_for(exited: bool, elapsed_ms: u64) -> WaitStep {
    if exited {
        WaitStep::Exited
    } else if elapsed_ms > PLUGIN_TIMEOUT_MS {
        WaitStep::TimedOut
    } else {
        WaitStep::Poll
    }
}

pub fn wait_step(exited: bool, elapsed_ms: u64) -> (r: WaitStep)
    ensures
        r == wait_step_for(exited, elapsed_ms),
{
    if exited {
        WaitStep::Exited
    } else if elapsed_ms > PLUGIN_TIMEOUT_MS {
        WaitStep::TimedOut
    } else {
        WaitStep::Poll
    }
}

// ─── Health check ────────────────────────────────────────────────────────────

/// An error that still shows the plugin answering.
pub open spec fn alive_message(m: Seq<char>) -> bool {
    contains_seq(m, "Unknown action"@) || contains_seq(m, "unknown action"@) || contains_seq(
        m,
        "Unsupported"@,
    ) || contains_seq(m, "Invalid"@)
}

/// `(name, healthy, message)` for one plugin; `outcome` is `None` when its
/// binary is missing, else the result of the `__healthcheck__` call.
pub open spec fn health_verdict(
    name: Seq<char>,
    outcome: Option<Result<PluginResponse, PluginError>>,
) -> (Seq<char>, bool, Seq<char>) {
    match outcome {
        None => (name, false, "binary not found"@),
        Some(Ok(_)) => (name, true, "ok"@),
        Some(Err(PluginError::Timeout(n))) => (n@, false, "timed out on healthcheck"@),
        Some(Err(e)) => {
            let m = plugin_error_text(e);
            if alive_message(m) {
                (name, true, "alive"@)
            } else {
                (name, false, m)
            }
        },
    }
}

pub fn health_entry(name: String, outcome: Option<&Result<PluginResponse, PluginError>>) -> (r: (
    String,
    bool,
    String,
))
    ensures
        (r.0@, r.1, r.2@) == health_verdict(
            name@,
            match outcome {
                Some(o) => Some(*o),
                None => None,
            },
        ),
{
    match outcome {
        None => (name, false, lit("binary not found")),
        Some(Ok(_)) => (name, true, lit("ok")),
        Some(Err(PluginError::Timeout(n))) => (clone_string(n), false, lit("timed out on healthcheck")),
        Some(Err(e)) => {
            let msg = e.message();
            let m = chars_of(msg.as_str());
            let alive = contains_str(&m, "Unknown action") || contains_str(&m, "unknown action")
                || contains_str(&m, "Unsupported") || contains_str(&m, "Invalid");
            if alive {
                (name, true, lit("alive"))
            } else {
                (name, false, msg)
            }
        },
    }
}

} // verus!

verus! {

// ─── Calls through the manager ───────────────────────────────────────────────

pub proof fn lemma_lex_trans(a: Seq<char>, b: Seq<char>, c: Seq<char>)
    requires
        lex_lt(a, b),
        lex_lt(b, c),
    ensures
        lex_lt(a, c),
    decreases a.len(),
{
    if a.len() > 0 && b.len() > 0 && c.len() > 0 && a[0] == b[0] && b[0] == c[0] {
        lemma_lex_trans(a.drop_first(), b.drop_first(), c.drop_first());
    }
}

/// What a call needs next: a cached reply, or a run of the plugin.
pub enum PreparedCall<'a> {
    Cached(&'a PluginResponse),
    Run { plugin: &'a RegisteredPlugin, request: String, cache_key: String },
}

/// First cache entry under `k`.
fn cache_lookup<'a>(es: &'a Vec<(String, CacheEntry)>, k: &str) -> (r: Option<&'a CacheEntry>)
    ensures
        match r {
            Some(e) => assoc(es@, k@) == Some(*e),
            None => assoc(es@, k@) is None,
        },
{
    let kc = chars_of(k);
    match assoc_find(es, &kc) {
        Some(i) => {
            proof {
                lemma_assoc_first(es@, i as int, k@);
            }
            Some(&es[i].1)
        },
        None => {
            proof {
                lemma_assoc_absent(es@, k@);
            }
            None
        },
    }
}

impl PluginManager {
    /// The cached reply under `key` that is still fresh at `now_ns`.
    pub closed spec fn fresh_reply(&self, key: Seq<char>, now_ns: u64) -> Option<PluginResponse> {
        match self.cached(key) {
            Some(e) => if fresh(e.created_at_ns, e.ttl_secs, now_ns) {
                Some(e.response)
            } else {
                None
            },
            None => None,
        }
    }

    /// First half of a call: the plugin for `command`, then either its fresh
    /// cached reply (cacheable plugins only) or the request to send it.
    pub fn prepare_call(&self, command: &str, args: &str, now_ns: u64) -> (r: Result<
        PreparedCall<'_>,
        PluginError,
    >)
        requires
            self.wf(),
        ensures
            match r {
                Err(e) => self.handler(command@) is None && (e matches PluginError::NotFound(c)
                    && c@ == command@),
                Ok(PreparedCall::Cached(resp)) => self.handler(command@) matches Some(p)
                    && p.manifest.cacheable && self.fresh_reply(
                    cache_key_text(p.manifest.name@, args@),
                    now_ns,
                ) == Some(*resp),
                Ok(PreparedCall::Run { plugin, request, cache_key }) => {
                    &&& self.handler(command@) == Some(*plugin)
                    &&& !(plugin.manifest.cacheable && self.fresh_reply(
                        cache_key_text(plugin.manifest.name@, args@),
                        now_ns,
                    ) is Some)
                    &&& cache_key@ == cache_key_text(plugin.manifest.name@, args@)
                    &&& request@ == request_text(
                        action_for(plugin.manifest.name@, command@, plugin.manifest.default_action@),
                        args_payload_text(plugin.manifest.payload_from_args, args@),
                    )
                },
            },
    {
        let plugin = match self.find(command) {
            Some(p) => p,
            None => {
                return Err(PluginError::NotFound(string_of(&chars_of(command))));
            },
        };
        let key = cache_key(plugin.manifest.name.as_str(), args);
        if plugin.manifest.cacheable {
            match cache_lookup(&self.cache, key.as_str()) {
                Some(entry) => {
                    if entry.is_fresh(now_ns) {
                        return Ok(PreparedCall::Cached(&entry.response));
                    }
                },
                None => {},
            }
        }
        let payload = args_payload(plugin.manifest.payload_from_args, args);
        let action = resolve_action(command, plugin);
        let req = PluginRequest { action, payload };
        let request = req.to_json();
        Ok(PreparedCall::Run { plugin, request, cache_key: key })
    }

    /// Second half of a call: a successful reply of a cacheable plugin is
    /// cached under `key` with the plugin's lifetime, starting at `now_ns`.
    pub fn remember(
        &mut self,
        key: String,
        plugin_name: &str,
        cacheable: bool,
        response: PluginResponse,
        now_ns: u64,
    )
        requires
            old(self).wf(),
        ensures
            final(self).wf(),
            forall|c: Seq<char>| #[trigger] final(self).handler(c) == old(self).handler(c),
            final(self).commands() == old(self).commands(),
            forall|k: Seq<char>|
                #[trigger] final(self).cached(k) == if cacheable && response.success && k == key@ {
                    Some(
                        (CacheEntry {
                            response,
                            created_at_ns: now_ns,
                            ttl_secs: cache_ttl(plugin_name@),
                        }),
                    )
                } else {
                    old(self).cached(k)
                },
    {
        if cacheable && response.success {
            let ttl = cache_ttl_for(plugin_name, "");
            assoc_set(
                &mut self.cache,
                key,
                CacheEntry { response, created_at_ns: now_ns, ttl_secs: ttl },
            );
        }
    }
}

/// The command names are in strictly increasing order.
pub open spec fn sorted_by_command(s: Seq<(String, String)>) -> bool {
    forall|i: int, j: int| 0 <= i < j < s.len() ==> lex_lt(s[i].0@, s[j].0@)
}

/// Inserts an entry with a new command at its place in the order.
pub(crate) fn insert_sorted(out: &mut Vec<(String, String)>, entry: (String, String)) -> (pos: usize)
    requires
        sorted_by_command(old(out)@),
        forall|i: int| 0 <= i < old(out)@.len() ==> (#[trigger] old(out)@[i]).0@ != entry.0@,
    ensures
        pos <= old(out)@.len(),
        final(out)@ == old(out)@.insert(pos as int, entry),
        sorted_by_command(final(out)@),
{
    let cmd = chars_of(entry.0.as_str());
    let mut pos: usize = 0;
    while pos < out.len() && !lex_less(&cmd, &chars_of(out[pos].0.as_str()))
        invariant
            pos <= out@.len(),
            cmd@ == entry.0@,
            forall|i: int| 0 <= i < pos ==> !lex_lt(cmd@, (#[trigger] out@[i]).0@),
        decreases out@.len() - pos,
    {
        pos = pos + 1;
    }
    proof {
        assert forall|i: int| 0 <= i < pos implies lex_lt((#[trigger] out@[i]).0@, cmd@) by {
            lemma_lex_total(out@[i].0@, cmd@);
        }
        assert forall|i: int| pos <= i < out@.len() implies lex_lt(cmd@, (#[trigger] out@[i]).0@) by {
            if i > pos {
                lemma_lex_trans(cmd@, out@[pos as int].0@, out@[i].0@);
            }
        }
    }
    let ghost prev = out@;
    out.insert(pos, entry);
    proof {
        assert(out@ =~= prev.insert(pos as int, entry));
        assert forall|i: int, j: int| 0 <= i < j < out@.len() implies lex_lt(out@[i].0@, out@[j].0@) by {
            if i < pos && j == pos {
            } else if i < pos && j > pos {
                assert(out@[j] == prev[j - 1]);
                lemma_lex_trans(out@[i].0@, cmd@, out@[j].0@);
            } else if i == pos {
                assert(out@[j] == prev[j - 1]);
            } else if j < pos {
            } else {
                assert(out@[i] == prev[i - 1]);
                assert(out@[j] == prev[j - 1]);
            }
        }
    }
    pos
}

/// `l` lists every registered command once, with its plugin's
/// description, sorted by command.
pub open spec fn is_command_listing(m: PluginManager, l: Seq<(String, String)>) -> bool {
    &&& l.len() == m.commands().len()
    &&& forall|i: int|
        #![trigger l[i]]
        0 <= i < l.len() ==> m.commands().contains(l[i].0@) && (m.handler(l[i].0@) matches Some(p)
            && l[i].1@ == p.manifest.description@)
    &&& forall|c: Seq<char>|
        m.commands().contains(c) ==> exists|i: int| 0 <= i < l.len() && (#[trigger] l[i]).0@ == c
    &&& sorted_by_command(l)
}

impl PluginManager {
    /// Every registered command with its plugin's description, sorted by
    /// command.
    #[verifier::spinoff_prover]
    #[verifier::rlimit(40)]
    pub fn list_commands(&self) -> (r: Vec<(String, String)>)
        requires
            self.wf(),
        ensures
            is_command_listing(*self, r@),
    {
        let mut out: Vec<(String, String)> = Vec::new();
        let mut k: usize = 0;
        while k < self.registry.len()
            invariant
                self.wf(),
                k <= self.registry@.len(),
                out@.len() == k,
                sorted_by_command(out@),
                forall|i: int|
                    #![trigger out@[i]]
                    0 <= i < out@.len() ==> exists|q: int|
                        0 <= q < k && (#[trigger] self.registry@[q]).0@ == out@[i].0@ && out@[i].1@
                            == self.plugins@[self.registry@[q].1 as int].manifest.description@,
                forall|q: int|
                    0 <= q < k ==> exists|i: int|
                        0 <= i < out@.len() && (#[trigger] out@[i]).0@ == (
                        #[trigger] self.registry@[q]).0@,
            decreases self.registry@.len() - k,
        {
            let idx: usize = self.registry[k].1;
            let entry = (
                clone_string(&self.registry[k].0),
                clone_string(&self.plugins[idx].manifest.description),
            );
            proof {
                assert forall|i: int| 0 <= i < out@.len() implies (#[trigger] out@[i]).0@ != entry.0@ by {
                    let q = choose|q: int|
                        0 <= q < k && (#[trigger] self.registry@[q]).0@ == out@[i].0@ && out@[i].1@
                            == self.plugins@[self.registry@[q].1 as int].manifest.description@;
                    assert(self.registry@[q].0@ != self.registry@[k as int].0@);
                }
            }
            let ghost prev = out@;
            let ghost e = entry;
            let pos = insert_sorted(&mut out, entry);
            proof {
                assert forall|i: int|
                    #![trigger out@[i]]
                    0 <= i < out@.len() implies exists|q: int|
                        0 <= q < k + 1 && (#[trigger] self.registry@[q]).0@ == out@[i].0@ && out@[i].1@
                            == self.plugins@[self.registry@[q].1 as int].manifest.description@ by {
                    if i == pos {
                        assert(out@[i] == e);
                        assert(self.registry@[k as int].0@ == out@[i].0@);
                    } else if i < pos {
                        assert(out@[i] == prev[i]);
                    } else {
                        assert(out@[i] == prev[i - 1]);
                    }
                }
                assert forall|q: int|
                    0 <= q < k + 1 implies exists|i: int|
                        0 <= i < out@.len() && (#[trigger] out@[i]).0@ == (
                        #[trigger] self.registry@[q]).0@ by {
                    if q == k {
                        assert(out@[pos as int] == e);
                    } else {
                        let i = choose|i: int|
                            0 <= i < prev.len() && (#[trigger] prev[i]).0@ == self.registry@[q].0@;
                        if i < pos {
                            assert(out@[i] == prev[i]);
                        } else {
                            assert(out@[i + 1] == prev[i]);
                        }
                    }
                }
            }
            k = k + 1;
        }
        proof {
            assert forall|i: int|
                #![trigger out@[i]]
                0 <= i < out@.len() implies self.commands().contains(out@[i].0@) && (self.handler(
                    out@[i].0@,
                ) matches Some(p) && out@[i].1@ == p.manifest.description@) by {
                let q = choose|q: int|
                    0 <= q < k && (#[trigger] self.registry@[q]).0@ == out@[i].0@ && out@[i].1@
                        == self.plugins@[self.registry@[q].1 as int].manifest.description@;
                lemma_assoc_at(self.registry@, q);
                assert(self.commands()[q] == out@[i].0@);
            }
            assert forall|c: Seq<char>|
                self.commands().contains(c) implies exists|i: int|
                    0 <= i < out@.len() && (#[trigger] out@[i]).0@ == c by {
                let q = choose|q: int| 0 <= q < self.commands().len() && self.commands()[q] == c;
                assert(self.registry@[q].0@ == c);
            }
        }
        out
    }
}

/// Whether a plugin of that name is already listed.
fn has_plugin_named(list: &Vec<&RegisteredPlugin>, name: &str) -> (r: bool)
    ensures
        r == exists|i: int| 0 <= i < list@.len() && (#[trigger] list@[i]).manifest.name@ == name@,
{
    let mut i: usize = 0;
    while i < list.len()
        invariant
            i <= list@.len(),
            forall|j: int| 0 <= j < i ==> (#[trigger] list@[j]).manifest.name@ != name@,
        decreases list.len() - i,
    {
        if str_is(list[i].manifest.name.as_str(), name) {
            return true;
        }
        i = i + 1;
    }
    false
}

impl PluginManager {
    /// The registered plugins, one per name, for the health check.
    #[verifier::rlimit(40)]
    pub fn health_targets(&self) -> (r: Vec<&RegisteredPlugin>)
        requires
            self.wf(),
        ensures
            forall|i: int|
                0 <= i < r@.len() ==> exists|c: Seq<char>|
                    self.commands().contains(c) && self.handler(c) == Some(*(#[trigger] r@[i])),
            forall|i: int, j: int|
                0 <= i < j < r@.len() ==> r@[i].manifest.name@ != r@[j].manifest.name@,
            forall|c: Seq<char>|
                #![trigger self.handler(c)]
                self.commands().contains(c) ==> (self.handler(c) matches Some(p) && exists|i: int|
                    0 <= i < r@.len() && (#[trigger] r@[i]).manifest.name@ == p.manifest.name@),
    {
        let mut out: Vec<&RegisteredPlugin> = Vec::new();
        let mut k: usize = 0;
        while k < self.registry.len()
            invariant
                self.wf(),
                k <= self.registry@.len(),
                forall|i: int|
                    0 <= i < out@.len() ==> exists|q: int|
                        0 <= q < k && *(#[trigger] out@[i]) == self.plugins@[(
                        #[trigger] self.registry@[q]).1 as int],
                forall|i: int, j: int|
                    0 <= i < j < out@.len() ==> out@[i].manifest.name@ != out@[j].manifest.name@,
                forall|q: int|
                    0 <= q < k ==> exists|i: int|
                        0 <= i < out@.len() && (#[trigger] out@[i]).manifest.name@ == self.plugins@[(
                        #[trigger] self.registry@[q]).1 as int].manifest.name@,
            decreases self.registry@.len() - k,
        {
            let idx: usize = self.registry[k].1;
            let plugin = &self.plugins[idx];
            let ghost prev = out@;
            if !has_plugin_named(&out, plugin.manifest.name.as_str()) {
                out.push(plugin);
                proof {
                    assert forall|i: int|
                        0 <= i < out@.len() implies exists|q: int|
                            0 <= q < k + 1 && *(#[trigger] out@[i]) == self.plugins@[(
                            #[trigger] self.registry@[q]).1 as int] by {
                        if i < prev.len() {
                            assert(out@[i] == prev[i]);
                        } else {
                            assert(*out@[i] == self.plugins@[self.registry@[k as int].1 as int]);
                        }
                    }
                    assert forall|q: int|
                        0 <= q < k + 1 implies exists|i: int|
                            0 <= i < out@.len() && (#[trigger] out@[i]).manifest.name@ == self.plugins@[(
                            #[trigger] self.registry@[q]).1 as int].manifest.name@ by {
                        if q == k {
                            assert(out@[prev.len() as int] == plugin);
                        } else {
                            let i = choose|i: int|
                                0 <= i < prev.len() && (#[trigger] prev[i]).manifest.name@
                                    == self.plugins@[self.registry@[q].1 as int].manifest.name@;
                            assert(out@[i] == prev[i]);
                        }
                    }
                }
            }
            k = k + 1;
        }
        proof {
            assert forall|i: int|
                0 <= i < out@.len() implies exists|c: Seq<char>|
                    self.commands().contains(c) && self.handler(c) == Some(*(#[trigger] out@[i])) by {
                let q = choose|q: int|
                    0 <= q < k && *(#[trigger] out@[i]) == self.plugins@[(
                    #[trigger] self.registry@[q]).1 as int];
                let c = self.registry@[q].0@;
                lemma_assoc_at(self.registry@, q);
                assert(self.commands()[q] == c);
                assert(self.commands().contains(c));
                assert(self.handler(c) == Some(*out@[i]));
            }
            assert forall|c: Seq<char>|
                #![trigger self.handler(c)]
                self.commands().contains(c) implies (self.handler(c) matches Some(p) && exists|i: int|
                    0 <= i < out@.len() && (#[trigger] out@[i]).manifest.name@ == p.manifest.name@) by {
                let q = choose|q: int| 0 <= q < self.commands().len() && self.commands()[q] == c;
                assert(self.registry@[q].0@ == c);
                lemma_assoc_at(self.registry@, q);
            }
        }
        out
    }
}

/// Commands of one plugin that are routed to actions of their own never
/// share an action, and a command named after an action of its plugin
/// (the scheduler's `jobs` and `remind`, system-info's `uptime` and `disk`,
/// log-tail's `errors`) is sent as that very action, whatever the plugin's
/// default action is.
pub proof fn law_commands_keep_own_actions(
    name: Seq<char>,
    c1: Seq<char>,
    c2: Seq<char>,
    default: Seq<char>,
)
    ensures
        c1 != c2 && action_for(name, c1, default) != default && action_for(name, c2, default)
            != default ==> action_for(name, c1, default) != action_for(name, c2, default),
        (name == "plugin-scheduler"@ && (c1 == "jobs"@ || c1 == "remind"@)) || (name
            == "plugin-system-info"@ && (c1 == "uptime"@ || c1 == "disk"@)) || (name
            == "plugin-log-tail"@ && c1 == "errors"@) ==> action_for(name, c1, default) == c1,
{
    let a1 = action_for(name, c1, default);
    let a2 = action_for(name, c2, default);
    lemma_routing_literals();
    if c1 != c2 && a1 != default && a2 != default {
        if name == "plugin-scheduler"@ {
            assert(c1 == "jobs"@ || c1 == "remind"@);
            assert(c2 == "jobs"@ || c2 == "remind"@);
        } else if name == "plugin-system-info"@ {
            assert(c1 == "uptime"@ || c1 == "disk"@);
            assert(c2 == "uptime"@ || c2 == "disk"@);
        }
    }
}

/// The lengths of the names and commands that route to their own actions,
/// and a character telling apart the two pairs of names of equal length.
proof fn lemma_routing_literals()
    ensures
        "plugin-scheduler"@.len() == 16,
        "plugin-rag-local"@.len() == 16,
        "plugin-rag-internet"@.len() == 19,
        "plugin-system-info"@.len() == 18,
        "plugin-log-tail"@.len() == 15,
        "plugin-updater"@.len() == 14,
        "plugin-word-builder"@.len() == 19,
        "plugin-excel-builder"@.len() == 20,
        "plugin-scheduler"@[7] != "plugin-rag-local"@[7],
        "plugin-rag-internet"@[7] != "plugin-word-builder"@[7],
        "jobs"@.len() == 4,
        "remind"@.len() == 6,
        "uptime"@.len() == 6,
        "disk"@.len() == 4,
        "errors"@.len() == 6,
{
    reveal_strlit("plugin-scheduler");
    reveal_strlit("plugin-rag-local");
    reveal_strlit("plugin-rag-internet");
    reveal_strlit("plugin-system-info");
    reveal_strlit("plugin-log-tail");
    reveal_strlit("plugin-updater");
    reveal_strlit("plugin-word-builder");
    reveal_strlit("plugin-excel-builder");
    reveal_strlit("jobs");
    reveal_strlit("remind");
    reveal_strlit("uptime");
    reveal_strlit("disk");
    reveal_strlit("errors");
}

/// A command appears in the `/help` listing exactly when `find` finds a
/// plugin for it.
pub proof fn law_listed_iff_found(m: PluginManager, l: Seq<(String, String)>, c: Seq<char>)
    requires
        m.wf(),
        is_command_listing(m, l),
    ensures
        (exists|i: int| 0 <= i < l.len() && (#[trigger] l[i]).0@ == c) <==> m.handler(c) is Some,
{
    if m.handler(c) is Some {
        lemma_assoc_in(m.registry@, c);
        let q = choose|q: int| 0 <= q < m.registry@.len() && m.registry@[q].0@ == c && m.registry@[q].1
            == assoc(m.registry@, c)->0;
        assert(m.commands()[q] == c);
        assert(m.commands().contains(c));
    }
    if exists|i: int| 0 <= i < l.len() && (#[trigger] l[i]).0@ == c {
        let i = choose|i: int| 0 <= i < l.len() && (#[trigger] l[i]).0@ == c;
        assert(m.handler(l[i].0@) is Some);
    }
}

/// A reply stored at `t0` under `key` (as `remember` stores it) is served
/// from the cache at a later `t1` exactly while less than its plugin's
/// lifetime has passed, and what is served is the stored reply.
pub proof fn law_cache_serves_stored_reply(
    m: PluginManager,
    key: Seq<char>,
    plugin_name: Seq<char>,
    response: PluginResponse,
    t0: u64,
    t1: u64,
)
    requires
        m.cached(key) == Some(
            (CacheEntry { response, created_at_ns: t0, ttl_secs: cache_ttl(plugin_name) }),
        ),
        t0 <= t1,
    ensures
        m.fresh_reply(key, t1) is Some <==> t1 - t0 < cache_ttl(plugin_name) * 1_000_000_000,
        m.fresh_reply(key, t1) is Some ==> m.fresh_reply(key, t1) == Some(response),
{
}

} // verus!
