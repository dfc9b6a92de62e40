//! The plugin registry used by the agent and the scheduler (commands are
//! matched case-insensitively, plugins are also found by name), plugin tool
//! definitions, and the checks and messages around running a plugin.
//!
//! Reading manifests from disk and running plugin processes happen outside.
use vstd::prelude::*;
use crate::errors::AppError;
use crate::json::{clone_json, json_quote, json_quoted, Json, JsonKind};
use crate::plugin_manager::{
    assoc, assoc_find, assoc_set, clone_string, distinct_keys, insert_sorted, lemma_assoc_absent,
    lemma_assoc_at, lemma_assoc_first, lemma_assoc_in, lex_less, lex_lt, lit, lemma_lex_total,
    lemma_lex_trans, sorted_by_command,
};
use crate::text::{chars_of, dec, lowercase, push_chars, push_decimal, push_str, string_of, to_lowercase};

pub use crate::plugin_manager::{PluginRequest, PluginResponse};

verus! {

/// Longest a plugin may run (seconds).
pub const PLUGIN_TIMEOUT_SECS: u64 = 10;

/// A plugin's manifest (`<name>.json` next to its binary).
pub struct PluginManifest {
    /// Binary name (the executable in the plugin directory).
    pub name: String,
    pub version: String,
    pub description: String,
    /// Slash-commands the plugin handles.
    pub commands: Vec<String>,
    /// Action sent when one of the commands is invoked.
    pub default_action: String,
    /// Whether the command's arguments are forwarded as `{"args": ...}`.
    pub payload_from_args: bool,
    /// Tool definition for tool-calling clients; derived from the manifest
    /// when absent.
    pub tool_schema: Option<ToolSchema>,
    /// Whether a valid `.sig` file is needed before the plugin runs.
    pub require_signature: bool,
}

/// An OpenAI-style tool description.
pub struct ToolSchema {
    pub description: String,
    pub parameters: Json,
}

// ─── Tool definitions ────────────────────────────────────────────────────────

/// The plugin name with `-` replaced by `_`.
pub open spec fn tool_name(name: Seq<char>) -> Seq<char> {
    Seq::new(name.len(), |i: int| if name[i] == '-' { '_' } else { name[i] })
}

/// Parameters offered when the manifest has no tool schema.
pub open spec fn default_parameters_text() -> Seq<char> {
    "{\"properties\":{\"args\":{\"description\":\"Arguments to pass to the plugin\",\"type\":\"string\"}},\"required\":[],\"type\":\"object\"}"@
}

pub open spec fn tool_description(m: PluginManifest) -> Seq<char> {
    match m.tool_schema {
        Some(s) => s.description@,
        None => m.description@,
    }
}

pub open spec fn tool_parameters_text(m: PluginManifest) -> Seq<char> {
    match m.tool_schema {
        Some(s) => s.parameters.text@,
        None => default_parameters_text(),
    }
}

/// `{"description":..,"name":..,"parameters":..}`.
pub open spec fn tool_function_text(m: PluginManifest) -> Seq<char> {
    "{\"description\":"@ + json_quoted(tool_description(m)) + ",\"name\":"@ + json_quoted(
        tool_name(m.name@),
    ) + ",\"parameters\":"@ + tool_parameters_text(m) + "}"@
}

/// `{"function":<function>,"type":"function"}`.
pub open spec fn tool_definition_text(m: PluginManifest) -> Seq<char> {
    "{\"function\":"@ + tool_function_text(m) + ",\"type\":\"function\"}"@
}

fn json_string(s: String) -> (r: Json)
    ensures
        r.kind matches JsonKind::Str(t) && t@ == s@,
        r.text@ == json_quoted(s@),
{
    let q = json_quote(s.as_str());
    Json { kind: JsonKind::Str(s), text: q }
}

fn default_parameters() -> (r: Json)
    ensures
        r.text@ == default_parameters_text(),
{
    let mut args_desc: Vec<(String, Json)> = Vec::new();
    args_desc.push((lit("description"), json_string(lit("Arguments to pass to the plugin"))));
    args_desc.push((lit("type"), json_string(lit("string"))));
    let args = Json {
        kind: JsonKind::Object(args_desc),
        text: lit("{\"description\":\"Arguments to pass to the plugin\",\"type\":\"string\"}"),
    };
    let mut props: Vec<(String, Json)> = Vec::new();
    props.push((lit("args"), args));
    let properties = Json {
        kind: JsonKind::Object(props),
        text: lit("{\"args\":{\"description\":\"Arguments to pass to the plugin\",\"type\":\"string\"}}"),
    };
    let mut top: Vec<(String, Json)> = Vec::new();
    top.push((lit("properties"), properties));
    top.push((lit("required"), Json { kind: JsonKind::Array(Vec::new()), text: lit("[]") }));
    top.push((lit("type"), json_string(lit("object"))));
    Json { kind: JsonKind::Object(top), text: lit(
        "{\"properties\":{\"args\":{\"description\":\"Arguments to pass to the plugin\",\"type\":\"string\"}},\"required\":[],\"type\":\"object\"}",
    ) }
}

/// `name` with `-` replaced by `_`.
pub fn to_tool_name(name: &str) -> (r: String)
    ensures
        r@ == tool_name(name@),
{
    let v = chars_of(name);
    let mut out: Vec<char> = Vec::new();
    let mut i: usize = 0;
    while i < v.len()
        invariant
            i <= v@.len(),
            out@ == tool_name(v@).take(i as int),
        decreases v@.len() - i,
    {
        if v[i] == '-' {
            out.push('_');
        } else {
            out.push(v[i]);
        }
        i = i + 1;
        assert(out@ =~= tool_name(v@).take(i as int));
    }
    assert(tool_name(v@).take(v@.len() as int) =~= tool_name(v@));
    string_of(&out)
}

impl PluginManifest {
    /// The OpenAI-style tool definition of this plugin.
    pub fn as_tool_definition(&self) -> (r: Json)
        ensures
            r.text@ == tool_definition_text(*self),
            r.kind matches JsonKind::Object(es) && es@.len() == 2 && es@[0].0@ == "function"@
                && (es@[0].1.kind matches JsonKind::Object(fs) && fs@.len() == 3 && fs@[0].0@
                == "description"@ && (fs@[0].1.kind matches JsonKind::Str(d) && d@
                == tool_description(*self)) && fs@[1].0@ == "name"@ && (fs@[1].1.kind matches JsonKind::Str(n)
                && n@ == tool_name(self.name@))),
    {
        let (desc, params) = match &self.tool_schema {
            Some(s) => (s.description.clone(), clone_json(&s.parameters)),
            None => (self.description.clone(), default_parameters()),
        };
        let d = json_string(desc);
        let n = json_string(to_tool_name(self.name.as_str()));
        let mut text: Vec<char> = Vec::new();
        push_str(&mut text, "{\"description\":");
        push_str(&mut text, d.text.as_str());
        push_str(&mut text, ",\"name\":");
        push_str(&mut text, n.text.as_str());
        push_str(&mut text, ",\"parameters\":");
        push_str(&mut text, params.text.as_str());
        push_str(&mut text, "}");
        let ftext = string_of(&text);
        let mut fs: Vec<(String, Json)> = Vec::new();
        fs.push((lit("description"), d));
        fs.push((lit("name"), n));
        fs.push((lit("parameters"), params));
        let function = Json { kind: JsonKind::Object(fs), text: ftext };
        let mut out: Vec<char> = Vec::new();
        push_str(&mut out, "{\"function\":");
        push_str(&mut out, function.text.as_str());
        push_str(&mut out, ",\"type\":\"function\"}");
        let mut es: Vec<(String, Json)> = Vec::new();
        es.push((lit("function"), function));
        es.push((lit("type"), json_string(lit("function"))));
        Json { kind: JsonKind::Object(es), text: string_of(&out) }
    }
}

// ─── Registry ────────────────────────────────────────────────────────────────

/// Manifests by lowercased command and by plugin name.
///
/// The maps from command (or name) are association lists with distinct
/// keys (`wf`), not `HashMap`s: vstd's `HashMap` contracts hold only for
/// keys it knows to obey its key model (integers, `bool`), and `String` is
/// not one of them, so nothing about a lookup could be proved; the lists
/// make every lookup, insertion and listing provable. A later entry for a key replaces the
/// earlier one, as a map insert does.
pub struct PluginRegistry {
    plugins: Vec<PluginManifest>,
    entries: Vec<(String, usize)>,
    by_name: Vec<(String, usize)>,
    plugin_dir: String,
}

impl PluginRegistry {
    pub closed spec fn wf(&self) -> bool {
        &&& distinct_keys(self.entries@)
        &&& distinct_keys(self.by_name@)
        &&& forall|i: int| 0 <= i < self.entries@.len() ==> (#[trigger] self.entries@[i]).1
            < self.plugins@.len()
        &&& forall|i: int| 0 <= i < self.by_name@.len() ==> (#[trigger] self.by_name@[i]).1
            < self.plugins@.len()
    }

    /// The manifest registered under the (lowercased) command `key`.
    pub closed spec fn for_command(&self, key: Seq<char>) -> Option<PluginManifest> {
        match assoc(self.entries@, key) {
            Some(i) => Some(self.plugins@[i as int]),
            None => None,
        }
    }

    /// The manifest registered under the plugin name `name`.
    pub closed spec fn for_name(&self, name: Seq<char>) -> Option<PluginManifest> {
        match assoc(self.by_name@, name) {
            Some(i) => Some(self.plugins@[i as int]),
            None => None,
        }
    }

    /// The registered (lowercased) commands.
    pub closed spec fn command_keys(&self) -> Seq<Seq<char>> {
        self.entries@.map_values(|e: (String, usize)| e.0@)
    }

    /// The registered plugin names.
    pub closed spec fn names(&self) -> Seq<Seq<char>> {
        self.by_name@.map_values(|e: (String, usize)| e.0@)
    }

    pub closed spec fn dir(&self) -> Seq<char> {
        self.plugin_dir@
    }

    /// An empty registry for the plugins found in `plugin_dir`.
    pub fn new(plugin_dir: &str) -> (r: Self)
        ensures
            r.wf(),
            r.dir() == plugin_dir@,
            r.command_keys().len() == 0,
            r.names().len() == 0,
            forall|c: Seq<char>| r.for_command(c) is None,
            forall|n: Seq<char>| r.for_name(n) is None,
    {
        PluginRegistry {
            plugins: Vec::new(),
            entries: Vec::new(),
            by_name: Vec::new(),
            plugin_dir: string_of(&chars_of(plugin_dir)),
        }
    }

    /// Adds a plugin: each of its commands (lowercased) and its name now
    /// lead to it, replacing earlier bindings.
    pub fn register(&mut self, manifest: PluginManifest)
        requires
            old(self).wf(),
        ensures
            final(self).wf(),
            final(self).dir() == old(self).dir(),
            forall|c: Seq<char>|
                #![trigger final(self).for_command(c)]
                if exists|j: int|
                    0 <= j < manifest.commands@.len() && lowercase(
                        (#[trigger] manifest.commands@[j])@,
                    ) == c {
                    final(self).for_command(c) == Some(manifest)
                } else {
                    final(self).for_command(c) == old(self).for_command(c)
                },
            forall|n: Seq<char>|
                #![trigger final(self).for_name(n)]
                if n == manifest.name@ {
                    final(self).for_name(n) == Some(manifest)
                } else {
                    final(self).for_name(n) == old(self).for_name(n)
                },
    {
        let idx: usize = self.plugins.len();
        let n: usize = manifest.commands.len();
        let mut keys: Vec<String> = Vec::new();
        let mut k: usize = 0;
        while k < n
            invariant
                n == manifest.commands@.len(),
                k <= n,
                keys@.len() == k,
                forall|j: int|
                    0 <= j < k ==> (#[trigger] keys@[j])@ == lowercase(manifest.commands@[j]@),
            decreases n - k,
        {
            keys.push(to_lowercase(manifest.commands[k].as_str()));
            k = k + 1;
        }
        let name = clone_string(&manifest.name);
        let ghost pl = manifest;
        self.plugins.push(manifest);
        let ghost before = *self;
        assert(before.plugins@ == old(self).plugins@.push(pl));
        let mut i: usize = 0;
        while i < n
            invariant
                n == keys@.len(),
                i <= n,
                idx == self.plugins@.len() - 1,
                self.plugins@ == before.plugins@,
                self.by_name@ == before.by_name@,
                self.plugin_dir == before.plugin_dir,
                before.plugins@ == old(self).plugins@.push(pl),
                before.entries@ == old(self).entries@,
                old(self).wf(),
                distinct_keys(self.entries@),
                forall|q: int| 0 <= q < self.entries@.len() ==> (#[trigger] self.entries@[q]).1
                    < self.plugins@.len(),
                forall|c: Seq<char>|
                    #![trigger assoc(self.entries@, c)]
                    if (exists|j: int| 0 <= j < i && (#[trigger] keys@[j])@ == c) {
                        assoc(self.entries@, c) == Some(idx)
                    } else {
                        assoc(self.entries@, c) == assoc(before.entries@, c)
                    },
            decreases n - i,
        {
            let key = clone_string(&keys[i]);
            assoc_set(&mut self.entries, key, idx);
            proof {
                assert forall|c: Seq<char>|
                    #![trigger assoc(self.entries@, c)]
                    if (exists|j: int| 0 <= j < i + 1 && (#[trigger] keys@[j])@ == c) {
                        assoc(self.entries@, c) == Some(idx)
                    } else {
                        assoc(self.entries@, c) == assoc(before.entries@, c)
                    } by {
                    if c == keys@[i as int]@ {
                    } else {
                        if exists|j: int| 0 <= j < i + 1 && (#[trigger] keys@[j])@ == c {
                            let j = choose|j: int| 0 <= j < i + 1 && (#[trigger] keys@[j])@ == c;
                            assert(j < i);
                        }
                    }
                }
            }
            i = i + 1;
        }
        let ghost mid = *self;
        assoc_set(&mut self.by_name, name, idx);
        proof {
            assert forall|c: Seq<char>|
                #![trigger self.for_command(c)]
                if exists|j: int|
                    0 <= j < pl.commands@.len() && lowercase((#[trigger] pl.commands@[j])@) == c {
                    self.for_command(c) == Some(pl)
                } else {
                    self.for_command(c) == old(self).for_command(c)
                } by {
                if exists|j: int|
                    0 <= j < pl.commands@.len() && lowercase((#[trigger] pl.commands@[j])@) == c {
                    let j = choose|j: int|
                        0 <= j < pl.commands@.len() && lowercase((#[trigger] pl.commands@[j])@)
                            == c;
                    assert(keys@[j]@ == c);
                    assert(assoc(self.entries@, c) == Some(idx));
                    assert(self.plugins@[idx as int] == pl);
                } else {
                    if exists|j: int| 0 <= j < n && (#[trigger] keys@[j])@ == c {
                        let j = choose|j: int| 0 <= j < n && (#[trigger] keys@[j])@ == c;
                        assert(lowercase(pl.commands@[j]@) == c);
                    }
                    assert(assoc(self.entries@, c) == assoc(before.entries@, c));
                    match assoc(before.entries@, c) {
                        Some(q) => {
                            lemma_assoc_in(before.entries@, c);
                            let w = choose|w: int|
                                0 <= w < before.entries@.len() && before.entries@[w].0@ == c
                                    && before.entries@[w].1 == q;
                            assert(before.entries@[w].1 < old(self).plugins@.len());
                            assert(self.plugins@[q as int] == old(self).plugins@[q as int]);
                        },
                        None => {},
                    }
                }
            }
            assert forall|nm: Seq<char>|
                #![trigger self.for_name(nm)]
                if nm == pl.name@ {
                    self.for_name(nm) == Some(pl)
                } else {
                    self.for_name(nm) == old(self).for_name(nm)
                } by {
                if nm != pl.name@ {
                    match assoc(old(self).by_name@, nm) {
                        Some(q) => {
                            lemma_assoc_in(old(self).by_name@, nm);
                            let w = choose|w: int|
                                0 <= w < old(self).by_name@.len() && old(self).by_name@[w].0@ == nm
                                    && old(self).by_name@[w].1 == q;
                            assert(old(self).by_name@[w].1 < old(self).plugins@.len());
                        },
                        None => {},
                    }
                }
            }
            assert forall|q: int| 0 <= q < self.by_name@.len() implies (#[trigger] self.by_name@[q]).1
                < self.plugins@.len() by {
                if self.by_name@[q].1 != idx {
                    let w = choose|w: int|
                        0 <= w < mid.by_name@.len() && mid.by_name@[w] == self.by_name@[q];
                    assert(mid.by_name@[w].1 < old(self).plugins@.len());
                }
            }
        }
    }
}

/// Inserts `(key, idx)` after every entry whose key is not greater: the
/// order stays non-decreasing and equal keys keep their arrival order.
pub(crate) fn insert_after_equal(out: &mut Vec<(String, usize)>, entry: (String, usize)) -> (pos: usize)
    requires
        forall|i: int, j: int|
            0 <= i < j < old(out)@.len() ==> !lex_lt(old(out)@[j].0@, old(out)@[i].0@),
    ensures
        pos <= old(out)@.len(),
        final(out)@ == old(out)@.insert(pos as int, entry),
        forall|i: int, j: int|
            0 <= i < j < final(out)@.len() ==> !lex_lt(final(out)@[j].0@, final(out)@[i].0@),
{
    let key = chars_of(entry.0.as_str());
    let mut pos: usize = 0;
    while pos < out.len() && !lex_less(&key, &chars_of(out[pos].0.as_str()))
        invariant
            pos <= out@.len(),
            key@ == entry.0@,
            forall|i: int| 0 <= i < pos ==> !lex_lt(key@, (#[trigger] out@[i]).0@),
        decreases out@.len() - pos,
    {
        pos = pos + 1;
    }
    proof {
        assert forall|i: int| pos <= i < out@.len() implies lex_lt(key@, (#[trigger] out@[i]).0@) by {
            if i > pos {
                if !lex_lt(out@[pos as int].0@, out@[i].0@) {
                    if out@[pos as int].0@ != out@[i].0@ {
                        lemma_lex_total(out@[pos as int].0@, out@[i].0@);
                    }
                } else {
                    lemma_lex_trans(key@, out@[pos as int].0@, out@[i].0@);
                }
            }
        }
    }
    let ghost prev = out@;
    out.insert(pos, entry);
    proof {
        assert(out@ =~= prev.insert(pos as int, entry));
        assert forall|i: int, j: int| 0 <= i < j < out@.len() implies !lex_lt(out@[j].0@, out@[i].0@) by {
            if i < pos && j == pos {
            } else if i < pos && j > pos {
                assert(out@[j] == prev[j - 1]);
                assert(lex_lt(key@, out@[j].0@));
                if lex_lt(out@[j].0@, out@[i].0@) {
                    lemma_lex_trans(key@, out@[j].0@, out@[i].0@);
                }
            } else if i == pos {
                assert(out@[j] == prev[j - 1]);
                assert(lex_lt(key@, out@[j].0@));
                if lex_lt(out@[j].0@, key@) {
                    lemma_lex_trans(key@, out@[j].0@, key@);
                    crate::plugin_manager::lemma_lex_irreflexive(key@);
                }
            } else if j < pos {
            } else {
                assert(out@[i] == prev[i - 1]);
                assert(out@[j] == prev[j - 1]);
            }
        }
    }
    pos
}

impl PluginRegistry {
    /// The manifest for a slash-command, matched case-insensitively.
    pub fn resolve(&self, command: &str) -> (r: Option<&PluginManifest>)
        requires
            self.wf(),
        ensures
            match r {
                Some(m) => self.for_command(lowercase(command@)) == Some(*m),
                None => self.for_command(lowercase(command@)) is None,
            },
    {
        let key = to_lowercase(command);
        let kc = chars_of(key.as_str());
        match assoc_find(&self.entries, &kc) {
            Some(i) => {
                proof {
                    lemma_assoc_first(self.entries@, i as int, key@);
                }
                Some(&self.plugins[self.entries[i].1])
            },
            None => {
                proof {
                    lemma_assoc_absent(self.entries@, key@);
                }
                None
            },
        }
    }

    /// The manifest of the plugin called `name`.
    pub fn resolve_by_name(&self, name: &str) -> (r: Option<&PluginManifest>)
        requires
            self.wf(),
        ensures
            match r {
                Some(m) => self.for_name(name@) == Some(*m),
                None => self.for_name(name@) is None,
            },
    {
        let kc = chars_of(name);
        match assoc_find(&self.by_name, &kc) {
            Some(i) => {
                proof {
                    lemma_assoc_first(self.by_name@, i as int, name@);
                }
                Some(&self.plugins[self.by_name[i].1])
            },
            None => {
                proof {
                    lemma_assoc_absent(self.by_name@, name@);
                }
                None
            },
        }
    }

    /// The plugin directory.
    pub fn plugin_dir(&self) -> (r: &str)
        ensures
            r@ == self.dir(),
    {
        self.plugin_dir.as_str()
    }

    /// Every registered command with its plugin's description, sorted by
    /// command.
    #[verifier::rlimit(40)]
    pub fn commands(&self) -> (r: Vec<(String, String)>)
        requires
            self.wf(),
        ensures
            r@.len() == self.command_keys().len(),
            forall|i: int|
                #![trigger r@[i]]
                0 <= i < r@.len() ==> self.command_keys().contains(r@[i].0@) && (self.for_command(
                    r@[i].0@,
                ) matches Some(m) && r@[i].1@ == m.description@),
            forall|c: Seq<char>|
                self.command_keys().contains(c) ==> exists|i: int|
                    0 <= i < r@.len() && (#[trigger] r@[i]).0@ == c,
            sorted_by_command(r@),
    {
        let mut out: Vec<(String, String)> = Vec::new();
        let mut k: usize = 0;
        while k < self.entries.len()
            invariant
                self.wf(),
                k <= self.entries@.len(),
                out@.len() == k,
                sorted_by_command(out@),
                forall|i: int|
                    #![trigger out@[i]]
                    0 <= i < out@.len() ==> exists|q: int|
                        0 <= q < k && (#[trigger] self.entries@[q]).0@ == out@[i].0@ && out@[i].1@
                            == self.plugins@[self.entries@[q].1 as int].description@,
                forall|q: int|
                    0 <= q < k ==> exists|i: int|
                        0 <= i < out@.len() && (#[trigger] out@[i]).0@ == (
                        #[trigger] self.entries@[q]).0@,
            decreases self.entries@.len() - k,
        {
            let idx: usize = self.entries[k].1;
            let entry = (
                clone_string(&self.entries[k].0),
                clone_string(&self.plugins[idx].description),
            );
            proof {
                assert forall|i: int| 0 <= i < out@.len() implies (#[trigger] out@[i]).0@ != entry.0@ by {
                    let q = choose|q: int|
                        0 <= q < k && (#[trigger] self.entries@[q]).0@ == out@[i].0@ && out@[i].1@
                            == self.plugins@[self.entries@[q].1 as int].description@;
                    assert(self.entries@[q].0@ != self.entries@[k as int].0@);
                }
            }
            let ghost prev = out@;
            let ghost e = entry;
            let pos = insert_sorted(&mut out, entry);
            proof {
                assert forall|i: int|
                    #![trigger out@[i]]
                    0 <= i < out@.len() implies exists|q: int|
                        0 <= q < k + 1 && (#[trigger] self.entries@[q]).0@ == out@[i].0@ && out@[i].1@
                            == self.plugins@[self.entries@[q].1 as int].description@ by {
                    if i == pos {
                        assert(out@[i] == e);
                        assert(self.entries@[k as int].0@ == out@[i].0@);
                    } else if i < pos {
                        assert(out@[i] == prev[i]);
                    } else {
                        assert(out@[i] == prev[i - 1]);
                    }
                }
                assert forall|q: int|
                    0 <= q < k + 1 implies exists|i: int|
                        0 <= i < out@.len() && (#[trigger] out@[i]).0@ == (
                        #[trigger] self.entries@[q]).0@ by {
                    if q == k {
                        assert(out@[pos as int] == e);
                    } else {
                        let i = choose|i: int|
                            0 <= i < prev.len() && (#[trigger] prev[i]).0@ == self.entries@[q].0@;
                        if i < pos {
                            assert(out@[i] == prev[i]);
                        } else {
                            assert(out@[i + 1] == prev[i]);
                        }
                    }
                }
            }
            k = k + 1;
        }
        proof {
            assert forall|i: int|
                #![trigger out@[i]]
                0 <= i < out@.len() implies self.command_keys().contains(out@[i].0@) && (
                self.for_command(out@[i].0@) matches Some(m) && out@[i].1@ == m.description@) by {
                let q = choose|q: int|
                    0 <= q < k && (#[trigger] self.entries@[q]).0@ == out@[i].0@ && out@[i].1@
                        == self.plugins@[self.entries@[q].1 as int].description@;
                lemma_assoc_at(self.entries@, q);
                assert(self.command_keys()[q] == out@[i].0@);
            }
            assert forall|c: Seq<char>|
                self.command_keys().contains(c) implies exists|i: int|
                    0 <= i < out@.len() && (#[trigger] out@[i]).0@ == c by {
                let q = choose|q: int|
                    0 <= q < self.command_keys().len() && self.command_keys()[q] == c;
                assert(self.entries@[q].0@ == c);
            }
        }
        out
    }

    /// `tools` holds the tool definition of each registered plugin once,
    /// ordered by tool name.
    pub open spec fn tools_listed(&self, tools: Seq<Json>) -> bool {
        &&& tools.len() == self.names().len()
        &&& exists|order: Seq<int>|
            #![trigger order.len()]
            {
                &&& order.len() == tools.len()
                &&& forall|i: int|
                    0 <= i < tools.len() ==> 0 <= #[trigger] order[i] < self.names().len() && (
                    self.for_name(self.names()[order[i]]) matches Some(m)
                        && tools[i].text@ == tool_definition_text(m))
                &&& forall|i: int, j: int|
                    0 <= i < j < tools.len() ==> order[i] != order[j]
                &&& forall|i: int, j: int|
                    0 <= i < j < tools.len() ==> !lex_lt(
                        tool_name(self.names()[order[j]]),
                        tool_name(self.names()[order[i]]),
                    )
            }
    }

    /// Every plugin's tool definition, ordered by tool name.
    pub fn as_tools(&self) -> (r: Vec<Json>)
        requires
            self.wf(),
        ensures
            self.tools_listed(r@),
    {
        let mut keyed: Vec<(String, usize)> = Vec::new();
        let ghost mut order: Seq<int> = Seq::empty();
        let mut k: usize = 0;
        while k < self.by_name.len()
            invariant
                self.wf(),
                k <= self.by_name@.len(),
                keyed@.len() == k,
                order.len() == k,
                forall|i: int|
                    0 <= i < k ==> 0 <= #[trigger] order[i] < k && keyed@[i].1 == order[i] && keyed@[i].0@
                        == tool_name(self.by_name@[order[i]].0@),
                forall|i: int, j: int| 0 <= i < j < k ==> order[i] != order[j],
                forall|i: int, j: int|
                    0 <= i < j < keyed@.len() ==> !lex_lt(keyed@[j].0@, keyed@[i].0@),
            decreases self.by_name@.len() - k,
        {
            let t = to_tool_name(self.by_name[k].0.as_str());
            let ghost prev = keyed@;
            let ghost prev_order = order;
            let pos = insert_after_equal(&mut keyed, (t, k));
            proof {
                order = prev_order.insert(pos as int, k as int);
                assert forall|i: int|
                    0 <= i < k + 1 implies 0 <= #[trigger] order[i] < k + 1 && keyed@[i].1 == order[i]
                        && keyed@[i].0@ == tool_name(self.by_name@[order[i]].0@) by {
                    if i < pos {
                        assert(keyed@[i] == prev[i]);
                    } else if i > pos {
                        assert(keyed@[i] == prev[i - 1]);
                    }
                }
                assert forall|i: int, j: int| 0 <= i < j < k + 1 implies order[i] != order[j] by {
                    if i < pos && j > pos {
                        assert(order[j] == prev_order[j - 1]);
                    } else if i > pos {
                        assert(order[i] == prev_order[i - 1]);
                        assert(order[j] == prev_order[j - 1]);
                    }
                }
            }
            k = k + 1;
        }
        let mut out: Vec<Json> = Vec::new();
        let mut i: usize = 0;
        while i < keyed.len()
            invariant
                self.wf(),
                i <= keyed@.len(),
                keyed@.len() == self.by_name@.len(),
                out@.len() == i,
                forall|q: int|
                    0 <= q < keyed@.len() ==> 0 <= #[trigger] order[q] < keyed@.len() && keyed@[q].1
                        == order[q],
                forall|q: int|
                    0 <= q < i ==> (#[trigger] out@[q]).text@ == tool_definition_text(
                        self.plugins@[self.by_name@[order[q]].1 as int],
                    ),
            decreases keyed@.len() - i,
        {
            let b: usize = keyed[i].1;
            assert(0 <= order[i as int] < keyed@.len() && keyed@[i as int].1 == order[i as int]);
            assert(self.by_name@[b as int].1 < self.plugins@.len());
            let def = self.plugins[self.by_name[b].1].as_tool_definition();
            out.push(def);
            i = i + 1;
        }
        proof {
            assert forall|q: int|
                0 <= q < out@.len() implies 0 <= #[trigger] order[q] < self.names().len() && (
                self.for_name(self.names()[order[q]]) matches Some(m) && out@[q].text@
                    == tool_definition_text(m)) by {
                lemma_assoc_at(self.by_name@, order[q]);
                assert(self.names()[order[q]] == self.by_name@[order[q]].0@);
            }
            assert forall|a: int, b: int| 0 <= a < b < out@.len() implies !lex_lt(
                tool_name(self.names()[order[b]]),
                tool_name(self.names()[order[a]]),
            ) by {
                assert(self.names()[order[a]] == self.by_name@[order[a]].0@);
                assert(self.names()[order[b]] == self.by_name@[order[b]].0@);
            }
            assert(order.len() == out@.len());
        }
        out
    }
}

// ─── Running a plugin ────────────────────────────────────────────────────────

/// `Path::new(dir).join(name)`, as text.
pub uninterp spec fn joined_path(dir: Seq<char>, name: Seq<char>) -> Seq<char>;

/// Calls `Path::join`; the path depends on the two parts alone. As its
/// documentation shows: an absolute `name` replaces `dir`, and a relative
/// one is added to a non-empty `dir` without a trailing `/` after one `/`.
/// What an empty `dir` or one ending in `/` gives is left to the name.
#[verifier::external_body]
fn join_path(dir: &str, name: &str) -> (r: String)
    ensures
        r@ == joined_path(dir@, name@),
        name@.len() > 0 && name@[0] == '/' ==> r@ == name@,
        !(name@.len() > 0 && name@[0] == '/') && dir@.len() > 0 && dir@.last() != '/' ==> r@
            == dir@ + "/"@ + name@,
{
    std::path::Path::new(dir).join(name).to_string_lossy().into_owned()
}

/// `Path::new(path).with_extension("sig")`, as text.
pub uninterp spec fn path_with_sig_extension(path: Seq<char>) -> Seq<char>;

/// Calls `Path::with_extension` with the extension `sig` (no path
/// separator in it); the path depends on `path` alone.
#[verifier::external_body]
fn with_sig_extension(path: &str) -> (r: String)
    ensures
        r@ == path_with_sig_extension(path@),
{
    std::path::Path::new(path).with_extension("sig").to_string_lossy().into_owned()
}

/// A file of the plugin directory is loaded as a manifest when it is a
/// `.json` file, its binary exists and, where permissions are known
/// (`mode`), some execute bit is set.
pub open spec fn admitted(extension: Option<Seq<char>>, binary_exists: bool, mode: Option<u32>) -> bool {
    &&& extension == Some("json"@)
    &&& binary_exists
    &&& match mode {
        Some(m) => m & 0o111u32 != 0,
        None => true,
    }
}

/// Whether a manifest file is loaded; `extension` is the file's extension.
pub fn admits_plugin(extension: Option<&str>, binary_exists: bool, mode: Option<u32>) -> (r: bool)
    ensures
        r == admitted(
            match extension {
                Some(e) => Some(e@),
                None => None,
            },
            binary_exists,
            mode,
        ),
{
    let json = match extension {
        Some(e) => crate::json::chars_eq(&chars_of(e), &chars_of("json")),
        None => false,
    };
    let exec = match mode {
        Some(m) => m & 0o111u32 != 0,
        None => true,
    };
    json && binary_exists && exec
}

/// Runs plugin binaries from one directory.
pub struct PluginRunner {
    plugin_dir: String,
}

impl PluginRunner {
    pub closed spec fn dir(&self) -> Seq<char> {
        self.plugin_dir@
    }

    pub fn new(plugin_dir: &str) -> (r: Self)
        ensures
            r.dir() == plugin_dir@,
    {
        PluginRunner { plugin_dir: string_of(&chars_of(plugin_dir)) }
    }

    /// Where the plugin's binary lives.
    pub fn binary_path(&self, manifest: &PluginManifest) -> (r: String)
        ensures
            r@ == joined_path(self.dir(), manifest.name@),
            !(manifest.name@.len() > 0 && manifest.name@[0] == '/') && self.dir().len() > 0
                && self.dir().last() != '/' ==> r@ == self.dir() + "/"@ + manifest.name@,
    {
        join_path(self.plugin_dir.as_str(), manifest.name.as_str())
    }

    /// Where the signature of a binary lives (`.sig` beside it).
    pub fn signature_path(binary: &str) -> (r: String)
        ensures
            r@ == path_with_sig_extension(binary@),
    {
        with_sig_extension(binary)
    }

    /// The checks before a start: the binary must exist and every plugin
    /// must have its signature file. `Ok` means the signature is to be
    /// verified next; a plugin is never started without that.
    pub fn preflight(
        name: &str,
        binary: &str,
        binary_exists: bool,
        sig_path: &str,
        sig_exists: bool,
    ) -> (r: Result<(), AppError>)
        ensures
            match r {
                Ok(()) => binary_exists && sig_exists,
                Err(AppError::PluginError(m)) => !binary_exists && m@ == "Plugin binary not found: "@
                    + binary@,
                Err(AppError::SecurityError(m)) => binary_exists && !sig_exists && m@ == "Plugin '"@
                    + name@ + "' requires a signature but '"@ + sig_path@ + "' is missing"@,
                Err(_) => false,
            },
    {
        if !binary_exists {
            let mut out: Vec<char> = Vec::new();
            push_str(&mut out, "Plugin binary not found: ");
            push_str(&mut out, binary);
            return Err(AppError::PluginError(string_of(&out)));
        }
        if !sig_exists {
            let mut out: Vec<char> = Vec::new();
            push_str(&mut out, "Plugin '");
            push_str(&mut out, name);
            push_str(&mut out, "' requires a signature but '");
            push_str(&mut out, sig_path);
            push_str(&mut out, "' is missing");
            return Err(AppError::SecurityError(string_of(&out)));
        }
        Ok(())
    }
}

/// `PluginError("Failed to spawn '<name>': <cause>")`.
pub fn spawn_failed(name: &str, cause: &str) -> (r: AppError)
    ensures
        r matches AppError::PluginError(m) && m@ == "Failed to spawn '"@ + name@ + "': "@ + cause@,
{
    let mut out: Vec<char> = Vec::new();
    push_str(&mut out, "Failed to spawn '");
    push_str(&mut out, name);
    push_str(&mut out, "': ");
    push_str(&mut out, cause);
    AppError::PluginError(string_of(&out))
}

/// `PluginError("STDIN write error: <cause>")`.
pub fn stdin_failed(cause: &str) -> (r: AppError)
    ensures
        r matches AppError::PluginError(m) && m@ == "STDIN write error: "@ + cause@,
{
    let mut out: Vec<char> = Vec::new();
    push_str(&mut out, "STDIN write error: ");
    push_str(&mut out, cause);
    AppError::PluginError(string_of(&out))
}

/// `PluginError("wait_with_output error: <cause>")`.
pub fn wait_failed(cause: &str) -> (r: AppError)
    ensures
        r matches AppError::PluginError(m) && m@ == "wait_with_output error: "@ + cause@,
{
    let mut out: Vec<char> = Vec::new();
    push_str(&mut out, "wait_with_output error: ");
    push_str(&mut out, cause);
    AppError::PluginError(string_of(&out))
}

/// `PluginError("Plugin '<name>' timed out after 10s")`.
pub fn timed_out(name: &str) -> (r: AppError)
    ensures
        r matches AppError::PluginError(m) && m@ == "Plugin '"@ + name@ + "' timed out after "@
            + dec(PLUGIN_TIMEOUT_SECS as nat) + "s"@,
{
    let mut out: Vec<char> = Vec::new();
    push_str(&mut out, "Plugin '");
    push_str(&mut out, name);
    push_str(&mut out, "' timed out after ");
    push_decimal(&mut out, PLUGIN_TIMEOUT_SECS);
    push_str(&mut out, "s");
    AppError::PluginError(string_of(&out))
}

/// Most characters of a bad reply quoted in the error.
pub const RAW_QUOTE_CHARS: usize = 200;

/// `PluginError("Plugin '<name>' returned invalid JSON: <cause> | raw: <first 200 chars>")`.
pub fn invalid_json(name: &str, cause: &str, stdout: &str) -> (r: AppError)
    ensures
        r matches AppError::PluginError(m) && m@ == "Plugin '"@ + name@ + "' returned invalid JSON: "@
            + cause@ + " | raw: "@ + stdout@.take(
            if stdout@.len() < RAW_QUOTE_CHARS {
                stdout@.len() as int
            } else {
                RAW_QUOTE_CHARS as int
            },
        ),
{
    let v = chars_of(stdout);
    let n: usize = if v.len() < RAW_QUOTE_CHARS {
        v.len()
    } else {
        RAW_QUOTE_CHARS
    };
    let head = crate::text::slice_chars(&v, 0, n);
    let mut out: Vec<char> = Vec::new();
    push_str(&mut out, "Plugin '");
    push_str(&mut out, name);
    push_str(&mut out, "' returned invalid JSON: ");
    push_str(&mut out, cause);
    push_str(&mut out, " | raw: ");
    push_chars(&mut out, &head);
    assert(head@ =~= stdout@.take(n as int));
    AppError::PluginError(string_of(&out))
}

} // verus!
