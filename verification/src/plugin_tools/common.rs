//! What every plugin program shares: reading `payload.args` and the reply
//! to a request that is not valid JSON.
use vstd::prelude::*;
use crate::json::{
    array_value, as_str, get, get_str, idx, json_quote, json_quoted, object_value, string_value, Json,
    JsonKind,
};
use crate::plugin_manager::clone_string;
use crate::summary::join;
use crate::text::{push_str, string_of, trim, trim_chars};

verus! {

/// `payload["args"]` as a string, trimmed; empty when absent.
pub open spec fn args_text(payload: Json) -> Seq<char> {
    match as_str(idx(Some(payload), "args"@)) {
        Some(a) => trim(a),
        None => Seq::empty(),
    }
}

pub fn payload_args(payload: &Json) -> (r: String)
    ensures
        r@ == args_text(*payload),
{
    match get_str(get(payload, "args")) {
        Some(a) => string_of(&trim_chars(&a)),
        None => String::new(),
    }
}

/// The argument a plugin reads: `payload["args"]` when it is a non-empty
/// string, else the field `legacy` (the older, per-plugin name) when that
/// is a string.
pub open spec fn arg_or(payload: Json, legacy: Seq<char>) -> Option<Seq<char>> {
    match as_str(idx(Some(payload), "args"@)) {
        Some(a) => if a.len() > 0 {
            Some(a)
        } else {
            as_str(idx(Some(payload), legacy))
        },
        None => as_str(idx(Some(payload), legacy)),
    }
}

pub fn payload_arg(payload: &Json, legacy: &str) -> (r: Option<String>)
    ensures
        match r {
            Some(a) => arg_or(*payload, legacy@) == Some(a@),
            None => arg_or(*payload, legacy@) is None,
        },
{
    match get_str(get(payload, "args")) {
        Some(a) => {
            if a.len() > 0 {
                return Some(string_of(&a));
            }
        },
        None => {},
    }
    match get_str(get(payload, legacy)) {
        Some(e) => Some(string_of(&e)),
        None => None,
    }
}

/// The error of a request that does not parse.
pub fn invalid_request(cause: &str) -> (r: String)
    ensures
        r@ == "Invalid request JSON: "@ + cause@,
{
    let mut out: Vec<char> = Vec::new();
    push_str(&mut out, "Invalid request JSON: ");
    push_str(&mut out, cause);
    string_of(&out)
}

/// `Unknown action '<action>'. Supported: <list>`.
pub fn unknown_action(action: &str, supported: &str) -> (r: String)
    ensures
        r@ == "Unknown action '"@ + action@ + "'. Supported: "@ + supported@,
{
    let mut out: Vec<char> = Vec::new();
    push_str(&mut out, "Unknown action '");
    push_str(&mut out, action);
    push_str(&mut out, "'. Supported: ");
    push_str(&mut out, supported);
    string_of(&out)
}

/// The text a plugin prints: `{"success":..,"result":..,"error":..}`.
pub open spec fn response_text(success: bool, result: Seq<char>, error: Option<Seq<char>>) -> Seq<char> {
    "{\"success\":"@ + (if success {
        "true"@
    } else {
        "false"@
    }) + ",\"result\":"@ + result + ",\"error\":"@ + match error {
        Some(e) => json_quoted(e),
        None => "null"@,
    } + "}"@
}

pub fn response_json(success: bool, result: &Json, error: Option<&str>) -> (r: String)
    ensures
        r@ == response_text(success, result.text@, match error {
            Some(e) => Some(e@),
            None => None,
        }),
{
    let mut out: Vec<char> = Vec::new();
    push_str(&mut out, "{\"success\":");
    if success {
        push_str(&mut out, "true");
    } else {
        push_str(&mut out, "false");
    }
    push_str(&mut out, ",\"result\":");
    push_str(&mut out, result.text.as_str());
    push_str(&mut out, ",\"error\":");
    match error {
        Some(e) => push_str(&mut out, json_quote(e).as_str()),
        None => push_str(&mut out, "null"),
    }
    push_str(&mut out, "}");
    string_of(&out)
}

/// The text of an object whose values are all strings.
pub open spec fn str_object_text(kvs: Seq<(Seq<char>, Seq<char>)>) -> Seq<char> {
    "{"@ + join(
        Seq::new(kvs.len(), |i: int| json_quoted(kvs[i].0) + ":"@ + json_quoted(kvs[i].1)),
        ","@,
    ) + "}"@
}

/// `j` is the object whose values are the strings of `kvs`, keys in the
/// order given: its nodes and its text.
pub open spec fn is_str_object(j: Json, kvs: Seq<(Seq<char>, Seq<char>)>) -> bool {
    &&& j.text@ == str_object_text(kvs)
    &&& j.kind matches JsonKind::Object(es) && es@.len() == kvs.len() && forall|i: int|
        0 <= i < es@.len() ==> (#[trigger] es@[i]).0@ == kvs[i].0 && (es@[i].1.kind matches JsonKind::Str(v)
            && v@ == kvs[i].1) && es@[i].1.text@ == json_quoted(kvs[i].1)
}

/// An object of string values, keys in the order given.
pub fn str_object(kvs: Vec<(String, String)>) -> (r: Json)
    ensures
        is_str_object(r, kvs@.map_values(|p: (String, String)| (p.0@, p.1@))),
{
    let ghost pairs = kvs@.map_values(|p: (String, String)| (p.0@, p.1@));
    let mut entries: Vec<(String, Json)> = Vec::new();
    let mut kvs = kvs;
    let ghost orig = kvs@;
    let mut rev: Vec<(String, String)> = Vec::new();
    while kvs.len() > 0
        invariant
            orig.len() == kvs@.len() + rev@.len(),
            forall|i: int| 0 <= i < kvs@.len() ==> kvs@[i] == orig[i],
            forall|i: int| 0 <= i < rev@.len() ==> rev@[i] == orig[orig.len() - 1 - i],
        decreases kvs@.len(),
    {
        let p = kvs.pop().unwrap();
        rev.push(p);
    }
    while rev.len() > 0
        invariant
            orig.len() == entries@.len() + rev@.len(),
            forall|i: int| 0 <= i < rev@.len() ==> rev@[i] == orig[orig.len() - 1 - i],
            forall|i: int|
                0 <= i < entries@.len() ==> (#[trigger] entries@[i]).0@ == orig[i].0@ && (entries@[i].1.kind matches JsonKind::Str(v)
                    && v@ == orig[i].1@) && entries@[i].1.text@ == json_quoted(orig[i].1@),
        decreases rev@.len(),
    {
        let (k, v) = rev.pop().unwrap();
        entries.push((k, string_value(v)));
    }
    let r = object_value(entries);
    proof {
        let es = r.kind->Object_0@;
        assert(crate::json::entry_texts(es) =~= Seq::new(
            pairs.len(),
            |i: int| json_quoted(pairs[i].0) + ":"@ + json_quoted(pairs[i].1),
        ));
    }
    r
}

/// The text of an object from its keys and its values' JSON texts.
pub open spec fn raw_object_text(kvs: Seq<(Seq<char>, Seq<char>)>) -> Seq<char> {
    "{"@ + join(Seq::new(kvs.len(), |i: int| json_quoted(kvs[i].0) + ":"@ + kvs[i].1), ","@) + "}"@
}

/// The keys and value texts of object entries.
pub open spec fn entry_pairs(es: Seq<(String, Json)>) -> Seq<(Seq<char>, Seq<char>)> {
    es.map_values(|e: (String, Json)| (e.0@, e.1.text@))
}

/// An object of these entries, its text given by keys and value texts.
pub fn object_of(entries: Vec<(String, Json)>) -> (r: Json)
    ensures
        r.kind == JsonKind::Object(entries),
        r.text@ == raw_object_text(entry_pairs(entries@)),
{
    let ghost es = entries@;
    let r = object_value(entries);
    assert(crate::json::entry_texts(es) =~= Seq::new(
        entry_pairs(es).len(),
        |i: int| json_quoted(entry_pairs(es)[i].0) + ":"@ + entry_pairs(es)[i].1,
    ));
    r
}

/// The text of an array of strings.
pub open spec fn str_array_text(items: Seq<Seq<char>>) -> Seq<char> {
    "["@ + join(Seq::new(items.len(), |i: int| json_quoted(items[i])), ","@) + "]"@
}

/// An array of these strings, in order.
pub fn str_array(items: &Vec<String>) -> (r: Json)
    ensures
        r.text@ == str_array_text(items@.map_values(|s: String| s@)),
{
    let mut js: Vec<Json> = Vec::new();
    let mut i: usize = 0;
    while i < items.len()
        invariant
            i <= items@.len(),
            js@.len() == i,
            forall|k: int| 0 <= k < i ==> (#[trigger] js@[k]).text@ == json_quoted(items@[k]@),
        decreases items@.len() - i,
    {
        js.push(string_value(clone_string(&items[i])));
        i = i + 1;
    }
    let ghost jv = js@;
    let r = array_value(js);
    assert(Seq::new(jv.len(), |k: int| jv[k].text@) =~= Seq::new(
        items@.map_values(|s: String| s@).len(),
        |k: int| json_quoted(items@.map_values(|s: String| s@)[k]),
    ));
    r
}

} // verus!
