//! The web-search plugin: query encoding, the result list built from a
//! DuckDuckGo instant answer, and the synthesis of the top results.
use vstd::prelude::*;
use crate::json::{uint_value, 
    as_array, as_str, at, get, get_array, get_str, get_str_or, idx, object_value,
    str_or, string_value, Json, JsonKind,
};
use crate::plugin_manager::{lit, str_is};
use crate::plugin_tools::common::{entry_pairs, object_of, raw_object_text, is_str_object, str_object, str_object_text};
use crate::json::{array_text, array_value as array_of, clone_json, int_value, null_value, same_json};
use crate::summary::{join, join_push, pfx, prefix_bytes};
use crate::text::{chars_of, dec, push_chars, push_decimal, push_str, string_of};

verus! {

/// Uppercase hexadecimal digit.
pub open spec fn hex_upper(d: nat) -> char {
    if d < 10 {
        (('0' as u32) + d) as char
    } else {
        (('A' as u32) + d - 10) as char
    }
}

/// How one character is written in a query: letters, digits and `-_.~`
/// as they are, space as `+`, anything else as `%XX` of its low byte.
pub open spec fn pct_piece(c: char) -> Seq<char> {
    if ('a' <= c <= 'z') || ('A' <= c <= 'Z') || ('0' <= c <= '9') || c == '-' || c == '_' || c
        == '.' || c == '~' {
        seq![c]
    } else if c == ' ' {
        seq!['+']
    } else {
        let b = (c as u32) % 256;
        seq!['%', hex_upper((b / 16) as nat), hex_upper((b % 16) as nat)]
    }
}

pub open spec fn pct_encoded(s: Seq<char>) -> Seq<char>
    decreases s.len(),
{
    if s.len() == 0 {
        Seq::empty()
    } else {
        pct_encoded(s.drop_last()) + pct_piece(s.last())
    }
}

fn hex_upper_exec(d: u32) -> (c: char)
    requires
        d < 16,
    ensures
        c == hex_upper(d as nat),
{
    if d < 10 {
        (('0' as u8) + (d as u8)) as char
    } else {
        (('A' as u8) + (d as u8) - 10) as char
    }
}

pub fn url_encode(s: &str) -> (r: String)
    ensures
        r@ == pct_encoded(s@),
{
    let v = chars_of(s);
    let mut out: Vec<char> = Vec::new();
    let mut i: usize = 0;
    while i < v.len()
        invariant
            i <= v@.len(),
            out@ == pct_encoded(v@.take(i as int)),
        decreases v@.len() - i,
    {
        let c = v[i];
        let ghost before = out@;
        assert(v@.take(i + 1).drop_last() =~= v@.take(i as int));
        if ('a' <= c && c <= 'z') || ('A' <= c && c <= 'Z') || ('0' <= c && c <= '9') || c == '-'
            || c == '_' || c == '.' || c == '~' {
            out.push(c);
        } else if c == ' ' {
            out.push('+');
        } else {
            let b: u32 = (c as u32) % 256;
            out.push('%');
            out.push(hex_upper_exec(b / 16));
            out.push(hex_upper_exec(b % 16));
        }
        assert(out@ =~= before + pct_piece(c));
        i = i + 1;
    }
    assert(v@.take(v@.len() as int) =~= v@);
    string_of(&out)
}

/// The instant-answer query for an encoded search.
pub fn search_url(encoded: &str) -> (r: String)
    ensures
        r@ == "https://api.duckduckgo.com/?q="@ + encoded@
            + "&format=json&no_html=1&skip_disambig=1"@,
{
    let mut out: Vec<char> = Vec::new();
    push_str(&mut out, "https://api.duckduckgo.com/?q=");
    push_str(&mut out, encoded);
    push_str(&mut out, "&format=json&no_html=1&skip_disambig=1");
    string_of(&out)
}

pub open spec fn fallback_url_text(encoded: Seq<char>) -> Seq<char> {
    "https://duckduckgo.com/?q="@ + encoded
}

fn fallback_url(encoded: &str) -> (r: String)
    ensures
        r@ == fallback_url_text(encoded@),
{
    let mut out: Vec<char> = Vec::new();
    push_str(&mut out, "https://duckduckgo.com/?q=");
    push_str(&mut out, encoded);
    string_of(&out)
}

// ─── The result list ─────────────────────────────────────────────────────────

pub type Pairs = Seq<(Seq<char>, Seq<char>)>;

/// A related topic as a result: `None` where cutting its text would split a
/// character, `Some(None)` when it has no text.
pub open spec fn related_item(t: Json) -> Option<Option<Pairs>> {
    let tt = Some(t);
    let text = str_or(idx(tt, "Text"@), ""@);
    let url = str_or(idx(tt, "FirstURL"@), ""@);
    if text.len() == 0 {
        Some(None)
    } else {
        match (pfx(text, 200), pfx(text, 80)) {
            (Some(snippet), Some(title)) => Some(
                Some(
                    seq![("snippet"@, snippet), ("title"@, title), ("type"@, "related"@), ("url"@, url)],
                ),
            ),
            _ => None,
        }
    }
}

/// Results from related topics, in order.
pub open spec fn related_items(ts: Seq<Json>) -> Option<Seq<Pairs>>
    decreases ts.len(),
{
    if ts.len() == 0 {
        Some(Seq::empty())
    } else {
        match (related_items(ts.drop_last()), related_item(ts.last())) {
            (Some(xs), Some(Some(p))) => Some(xs.push(p)),
            (Some(xs), Some(None)) => Some(xs),
            _ => None,
        }
    }
}

pub open spec fn answer_items(body: Json) -> Seq<Pairs> {
    match as_str(idx(Some(body), "Answer"@)) {
        Some(a) => if a.len() > 0 {
            seq![
                seq![("snippet"@, a), ("title"@, "Direct Answer"@), ("type"@, "answer_box"@), ("url"@, ""@)],
            ]
        } else {
            Seq::empty()
        },
        None => Seq::empty(),
    }
}

pub open spec fn abstract_items(body: Json) -> Seq<Pairs> {
    let b = Some(body);
    match as_str(idx(b, "Abstract"@)) {
        Some(a) => if a.len() > 0 {
            seq![
                seq![
                    ("snippet"@, a),
                    ("source"@, str_or(idx(b, "AbstractSource"@), ""@)),
                    ("title"@, str_or(idx(b, "Heading"@), "Summary"@)),
                    ("type"@, "abstract"@),
                    ("url"@, str_or(idx(b, "AbstractURL"@), ""@)),
                ],
            ]
        } else {
            Seq::empty()
        },
        None => Seq::empty(),
    }
}

pub open spec fn no_results_item(encoded: Seq<char>) -> Pairs {
    seq![
        ("snippet"@, "Try a more specific query."@),
        ("title"@, "No instant results"@),
        ("type"@, "no_results"@),
        ("url"@, fallback_url_text(encoded)),
    ]
}

/// The results of an instant answer: the direct answer, the abstract, up to
/// five related topics, or a pointer to the search page when there is
/// nothing. `None` where cutting a topic's text would split a character.
pub open spec fn ddg_items(body: Json, encoded: Seq<char>) -> Option<Seq<Pairs>> {
    let topics = match as_array(idx(Some(body), "RelatedTopics"@)) {
        Some(a) => a.take(if a.len() < 5 {
            a.len() as int
        } else {
            5
        }),
        None => Seq::empty(),
    };
    match related_items(topics) {
        Some(rel) => {
            let all = answer_items(body) + abstract_items(body) + rel;
            if all.len() == 0 {
                Some(seq![no_results_item(encoded)])
            } else {
                Some(all)
            }
        },
        None => None,
    }
}

proof fn lemma_related_none(ts: Seq<Json>, j: int)
    requires
        0 <= j <= ts.len(),
        related_items(ts.take(j)) is None,
    ensures
        related_items(ts) is None,
    decreases ts.len() - j,
{
    if j < ts.len() {
        assert(ts.take(j + 1).drop_last() =~= ts.take(j));
        lemma_related_none(ts, j + 1);
    } else {
        assert(ts.take(j) =~= ts);
    }
}

fn push_item(out: &mut Vec<Json>, kvs: Vec<(String, String)>, Ghost(items): Ghost<Seq<Pairs>>)
    requires
        old(out)@.len() == items.len(),
        forall|i: int| 0 <= i < items.len() ==> is_str_object(#[trigger] old(out)@[i], items[i]),
    ensures
        final(out)@.len() == items.len() + 1,
        forall|i: int|
            0 <= i < items.len() + 1 ==> is_str_object(
                #[trigger] final(out)@[i],
                items.push(kvs@.map_values(|p: (String, String)| (p.0@, p.1@)))[i],
            ),
{
    let ghost p = kvs@.map_values(|p: (String, String)| (p.0@, p.1@));
    let j = str_object(kvs);
    out.push(j);
    assert forall|i: int| 0 <= i < items.len() + 1 implies is_str_object(
        #[trigger] out@[i],
        items.push(p)[i],
    ) by {
        if i < items.len() {
            assert(items.push(p)[i] == items[i]);
        }
    }
}

/// The results of an instant answer (see `ddg_items`).
pub fn ddg_results(body: &Json, encoded: &str) -> (r: Option<Vec<Json>>)
    ensures
        match r {
            Some(v) => ddg_items(*body, encoded@) matches Some(items) && v@.len() == items.len()
                && forall|i: int| 0 <= i < v@.len() ==> is_str_object(#[trigger] v@[i], items[i]),
            None => ddg_items(*body, encoded@) is None,
        },
{
    let b = Some(body);
    let mut out: Vec<Json> = Vec::new();
    let ghost mut items: Seq<Pairs> = Seq::empty();
    match get_str(get(body, "Answer")) {
        Some(a) => {
            if a.len() > 0 {
                let mut kvs: Vec<(String, String)> = Vec::new();
                kvs.push((lit("snippet"), string_of(&a)));
                kvs.push((lit("title"), lit("Direct Answer")));
                kvs.push((lit("type"), lit("answer_box")));
                kvs.push((lit("url"), lit("")));
                let ghost p = kvs@.map_values(|p: (String, String)| (p.0@, p.1@));
                push_item(&mut out, kvs, Ghost(items));
                proof {
                    items = items.push(p);
                }
            }
        },
        None => {},
    }
    assert(items =~= answer_items(*body)) by {
        if items.len() == 1 {
            assert(items[0] =~= answer_items(*body)[0]);
        }
    }
    let ghost after_answer = items;
    match get_str(get(body, "Abstract")) {
        Some(a) => {
            if a.len() > 0 {
                let mut kvs: Vec<(String, String)> = Vec::new();
                kvs.push((lit("snippet"), string_of(&a)));
                kvs.push((lit("source"), string_of(&get_str_or(get(body, "AbstractSource"), ""))));
                kvs.push((lit("title"), string_of(&get_str_or(get(body, "Heading"), "Summary"))));
                kvs.push((lit("type"), lit("abstract")));
                kvs.push((lit("url"), string_of(&get_str_or(get(body, "AbstractURL"), ""))));
                let ghost p = kvs@.map_values(|p: (String, String)| (p.0@, p.1@));
                push_item(&mut out, kvs, Ghost(items));
                proof {
                    assert(p =~= abstract_items(*body)[0]);
                    items = items.push(p);
                }
            }
        },
        None => {},
    }
    assert(items =~= answer_items(*body) + abstract_items(*body));
    let ghost before_rel = items;
    match get_array(get(body, "RelatedTopics")) {
        Some(topics) => {
            let n: usize = if topics.len() < 5 {
                topics.len()
            } else {
                5
            };
            let ghost ts = topics@.take(n as int);
            let mut k: usize = 0;
            while k < n
                invariant
                    k <= n,
                    n <= topics@.len(),
                    n == (if topics@.len() < 5 {
                        topics@.len()
                    } else {
                        5
                    }),
                    as_array(idx(Some(*body), "RelatedTopics"@)) == Some(topics@),
                    ts == topics@.take(n as int),
                    related_items(ts.take(k as int)) matches Some(rel) && items == before_rel + rel,
                    out@.len() == items.len(),
                    forall|i: int| 0 <= i < items.len() ==> is_str_object(#[trigger] out@[i], items[i]),
                decreases n - k,
            {
                let t = &topics[k];
                assert(ts.take(k + 1).drop_last() =~= ts.take(k as int));
                assert(ts.take(k + 1).last() == topics@[k as int]);
                let text = get_str_or(get(t, "Text"), "");
                let url = get_str_or(get(t, "FirstURL"), "");
                proof {
                    reveal_strlit("");
                }
                if text.len() == 0 {
                    assert(related_item(topics@[k as int]) == Some(None::<Pairs>));
                }
                if text.len() > 0 {
                    let sn = prefix_bytes(&text, 200);
                    let ti = prefix_bytes(&text, 80);
                    match (sn, ti) {
                        (Some(sn), Some(ti)) => {
                            let mut kvs: Vec<(String, String)> = Vec::new();
                            kvs.push((lit("snippet"), string_of(&sn)));
                            kvs.push((lit("title"), string_of(&ti)));
                            kvs.push((lit("type"), lit("related")));
                            kvs.push((lit("url"), string_of(&url)));
                            let ghost p = kvs@.map_values(|p: (String, String)| (p.0@, p.1@));
                            let ghost rel = related_items(ts.take(k as int))->0;
                            push_item(&mut out, kvs, Ghost(items));
                            proof {
                                reveal_strlit("");
                                assert(p =~= seq![
                                    ("snippet"@, sn@),
                                    ("title"@, ti@),
                                    ("type"@, "related"@),
                                    ("url"@, url@),
                                ]);
                                assert(related_item(topics@[k as int]) == Some(Some(p)));
                                items = items.push(p);
                                assert(items =~= before_rel + rel.push(p));
                            }
                        },
                        _ => {
                            proof {
                                reveal_strlit("");
                                assert(related_item(topics@[k as int]) is None);
                                assert(related_items(ts.take(k + 1)) is None);
                                lemma_related_none(ts, k + 1);
                            }
                            return None;
                        },
                    }
                }
                k = k + 1;
            }
            assert(ts.take(n as int) =~= ts);
        },
        None => {
            assert(related_items(Seq::<Json>::empty()) == Some(Seq::<Pairs>::empty()));
            assert(before_rel + Seq::<Pairs>::empty() =~= before_rel);
        },
    }
    let ghost all = items;
    if out.len() == 0 {
        let mut kvs: Vec<(String, String)> = Vec::new();
        kvs.push((lit("snippet"), lit("Try a more specific query.")));
        kvs.push((lit("title"), lit("No instant results")));
        kvs.push((lit("type"), lit("no_results")));
        kvs.push((lit("url"), fallback_url(encoded)));
        let ghost p = kvs@.map_values(|p: (String, String)| (p.0@, p.1@));
        push_item(&mut out, kvs, Ghost(items));
        proof {
            assert(p =~= no_results_item(encoded@));
            items = items.push(p);
            assert(items =~= seq![no_results_item(encoded@)]);
        }
    }
    Some(out)
}

// ─── Replies ─────────────────────────────────────────────────────────────────

/// What the plugin does with a request.
pub enum WebCommand {
    /// No query given.
    Missing,
    Search,
    Rag,
}

pub fn web_command(action: &str, args: &str) -> (r: WebCommand)
    ensures
        args@.len() == 0 ==> r is Missing,
        args@.len() > 0 ==> (r is Rag <==> (action@ == "rag"@ || action@ == "web-rag"@)),
        args@.len() > 0 ==> !(r is Missing),
{
    if chars_of(args).len() == 0 {
        WebCommand::Missing
    } else if str_is(action, "rag") || str_is(action, "web-rag") {
        WebCommand::Rag
    } else {
        WebCommand::Search
    }
}

/// The error for a request without a query.
pub fn missing_query() -> (r: String)
    ensures
        r@ == "Provide a search query. Usage: /web-search <query>"@,
{
    lit("Provide a search query. Usage: /web-search <query>")
}

/// The single result when the answer service could not be read.
pub fn parse_failure_item(cause: &str) -> (r: Json)
    ensures
        r.text@ == str_object_text(seq![("error"@, cause@)]),
{
    let mut kvs: Vec<(String, String)> = Vec::new();
    kvs.push((lit("error"), string_of(&chars_of(cause))));
    let r = str_object(kvs);
    proof {
        assert(kvs@.map_values(|p: (String, String)| (p.0@, p.1@)) =~= seq![("error"@, cause@)]);
    }
    r
}

/// The single result when the answer service could not be reached.
pub fn request_failure_item(cause: &str, encoded: &str) -> (r: Json)
    ensures
        r.text@ == str_object_text(
            seq![
                ("error"@, "Request failed: "@ + cause@),
                ("fallback_url"@, fallback_url_text(encoded@)),
            ],
        ),
{
    let mut e: Vec<char> = Vec::new();
    push_str(&mut e, "Request failed: ");
    push_str(&mut e, cause);
    let mut kvs: Vec<(String, String)> = Vec::new();
    kvs.push((lit("error"), string_of(&e)));
    kvs.push((lit("fallback_url"), fallback_url(encoded)));
    let ghost p = kvs@.map_values(|p: (String, String)| (p.0@, p.1@));
    let r = str_object(kvs);
    proof {
        assert(p =~= seq![
            ("error"@, "Request failed: "@ + cause@),
            ("fallback_url"@, fallback_url_text(encoded@)),
        ]);
    }
    r
}

/// One line of the synthesis: `[n] title — snippet (url)`, for a result
/// with a snippet.
pub open spec fn synth_line(r: Json, n: int) -> Option<Seq<char>> {
    let rr = Some(r);
    let snippet = str_or(idx(rr, "snippet"@), ""@);
    if snippet.len() == 0 {
        None
    } else {
        Some(
            "["@ + crate::text::dec(n as nat) + "] "@ + str_or(idx(rr, "title"@), ""@)
                + " \u{2014} "@ + snippet + " ("@ + str_or(idx(rr, "url"@), ""@) + ")"@,
        )
    }
}

pub open spec fn synth_lines(rs: Seq<Json>, k: nat) -> Seq<Seq<char>>
    decreases k,
{
    if k == 0 {
        Seq::empty()
    } else {
        let prev = synth_lines(rs, (k - 1) as nat);
        match synth_line(rs[k - 1], k as int) {
            Some(l) => prev.push(l),
            None => prev,
        }
    }
}

/// The answer composed from the first three results.
pub open spec fn synthesis_text(rs: Seq<Json>) -> Seq<char> {
    if rs.len() == 0 {
        "No results found."@
    } else {
        join(synth_lines(rs, if rs.len() < 3 { rs.len() } else { 3 }), "\n\n"@)
    }
}

pub fn synthesis(results: &Vec<Json>) -> (r: String)
    ensures
        r@ == synthesis_text(results@),
{
    if results.len() == 0 {
        return lit("No results found.");
    }
    let n: usize = if results.len() < 3 {
        results.len()
    } else {
        3
    };
    let mut out: Vec<char> = Vec::new();
    let mut count: usize = 0;
    let mut k: usize = 0;
    while k < n
        invariant
            k <= n,
            n <= results@.len(),
            n <= 3,
            count <= k,
            count == synth_lines(results@, k as nat).len(),
            out@ == join(synth_lines(results@, k as nat), "\n\n"@),
        decreases n - k,
    {
        let r = Some(&results[k]);
        let snippet = get_str_or(at(r, "snippet"), "");
        proof {
            reveal_strlit("");
        }
        if snippet.len() > 0 {
            let mut line: Vec<char> = Vec::new();
            push_str(&mut line, "[");
            push_decimal(&mut line, (k + 1) as u64);
            push_str(&mut line, "] ");
            push_chars(&mut line, &get_str_or(at(r, "title"), ""));
            push_str(&mut line, " \u{2014} ");
            push_chars(&mut line, &snippet);
            push_str(&mut line, " (");
            push_chars(&mut line, &get_str_or(at(r, "url"), ""));
            push_str(&mut line, ")");
            join_push(&mut out, count, "\n\n", &line, Ghost(synth_lines(results@, k as nat)));
            count = count + 1;
        }
        k = k + 1;
    }
    string_of(&out)
}

/// `{"title":..,"url":..}` of a result (`null` where missing).
pub open spec fn citation_text(r: Json) -> Seq<char> {
    let rr = Some(r);
    "{\"title\":"@ + match idx(rr, "title"@) {
        Some(t) => t.text@,
        None => "null"@,
    } + ",\"url\":"@ + match idx(rr, "url"@) {
        Some(u) => u.text@,
        None => "null"@,
    } + "}"@
}

/// `j` is a copy of member `key` of `r`, or `null` when it has none.
pub open spec fn member_copy(j: Json, r: Json, key: Seq<char>) -> bool {
    match idx(Some(r), key) {
        Some(t) => same_json(j, t),
        None => j.kind is Null && j.text@ == "null"@,
    }
}

fn member_or_null(r: &Json, key: &str) -> (j: Json)
    ensures
        j.text@ == match idx(Some(*r), key@) {
            Some(t) => t.text@,
            None => "null"@,
        },
        member_copy(j, *r, key@),
{
    match get(r, key) {
        Some(t) => clone_json(t),
        None => null_value(),
    }
}

/// `c` is the citation of result `r`: an object of its title and its URL,
/// copied (`null` where missing).
pub open spec fn citation_is(c: Json, r: Json) -> bool {
    &&& c.text@ == citation_text(r)
    &&& c.kind matches JsonKind::Object(es) && es@.len() == 2 && es@[0].0@ == "title"@ && es@[1].0@
        == "url"@ && member_copy(es@[0].1, r, "title"@) && member_copy(es@[1].1, r, "url"@)
}

/// The citations of a synthesis: each result's title and URL.
pub fn citations(results: &Vec<Json>) -> (r: Vec<Json>)
    ensures
        r@.len() == results@.len(),
        forall|i: int| 0 <= i < r@.len() ==> (#[trigger] r@[i]).text@ == citation_text(results@[i]),
        forall|i: int| 0 <= i < r@.len() ==> citation_is(#[trigger] r@[i], results@[i]),
{
    let mut out: Vec<Json> = Vec::new();
    let mut i: usize = 0;
    while i < results.len()
        invariant
            i <= results@.len(),
            out@.len() == i,
            forall|q: int| 0 <= q < i ==> (#[trigger] out@[q]).text@ == citation_text(results@[q]),
            forall|q: int| 0 <= q < i ==> citation_is(#[trigger] out@[q], results@[q]),
        decreases results@.len() - i,
    {
        let t = member_or_null(&results[i], "title");
        let u = member_or_null(&results[i], "url");
        let mut es: Vec<(String, Json)> = Vec::new();
        es.push((lit("title"), t));
        es.push((lit("url"), u));
        let j = object_value(es);
        proof {
            let e = j.kind->Object_0@;
            let ts = crate::json::entry_texts(e);
            assert(ts.take(1).drop_last() =~= Seq::<Seq<char>>::empty());
            assert(ts.take(2).drop_last() =~= ts.take(1));
            assert(ts.take(2) =~= ts);
            reveal_strlit("title");
            reveal_strlit("url");
            reveal_strlit("{\"title\":");
            reveal_strlit(",\"url\":");
            reveal_strlit("{");
            reveal_strlit(",");
            reveal_strlit(":");
            reveal_strlit("}");
            crate::json::lemma_plain_escape("title"@);
            crate::json::lemma_plain_escape("url"@);
            assert(crate::summary::join(ts.take(1), ","@) == ts[0]);
            assert(crate::summary::join(ts, ","@) == ts[0] + ","@ + ts[1]);
            assert(j.text@ =~= citation_text(results@[i as int]));
        }
        out.push(j);
        i = i + 1;
    }
    out
}

/// `{"count":n,"query":q,"results":[..],"source":"DuckDuckGo"}`.
pub fn search_result(query: &str, results: Vec<Json>) -> (r: Json)
    ensures
        r.text@ == raw_object_text(
            seq![
                ("count"@, crate::text::dec(results@.len())),
                ("query"@, crate::json::json_quoted(query@)),
                ("results"@, array_text(results@)),
                ("source"@, crate::json::json_quoted("DuckDuckGo"@)),
            ],
        ),
{
    let n: usize = results.len();
    let ghost rs = results@;
    let mut es: Vec<(String, Json)> = Vec::new();
    es.push((lit("count"), uint_value(n as u64)));
    es.push((lit("query"), string_value(string_of(&chars_of(query)))));
    es.push((lit("results"), array_of(results)));
    es.push((lit("source"), string_value(lit("DuckDuckGo"))));
    let ghost e = es@;
    let r = object_of(es);
    proof {
        assert(entry_pairs(e) =~= seq![
            ("count"@, crate::text::dec(rs.len())),
            ("query"@, crate::json::json_quoted(query@)),
            ("results"@, array_text(rs)),
            ("source"@, crate::json::json_quoted("DuckDuckGo"@)),
        ]);
    }
    r
}

/// `{"citations":[..],"query":q,"source":"DuckDuckGo","synthesis":s}`.
pub fn rag_result(query: &str, synthesis: String, citations: Vec<Json>) -> (r: Json)
    ensures
        r.text@ == raw_object_text(
            seq![
                ("citations"@, array_text(citations@)),
                ("query"@, crate::json::json_quoted(query@)),
                ("source"@, crate::json::json_quoted("DuckDuckGo"@)),
                ("synthesis"@, crate::json::json_quoted(synthesis@)),
            ],
        ),
{
    let ghost cs = citations@;
    let ghost sy = synthesis@;
    let mut es: Vec<(String, Json)> = Vec::new();
    es.push((lit("citations"), array_of(citations)));
    es.push((lit("query"), string_value(string_of(&chars_of(query)))));
    es.push((lit("source"), string_value(lit("DuckDuckGo"))));
    es.push((lit("synthesis"), string_value(synthesis)));
    let ghost e = es@;
    let r = object_of(es);
    proof {
        assert(entry_pairs(e) =~= seq![
            ("citations"@, array_text(cs)),
            ("query"@, crate::json::json_quoted(query@)),
            ("source"@, crate::json::json_quoted("DuckDuckGo"@)),
            ("synthesis"@, crate::json::json_quoted(sy)),
        ]);
    }
    r
}

} // verus!
