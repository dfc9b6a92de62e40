//! The local knowledge-base plugin: how documents are cut into chunks,
//! how a search query is cleaned and written for full-text and `LIKE`
//! search, which paths may be indexed, and how answers are laid out. The
//! database itself is outside.
use vstd::prelude::*;
use crate::json::{uint_value, array_text, array_value, int_value, json_quoted, null_value, string_value, Json};
use crate::plugin_manager::{lit, str_is};
use crate::plugin_tools::common::{entry_pairs, object_of, raw_object_text, str_array, str_array_text};
use crate::plugin_tools::files::{is_under, under_dir};
use crate::summary::{join, join_push, pfx, prefix_bytes};
use crate::text::{
    alphabetic, byte_len, chars_of, dec, is_alphabetic, is_numeric, is_whitespace, is_ws,
    lowercase, numeric, push_chars, push_str, replace_all, replace_chars, slice_chars, split_ws,
    string_of, to_lowercase, trim, trim_chars, ws_tokens,
};

verus! {

// ─── Chunking ────────────────────────────────────────────────────────────────

/// The chunks of `s` from `start` on, before empty ones are dropped: windows
/// of `size` characters, each `step` after the last, trimmed, until one
/// reaches the end.
pub open spec fn raw_chunks(s: Seq<char>, start: nat, size: nat, step: nat) -> Seq<Seq<char>>
    decreases left_after(s.len(), start),
{
    if step == 0 || start >= s.len() {
        Seq::empty()
    } else {
        let end = if start + size < s.len() {
            start + size
        } else {
            s.len() as nat
        };
        let c = trim(s.subrange(start as int, end as int));
        if end >= s.len() {
            seq![c]
        } else {
            seq![c] + raw_chunks(s, start + step, size, step)
        }
    }
}

/// How much of a length lies at or after `start`.
pub open spec fn left_after(len: nat, start: nat) -> nat {
    if start < len {
        (len - start) as nat
    } else {
        0
    }
}

/// The texts of `cs` that are not empty, in order.
pub open spec fn non_empty(cs: Seq<Seq<char>>) -> Seq<Seq<char>>
    decreases cs.len(),
{
    if cs.len() == 0 {
        Seq::empty()
    } else if cs[0].len() == 0 {
        non_empty(cs.drop_first())
    } else {
        seq![cs[0]] + non_empty(cs.drop_first())
    }
}

/// The chunks a text is indexed in: windows of `size` characters, each
/// `size - overlap` after the last, trimmed, empty ones dropped.
pub open spec fn chunks_of(s: Seq<char>, size: nat, overlap: nat) -> Seq<Seq<char>> {
    non_empty(raw_chunks(s, 0, size, (size - overlap) as nat))
}

proof fn lemma_non_empty_concat(a: Seq<Seq<char>>, b: Seq<Seq<char>>)
    ensures
        non_empty(a + b) == non_empty(a) + non_empty(b),
    decreases a.len(),
{
    if a.len() == 0 {
        assert(a + b =~= b);
    } else {
        assert((a + b).drop_first() =~= a.drop_first() + b);
        lemma_non_empty_concat(a.drop_first(), b);
        if a[0].len() == 0 {
        } else {
            assert(seq![a[0]] + non_empty(a.drop_first()) + non_empty(b) =~= seq![a[0]] + (
            non_empty(a.drop_first()) + non_empty(b)));
        }
    }
}

/// Cuts a text into overlapping chunks for indexing.
pub fn chunk_text(text: &str, size: usize, overlap: usize) -> (r: Vec<String>)
    requires
        overlap < size,
    ensures
        r@.map_values(|c: String| c@) == chunks_of(text@, size as nat, overlap as nat),
{
    let chars = chars_of(text);
    let n: usize = chars.len();
    let step: usize = size - overlap;
    let ghost s = chars@;
    let ghost all = raw_chunks(s, 0, size as nat, step as nat);
    let mut out: Vec<String> = Vec::new();
    let mut start: usize = 0;
    let mut done: bool = false;
    assert(out@.map_values(|c: String| c@) =~= Seq::<Seq<char>>::empty());
    while !done && start < n
        invariant
            s == chars@,
            n == s.len(),
            step == size - overlap,
            0 < step <= size,
            all == raw_chunks(s, 0, size as nat, step as nat),
            done ==> non_empty(all) == out@.map_values(|c: String| c@),
            !done ==> non_empty(all) == out@.map_values(|c: String| c@) + non_empty(
                raw_chunks(s, start as nat, size as nat, step as nat),
            ),
        decreases (if done {
            0
        } else {
            n + 1 - start
        }),
    {
        let end: usize = if start < n - size.min(n) {
            start + size
        } else {
            n
        };
        assert(end == (if start + size < n {
            start + size
        } else {
            n as int
        }));
        let piece = trim_chars(&slice_chars(&chars, start, end));
        let ghost c = piece@;
        let ghost prev = out@.map_values(|x: String| x@);
        let ghost rest = raw_chunks(s, start as nat, size as nat, step as nat);
        let ghost tail = if end >= n {
            Seq::<Seq<char>>::empty()
        } else {
            raw_chunks(s, (start + step) as nat, size as nat, step as nat)
        };
        assert(rest =~= seq![c] + tail);
        proof {
            lemma_non_empty_concat(seq![c], tail);
            let e = Seq::<Seq<char>>::empty();
            assert(seq![c].drop_first() =~= e);
            assert(non_empty(e) =~= e);
            assert(non_empty(seq![c]) == if c.len() == 0 {
                e
            } else {
                seq![c] + e
            });
        }
        if piece.len() > 0 {
            out.push(string_of(&piece));
            assert(out@.map_values(|x: String| x@) =~= prev + seq![c]);
        } else {
            assert(non_empty(seq![c]) =~= Seq::<Seq<char>>::empty());
        }
        proof {
            if end < n {
                assert(non_empty(all) == out@.map_values(|x: String| x@) + non_empty(tail)) by {
                    assert(prev + non_empty(seq![c]) + non_empty(tail) =~= prev + (non_empty(
                        seq![c],
                    ) + non_empty(tail)));
                }
            } else {
                assert(non_empty(all) == out@.map_values(|x: String| x@)) by {
                    assert(prev + non_empty(seq![c]) + non_empty(tail) =~= prev + (non_empty(
                        seq![c],
                    ) + non_empty(tail)));
                    assert(non_empty(tail) =~= Seq::<Seq<char>>::empty());
                }
            }
        }
        if end >= n {
            done = true;
        } else {
            start = start + step;
        }
    }
    proof {
        if !done {
            assert(raw_chunks(s, start as nat, size as nat, step as nat) =~= Seq::<
                Seq<char>,
            >::empty());
            assert(out@.map_values(|c: String| c@) + Seq::<Seq<char>>::empty() =~= out@.map_values(
                |c: String| c@,
            ));
        }
    }
    out
}

proof fn lemma_trim_len(x: Seq<char>)
    ensures
        trim(x).len() <= x.len(),
{
    crate::text::lemma_ws_prefix_bounds(x);
    crate::text::lemma_ws_suffix_bounds(crate::text::trim_start(x));
}

proof fn lemma_raw_chunks_short(s: Seq<char>, start: nat, size: nat, step: nat)
    ensures
        forall|i: int|
            0 <= i < raw_chunks(s, start, size, step).len() ==> (#[trigger] raw_chunks(
                s,
                start,
                size,
                step,
            )[i]).len() <= size,
    decreases left_after(s.len(), start),
{
    if step == 0 || start >= s.len() {
    } else {
        let end = if start + size < s.len() {
            start + size
        } else {
            s.len() as nat
        };
        let c = trim(s.subrange(start as int, end as int));
        lemma_trim_len(s.subrange(start as int, end as int));
        if end < s.len() {
            lemma_raw_chunks_short(s, start + step, size, step);
            let rest = raw_chunks(s, start + step, size, step);
            assert forall|i: int| 0 <= i < (seq![c] + rest).len() implies (#[trigger] (seq![c]
                + rest)[i]).len() <= size by {
                if i > 0 {
                    assert((seq![c] + rest)[i] == rest[i - 1]);
                }
            }
        }
    }
}

proof fn lemma_non_empty_props(cs: Seq<Seq<char>>, bound: nat)
    requires
        forall|i: int| 0 <= i < cs.len() ==> (#[trigger] cs[i]).len() <= bound,
    ensures
        forall|i: int|
            0 <= i < non_empty(cs).len() ==> (#[trigger] non_empty(cs)[i]).len() > 0
                && non_empty(cs)[i].len() <= bound,
    decreases cs.len(),
{
    if cs.len() > 0 {
        let t = cs.drop_first();
        assert forall|i: int| 0 <= i < t.len() implies (#[trigger] t[i]).len() <= bound by {
            assert(t[i] == cs[i + 1]);
        }
        lemma_non_empty_props(t, bound);
        if cs[0].len() > 0 {
            let r = seq![cs[0]] + non_empty(t);
            assert forall|i: int| 0 <= i < r.len() implies (#[trigger] r[i]).len() > 0
                && r[i].len() <= bound by {
                if i > 0 {
                    assert(r[i] == non_empty(t)[i - 1]);
                }
            }
        }
    }
}

/// Every chunk a text is cut into holds something and at most `size`
/// characters.
pub proof fn law_chunks_bounded(text: Seq<char>, size: nat, overlap: nat)
    requires
        overlap < size,
    ensures
        forall|i: int|
            0 <= i < chunks_of(text, size, overlap).len() ==> 0 < (#[trigger] chunks_of(
                text,
                size,
                overlap,
            )[i]).len() <= size,
{
    let step = (size - overlap) as nat;
    lemma_raw_chunks_short(text, 0, size, step);
    lemma_non_empty_props(raw_chunks(text, 0, size, step), size);
}

// ─── Queries ─────────────────────────────────────────────────────────────────

/// Characters a search keeps: letters, digits, whitespace and `-`.
pub open spec fn query_char(c: char) -> bool {
    alphabetic(c) || numeric(c) || is_ws(c) || c == '-'
}

/// The characters of `s` a search keeps, in order.
pub open spec fn query_chars(s: Seq<char>) -> Seq<char>
    decreases s.len(),
{
    if s.len() == 0 {
        Seq::empty()
    } else if query_char(s.last()) {
        query_chars(s.drop_last()).push(s.last())
    } else {
        query_chars(s.drop_last())
    }
}

/// `"w1" OR "w2" OR ...` over the words of a cleaned query.
pub open spec fn fts_text(words: Seq<Seq<char>>) -> Seq<char> {
    join(Seq::new(words.len(), |i: int| "\""@ + words[i] + "\""@), " OR "@)
}

/// The full-text query for a search: its words, quoted and joined by
/// `OR`; an error when nothing searchable is left.
pub open spec fn fts_query_of(query: Seq<char>) -> Result<Seq<char>, Seq<char>> {
    let safe = query_chars(query);
    if trim(safe).len() == 0 {
        Err("Empty query."@)
    } else {
        Ok(fts_text(ws_tokens(safe)))
    }
}

pub fn fts_query(query: &str) -> (r: Result<String, String>)
    ensures
        match r {
            Ok(q) => fts_query_of(query@) == Ok::<Seq<char>, Seq<char>>(q@),
            Err(e) => fts_query_of(query@) == Err::<Seq<char>, Seq<char>>(e@),
        },
{
    let v = chars_of(query);
    let mut safe: Vec<char> = Vec::new();
    let mut i: usize = 0;
    while i < v.len()
        invariant
            i <= v@.len(),
            safe@ == query_chars(v@.take(i as int)),
        decreases v@.len() - i,
    {
        assert(v@.take(i + 1).drop_last() =~= v@.take(i as int));
        let c = v[i];
        if is_alphabetic(c) || is_numeric(c) || is_whitespace(c) || c == '-' {
            safe.push(c);
        }
        i = i + 1;
    }
    assert(v@.take(v@.len() as int) =~= v@);
    if trim_chars(&safe).len() == 0 {
        return Err(lit("Empty query."));
    }
    let words = split_ws(&safe);
    let ghost ws = words@.map_values(|w: Vec<char>| w@);
    let ghost parts = Seq::new(ws.len(), |k: int| "\""@ + ws[k] + "\""@);
    let mut out: Vec<char> = Vec::new();
    let mut k: usize = 0;
    while k < words.len()
        invariant
            k <= words@.len(),
            ws == words@.map_values(|w: Vec<char>| w@),
            parts == Seq::new(ws.len(), |k: int| "\""@ + ws[k] + "\""@),
            out@ == join(parts.take(k as int), " OR "@),
        decreases words@.len() - k,
    {
        let mut t: Vec<char> = Vec::new();
        push_str(&mut t, "\"");
        push_chars(&mut t, &words[k]);
        push_str(&mut t, "\"");
        assert(t@ == parts[k as int]);
        join_push(&mut out, k, " OR ", &t, Ghost(parts.take(k as int)));
        assert(parts.take(k + 1) =~= parts.take(k as int).push(t@));
        k = k + 1;
    }
    assert(parts.take(words@.len() as int) =~= parts);
    Ok(string_of(&out))
}

/// The `LIKE` pattern of the fallback search: `%` and `_` escaped, the
/// whole wrapped in `%`.
pub open spec fn like_pattern_of(query: Seq<char>) -> Seq<char> {
    "%"@ + replace_all(replace_all(query, "%"@, "\\%"@), "_"@, "\\_"@) + "%"@
}

pub fn like_pattern(query: &str) -> (r: String)
    ensures
        r@ == like_pattern_of(query@),
{
    proof {
        reveal_strlit("%");
        reveal_strlit("_");
    }
    let a = replace_chars(&chars_of(query), &chars_of("%"), &chars_of("\\%"));
    let b = replace_chars(&a, &chars_of("_"), &chars_of("\\_"));
    let mut out: Vec<char> = Vec::new();
    push_str(&mut out, "%");
    push_chars(&mut out, &b);
    push_str(&mut out, "%");
    string_of(&out)
}

// ─── Requests ────────────────────────────────────────────────────────────────

/// What a knowledge-base request asks for.
#[derive(Clone, Copy, Debug, PartialEq, Eq, Structural)]
pub enum KbCommand {
    Index,
    List,
    Search,
}

/// `index` and `list` by name; otherwise a search, or the list when no
/// query is given.
pub open spec fn kb_command_of(action: Seq<char>, args: Seq<char>) -> KbCommand {
    if action == "index"@ {
        KbCommand::Index
    } else if action == "list"@ {
        KbCommand::List
    } else if args.len() == 0 {
        KbCommand::List
    } else {
        KbCommand::Search
    }
}

pub fn kb_command(action: &str, args: &str) -> (r: KbCommand)
    ensures
        r == kb_command_of(action@, args@),
{
    if str_is(action, "index") {
        KbCommand::Index
    } else if str_is(action, "list") {
        KbCommand::List
    } else if chars_of(args).len() == 0 {
        KbCommand::List
    } else {
        KbCommand::Search
    }
}

/// Directories documents may be indexed from.
pub open spec fn kb_dirs() -> Seq<Seq<char>> {
    seq![
        "/home/pi/documents"@,
        "/home/pi/manuals"@,
        "/home/pi/data"@,
        "/opt/fabio-claw/kb"@,
        "/tmp/fabio-claw/kb"@,
    ]
}

pub open spec fn kb_path_allowed(path: Seq<char>) -> bool {
    exists|i: int| 0 <= i < kb_dirs().len() && under_dir(path, #[trigger] kb_dirs()[i])
}

/// Whether a canonical path may be indexed.
pub fn kb_allowed(canonical: &str) -> (r: bool)
    ensures
        r == kb_path_allowed(canonical@),
{
    let p = chars_of(canonical);
    let ghost ds = kb_dirs();
    let r = is_under(&p, "/home/pi/documents") || is_under(&p, "/home/pi/manuals") || is_under(
        &p,
        "/home/pi/data",
    ) || is_under(&p, "/opt/fabio-claw/kb") || is_under(&p, "/tmp/fabio-claw/kb");
    proof {
        if r {
            if under_dir(p@, ds[0]) {
                assert(under_dir(p@, kb_dirs()[0]));
            } else if under_dir(p@, ds[1]) {
                assert(under_dir(p@, kb_dirs()[1]));
            } else if under_dir(p@, ds[2]) {
                assert(under_dir(p@, kb_dirs()[2]));
            } else if under_dir(p@, ds[3]) {
                assert(under_dir(p@, kb_dirs()[3]));
            } else {
                assert(under_dir(p@, kb_dirs()[4]));
            }
        } else {
            assert forall|i: int| 0 <= i < kb_dirs().len() implies !under_dir(
                p@,
                #[trigger] kb_dirs()[i],
            ) by {
                assert(kb_dirs()[i] == ds[i]);
            }
        }
    }
    r
}

fn kb_dir_list() -> (r: String)
    ensures
        r@ == join(kb_dirs(), ", "@),
{
    let ghost ds = kb_dirs();
    let mut out: Vec<char> = Vec::new();
    assert(ds.take(0) =~= Seq::<Seq<char>>::empty());
    join_push(&mut out, 0, ", ", &chars_of("/home/pi/documents"), Ghost(ds.take(0)));
    assert(ds.take(1) =~= ds.take(0).push(ds[0]));
    join_push(&mut out, 1, ", ", &chars_of("/home/pi/manuals"), Ghost(ds.take(1)));
    assert(ds.take(2) =~= ds.take(1).push(ds[1]));
    join_push(&mut out, 2, ", ", &chars_of("/home/pi/data"), Ghost(ds.take(2)));
    assert(ds.take(3) =~= ds.take(2).push(ds[2]));
    join_push(&mut out, 3, ", ", &chars_of("/opt/fabio-claw/kb"), Ghost(ds.take(3)));
    assert(ds.take(4) =~= ds.take(3).push(ds[3]));
    join_push(&mut out, 4, ", ", &chars_of("/tmp/fabio-claw/kb"), Ghost(ds.take(4)));
    assert(ds.take(5) =~= ds.take(4).push(ds[4]));
    assert(ds.take(5) =~= ds);
    string_of(&out)
}

/// The answer to `index` without a path.
pub fn index_usage() -> (r: String)
    ensures
        r@ == "Specify a path. Allowed dirs: "@ + join(kb_dirs(), ", "@),
{
    let mut out: Vec<char> = Vec::new();
    push_str(&mut out, "Specify a path. Allowed dirs: ");
    push_str(&mut out, kb_dir_list().as_str());
    string_of(&out)
}

/// The refusal for a path outside the allowed directories.
pub fn kb_access_denied() -> (r: String)
    ensures
        r@ == "Access denied. Allowed: "@ + join(kb_dirs(), ", "@),
{
    let mut out: Vec<char> = Vec::new();
    push_str(&mut out, "Access denied. Allowed: ");
    push_str(&mut out, kb_dir_list().as_str());
    string_of(&out)
}

/// `Cannot resolve '<path>': <cause>`.
pub fn cannot_resolve(path: &str, cause: &str) -> (r: String)
    ensures
        r@ == "Cannot resolve '"@ + path@ + "': "@ + cause@,
{
    let mut out: Vec<char> = Vec::new();
    push_str(&mut out, "Cannot resolve '");
    push_str(&mut out, path);
    push_str(&mut out, "': ");
    push_str(&mut out, cause);
    string_of(&out)
}

/// File types that are indexed (extensions, lower case).
pub open spec fn indexable_ext(ext: Seq<char>) -> bool {
    ext == "txt"@ || ext == "md"@ || ext == "rst"@ || ext == "csv"@ || ext == "log"@ || ext
        == "json"@ || ext == "yaml"@ || ext == "toml"@
}

/// Whether a file with this extension is indexed; the refusal otherwise.
pub fn check_extension(ext: &str) -> (r: Result<(), String>)
    ensures
        indexable_ext(lowercase(ext@)) <==> r is Ok,
        r matches Err(e) ==> e@ == "Unsupported file type: ."@ + lowercase(ext@),
{
    let e = to_lowercase(ext);
    let s = e.as_str();
    if str_is(s, "txt") || str_is(s, "md") || str_is(s, "rst") || str_is(s, "csv") || str_is(
        s,
        "log",
    ) || str_is(s, "json") || str_is(s, "yaml") || str_is(s, "toml") {
        Ok(())
    } else {
        let mut out: Vec<char> = Vec::new();
        push_str(&mut out, "Unsupported file type: .");
        push_str(&mut out, s);
        Err(string_of(&out))
    }
}

/// `<prefix><cause>`, the errors of reading, storing and searching.
pub fn kb_error(prefix: &str, cause: &str) -> (r: String)
    ensures
        r@ == prefix@ + cause@,
{
    let mut out: Vec<char> = Vec::new();
    push_str(&mut out, prefix);
    push_str(&mut out, cause);
    string_of(&out)
}

// ─── Answers ─────────────────────────────────────────────────────────────────

/// `&s[..n]` and `…` when `s` is longer than `n` bytes.
pub open spec fn trunc_text(s: Seq<char>, n: nat) -> Seq<char> {
    if byte_len(s) <= n {
        s
    } else {
        pfx(s, n)->0 + "\u{2026}"@
    }
}

/// An excerpt of at most `n` bytes, marked when cut.
pub fn trunc(s: &str, n: usize) -> (r: String)
    requires
        pfx(s@, n as nat) is Some,
    ensures
        r@ == trunc_text(s@, n as nat),
{
    let v = chars_of(s);
    let p = prefix_bytes(&v, n).unwrap();
    proof {
        crate::text::lemma_take_bytes_all(v@, byte_len(v@) as int);
    }
    if crate::prompt_engine::byte_len_upto(&v, n).is_some() {
        string_of(&v)
    } else {
        let mut out = p;
        out.push('\u{2026}');
        proof {
            reveal_strlit("\u{2026}");
        }
        string_of(&out)
    }
}

/// The entries of a search hit: the full-text search adds its score.
pub open spec fn hit_entries(
    source: Seq<char>,
    chunk_idx: i64,
    content: Seq<char>,
    score: Option<Seq<char>>,
) -> Seq<(Seq<char>, Seq<char>)> {
    seq![
        ("chunk_idx"@, crate::text::dec_signed(chunk_idx as int)),
        ("excerpt"@, json_quoted(trunc_text(content, 300))),
    ] + match score {
        Some(t) => seq![("score"@, t)],
        None => Seq::empty(),
    } + seq![("source"@, json_quoted(source))]
}

/// One search hit: where it comes from and the first 300 bytes of it.
pub fn kb_hit(source: &str, chunk_idx: i64, content: &str, score: Option<Json>) -> (r: Json)
    requires
        pfx(content@, 300) is Some,
    ensures
        r.text@ == raw_object_text(
            hit_entries(source@, chunk_idx, content@, crate::plugin_tools::updater::text_of(score)),
        ),
{
    let ghost sc = crate::plugin_tools::updater::text_of(score);
    let mut es: Vec<(String, Json)> = Vec::new();
    es.push((lit("chunk_idx"), int_value(chunk_idx)));
    es.push((lit("excerpt"), string_value(trunc(content, 300))));
    let ghost e1 = es@;
    match score {
        Some(j) => es.push((lit("score"), j)),
        None => {},
    }
    let ghost e2 = es@;
    es.push((lit("source"), string_value(lit(source))));
    let ghost e = es@;
    let r = object_of(es);
    proof {
        assert(entry_pairs(e1) =~= seq![
            ("chunk_idx"@, crate::text::dec_signed(chunk_idx as int)),
            ("excerpt"@, json_quoted(trunc_text(content@, 300))),
        ]);
        assert(entry_pairs(e2) =~= entry_pairs(e1) + match sc {
            Some(t) => seq![("score"@, t)],
            None => Seq::empty(),
        });
        assert(entry_pairs(e) =~= entry_pairs(e2) + seq![("source"@, json_quoted(source@))]);
        assert(entry_pairs(e) =~= hit_entries(source@, chunk_idx, content@, sc));
    }
    r
}

/// The answer to a full-text search that found `results`.
pub fn fts_result(query: &str, results: Vec<Json>) -> (r: Json)
    ensures
        r.text@ == raw_object_text(
            seq![
                ("count"@, dec(results@.len())),
                ("method"@, json_quoted("fts5"@)),
                ("query"@, json_quoted(query@)),
                ("results"@, array_text(results@)),
            ],
        ),
{
    let n: usize = results.len();
    let ghost rs = results@;
    let mut es: Vec<(String, Json)> = Vec::new();
    es.push((lit("count"), uint_value(n as u64)));
    es.push((lit("method"), string_value(lit("fts5"))));
    es.push((lit("query"), string_value(lit(query))));
    es.push((lit("results"), array_value(results)));
    let ghost e = es@;
    let r = object_of(es);
    assert(entry_pairs(e) =~= seq![
        ("count"@, dec(rs.len())),
        ("method"@, json_quoted("fts5"@)),
        ("query"@, json_quoted(query@)),
        ("results"@, array_text(rs)),
    ]);
    r
}

/// The hint of a fallback search that found nothing.
pub open spec fn empty_hint() -> Seq<char> {
    "No docs indexed yet. Use /kb index <path> to add documents."@
}

/// The answer to the `LIKE` search, with a hint when it found nothing.
pub fn like_result(query: &str, results: Vec<Json>) -> (r: Json)
    ensures
        r.text@ == raw_object_text(
            seq![
                ("count"@, dec(results@.len())),
                ("hint"@, if results@.len() == 0 {
                    json_quoted(empty_hint())
                } else {
                    "null"@
                }),
                ("method"@, json_quoted("like"@)),
                ("query"@, json_quoted(query@)),
                ("results"@, array_text(results@)),
            ],
        ),
{
    let n: usize = results.len();
    let ghost rs = results@;
    let mut es: Vec<(String, Json)> = Vec::new();
    es.push((lit("count"), uint_value(n as u64)));
    es.push((lit("hint"), if n == 0 {
        string_value(lit("No docs indexed yet. Use /kb index <path> to add documents."))
    } else {
        null_value()
    }));
    es.push((lit("method"), string_value(lit("like"))));
    es.push((lit("query"), string_value(lit(query))));
    es.push((lit("results"), array_value(results)));
    let ghost e = es@;
    let r = object_of(es);
    assert(entry_pairs(e) =~= seq![
        ("count"@, dec(rs.len())),
        ("hint"@, if rs.len() == 0 {
            json_quoted(empty_hint())
        } else {
            "null"@
        }),
        ("method"@, json_quoted("like"@)),
        ("query"@, json_quoted(query@)),
        ("results"@, array_text(rs)),
    ]);
    r
}

/// The answer to `index`: succeeded when no file failed.
pub fn index_result(path: &str, indexed: u64, errors: &Vec<String>) -> (r: (bool, Json))
    ensures
        r.0 == (errors@.len() == 0),
        r.1.text@ == raw_object_text(
            seq![
                ("chunks_indexed"@, dec(indexed as nat)),
                ("errors"@, str_array_text(errors@.map_values(|e: String| e@))),
                ("path"@, json_quoted(path@)),
            ],
        ),
{
    let mut es: Vec<(String, Json)> = Vec::new();
    es.push((lit("chunks_indexed"), uint_value(indexed)));
    es.push((lit("errors"), str_array(errors)));
    es.push((lit("path"), string_value(lit(path))));
    let ghost e = es@;
    let r = object_of(es);
    assert(entry_pairs(e) =~= seq![
        ("chunks_indexed"@, dec(indexed as nat)),
        ("errors"@, str_array_text(errors@.map_values(|e: String| e@))),
        ("path"@, json_quoted(path@)),
    ]);
    (errors.len() == 0, r)
}

/// One indexed document in the listing.
pub fn source_entry(source: &str, chunks: i64, last_indexed: &str) -> (r: Json)
    ensures
        r.text@ == raw_object_text(
            seq![
                ("chunks"@, crate::text::dec_signed(chunks as int)),
                ("last_indexed"@, json_quoted(last_indexed@)),
                ("source"@, json_quoted(source@)),
            ],
        ),
{
    let mut es: Vec<(String, Json)> = Vec::new();
    es.push((lit("chunks"), int_value(chunks)));
    es.push((lit("last_indexed"), string_value(lit(last_indexed))));
    es.push((lit("source"), string_value(lit(source))));
    let ghost e = es@;
    let r = object_of(es);
    assert(entry_pairs(e) =~= seq![
        ("chunks"@, crate::text::dec_signed(chunks as int)),
        ("last_indexed"@, json_quoted(last_indexed@)),
        ("source"@, json_quoted(source@)),
    ]);
    r
}

/// The tip a listing carries.
pub open spec fn list_tip() -> Seq<char> {
    "Use /kb index <path> to add docs. Then /kb <query> to search."@
}

/// The listing of indexed documents.
pub fn list_result(sources: Vec<Json>) -> (r: Json)
    ensures
        r.text@ == raw_object_text(
            seq![
                ("allowed_dirs"@, str_array_text(kb_dirs())),
                ("indexed_sources"@, dec(sources@.len())),
                ("sources"@, array_text(sources@)),
                ("tip"@, json_quoted(list_tip())),
            ],
        ),
{
    let n: usize = sources.len();
    let ghost ss = sources@;
    let mut dirs: Vec<String> = Vec::new();
    dirs.push(lit("/home/pi/documents"));
    dirs.push(lit("/home/pi/manuals"));
    dirs.push(lit("/home/pi/data"));
    dirs.push(lit("/opt/fabio-claw/kb"));
    dirs.push(lit("/tmp/fabio-claw/kb"));
    assert(dirs@.map_values(|d: String| d@) =~= kb_dirs());
    let mut es: Vec<(String, Json)> = Vec::new();
    es.push((lit("allowed_dirs"), str_array(&dirs)));
    es.push((lit("indexed_sources"), uint_value(n as u64)));
    es.push((lit("sources"), array_value(sources)));
    es.push((lit("tip"), string_value(lit(
        "Use /kb index <path> to add docs. Then /kb <query> to search.",
    ))));
    let ghost e = es@;
    let r = object_of(es);
    assert(entry_pairs(e) =~= seq![
        ("allowed_dirs"@, str_array_text(kb_dirs())),
        ("indexed_sources"@, dec(ss.len())),
        ("sources"@, array_text(ss)),
        ("tip"@, json_quoted(list_tip())),
    ]);
    r
}

} // verus!
