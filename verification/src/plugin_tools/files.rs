//! The file-reader plugin: which paths may be read, how files are cut into
//! lines and which lines are shown.
use vstd::prelude::*;
use crate::json::{array_text, array_value, bool_value, json_quoted, string_value, uint_value, Json};
use crate::plugin_manager::{lex_lt, lit};
use crate::plugin_tools::common::{entry_pairs, object_of, raw_object_text};
use crate::plugins::insert_after_equal;
use crate::summary::{join, join_push};
use crate::text::{chars_of, dec, push_decimal, push_str, slice_chars, starts_with_seq, string_of};

verus! {

/// Largest file read whole (bytes).
pub const MAX_FILE_SIZE: u64 = 524288;
/// Most lines a `read` shows.
pub const MAX_LINES: usize = 200;

/// Directories files may be read from.
pub open spec fn allowed_dirs() -> Seq<Seq<char>> {
    seq!["/home/pi/documents"@, "/home/pi/data"@, "/tmp/fabio-claw"@, "/var/lib/fabio-claw/data"@]
}

/// A canonical path lies in `dir` (the same path, or below it).
pub open spec fn under_dir(path: Seq<char>, dir: Seq<char>) -> bool {
    path == dir || (starts_with_seq(path, dir) && path.len() > dir.len() && path[dir.len() as int]
        == '/')
}

pub open spec fn path_allowed(path: Seq<char>) -> bool {
    exists|i: int| 0 <= i < allowed_dirs().len() && under_dir(path, #[trigger] allowed_dirs()[i])
}

pub(crate) fn is_under(path: &Vec<char>, dir: &str) -> (r: bool)
    ensures
        r == under_dir(path@, dir@),
{
    let d = chars_of(dir);
    proof {
        if path@ == d@ {
            assert(path@.take(d@.len() as int) =~= path@);
        }
    }
    if !crate::text::starts_with_chars(path, &d) {
        return false;
    }
    if path.len() == d.len() {
        assert(path@.take(d@.len() as int) =~= path@);
        return true;
    }
    path[d.len()] == '/'
}

/// Whether a canonical path may be read.
pub fn is_path_allowed(canonical: &str) -> (r: bool)
    ensures
        r == path_allowed(canonical@),
{
    let p = chars_of(canonical);
    let ghost ds = allowed_dirs();
    proof {
        reveal_strlit("/home/pi/documents");
        reveal_strlit("/home/pi/data");
        reveal_strlit("/tmp/fabio-claw");
        reveal_strlit("/var/lib/fabio-claw/data");
    }
    let r = is_under(&p, "/home/pi/documents") || is_under(&p, "/home/pi/data") || is_under(
        &p,
        "/tmp/fabio-claw",
    ) || is_under(&p, "/var/lib/fabio-claw/data");
    proof {
        if r {
            if under_dir(p@, ds[0]) {
                assert(under_dir(p@, allowed_dirs()[0]));
            } else if under_dir(p@, ds[1]) {
                assert(under_dir(p@, allowed_dirs()[1]));
            } else if under_dir(p@, ds[2]) {
                assert(under_dir(p@, allowed_dirs()[2]));
            } else {
                assert(under_dir(p@, allowed_dirs()[3]));
            }
        } else {
            assert forall|i: int| 0 <= i < allowed_dirs().len() implies !under_dir(
                p@,
                #[trigger] allowed_dirs()[i],
            ) by {
                assert(allowed_dirs()[i] == ds[i]);
            }
        }
    }
    r
}

/// The refusal for a path outside the allowed directories.
pub fn access_denied() -> (r: String)
    ensures
        r@ == "Access denied. Allowed directories: "@ + join(allowed_dirs(), ", "@),
{
    proof {
        reveal_strlit("/home/pi/documents");
        reveal_strlit("/home/pi/data");
        reveal_strlit("/tmp/fabio-claw");
        reveal_strlit("/var/lib/fabio-claw/data");
        reveal_strlit(", ");
        reveal_strlit("Access denied. Allowed directories: ");
        reveal_strlit(
            "Access denied. Allowed directories: /home/pi/documents, /home/pi/data, /tmp/fabio-claw, /var/lib/fabio-claw/data",
        );
        let ds = allowed_dirs();
        assert(ds.take(1).drop_last() =~= Seq::<Seq<char>>::empty());
        assert(join(ds.take(1), ", "@) == ds[0]) by {
            assert(ds.take(1).len() == 1);
        }
        let sep = ", "@;
        assert(ds.take(2).drop_last() =~= ds.take(1));
        assert(join(ds.take(2), sep) == join(ds.take(1), sep) + sep + ds[1]);
        assert(ds.take(3).drop_last() =~= ds.take(2));
        assert(join(ds.take(3), sep) == join(ds.take(2), sep) + sep + ds[2]);
        assert(ds.take(4).drop_last() =~= ds.take(3));
        assert(join(ds.take(4), sep) == join(ds.take(3), sep) + sep + ds[3]);
        assert(ds.take(4) =~= ds);
        assert(join(ds, sep) =~= ds[0] + sep + ds[1] + sep + ds[2] + sep + ds[3]);
    }
    lit(
        "Access denied. Allowed directories: /home/pi/documents, /home/pi/data, /tmp/fabio-claw, /var/lib/fabio-claw/data",
    )
}

/// Why reading failed.
pub enum FileFailure {
    MissingPath,
    Resolve(String, String),
    Stat(String),
    TooLarge(u64),
    Read(String),
    List(String),
}

pub open spec fn file_failure_text(f: FileFailure) -> Seq<char> {
    match f {
        FileFailure::MissingPath => "Missing 'path' in payload"@,
        FileFailure::Resolve(p, e) => "Cannot resolve path '"@ + p@ + "': "@ + e@,
        FileFailure::Stat(e) => "Cannot stat file: "@ + e@,
        FileFailure::TooLarge(size) => "File too large ("@ + dec((size / 1024) as nat)
            + " KB). Maximum is "@ + dec((MAX_FILE_SIZE / 1024) as nat)
            + " KB. Use 'head' or 'tail' for large files."@,
        FileFailure::Read(e) => "Cannot read file: "@ + e@,
        FileFailure::List(e) => "Cannot list directory: "@ + e@,
    }
}

pub fn file_failure_message(f: &FileFailure) -> (r: String)
    ensures
        r@ == file_failure_text(*f),
{
    let mut out: Vec<char> = Vec::new();
    match f {
        FileFailure::MissingPath => push_str(&mut out, "Missing 'path' in payload"),
        FileFailure::Resolve(p, e) => {
            push_str(&mut out, "Cannot resolve path '");
            push_str(&mut out, p.as_str());
            push_str(&mut out, "': ");
            push_str(&mut out, e.as_str());
        },
        FileFailure::Stat(e) => {
            push_str(&mut out, "Cannot stat file: ");
            push_str(&mut out, e.as_str());
        },
        FileFailure::TooLarge(size) => {
            push_str(&mut out, "File too large (");
            push_decimal(&mut out, *size / 1024);
            push_str(&mut out, " KB). Maximum is ");
            push_decimal(&mut out, MAX_FILE_SIZE / 1024);
            push_str(&mut out, " KB. Use 'head' or 'tail' for large files.");
        },
        FileFailure::Read(e) => {
            push_str(&mut out, "Cannot read file: ");
            push_str(&mut out, e.as_str());
        },
        FileFailure::List(e) => {
            push_str(&mut out, "Cannot list directory: ");
            push_str(&mut out, e.as_str());
        },
    }
    string_of(&out)
}

/// Whether a file of `size` bytes is read whole.
pub fn size_ok(size: u64) -> (r: bool)
    ensures
        r == (size <= MAX_FILE_SIZE),
{
    size <= MAX_FILE_SIZE
}

// ─── Lines ───────────────────────────────────────────────────────────────────

/// A line without its `\r` ending, if it has one.
pub open spec fn strip_cr(l: Seq<char>) -> Seq<char> {
    if l.len() > 0 && l.last() == '\r' {
        l.drop_last()
    } else {
        l
    }
}

/// Pieces of `s` between `\n`s (there is always at least one).
pub open spec fn nl_pieces(s: Seq<char>) -> Seq<Seq<char>>
    decreases s.len(),
{
    if s.len() == 0 {
        seq![Seq::<char>::empty()]
    } else {
        let rest = nl_pieces(s.drop_last());
        if s.last() == '\n' {
            rest.push(Seq::empty())
        } else {
            rest.update(rest.len() - 1, rest.last().push(s.last()))
        }
    }
}

proof fn lemma_nl_pieces_len(s: Seq<char>)
    ensures
        nl_pieces(s).len() >= 1,
    decreases s.len(),
{
    if s.len() > 0 {
        lemma_nl_pieces_len(s.drop_last());
    }
}

/// `str::lines`: the pieces between newlines, each without a trailing `\r`;
/// a final newline ends the last line rather than starting an empty one.
pub open spec fn text_lines(s: Seq<char>) -> Seq<Seq<char>> {
    let ps = nl_pieces(s);
    let kept = if ps.last().len() == 0 {
        ps.drop_last()
    } else {
        ps
    };
    kept.map_values(|l: Seq<char>| strip_cr(l))
}

/// The lines of a text.
pub fn lines_of(text: &str) -> (r: Vec<Vec<char>>)
    ensures
        r@.map_values(|l: Vec<char>| l@) == text_lines(text@),
{
    let s = chars_of(text);
    let mut pieces: Vec<Vec<char>> = Vec::new();
    pieces.push(Vec::new());
    let mut i: usize = 0;
    while i < s.len()
        invariant
            i <= s@.len(),
            pieces@.len() >= 1,
            pieces@.map_values(|p: Vec<char>| p@) == nl_pieces(s@.take(i as int)),
        decreases s@.len() - i,
    {
        let ghost prev = pieces@.map_values(|p: Vec<char>| p@);
        assert(s@.take(i + 1).drop_last() =~= s@.take(i as int));
        if s[i] == '\n' {
            pieces.push(Vec::new());
            assert(pieces@.map_values(|p: Vec<char>| p@) =~= prev.push(Seq::empty()));
        } else {
            let mut cur = pieces.pop().unwrap();
            cur.push(s[i]);
            pieces.push(cur);
            assert(pieces@.map_values(|p: Vec<char>| p@) =~= prev.update(
                prev.len() - 1,
                prev.last().push(s@[i as int]),
            ));
        }
        i = i + 1;
    }
    assert(s@.take(s@.len() as int) =~= s@);
    let ghost ps = pieces@.map_values(|p: Vec<char>| p@);
    let last_empty: bool = pieces[pieces.len() - 1].len() == 0;
    if last_empty {
        let _ = pieces.pop();
    }
    let ghost kept = pieces@.map_values(|p: Vec<char>| p@);
    assert(kept =~= if ps.last().len() == 0 {
        ps.drop_last()
    } else {
        ps
    });
    let mut out: Vec<Vec<char>> = Vec::new();
    let mut k: usize = 0;
    while k < pieces.len()
        invariant
            k <= pieces@.len(),
            kept == pieces@.map_values(|p: Vec<char>| p@),
            out@.map_values(|l: Vec<char>| l@) == kept.take(k as int).map_values(
                |l: Seq<char>| strip_cr(l),
            ),
        decreases pieces@.len() - k,
    {
        let p = &pieces[k];
        let line = if p.len() > 0 && p[p.len() - 1] == '\r' {
            slice_chars(p, 0, p.len() - 1)
        } else {
            slice_chars(p, 0, p.len())
        };
        assert(line@ =~= strip_cr(p@));
        let ghost prev = out@.map_values(|l: Vec<char>| l@);
        out.push(line);
        assert(out@.map_values(|l: Vec<char>| l@) =~= prev.push(strip_cr(kept[k as int])));
        assert(kept.take(k + 1).map_values(|l: Seq<char>| strip_cr(l)) =~= kept.take(
            k as int,
        ).map_values(|l: Seq<char>| strip_cr(l)).push(strip_cr(kept[k as int])));
        k = k + 1;
    }
    assert(kept.take(kept.len() as int) =~= kept);
    out
}

/// Lines joined with `\n`.
pub fn join_lines(lines: &[Vec<char>], from: usize, to: usize) -> (r: String)
    requires
        from <= to <= lines@.len(),
    ensures
        r@ == join(lines@.subrange(from as int, to as int).map_values(|l: Vec<char>| l@), "\n"@),
{
    let mut out: Vec<char> = Vec::new();
    let mut i: usize = from;
    while i < to
        invariant
            from <= i <= to,
            to <= lines@.len(),
            out@ == join(lines@.subrange(from as int, i as int).map_values(|l: Vec<char>| l@), "\n"@),
        decreases to - i,
    {
        let ghost xs = lines@.subrange(from as int, i as int).map_values(|l: Vec<char>| l@);
        join_push(&mut out, i - from, "\n", &lines[i], Ghost(xs));
        assert(lines@.subrange(from as int, i + 1).map_values(|l: Vec<char>| l@) =~= xs.push(
            lines@[i as int]@,
        ));
        i = i + 1;
    }
    string_of(&out)
}

/// Which lines `head`/`tail` show: the first `n`, or the last `n`.
pub open spec fn shown_range(total: nat, n: nat, from_end: bool) -> (int, int) {
    if from_end {
        (if total >= n {
            total - n
        } else {
            0
        }, total as int)
    } else {
        (0, if n < total {
            n as int
        } else {
            total as int
        })
    }
}

pub fn shown_lines(total: usize, n: usize, from_end: bool) -> (r: (usize, usize))
    ensures
        (r.0 as int, r.1 as int) == shown_range(total as nat, n as nat, from_end),
        r.0 <= r.1 <= total,
{
    if from_end {
        (if total >= n {
            total - n
        } else {
            0
        }, total)
    } else {
        (0, if n < total {
            n
        } else {
            total
        })
    }
}

/// How many lines a `read` shows, and whether the file had more.
pub fn read_window(total: usize) -> (r: (usize, bool))
    ensures
        r.0 == if total < MAX_LINES {
            total
        } else {
            MAX_LINES
        },
        r.1 == (total > MAX_LINES),
{
    (if total < MAX_LINES {
        total
    } else {
        MAX_LINES
    }, total > MAX_LINES)
}

// ─── Answers ─────────────────────────────────────────────────────────────────

pub open spec fn bool_text(b: bool) -> Seq<char> {
    if b {
        "true"@
    } else {
        "false"@
    }
}

/// The answer to `read`.
pub open spec fn read_result_text(
    path: Seq<char>,
    size_bytes: u64,
    lines: usize,
    truncated: bool,
    content: Seq<char>,
) -> Seq<char> {
    raw_object_text(
        seq![
            ("content"@, json_quoted(content)),
            ("lines"@, dec(lines as nat)),
            ("path"@, json_quoted(path)),
            ("size_bytes"@, dec(size_bytes as nat)),
            ("truncated"@, bool_text(truncated)),
        ],
    )
}

pub fn read_result(path: &str, size_bytes: u64, lines: usize, truncated: bool, content: String) -> (r:
    Json)
    ensures
        r.text@ == read_result_text(path@, size_bytes, lines, truncated, content@),
{
    let ghost c = content@;
    let mut es: Vec<(String, Json)> = Vec::new();
    es.push((lit("content"), string_value(content)));
    es.push((lit("lines"), uint_value(lines as u64)));
    es.push((lit("path"), string_value(lit(path))));
    es.push((lit("size_bytes"), uint_value(size_bytes)));
    es.push((lit("truncated"), bool_value(truncated)));
    let ghost e = es@;
    let r = object_of(es);
    assert(entry_pairs(e) =~= seq![
        ("content"@, json_quoted(c)),
        ("lines"@, dec(lines as nat)),
        ("path"@, json_quoted(path@)),
        ("size_bytes"@, dec(size_bytes as nat)),
        ("truncated"@, bool_text(truncated)),
    ]);
    r
}

/// The answer to `head` and `tail`.
pub open spec fn lines_result_text(
    path: Seq<char>,
    total: usize,
    shown: usize,
    from_end: bool,
    content: Seq<char>,
) -> Seq<char> {
    raw_object_text(
        seq![
            ("content"@, json_quoted(content)),
            ("from_end"@, bool_text(from_end)),
            ("path"@, json_quoted(path)),
            ("shown_lines"@, dec(shown as nat)),
            ("total_lines"@, dec(total as nat)),
        ],
    )
}

pub fn lines_result(path: &str, total: usize, shown: usize, from_end: bool, content: String) -> (r: Json)
    ensures
        r.text@ == lines_result_text(path@, total, shown, from_end, content@),
{
    let ghost c = content@;
    let mut es: Vec<(String, Json)> = Vec::new();
    es.push((lit("content"), string_value(content)));
    es.push((lit("from_end"), bool_value(from_end)));
    es.push((lit("path"), string_value(lit(path))));
    es.push((lit("shown_lines"), uint_value(shown as u64)));
    es.push((lit("total_lines"), uint_value(total as u64)));
    let ghost e = es@;
    let r = object_of(es);
    assert(entry_pairs(e) =~= seq![
        ("content"@, json_quoted(c)),
        ("from_end"@, bool_text(from_end)),
        ("path"@, json_quoted(path@)),
        ("shown_lines"@, dec(shown as nat)),
        ("total_lines"@, dec(total as nat)),
    ]);
    r
}

/// A directory entry as `list` shows it.
pub open spec fn file_entry_text(e: (String, bool, u64)) -> Seq<char> {
    raw_object_text(
        seq![("is_dir"@, bool_text(e.1)), ("name"@, json_quoted(e.0@)), ("size"@, dec(e.2 as nat))],
    )
}

fn file_entry(e: &(String, bool, u64)) -> (r: Json)
    ensures
        r.text@ == file_entry_text(*e),
{
    let mut es: Vec<(String, Json)> = Vec::new();
    es.push((lit("is_dir"), bool_value(e.1)));
    es.push((lit("name"), string_value(lit(e.0.as_str()))));
    es.push((lit("size"), uint_value(e.2)));
    let ghost v = es@;
    let r = object_of(es);
    assert(entry_pairs(v) =~= seq![
        ("is_dir"@, bool_text(e.1)),
        ("name"@, json_quoted(e.0@)),
        ("size"@, dec(e.2 as nat)),
    ]);
    r
}

/// `items` shows each entry once, in the order of their names.
pub open spec fn listed_by_name(entries: Seq<(String, bool, u64)>, items: Seq<Json>) -> bool {
    &&& items.len() == entries.len()
    &&& exists|order: Seq<int>|
        #![trigger order.len()]
        {
            &&& order.len() == items.len()
            &&& forall|i: int|
                0 <= i < items.len() ==> 0 <= #[trigger] order[i] < entries.len() && items[i].text@
                    == file_entry_text(entries[order[i]])
            &&& forall|i: int, j: int| 0 <= i < j < items.len() ==> order[i] != order[j]
            &&& forall|i: int, j: int|
                0 <= i < j < items.len() ==> !lex_lt(entries[order[j]].0@, entries[order[i]].0@)
        }
}

/// The entries of a directory, ordered by name.
pub fn entries_by_name(entries: &Vec<(String, bool, u64)>) -> (r: Vec<Json>)
    ensures
        listed_by_name(entries@, r@),
{
    let mut keyed: Vec<(String, usize)> = Vec::new();
    let ghost mut order: Seq<int> = Seq::empty();
    let mut k: usize = 0;
    while k < entries.len()
        invariant
            k <= entries@.len(),
            keyed@.len() == k,
            order.len() == k,
            forall|i: int|
                0 <= i < k ==> 0 <= #[trigger] order[i] < k && keyed@[i].1 == order[i] && keyed@[i].0@
                    == entries@[order[i]].0@,
            forall|i: int, j: int| 0 <= i < j < k ==> order[i] != order[j],
            forall|i: int, j: int| 0 <= i < j < keyed@.len() ==> !lex_lt(keyed@[j].0@, keyed@[i].0@),
        decreases entries@.len() - k,
    {
        let name = lit(entries[k].0.as_str());
        let ghost prev = keyed@;
        let ghost prev_order = order;
        let pos = insert_after_equal(&mut keyed, (name, k));
        proof {
            order = prev_order.insert(pos as int, k as int);
            assert forall|i: int|
                0 <= i < k + 1 implies 0 <= #[trigger] order[i] < k + 1 && keyed@[i].1 == order[i]
                    && keyed@[i].0@ == entries@[order[i]].0@ by {
                if i < pos {
                    assert(keyed@[i] == prev[i]);
                } else if i > pos {
                    assert(keyed@[i] == prev[i - 1]);
                }
            }
            assert forall|i: int, j: int| 0 <= i < j < k + 1 implies order[i] != order[j] by {
                if i < pos && j > pos {
                    assert(order[j] == prev_order[j - 1]);
                } else if i > pos {
                    assert(order[i] == prev_order[i - 1]);
                    assert(order[j] == prev_order[j - 1]);
                }
            }
        }
        k = k + 1;
    }
    let mut out: Vec<Json> = Vec::new();
    let mut i: usize = 0;
    while i < keyed.len()
        invariant
            i <= keyed@.len(),
            keyed@.len() == entries@.len(),
            out@.len() == i,
            forall|q: int|
                0 <= q < keyed@.len() ==> 0 <= #[trigger] order[q] < keyed@.len() && keyed@[q].1
                    == order[q],
            forall|q: int|
                0 <= q < i ==> (#[trigger] out@[q]).text@ == file_entry_text(entries@[order[q]]),
        decreases keyed@.len() - i,
    {
        let b: usize = keyed[i].1;
        assert(0 <= order[i as int] < keyed@.len() && keyed@[i as int].1 == order[i as int]);
        out.push(file_entry(&entries[b]));
        i = i + 1;
    }
    proof {
        assert forall|a: int, b: int| 0 <= a < b < out@.len() implies !lex_lt(
            entries@[order[b]].0@,
            entries@[order[a]].0@,
        ) by {
            assert(keyed@[a].0@ == entries@[order[a]].0@);
            assert(keyed@[b].0@ == entries@[order[b]].0@);
        }
        assert(order.len() == out@.len());
    }
    out
}

/// The answer to `list`.
pub open spec fn list_result_text(path: Seq<char>, items: Seq<Json>) -> Seq<char> {
    raw_object_text(
        seq![
            ("count"@, dec(items.len())),
            ("files"@, array_text(items)),
            ("path"@, json_quoted(path)),
        ],
    )
}

pub fn list_result(path: &str, entries: &Vec<(String, bool, u64)>) -> (r: Json)
    ensures
        exists|items: Seq<Json>| #[trigger]
            listed_by_name(entries@, items) && r.text@ == list_result_text(path@, items),
{
    let items = entries_by_name(entries);
    let ghost iv = items@;
    let n: usize = items.len();
    let mut es: Vec<(String, Json)> = Vec::new();
    es.push((lit("count"), uint_value(n as u64)));
    es.push((lit("files"), array_value(items)));
    es.push((lit("path"), string_value(lit(path))));
    let ghost e = es@;
    let r = object_of(es);
    assert(entry_pairs(e) =~= seq![
        ("count"@, dec(iv.len())),
        ("files"@, array_text(iv)),
        ("path"@, json_quoted(path@)),
    ]);
    r
}

} // verus!
