//! The network diagnostics plugin: which host is probed, how ping output
//! is read, and how each answer is laid out.
use vstd::prelude::*;
use crate::json::{uint_value, bool_value, int_value, json_quoted, null_value, string_value, Json};
use crate::plugin_manager::{lit, str_is};
use crate::plugin_tools::common::{entry_pairs, object_of, raw_object_text, str_array, str_array_text};
use crate::plugin_tools::files::{lines_of, text_lines};
use crate::plugin_tools::updater::at_most;
use crate::summary::{pfx, prefix_bytes};
use crate::json::array_text;
use crate::json::array_value;
use crate::text::{
    chars_of, contains_seq, contains_str, dec, is_ascii_alnum, is_ascii_alnum_spec, push_decimal, push_str, string_of, trim, trim_chars,
};

verus! {

// ─── The host ────────────────────────────────────────────────────────────────

/// Characters a host name may keep.
pub open spec fn host_char(c: char) -> bool {
    is_ascii_alnum_spec(c) || c == '.' || c == '-'
}

/// The characters of `s` that a host name may keep, in order.
pub open spec fn host_chars(s: Seq<char>) -> Seq<char>
    decreases s.len(),
{
    if s.len() == 0 {
        Seq::empty()
    } else if host_char(s.last()) {
        host_chars(s.drop_last()).push(s.last())
    } else {
        host_chars(s.drop_last())
    }
}

proof fn lemma_host_chars(s: Seq<char>)
    ensures
        forall|i: int| 0 <= i < host_chars(s).len() ==> host_char(#[trigger] host_chars(s)[i]),
    decreases s.len(),
{
    if s.len() > 0 {
        lemma_host_chars(s.drop_last());
        let h = host_chars(s.drop_last());
        if host_char(s.last()) {
            assert forall|i: int| 0 <= i < h.push(s.last()).len() implies host_char(
                #[trigger] h.push(s.last())[i],
            ) by {
                if i < h.len() {
                    assert(h.push(s.last())[i] == h[i]);
                }
            }
        }
    }
}

/// Whatever a request names, the host probed holds only letters, digits,
/// `.` and `-`, and at most 253 of them.
pub proof fn law_host_sanitized(args: Seq<char>)
    ensures
        target_host_of(args).len() <= 253,
        forall|i: int|
            0 <= i < target_host_of(args).len() ==> host_char(#[trigger] target_host_of(args)[i]),
{
    reveal_strlit("8.8.8.8");
    lemma_host_chars(args);
    let h = host_chars(args);
    if args.len() > 0 && h.len() > 253 {
        assert forall|i: int| 0 <= i < h.take(253).len() implies host_char(
            #[trigger] h.take(253)[i],
        ) by {
            assert(h.take(253)[i] == h[i]);
        }
    }
}

/// A host name cleaned of everything else, at most 253 characters.
pub fn sanitize_host(raw: &str) -> (r: String)
    ensures
        r@ == at_most(host_chars(raw@), 253),
{
    let v = chars_of(raw);
    let mut out: Vec<char> = Vec::new();
    let mut i: usize = 0;
    while i < v.len()
        invariant
            i <= v@.len(),
            out@ == at_most(host_chars(v@.take(i as int)), 253),
        decreases v@.len() - i,
    {
        let ghost before = host_chars(v@.take(i as int));
        assert(v@.take(i + 1).drop_last() =~= v@.take(i as int));
        let c = v[i];
        if is_ascii_alnum(c) || c == '.' || c == '-' {
            if out.len() < 253 {
                out.push(c);
                assert(at_most(before.push(c), 253) =~= before.push(c));
            } else {
                assert(at_most(before.push(c), 253) =~= at_most(before, 253));
            }
        }
        i = i + 1;
    }
    assert(v@.take(v@.len() as int) =~= v@);
    string_of(&out)
}

/// The host a request names: `8.8.8.8` when none is given.
pub open spec fn target_host_of(args: Seq<char>) -> Seq<char> {
    if args.len() == 0 {
        "8.8.8.8"@
    } else {
        at_most(host_chars(args), 253)
    }
}

/// The host to probe, from the trimmed arguments.
pub fn target_host(args: &str) -> (r: String)
    ensures
        r@ == target_host_of(args@),
{
    if chars_of(args).len() == 0 {
        lit("8.8.8.8")
    } else {
        sanitize_host(args)
    }
}

/// What a request asks for.
#[derive(Clone, Copy, Debug, PartialEq, Eq, Structural)]
pub enum NetCheck {
    Ping,
    Dns,
    Latency,
}

/// `dns` and `latency` by name; anything else pings.
pub fn net_check(action: &str) -> (r: NetCheck)
    ensures
        r == (if action@ == "dns"@ {
            NetCheck::Dns
        } else if action@ == "latency"@ {
            NetCheck::Latency
        } else {
            NetCheck::Ping
        }),
{
    if str_is(action, "dns") {
        NetCheck::Dns
    } else if str_is(action, "latency") {
        NetCheck::Latency
    } else {
        NetCheck::Ping
    }
}

// ─── Reading ping output ─────────────────────────────────────────────────────

/// `str::split(sep)`: the pieces between separators (always at least one).
pub open spec fn sep_pieces(s: Seq<char>, sep: char) -> Seq<Seq<char>>
    decreases s.len(),
{
    if s.len() == 0 {
        seq![Seq::<char>::empty()]
    } else {
        let rest = sep_pieces(s.drop_last(), sep);
        if s.last() == sep {
            rest.push(Seq::empty())
        } else {
            rest.update(rest.len() - 1, rest.last().push(s.last()))
        }
    }
}

proof fn lemma_sep_pieces_len(s: Seq<char>, sep: char)
    ensures
        sep_pieces(s, sep).len() >= 1,
    decreases s.len(),
{
    if s.len() > 0 {
        lemma_sep_pieces_len(s.drop_last(), sep);
    }
}

fn split_on(v: &Vec<char>, sep: char) -> (r: Vec<Vec<char>>)
    ensures
        r@.map_values(|p: Vec<char>| p@) == sep_pieces(v@, sep),
{
    let mut pieces: Vec<Vec<char>> = Vec::new();
    pieces.push(Vec::new());
    assert(pieces@.map_values(|p: Vec<char>| p@) =~= sep_pieces(v@.take(0), sep));
    let mut i: usize = 0;
    while i < v.len()
        invariant
            i <= v@.len(),
            pieces@.len() >= 1,
            pieces@.map_values(|p: Vec<char>| p@) == sep_pieces(v@.take(i as int), sep),
        decreases v@.len() - i,
    {
        let ghost prev = pieces@.map_values(|p: Vec<char>| p@);
        assert(v@.take(i + 1).drop_last() =~= v@.take(i as int));
        if v[i] == sep {
            pieces.push(Vec::new());
            assert(pieces@.map_values(|p: Vec<char>| p@) =~= prev.push(Seq::empty()));
        } else {
            let mut cur = pieces.pop().unwrap();
            cur.push(v[i]);
            pieces.push(cur);
            assert(pieces@.map_values(|p: Vec<char>| p@) =~= prev.update(
                prev.len() - 1,
                prev.last().push(v@[i as int]),
            ));
        }
        i = i + 1;
    }
    assert(v@.take(v@.len() as int) =~= v@);
    pieces
}

/// A line that holds the round-trip summary.
pub open spec fn rtt_line(l: Seq<char>) -> bool {
    contains_seq(l, "min/avg/max"@) || contains_seq(l, "rtt"@)
}

/// A line or piece that holds the packet loss.
pub open spec fn loss_line(l: Seq<char>) -> bool {
    contains_seq(l, "packet loss"@)
}

/// What is looked for: the round-trip summary, or the packet loss.
pub open spec fn line_hit(l: Seq<char>, rtt: bool) -> bool {
    if rtt {
        rtt_line(l)
    } else {
        loss_line(l)
    }
}

/// The first of `ls`, from index `i` on, that holds what is looked for.
pub open spec fn first_line(ls: Seq<Seq<char>>, rtt: bool, i: int) -> Option<Seq<char>>
    decreases ls.len() - i,
{
    if i < 0 || i >= ls.len() {
        None
    } else if line_hit(ls[i], rtt) {
        Some(ls[i])
    } else {
        first_line(ls, rtt, i + 1)
    }
}

/// The round-trip figures: the first summary line's text after its first
/// `=` (up to any next one), trimmed.
pub open spec fn rtt_stats_of(stdout: Seq<char>) -> Option<Seq<char>> {
    match first_line(text_lines(stdout), true, 0) {
        Some(l) => if sep_pieces(l, '=').len() > 1 {
            Some(trim(sep_pieces(l, '=')[1]))
        } else {
            None
        },
        None => None,
    }
}

/// The packet loss: the comma-separated piece of the first loss line that
/// names it, trimmed.
pub open spec fn packet_loss_of(stdout: Seq<char>) -> Option<Seq<char>> {
    match first_line(text_lines(stdout), false, 0) {
        Some(l) => match first_line(sep_pieces(l, ','), false, 0) {
            Some(p) => Some(trim(p)),
            None => None,
        },
        None => None,
    }
}

fn find_line(ls: &Vec<Vec<char>>, rtt: bool) -> (r: Option<usize>)
    ensures
        match r {
            Some(i) => i < ls@.len() && first_line(ls@.map_values(|l: Vec<char>| l@), rtt, 0)
                == Some(ls@[i as int]@),
            None => first_line(ls@.map_values(|l: Vec<char>| l@), rtt, 0) is None,
        },
{
    let ghost lv = ls@.map_values(|l: Vec<char>| l@);
    let mut i: usize = ls.len();
    // Walk back from the end, so that the one found last is the first.
    let mut found: Option<usize> = None;
    while i > 0
        invariant
            i <= ls@.len(),
            lv == ls@.map_values(|l: Vec<char>| l@),
            match found {
                Some(k) => k < ls@.len() && first_line(lv, rtt, i as int) == Some(ls@[k as int]@),
                None => first_line(lv, rtt, i as int) is None,
            },
        decreases i,
    {
        i = i - 1;
        let l = &ls[i];
        let hit: bool = if rtt {
            contains_str(l, "min/avg/max") || contains_str(l, "rtt")
        } else {
            contains_str(l, "packet loss")
        };
        assert(hit == line_hit(lv[i as int], rtt));
        if hit {
            found = Some(i);
        }
    }
    found
}

/// The round-trip figures of a ping's output, when it has them.
pub fn rtt_stats(stdout: &str) -> (r: Option<String>)
    ensures
        match r {
            Some(s) => rtt_stats_of(stdout@) == Some(s@),
            None => rtt_stats_of(stdout@) is None,
        },
{
    let ls = lines_of(stdout);
    match find_line(&ls, true) {
        Some(i) => {
            let ps = split_on(&ls[i], '=');
            assert(ps@.map_values(|p: Vec<char>| p@).len() == ps@.len());
            if ps.len() > 1 {
                assert(ps@.map_values(|p: Vec<char>| p@)[1] == ps@[1]@);
                Some(string_of(&trim_chars(&ps[1])))
            } else {
                None
            }
        },
        None => None,
    }
}

/// The packet loss of a ping's output, when it reports it.
pub fn packet_loss(stdout: &str) -> (r: Option<String>)
    ensures
        match r {
            Some(s) => packet_loss_of(stdout@) == Some(s@),
            None => packet_loss_of(stdout@) is None,
        },
{
    let ls = lines_of(stdout);
    match find_line(&ls, false) {
        Some(i) => {
            let ps = split_on(&ls[i], ',');
            match find_line(&ps, false) {
                Some(k) => Some(string_of(&trim_chars(&ps[k]))),
                None => None,
            }
        },
        None => None,
    }
}

/// A string or `null`.
pub open spec fn opt_text(s: Option<Seq<char>>) -> Seq<char> {
    match s {
        Some(t) => json_quoted(t),
        None => "null"@,
    }
}

fn opt_string(s: Option<String>) -> (r: Json)
    ensures
        r.text@ == opt_text(match s {
            Some(t) => Some(t@),
            None => None,
        }),
{
    match s {
        Some(t) => string_value(t),
        None => null_value(),
    }
}

/// The answer to a ping: what was reached and how, with the first 400
/// bytes of the output.
pub open spec fn ping_text(host: Seq<char>, reachable: bool, stdout: Seq<char>) -> Seq<char> {
    raw_object_text(
        seq![
            ("host"@, json_quoted(host)),
            ("packet_loss"@, opt_text(packet_loss_of(stdout))),
            ("raw"@, json_quoted(pfx(stdout, 400)->0)),
            ("reachable"@, if reachable {
                "true"@
            } else {
                "false"@
            }),
            ("rtt_stats"@, opt_text(rtt_stats_of(stdout))),
        ],
    )
}

/// The result of a ping of `host` that exited with `reachable`.
pub fn ping_result(host: &str, reachable: bool, stdout: &str) -> (r: Json)
    requires
        pfx(stdout@, 400) is Some,
    ensures
        r.text@ == ping_text(host@, reachable, stdout@),
{
    let raw = prefix_bytes(&chars_of(stdout), 400).unwrap();
    let mut es: Vec<(String, Json)> = Vec::new();
    es.push((lit("host"), string_value(lit(host))));
    es.push((lit("packet_loss"), opt_string(packet_loss(stdout))));
    es.push((lit("raw"), string_value(string_of(&raw))));
    es.push((lit("reachable"), bool_value(reachable)));
    es.push((lit("rtt_stats"), opt_string(rtt_stats(stdout))));
    let ghost e = es@;
    let r = object_of(es);
    assert(entry_pairs(e) =~= seq![
        ("host"@, json_quoted(host@)),
        ("packet_loss"@, opt_text(packet_loss_of(stdout@))),
        ("raw"@, json_quoted(pfx(stdout@, 400)->0)),
        ("reachable"@, if reachable {
            "true"@
        } else {
            "false"@
        }),
        ("rtt_stats"@, opt_text(rtt_stats_of(stdout@))),
    ]);
    r
}

/// `ping failed: <cause>`.
pub fn ping_failure(cause: &str) -> (r: String)
    ensures
        r@ == "ping failed: "@ + cause@,
{
    let mut out: Vec<char> = Vec::new();
    push_str(&mut out, "ping failed: ");
    push_str(&mut out, cause);
    string_of(&out)
}

// ─── DNS ─────────────────────────────────────────────────────────────────────

/// `<host>:80`, the address a lookup resolves.
pub fn dns_address(host: &str) -> (r: String)
    ensures
        r@ == host@ + ":80"@,
{
    let mut out: Vec<char> = Vec::new();
    push_str(&mut out, host);
    push_str(&mut out, ":80");
    string_of(&out)
}

/// The answer to a lookup that returned `resolved` after `elapsed_ms`:
/// an error when it returned nothing.
pub fn dns_result(host: &str, resolved: Vec<String>, elapsed_ms: u64) -> (r: Result<Json, String>)
    ensures
        resolved@.len() == 0 <==> r is Err,
        r matches Err(e) ==> e@ == "No DNS records for '"@ + host@ + "'"@,
        r matches Ok(j) ==> j.text@ == raw_object_text(
            seq![
                ("host"@, json_quoted(host@)),
                ("record_count"@, dec(resolved@.len())),
                ("resolve_ms"@, dec(elapsed_ms as nat)),
                ("resolved"@, str_array_text(resolved@.map_values(|s: String| s@))),
            ],
        ),
{
    let n: usize = resolved.len();
    if n == 0 {
        let mut out: Vec<char> = Vec::new();
        push_str(&mut out, "No DNS records for '");
        push_str(&mut out, host);
        push_str(&mut out, "'");
        return Err(string_of(&out));
    }
    let mut es: Vec<(String, Json)> = Vec::new();
    es.push((lit("host"), string_value(lit(host))));
    es.push((lit("record_count"), uint_value(n as u64)));
    es.push((lit("resolve_ms"), uint_value(elapsed_ms)));
    es.push((lit("resolved"), str_array(&resolved)));
    let ghost e = es@;
    let r = object_of(es);
    assert(entry_pairs(e) =~= seq![
        ("host"@, json_quoted(host@)),
        ("record_count"@, dec(resolved@.len())),
        ("resolve_ms"@, dec(elapsed_ms as nat)),
        ("resolved"@, str_array_text(resolved@.map_values(|s: String| s@))),
    ]);
    Ok(r)
}

/// `DNS failed for '<host>': <cause>`.
pub fn dns_failure(host: &str, cause: &str) -> (r: String)
    ensures
        r@ == "DNS failed for '"@ + host@ + "': "@ + cause@,
{
    let mut out: Vec<char> = Vec::new();
    push_str(&mut out, "DNS failed for '");
    push_str(&mut out, host);
    push_str(&mut out, "': ");
    push_str(&mut out, cause);
    string_of(&out)
}

// ─── Latency ─────────────────────────────────────────────────────────────────

/// The ports probed, in order, with their protocol names.
pub open spec fn probe_ports() -> Seq<(u16, Seq<char>)> {
    seq![(443u16, "HTTPS"@), (80u16, "HTTP"@), (22u16, "SSH"@)]
}

pub fn latency_probes() -> (r: Vec<(u16, String)>)
    ensures
        r@.map_values(|p: (u16, String)| (p.0, p.1@)) == probe_ports(),
{
    let mut v: Vec<(u16, String)> = Vec::new();
    v.push((443, lit("HTTPS")));
    v.push((80, lit("HTTP")));
    v.push((22, lit("SSH")));
    assert(v@.map_values(|p: (u16, String)| (p.0, p.1@)) =~= probe_ports());
    v
}

/// `<host>:<port>`, the address a probe connects to.
pub fn probe_address(host: &str, port: u16) -> (r: String)
    ensures
        r@ == host@ + ":"@ + dec(port as nat),
{
    let mut out: Vec<char> = Vec::new();
    push_str(&mut out, host);
    push_str(&mut out, ":");
    push_decimal(&mut out, port as u64);
    string_of(&out)
}

/// One probe: whether the port answered, and how fast when it did.
pub fn probe_result(protocol: &str, port: u16, open: bool, ms: u64) -> (r: Json)
    ensures
        r.text@ == raw_object_text(
            seq![
                ("latency_ms"@, if open {
                    dec(ms as nat)
                } else {
                    "null"@
                }),
                ("open"@, if open {
                    "true"@
                } else {
                    "false"@
                }),
                ("port"@, dec(port as nat)),
                ("protocol"@, json_quoted(protocol@)),
            ],
        ),
{
    let mut es: Vec<(String, Json)> = Vec::new();
    es.push((lit("latency_ms"), if open {
        uint_value(ms)
    } else {
        null_value()
    }));
    es.push((lit("open"), bool_value(open)));
    es.push((lit("port"), uint_value(port as u64)));
    es.push((lit("protocol"), string_value(lit(protocol))));
    let ghost e = es@;
    let r = object_of(es);
    assert(entry_pairs(e) =~= seq![
        ("latency_ms"@, if open {
            dec(ms as nat)
        } else {
            "null"@
        }),
        ("open"@, if open {
            "true"@
        } else {
            "false"@
        }),
        ("port"@, dec(port as nat)),
        ("protocol"@, json_quoted(protocol@)),
    ]);
    r
}

/// `{"host":..,"probes":[..]}`.
pub fn latency_result(host: &str, probes: Vec<Json>) -> (r: Json)
    ensures
        r.text@ == raw_object_text(
            seq![("host"@, json_quoted(host@)), ("probes"@, array_text(probes@))],
        ),
{
    let ghost ps = probes@;
    let mut es: Vec<(String, Json)> = Vec::new();
    es.push((lit("host"), string_value(lit(host))));
    es.push((lit("probes"), array_value(probes)));
    let ghost e = es@;
    let r = object_of(es);
    assert(entry_pairs(e) =~= seq![("host"@, json_quoted(host@)), ("probes"@, array_text(ps))]);
    r
}

} // verus!
