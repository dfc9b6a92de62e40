//! The calculator plugin: which requests it takes and which characters of
//! an expression reach the evaluator. The evaluation itself works in
//! floating point and happens outside.
use vstd::prelude::*;
use crate::json::Json;
use crate::plugin_manager::{lit, str_is};
use crate::plugin_tools::common::{arg_or, payload_arg, unknown_action};
use crate::text::{chars_of, push_str, string_of};

verus! {

/// The actions that evaluate an expression.
pub open spec fn is_calc_action(a: Seq<char>) -> bool {
    a == "calculate"@ || a == "eval"@ || a == "compute"@
}

/// Characters an expression may keep: digits and `+-*/%.() ^eE`.
pub open spec fn math_char(c: char) -> bool {
    ('0' <= c <= '9') || c == '+' || c == '-' || c == '*' || c == '/' || c == '%' || c == '.'
        || c == '(' || c == ')' || c == ' ' || c == '^' || c == 'e' || c == 'E'
}

/// The characters of `s` an expression may keep, in order.
pub open spec fn math_chars(s: Seq<char>) -> Seq<char>
    decreases s.len(),
{
    if s.len() == 0 {
        Seq::empty()
    } else if math_char(s.last()) {
        math_chars(s.drop_last()).push(s.last())
    } else {
        math_chars(s.drop_last())
    }
}

proof fn lemma_math_chars(s: Seq<char>)
    ensures
        math_chars(s).len() <= s.len(),
        forall|i: int| 0 <= i < math_chars(s).len() ==> math_char(#[trigger] math_chars(s)[i]),
    decreases s.len(),
{
    if s.len() > 0 {
        lemma_math_chars(s.drop_last());
        let h = math_chars(s.drop_last());
        if math_char(s.last()) {
            assert forall|i: int| 0 <= i < h.push(s.last()).len() implies math_char(
                #[trigger] h.push(s.last())[i],
            ) by {
                if i < h.len() {
                    assert(h.push(s.last())[i] == h[i]);
                }
            }
        }
    }
}

/// Sanitising keeps exactly the ASCII digits and the characters of
/// `+-*/%.() ^eE` of the expression, each of them, in their order: the
/// expression filtered by that set.
pub proof fn law_sanitize_is_filter(s: Seq<char>)
    ensures
        math_chars(s) == s.filter(
            |c: char|
                ('0' <= c && c <= '9') || c == '+' || c == '-' || c == '*' || c == '/' || c
                    == '%' || c == '.' || c == '(' || c == ')' || c == ' ' || c == '^' || c == 'e'
                    || c == 'E',
        ),
    decreases s.len(),
{
    reveal_with_fuel(Seq::filter, 1);
    if s.len() > 0 {
        law_sanitize_is_filter(s.drop_last());
    }
}

/// An expression cleaned of every other character.
pub fn sanitize_expression(expr: &str) -> (r: String)
    ensures
        r@ == math_chars(expr@),
        forall|i: int| 0 <= i < r@.len() ==> math_char(#[trigger] r@[i]),
{
    proof {
        lemma_math_chars(expr@);
    }
    let v = chars_of(expr);
    let mut out: Vec<char> = Vec::new();
    let mut i: usize = 0;
    while i < v.len()
        invariant
            i <= v@.len(),
            out@ == math_chars(v@.take(i as int)),
        decreases v@.len() - i,
    {
        assert(v@.take(i + 1).drop_last() =~= v@.take(i as int));
        let c = v[i];
        if ('0' <= c && c <= '9') || c == '+' || c == '-' || c == '*' || c == '/' || c == '%' || c
            == '.' || c == '(' || c == ')' || c == ' ' || c == '^' || c == 'e' || c == 'E' {
            out.push(c);
        }
        i = i + 1;
    }
    assert(v@.take(v@.len() as int) =~= v@);
    string_of(&out)
}

/// What a calculator request comes to: the cleaned expression to evaluate,
/// or the error to answer with.
pub open spec fn calc_request_of(action: Seq<char>, payload: Json) -> Result<Seq<char>, Seq<char>> {
    if !is_calc_action(action) {
        Err("Unknown action '"@ + action + "'. Supported: calculate, eval, compute"@)
    } else {
        match arg_or(payload, "expression"@) {
            None => Err("Missing 'expression' in payload"@),
            Some(e) => if math_chars(e).len() == 0 {
                Err("Expression contains no valid math characters"@)
            } else {
                Ok(math_chars(e))
            },
        }
    }
}

/// Reads a calculator request.
pub fn calc_request(action: &str, payload: &Json) -> (r: Result<String, String>)
    ensures
        match r {
            Ok(e) => calc_request_of(action@, *payload) == Ok::<Seq<char>, Seq<char>>(e@),
            Err(m) => calc_request_of(action@, *payload) == Err::<Seq<char>, Seq<char>>(m@),
        },
{
    if !(str_is(action, "calculate") || str_is(action, "eval") || str_is(action, "compute")) {
        let m = unknown_action(action, "calculate, eval, compute");
        proof {
            reveal_strlit("'. Supported: ");
            reveal_strlit("calculate, eval, compute");
            reveal_strlit("'. Supported: calculate, eval, compute");
            assert(m@ =~= "Unknown action '"@ + action@ + "'. Supported: calculate, eval, compute"@);
        }
        return Err(m);
    }
    match payload_arg(payload, "expression") {
        None => Err(lit("Missing 'expression' in payload")),
        Some(e) => {
            let safe = sanitize_expression(e.as_str());
            if chars_of(safe.as_str()).len() == 0 {
                Err(lit("Expression contains no valid math characters"))
            } else {
                Ok(safe)
            }
        },
    }
}

/// `Evaluation error: <cause>`.
pub fn evaluation_error(cause: &str) -> (r: String)
    ensures
        r@ == "Evaluation error: "@ + cause@,
{
    let mut out: Vec<char> = Vec::new();
    push_str(&mut out, "Evaluation error: ");
    push_str(&mut out, cause);
    string_of(&out)
}

/// `Unexpected result type: <value>`, for a result that is not a number.
pub fn unexpected_result(value: &str) -> (r: String)
    ensures
        r@ == "Unexpected result type: "@ + value@,
{
    let mut out: Vec<char> = Vec::new();
    push_str(&mut out, "Unexpected result type: ");
    push_str(&mut out, value);
    string_of(&out)
}

} // verus!
