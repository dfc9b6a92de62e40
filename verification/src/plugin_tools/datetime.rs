//! The date-time plugin: which requests it answers and how the local time
//! is laid out. Reading the clock and the machine's time zone is outside.
use vstd::prelude::*;
use crate::json::{int_value, json_quoted, string_value, Json};
use crate::plugin_manager::{lit, str_is};
use crate::plugin_tools::common::{entry_pairs, object_of, raw_object_text};

verus! {

/// The actions that ask for the time.
pub open spec fn is_time_action(a: Seq<char>) -> bool {
    a == "now"@ || a == "datetime"@ || a == "time"@ || a == "date"@
}

pub fn time_action(action: &str) -> (r: bool)
    ensures
        r == is_time_action(action@),
{
    str_is(action, "now") || str_is(action, "datetime") || str_is(action, "time") || str_is(
        action,
        "date",
    )
}

/// The local time as the plugin reports it, from its formatted parts.
pub fn datetime_result(
    datetime: &str,
    date: &str,
    time: &str,
    day_of_week: &str,
    timezone: &str,
    unix: i64,
) -> (r: Json)
    ensures
        r.text@ == raw_object_text(
            seq![
                ("date"@, json_quoted(date@)),
                ("datetime"@, json_quoted(datetime@)),
                ("day_of_week"@, json_quoted(day_of_week@)),
                ("time"@, json_quoted(time@)),
                ("timezone"@, json_quoted(timezone@)),
                ("unix"@, crate::text::dec_signed(unix as int)),
            ],
        ),
{
    let mut es: Vec<(String, Json)> = Vec::new();
    es.push((lit("date"), string_value(lit(date))));
    es.push((lit("datetime"), string_value(lit(datetime))));
    es.push((lit("day_of_week"), string_value(lit(day_of_week))));
    es.push((lit("time"), string_value(lit(time))));
    es.push((lit("timezone"), string_value(lit(timezone))));
    es.push((lit("unix"), int_value(unix)));
    let ghost e = es@;
    let r = object_of(es);
    assert(entry_pairs(e) =~= seq![
        ("date"@, json_quoted(date@)),
        ("datetime"@, json_quoted(datetime@)),
        ("day_of_week"@, json_quoted(day_of_week@)),
        ("time"@, json_quoted(time@)),
        ("timezone"@, json_quoted(timezone@)),
        ("unix"@, crate::text::dec_signed(unix as int)),
    ]);
    r
}

} // verus!
