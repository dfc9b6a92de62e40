//! The GPIO plugin: which pins may be driven and how commands read.
use vstd::prelude::*;
use crate::json::{array_text, array_value, bool_value, json_quoted, string_value, uint_value, Json};
use crate::plugin_manager::{lit, str_is};
use crate::plugin_tools::common::{entry_pairs, object_of, raw_object_text};
use crate::summary::join;
use crate::prompt_engine::{first_ws, lemma_first_ws};
use crate::text::{
    chars_of, dec, is_whitespace, is_ws, parse_u64, parse_u64_spec, push_chars, push_decimal,
    push_str, slice_chars, string_of, trim, trim_chars,
};

verus! {

/// Pins that may be touched: BCM 2 to 27.
pub open spec fn safe_pin(pin: u8) -> bool {
    2 <= pin <= 27
}

/// What a `/gpio` request asks for.
pub enum GpioCommand {
    /// Show all exported pins.
    Status,
    /// Drive a pin high (`true`) or low.
    Write(u8, bool),
    Read(u8),
    /// A request that cannot be carried out, with its error.
    Invalid(String),
}

/// `[2, 3, ..., 27]`, as the safe list prints.
pub open spec fn safe_list_text() -> Seq<char> {
    "[2, 3, 4, 5, 6, 7, 8, 9, 10, 11, 12, 13, 14, 15, 16, 17, 18, 19, 20, 21, 22, 23, 24, 25, 26, 27]"@
}

pub open spec fn gpio_command_of(args: Seq<char>) -> GpioCommandView {
    if args.len() == 0 || args == "status"@ || args == "all"@ {
        GpioCommandView::Status
    } else {
        match first_ws(args) {
            None => if args == "status"@ || args == "all"@ {
                GpioCommandView::Status
            } else {
                GpioCommandView::Invalid(
                    "Usage: /gpio <on|off|read> <pin>  Got: '"@ + args + "'"@,
                )
            },
            Some(k) => {
                let cmd = args.take(k);
                let pin_text = trim(args.skip(k + 1));
                match parse_u64_spec(pin_text) {
                    Some(p) => if p > 255 {
                        GpioCommandView::Invalid("Invalid pin number '"@ + pin_text + "'"@)
                    } else if !safe_pin(p as u8) {
                        GpioCommandView::Invalid(
                            "Pin "@ + dec(p as nat) + " not in safe list "@ + safe_list_text(),
                        )
                    } else if cmd == "on"@ || cmd == "high"@ || cmd == "set"@ {
                        GpioCommandView::Write(p as u8, true)
                    } else if cmd == "off"@ || cmd == "low"@ || cmd == "clear"@ {
                        GpioCommandView::Write(p as u8, false)
                    } else if cmd == "read"@ || cmd == "get"@ {
                        GpioCommandView::Read(p as u8)
                    } else {
                        GpioCommandView::Invalid(
                            "Unknown command '"@ + cmd + "'. Use: on, off, read, status"@,
                        )
                    },
                    None => GpioCommandView::Invalid("Invalid pin number '"@ + pin_text + "'"@),
                }
            },
        }
    }
}

/// Only pins of the safe list are ever driven or read, whatever the request.
pub proof fn law_gpio_safe_pins(args: Seq<char>)
    ensures
        gpio_command_of(args) matches GpioCommandView::Write(p, _) ==> safe_pin(p),
        gpio_command_of(args) matches GpioCommandView::Read(p) ==> safe_pin(p),
{
}

/// A command as the specification speaks of it.
pub enum GpioCommandView {
    Status,
    Write(u8, bool),
    Read(u8),
    Invalid(Seq<char>),
}

pub open spec fn view_of(c: GpioCommand) -> GpioCommandView {
    match c {
        GpioCommand::Status => GpioCommandView::Status,
        GpioCommand::Write(p, h) => GpioCommandView::Write(p, h),
        GpioCommand::Read(p) => GpioCommandView::Read(p),
        GpioCommand::Invalid(m) => GpioCommandView::Invalid(m@),
    }
}

fn first_ws_of(v: &Vec<char>) -> (r: Option<usize>)
    ensures
        match r {
            Some(k) => k < v@.len() && first_ws(v@) == Some(k as int),
            None => first_ws(v@) is None,
        },
{
    let mut i: usize = 0;
    while i < v.len()
        invariant
            i <= v@.len(),
            forall|j: int| 0 <= j < i ==> !is_ws(#[trigger] v@[j]),
        decreases v@.len() - i,
    {
        if is_whitespace(v[i]) {
            proof {
                lemma_first_ws(v@, i as int);
            }
            return Some(i);
        }
        i = i + 1;
    }
    proof {
        lemma_first_ws(v@, v@.len() as int);
    }
    None
}

fn quoted_error(prefix: &str, middle: &Vec<char>, suffix: &str) -> (r: String)
    ensures
        r@ == prefix@ + middle@ + suffix@,
{
    let mut out: Vec<char> = Vec::new();
    push_str(&mut out, prefix);
    push_chars(&mut out, middle);
    push_str(&mut out, suffix);
    string_of(&out)
}

/// Reads a `/gpio` request (its trimmed arguments).
pub fn gpio_command(args: &str) -> (r: GpioCommand)
    ensures
        view_of(r) == gpio_command_of(args@),
{
    let v = chars_of(args);
    let vl: usize = v.len();
    if vl == 0 || str_is(args, "status") || str_is(args, "all") {
        return GpioCommand::Status;
    }
    match first_ws_of(&v) {
        None => GpioCommand::Invalid(quoted_error("Usage: /gpio <on|off|read> <pin>  Got: '", &v, "'")),
        Some(k) => {
            let cmd = slice_chars(&v, 0, k);
            let rest = slice_chars(&v, k + 1, vl);
            assert(cmd@ =~= v@.take(k as int));
            assert(rest@ =~= v@.skip(k + 1));
            let pin_text = trim_chars(&rest);
            match parse_u64(&pin_text) {
                Some(p) => {
                    if p > 255 {
                        GpioCommand::Invalid(quoted_error("Invalid pin number '", &pin_text, "'"))
                    } else if !(2 <= p && p <= 27) {
                        let mut out: Vec<char> = Vec::new();
                        push_str(&mut out, "Pin ");
                        push_decimal(&mut out, p);
                        push_str(&mut out, " not in safe list ");
                        push_str(
                            &mut out,
                            "[2, 3, 4, 5, 6, 7, 8, 9, 10, 11, 12, 13, 14, 15, 16, 17, 18, 19, 20, 21, 22, 23, 24, 25, 26, 27]",
                        );
                        GpioCommand::Invalid(string_of(&out))
                    } else {
                        let pin: u8 = p as u8;
                        let c = string_of(&cmd);
                        if str_is(c.as_str(), "on") || str_is(c.as_str(), "high") || str_is(
                            c.as_str(),
                            "set",
                        ) {
                            GpioCommand::Write(pin, true)
                        } else if str_is(c.as_str(), "off") || str_is(c.as_str(), "low") || str_is(
                            c.as_str(),
                            "clear",
                        ) {
                            GpioCommand::Write(pin, false)
                        } else if str_is(c.as_str(), "read") || str_is(c.as_str(), "get") {
                            GpioCommand::Read(pin)
                        } else {
                            GpioCommand::Invalid(
                                quoted_error("Unknown command '", &cmd, "'. Use: on, off, read, status"),
                            )
                        }
                    }
                },
                None => GpioCommand::Invalid(quoted_error("Invalid pin number '", &pin_text, "'")),
            }
        },
    }
}

/// `/sys/class/gpio/gpio<pin>`.
pub fn pin_dir(pin: u8) -> (r: String)
    ensures
        r@ == "/sys/class/gpio/gpio"@ + dec(pin as nat),
{
    let mut out: Vec<char> = Vec::new();
    push_str(&mut out, "/sys/class/gpio/gpio");
    push_decimal(&mut out, pin as u64);
    string_of(&out)
}

/// `HIGH` for 1, else `LOW`.
pub fn pin_state(value: u8) -> (r: String)
    ensures
        r@ == if value == 1 {
            "HIGH"@
        } else {
            "LOW"@
        },
{
    if value == 1 {
        lit("HIGH")
    } else {
        lit("LOW")
    }
}

/// A pin's value file read as a number (0 when it is not one).
pub fn pin_value(raw: &str) -> (r: u8)
    ensures
        r == match parse_u64_spec(trim(raw@)) {
            Some(v) => if v <= 255 {
                v as u8
            } else {
                0
            },
            None => 0,
        },
{
    match parse_u64(&trim_chars(&chars_of(raw))) {
        Some(v) => if v <= 255 {
            v as u8
        } else {
            0
        },
        None => 0,
    }
}

/// Why a pin operation failed.
pub enum GpioFailure {
    Export,
    Direction,
    Write,
    Read,
}

/// The error for a failed pin operation, with its cause.
pub fn gpio_failure(kind: GpioFailure, pin: u8, cause: &str) -> (r: String)
    ensures
        r@ == match kind {
            GpioFailure::Export => "Export pin "@ + dec(pin as nat) + ": "@ + cause@
                + " (add user to gpio group: sudo adduser $USER gpio)"@,
            GpioFailure::Direction => "Set direction pin "@ + dec(pin as nat) + ": "@ + cause@,
            GpioFailure::Write => "Write pin "@ + dec(pin as nat) + ": "@ + cause@,
            GpioFailure::Read => "Read pin "@ + dec(pin as nat) + ": "@ + cause@,
        },
{
    let mut out: Vec<char> = Vec::new();
    match kind {
        GpioFailure::Export => push_str(&mut out, "Export pin "),
        GpioFailure::Direction => push_str(&mut out, "Set direction pin "),
        GpioFailure::Write => push_str(&mut out, "Write pin "),
        GpioFailure::Read => push_str(&mut out, "Read pin "),
    }
    push_decimal(&mut out, pin as u64);
    push_str(&mut out, ": ");
    push_str(&mut out, cause);
    match kind {
        GpioFailure::Export => push_str(&mut out, " (add user to gpio group: sudo adduser $USER gpio)"),
        _ => {},
    }
    string_of(&out)
}

// ─── Answers ─────────────────────────────────────────────────────────────────

pub open spec fn state_text(value: u8) -> Seq<char> {
    if value == 1 {
        "HIGH"@
    } else {
        "LOW"@
    }
}

/// A pin as read: `{"direction":..,"pin":..,"state":..,"value":..}`.
pub open spec fn pin_reading_text(pin: u8, value: u8, direction: Seq<char>) -> Seq<char> {
    raw_object_text(
        seq![
            ("direction"@, json_quoted(direction)),
            ("pin"@, dec(pin as nat)),
            ("state"@, json_quoted(state_text(value))),
            ("value"@, dec(value as nat)),
        ],
    )
}

/// The answer to a read of `pin`: its value and direction.
pub fn pin_reading(pin: u8, value: u8, direction: &str) -> (r: Json)
    ensures
        r.text@ == pin_reading_text(pin, value, direction@),
{
    let mut es: Vec<(String, Json)> = Vec::new();
    es.push((lit("direction"), string_value(lit(direction))));
    es.push((lit("pin"), uint_value(pin as u64)));
    es.push((lit("state"), string_value(pin_state(value))));
    es.push((lit("value"), uint_value(value as u64)));
    let ghost e = es@;
    let r = object_of(es);
    assert(entry_pairs(e) =~= seq![
        ("direction"@, json_quoted(direction@)),
        ("pin"@, dec(pin as nat)),
        ("state"@, json_quoted(state_text(value))),
        ("value"@, dec(value as nat)),
    ]);
    r
}

/// The answer to a write: the pin now drives `high` as an output.
pub fn pin_written(pin: u8, high: bool) -> (r: Json)
    ensures
        r.text@ == pin_reading_text(
            pin,
            if high {
                1
            } else {
                0
            },
            "out"@,
        ),
{
    pin_reading(
        pin,
        if high {
            1
        } else {
            0
        },
        "out",
    )
}

/// An exported pin in the status list.
pub open spec fn exported_pin_text(pin: u8, value: u8, direction: Seq<char>) -> Seq<char> {
    raw_object_text(
        seq![
            ("direction"@, json_quoted(direction)),
            ("exported"@, "true"@),
            ("pin"@, dec(pin as nat)),
            ("state"@, json_quoted(state_text(value))),
            ("value"@, dec(value as nat)),
        ],
    )
}

pub fn exported_pin(pin: u8, value: u8, direction: &str) -> (r: Json)
    ensures
        r.text@ == exported_pin_text(pin, value, direction@),
{
    let mut es: Vec<(String, Json)> = Vec::new();
    es.push((lit("direction"), string_value(lit(direction))));
    es.push((lit("exported"), bool_value(true)));
    es.push((lit("pin"), uint_value(pin as u64)));
    es.push((lit("state"), string_value(pin_state(value))));
    es.push((lit("value"), uint_value(value as u64)));
    let ghost e = es@;
    let r = object_of(es);
    assert(entry_pairs(e) =~= seq![
        ("direction"@, json_quoted(direction@)),
        ("exported"@, "true"@),
        ("pin"@, dec(pin as nat)),
        ("state"@, json_quoted(state_text(value))),
        ("value"@, dec(value as nat)),
    ]);
    r
}

/// `[2,3,...,27]`.
pub open spec fn safe_pins_text() -> Seq<char> {
    "["@ + join(Seq::new(26, |i: int| dec((i + 2) as nat)), ","@) + "]"@
}

pub open spec fn status_note() -> Seq<char> {
    "Only exported pins shown. Use /gpio on|off|read <pin> to interact."@
}

/// The status answer: the exported pins (as `exported_pin` gives them),
/// how many, and the safe list.
pub open spec fn gpio_status_text(pins: Seq<Json>) -> Seq<char> {
    raw_object_text(
        seq![
            ("exported_pins"@, dec(pins.len())),
            ("note"@, json_quoted(status_note())),
            ("pins"@, array_text(pins)),
            ("safe_pins"@, safe_pins_text()),
        ],
    )
}

pub fn gpio_status(pins: Vec<Json>) -> (r: Json)
    ensures
        r.text@ == gpio_status_text(pins@),
{
    let ghost pv = pins@;
    let n: usize = pins.len();
    let mut safe: Vec<Json> = Vec::new();
    let mut p: u8 = 2;
    while p <= 27
        invariant
            2 <= p <= 28,
            safe@.len() == p - 2,
            forall|k: int| 0 <= k < safe@.len() ==> (#[trigger] safe@[k]).text@ == dec((k + 2) as nat),
        decreases 28 - p,
    {
        safe.push(uint_value(p as u64));
        p = p + 1;
    }
    let ghost sv = safe@;
    let mut es: Vec<(String, Json)> = Vec::new();
    es.push((lit("exported_pins"), uint_value(n as u64)));
    es.push((lit("note"), string_value(lit("Only exported pins shown. Use /gpio on|off|read <pin> to interact."))));
    es.push((lit("pins"), array_value(pins)));
    es.push((lit("safe_pins"), array_value(safe)));
    let ghost e = es@;
    let r = object_of(es);
    assert(Seq::new(sv.len(), |k: int| sv[k].text@) =~= Seq::new(26, |i: int| dec((i + 2) as nat)));
    assert(entry_pairs(e) =~= seq![
        ("exported_pins"@, dec(pv.len())),
        ("note"@, json_quoted(status_note())),
        ("pins"@, array_text(pv)),
        ("safe_pins"@, safe_pins_text()),
    ]);
    r
}

} // verus!
