//! The `get_time` tool: the current local date and time with its time zone.
use vstd::prelude::*;
use crate::json::{json_entries, json_views, lemma_json_entries, render_json, render_json_text, Json, JsonValue};
use crate::text::{decimal, decimal_chars, digit_char, owned, push_chars, string_of};
use crate::tools::types::{object_schema, object_schema_value, ToolDef, ToolDefView};

verus! {

/// The tool that reports the current time.
pub struct GetTimeTool;

/// The definition of the `get_time` tool.
pub open spec fn get_time_def() -> ToolDefView {
    ToolDefView {
        id: "get_time"@,
        name: "get_time"@,
        description: "Get the current date and time with timezone information. Use this when you need to know the current time or date."@,
        parameters: object_schema(Seq::empty(), Seq::empty()),
    }
}

/// A reading of the local clock, as plain values.
pub struct LocalTime {
    /// RFC 3339 text, with the offset.
    pub iso: String,
    /// `YYYY-MM-DD HH:MM:SS` and the zone.
    pub human_readable: String,
    /// Seconds since the Unix epoch.
    pub unix_timestamp: i64,
    /// The zone's name or offset text.
    pub timezone: String,
    /// Seconds to add to UTC for local time.
    pub offset_seconds: i32,
}

/// The `chrono` format of the human-readable time.
pub const HUMAN_FORMAT: &'static str = "%Y-%m-%d %H:%M:%S %Z";

/// The `chrono` format of the time zone.
pub const ZONE_FORMAT: &'static str = "%Z";

/// Reads the local clock once with `chrono::Local::now` and renders that
/// reading with `to_rfc3339`, `format` (with the two given formats),
/// `timestamp` and the offset's `local_minus_utc`. The formats must be
/// `HUMAN_FORMAT` and `ZONE_FORMAT`: rendering a format with a specifier
/// `chrono` does not know fails, and `to_string` then panics. The reading
/// depends on the moment and the machine, so nothing is stated of the texts;
/// the offset is within a day, as `chrono::FixedOffset` keeps it. (The
/// reading is a `chrono::DateTime<Local>`, whose `TimeZone`-bounded type
/// Verus refuses to declare, so it is rendered within this one item.)
#[verifier::external_body]
fn read_local_clock(human_format: &str, zone_format: &str) -> (r: LocalTime)
    requires
        human_format@ == HUMAN_FORMAT@,
        zone_format@ == ZONE_FORMAT@,
    ensures
        -86400 < r.offset_seconds < 86400,
{
    let now = chrono::Local::now();
    LocalTime {
        iso: now.to_rfc3339(),
        human_readable: now.format(human_format).to_string(),
        unix_timestamp: now.timestamp(),
        timezone: now.format(zone_format).to_string(),
        offset_seconds: now.offset().local_minus_utc(),
    }
}

/// `s` padded with leading zeros to at least `width` characters.
pub open spec fn zero_pad(s: Seq<char>, width: nat) -> Seq<char> {
    if s.len() >= width {
        s
    } else {
        Seq::new((width - s.len()) as nat, |i: int| '0') + s
    }
}

/// The whole hours of an offset in seconds, rounded toward zero.
pub open spec fn offset_hours(secs: int) -> int {
    if secs >= 0 {
        secs / 3600
    } else {
        -((-secs) / 3600)
    }
}

/// The UTC offset in whole hours, signed and zero-padded to five characters
/// (`{:+05}` of the hours): `+0008`, `-0005`, `+0000`.
pub open spec fn offset_text(secs: int) -> Seq<char> {
    let h = offset_hours(secs);
    let sign = if h >= 0 {
        '+'
    } else {
        '-'
    };
    seq![sign] + zero_pad(decimal((if h >= 0 { h } else { -h }) as nat), 4)
}

/// The decimal text of an integer, with a minus sign when negative.
pub open spec fn int_text(n: int) -> Seq<char> {
    if n >= 0 {
        decimal(n as nat)
    } else {
        seq!['-'] + decimal((-n) as nat)
    }
}

/// The time report: the clock reading as a JSON object.
pub open spec fn time_report(t: LocalTime) -> Json {
    Json::Object(
        seq![
            ("iso"@, Json::Str(t.iso@)),
            ("human_readable"@, Json::Str(t.human_readable@)),
            ("unix_timestamp"@, Json::Number(int_text(t.unix_timestamp as int))),
            ("timezone"@, Json::Str(t.timezone@)),
            ("utc_offset"@, Json::Str(offset_text(t.offset_seconds as int))),
        ],
    )
}

/// The UTC offset text for `secs` seconds (see `offset_text`).
pub fn utc_offset_text(secs: i32) -> (r: String)
    requires
        -86400 < secs < 86400,
    ensures
        r@ == offset_text(secs as int),
{
    let neg = secs < 0;
    let a: u32 = if neg {
        (0 - secs) as u32
    } else {
        secs as u32
    };
    let h: u32 = a / 3600;
    let mut out: Vec<char> = Vec::new();
    if neg && h > 0 {
        out.push('-');
    } else {
        out.push('+');
    }
    let digits = decimal_chars(h as u64);
    let mut k: usize = digits.len();
    let ghost pad_start = out@;
    while k < 4
        invariant
            digits.len() <= k <= 4 || (digits.len() > 4 && k == digits.len()),
            out@ == pad_start + Seq::new((k - digits.len()) as nat, |i: int| '0'),
        decreases 4 - k,
    {
        out.push('0');
        k = k + 1;
        assert(out@ =~= pad_start + Seq::new((k - digits.len()) as nat, |i: int| '0'));
    }
    push_chars(&mut out, digits.as_slice());
    proof {
        let hh = offset_hours(secs as int);
        if neg {
            assert(hh == -((a as int) / 3600));
        } else {
            assert(hh == (a as int) / 3600);
        }
        assert(out@ =~= offset_text(secs as int));
    }
    string_of(out.as_slice())
}

/// The decimal text of `n` (see `int_text`).
pub fn int_text_exec(n: i64) -> (r: String)
    ensures
        r@ == int_text(n as int),
{
    if n >= 0 {
        let d = decimal_chars(n as u64);
        string_of(d.as_slice())
    } else {
        let m: u64 = if n == i64::MIN {
            9223372036854775808u64
        } else {
            (-n) as u64
        };
        let mut out: Vec<char> = Vec::new();
        out.push('-');
        let d = decimal_chars(m);
        push_chars(&mut out, d.as_slice());
        assert(out@ =~= int_text(n as int));
        string_of(out.as_slice())
    }
}

/// The report for the clock reading `t`.
pub fn time_report_value(t: &LocalTime) -> (r: JsonValue)
    requires
        -86400 < t.offset_seconds < 86400,
    ensures
        r@ == time_report(*t),
{
    let mut e: Vec<(String, JsonValue)> = Vec::new();
    e.push((owned("iso"), JsonValue::Str(t.iso.clone())));
    e.push((owned("human_readable"), JsonValue::Str(t.human_readable.clone())));
    e.push((owned("unix_timestamp"), JsonValue::Number(int_text_exec(t.unix_timestamp))));
    e.push((owned("timezone"), JsonValue::Str(t.timezone.clone())));
    e.push((owned("utc_offset"), JsonValue::Str(utc_offset_text(t.offset_seconds))));
    proof {
        lemma_json_entries(e@);
        assert(json_entries(e@) =~= time_report(*t)->Object_0);
    }
    JsonValue::Object(e)
}

impl GetTimeTool {
    pub fn new() -> (r: GetTimeTool) {
        GetTimeTool
    }

    /// The tool's name, description and parameter schema.
    pub fn definition(&self) -> (r: ToolDef)
        ensures
            r@ == get_time_def(),
    {
        let props: Vec<(String, JsonValue)> = Vec::new();
        let required: Vec<JsonValue> = Vec::new();
        proof {
            assert(json_entries(props@) =~= Seq::<(Seq<char>, Json)>::empty());
            assert(json_views(required@) =~= Seq::<Json>::empty());
        }
        ToolDef {
            id: owned("get_time"),
            name: owned("get_time"),
            description: owned(
                "Get the current date and time with timezone information. Use this when you need to know the current time or date.",
            ),
            parameters: object_schema_value(props, required),
        }
    }

    /// Reads the clock and answers with the time report as JSON text; the
    /// report is that of some reading of the clock.
    pub fn execute(&self, _args: &JsonValue) -> (r: Result<String, String>)
        ensures
            r matches Ok(s) && exists|t: LocalTime| s@ == render_json_text(#[trigger] time_report(t)),
    {
        let t = read_local_clock(HUMAN_FORMAT, ZONE_FORMAT);
        let report = time_report_value(&t);
        let s = render_json(&report);
        assert(s@ == render_json_text(time_report(t)));
        Ok(s)
    }
}


/// The value of a text of decimal digits.
pub open spec fn digits_value(s: Seq<char>) -> int
    decreases s.len(),
{
    if s.len() == 0 {
        0
    } else {
        10 * digits_value(s.drop_last()) + (s.last() as int - '0' as int)
    }
}

/// Whether `s` is one or more decimal digits.
pub open spec fn all_digits(s: Seq<char>) -> bool {
    s.len() > 0 && forall|i: int| 0 <= i < s.len() ==> '0' <= #[trigger] s[i] <= '9'
}

/// The integer that a JSON number text of digits, with an optional leading
/// minus sign, denotes.
pub open spec fn integer_text_value(s: Seq<char>) -> Option<int> {
    if s.len() > 0 && s[0] == '-' && all_digits(s.drop_first()) {
        Some(-digits_value(s.drop_first()))
    } else if all_digits(s) {
        Some(digits_value(s))
    } else {
        None
    }
}

proof fn lemma_decimal_value(n: nat)
    ensures
        all_digits(decimal(n)),
        digits_value(decimal(n)) == n,
    decreases n,
{
    let d = (n % 10) as nat;
    assert(digit_char(d) as int == '0' as int + d);
    if n < 10 {
        assert(decimal(n) == seq![digit_char(n)]);
        assert(decimal(n).drop_last() =~= Seq::<char>::empty());
        assert(digits_value(decimal(n)) == digits_value(Seq::<char>::empty()) * 10 + (digit_char(n) as int
            - '0' as int));
    } else {
        lemma_decimal_value(n / 10);
        assert(decimal(n) == decimal(n / 10).push(digit_char(d)));
        assert(decimal(n).drop_last() =~= decimal(n / 10));
        assert(decimal(n).last() == digit_char(d));
        assert(n == 10 * (n / 10) + d);
        assert forall|i: int| 0 <= i < decimal(n).len() implies '0' <= #[trigger] decimal(n)[i] <= '9' by {
            if i < decimal(n).len() - 1 {
                assert(decimal(n)[i] == decimal(n / 10)[i]);
            }
        }
    }
}

/// The time report carries the clock reading itself: its `unix_timestamp`
/// member is a JSON integer whose value is the reading's Unix timestamp, and
/// its `iso`, `human_readable` and `timezone` members are the reading's
/// texts.
pub proof fn lemma_report_carries_reading(t: LocalTime)
    ensures
        time_report(t).get("unix_timestamp"@) is Some,
        time_report(t).get("unix_timestamp"@)->Some_0 is Number,
        integer_text_value(time_report(t).get("unix_timestamp"@)->Some_0->Number_0) == Some(
            t.unix_timestamp as int,
        ),
        time_report(t).get("iso"@) == Some(Json::Str(t.iso@)),
        time_report(t).get("human_readable"@) == Some(Json::Str(t.human_readable@)),
        time_report(t).get("timezone"@) == Some(Json::Str(t.timezone@)),
{
    reveal_strlit("iso");
    reveal_strlit("human_readable");
    reveal_strlit("unix_timestamp");
    reveal_strlit("timezone");
    reveal_strlit("utc_offset");
    let n = t.unix_timestamp as int;
    if n >= 0 {
        lemma_decimal_value(n as nat);
        assert(decimal(n as nat)[0] != '-');
    } else {
        let m = (-n) as nat;
        lemma_decimal_value(m);
        assert((seq!['-'] + decimal(m)).drop_first() =~= decimal(m));
    }
    let e = time_report(t)->Object_0;
    reveal_with_fuel(crate::json::entries_get, 6);
    assert("utc_offset"@[1] != "unix_timestamp"@[1]);
    assert("timezone"@[0] != "unix_timestamp"@[0]);
    assert("utc_offset"@[0] != "timezone"@[0]);
    assert("utc_offset"@[0] != "iso"@[0] && "timezone"@[0] != "iso"@[0] && "unix_timestamp"@[0] != "iso"@[0]
        && "human_readable"@[0] != "iso"@[0]);
    assert("utc_offset"@[0] != "human_readable"@[0] && "timezone"@[0] != "human_readable"@[0]
        && "unix_timestamp"@[0] != "human_readable"@[0]);
    assert(e.drop_last().drop_last() =~= e.take(3));
    assert(e.drop_last() =~= e.take(4));
}

} // verus!
