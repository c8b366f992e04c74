//! What the log of a model call records about the call.

use vstd::prelude::*;

verus! {

/// The first 200 characters of a text.
pub open spec fn preview_spec(s: Seq<char>) -> Seq<char> {
    if s.len() <= 200 {
        s
    } else {
        s.take(200)
    }
}

/// The request preview of a log entry: the first 200 characters of the
/// last message sent.
pub fn request_preview(last_message: &str) -> (p: String)
    ensures
        p@ == preview_spec(last_message@),
{
    let n = last_message.unicode_len();
    let k = if n <= 200 {
        n
    } else {
        200
    };
    let r = String::from_str(last_message.substring_char(0, k));
    assert(k == n ==> last_message@.subrange(0, k as int) =~= last_message@);
    r
}

/// The agent name with spaces replaced by underscores.
pub open spec fn slug_spec(s: Seq<char>) -> Seq<char> {
    s.map_values(|c: char| if c == ' ' { '_' } else { c })
}

/// The agent name as it appears in a log file name.
pub fn agent_slug(agent_name: &str) -> (s: String)
    ensures
        s@ == slug_spec(agent_name@),
{
    let n = agent_name.unicode_len();
    let mut s = String::new();
    let mut i: usize = 0;
    while i < n
        invariant
            n == agent_name@.len(),
            i <= n,
            s@ == slug_spec(agent_name@.take(i as int)),
        decreases n - i,
    {
        let c = agent_name.get_char(i);
        crate::text::push_char(&mut s, if c == ' ' { '_' } else { c });
        assert(s@ =~= slug_spec(agent_name@.take(i + 1)));
        i = i + 1;
    }
    assert(agent_name@.take(n as int) =~= agent_name@);
    s
}

/// The log file name: `<stamp>_<agent>_<millis mod 10000>.json`.
pub open spec fn log_file_name_spec(stamp: Seq<char>, agent: Seq<char>, millis: i64) -> Seq<char> {
    stamp + "_"@ + slug_spec(agent) + "_"@ + signed_decimal(truncated_rem(millis as int, 10000))
        + ".json"@
}

/// Remainder of a division rounding toward zero (Rust's `%`).
pub open spec fn truncated_rem(m: int, d: int) -> int {
    if m >= 0 {
        m % d
    } else {
        -((-m) % d)
    }
}

/// Decimal representation of an integer, with a minus sign when negative.
pub open spec fn signed_decimal(n: int) -> Seq<char> {
    if n < 0 {
        "-"@ + crate::text::decimal((-n) as nat)
    } else {
        crate::text::decimal(n as nat)
    }
}

/// The name of the log file of a call: the formatted time stamp, the agent
/// slug, and the milliseconds of the time modulo 10000 (with the sign of
/// the time, as `%` gives it).
pub fn log_file_name(stamp: &str, agent_name: &str, millis: i64) -> (f: String)
    ensures
        f@ == log_file_name_spec(stamp@, agent_name@, millis),
{
    let r: i64 = millis % 10000;
    let mut f = String::from_str(stamp);
    f.append("_");
    let slug = agent_slug(agent_name);
    f.append(slug.as_str());
    f.append("_");
    if r < 0 {
        f.append("-");
        let digits = crate::text::usize_to_decimal((-r) as usize);
        f.append(digits.as_str());
    } else {
        let digits = crate::text::usize_to_decimal(r as usize);
        f.append(digits.as_str());
    }
    f.append(".json");
    f
}

} // verus!
