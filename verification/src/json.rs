//! The few JSON texts that the phone hands to its host.

use vstd::prelude::*;

use crate::secret;
use crate::text;
use crate::text::push_decimal;

verus! {

/// A character inside a JSON string: quotes, backslashes and control characters are
/// escaped, all others stand for themselves.
pub open spec fn json_char(c: char) -> Seq<char> {
    if c == '"' {
        seq!['\\', '"']
    } else if c == '\\' {
        seq!['\\', '\\']
    } else if c as u32 == 8 {
        seq!['\\', 'b']
    } else if c as u32 == 9 {
        seq!['\\', 't']
    } else if c as u32 == 10 {
        seq!['\\', 'n']
    } else if c as u32 == 12 {
        seq!['\\', 'f']
    } else if c as u32 == 13 {
        seq!['\\', 'r']
    } else if (c as u32) < 32 {
        seq![
            '\\',
            'u',
            '0',
            '0',
            secret::hex_char(c as int / 16),
            secret::hex_char(c as int % 16),
        ]
    } else {
        seq![c]
    }
}

/// The characters of a JSON string, one after the other.
pub open spec fn json_chars(s: Seq<char>) -> Seq<char>
    decreases s.len(),
{
    if s.len() == 0 {
        Seq::empty()
    } else {
        json_chars(s.drop_last()) + json_char(s.last())
    }
}

/// A text as a JSON string.
pub open spec fn json_string(s: Seq<char>) -> Seq<char> {
    seq!['"'] + json_chars(s) + seq!['"']
}

/// `serde_json::Value::to_string` of a string puts it in quotes and escapes what JSON asks
/// for.
#[verifier::external_body]
pub(crate) fn quote(s: &str) -> (r: String)
    ensures
        r@ == json_string(s@),
{
    serde_json::Value::from(s).to_string()
}

/// A truth value in JSON.
pub open spec fn json_bool(v: bool) -> Seq<char> {
    if v {
        "true"@
    } else {
        "false"@
    }
}

/// An optional text in JSON.
pub open spec fn json_maybe(s: Option<Seq<char>>) -> Seq<char> {
    match s {
        None => "null"@,
        Some(t) => json_string(t),
    }
}

/// Appends a truth value.
pub fn push_bool(out: &mut String, v: bool)
    ensures
        final(out)@ == old(out)@ + json_bool(v),
{
    if v {
        out.append("true");
    } else {
        out.append("false");
    }
}

/// Appends an optional text.
pub fn push_maybe(out: &mut String, s: &Option<String>)
    ensures
        final(out)@ == old(out)@ + json_maybe(crate::wire::maybe_view(*s)),
{
    match s {
        None => {
            out.append("null");
        },
        Some(t) => {
            out.append(quote(t.as_str()).as_str());
        },
    }
}

/// The reply to a pairing that succeeded.
pub open spec fn paired_json(device_id: Seq<char>) -> Seq<char> {
    "{\"deviceId\":"@ + json_string(device_id) + ",\"ok\":true}"@
}

/// The reply to a pairing that succeeded.
pub fn paired_reply(device_id: &str) -> (r: String)
    ensures
        r@ == paired_json(device_id@),
{
    let mut out = "{\"deviceId\":".to_owned();
    out.append(quote(device_id).as_str());
    out.append(",\"ok\":true}");
    out
}

/// The reply to a request that succeeded.
pub open spec fn done_json() -> Seq<char> {
    "{\"ok\":true}"@
}

/// The reply to a request that failed.
pub open spec fn failed_json(error: Seq<char>) -> Seq<char> {
    "{\"error\":"@ + json_string(error) + ",\"ok\":false}"@
}

/// The reply to a request that failed.
pub fn failed_reply(error: &str) -> (r: String)
    ensures
        r@ == failed_json(error@),
{
    let mut out = "{\"error\":".to_owned();
    out.append(quote(error).as_str());
    out.append(",\"ok\":false}");
    out
}

/// The status of a cast: its counters, error and state, in the order of the keys.
pub open spec fn status_json(
    dropped: u64,
    error: Option<Seq<char>>,
    keyframe: bool,
    sent: u64,
    state: Seq<char>,
) -> Seq<char> {
    "{\"dropped\":"@ + text::decimal(dropped as nat) + ",\"error\":"@ + json_maybe(error)
        + ",\"keyframe\":"@ + json_bool(keyframe) + ",\"sent\":"@ + text::decimal(sent as nat)
        + ",\"state\":"@ + json_string(state) + "}"@
}

/// The status of a cast.
pub fn status_reply(
    dropped: u64,
    error: &Option<String>,
    keyframe: bool,
    sent: u64,
    state: &str,
) -> (r: String)
    ensures
        r@ == status_json(dropped, crate::wire::maybe_view(*error), keyframe, sent, state@),
{
    let mut out = "{\"dropped\":".to_owned();
    push_decimal(&mut out, dropped);
    out.append(",\"error\":");
    push_maybe(&mut out, error);
    out.append(",\"keyframe\":");
    push_bool(&mut out, keyframe);
    out.append(",\"sent\":");
    push_decimal(&mut out, sent);
    out.append(",\"state\":");
    out.append(quote(state).as_str());
    out.append("}");
    out
}

/// The replies to the host, letter for letter.
pub proof fn law_replies_to_the_host(
    id: Seq<char>,
    error: Seq<char>,
    dropped: u64,
    sent: u64,
    keyframe: bool,
    state: Seq<char>,
)
    ensures
        paired_json(id) == "{\"deviceId\":"@ + json_string(id) + ",\"ok\":true}"@,
        failed_json(error) == "{\"error\":"@ + json_string(error) + ",\"ok\":false}"@,
        done_json() == "{\"ok\":true}"@,
        status_json(dropped, Some(error), keyframe, sent, state) == "{\"dropped\":"@
            + text::decimal(dropped as nat) + ",\"error\":"@ + json_string(error)
            + ",\"keyframe\":"@ + (if keyframe {
            "true"@
        } else {
            "false"@
        }) + ",\"sent\":"@ + text::decimal(sent as nat) + ",\"state\":"@ + json_string(state)
            + "}"@,
        status_json(dropped, None, keyframe, sent, state) == "{\"dropped\":"@ + text::decimal(
            dropped as nat,
        ) + ",\"error\":"@ + "null"@ + ",\"keyframe\":"@ + (if keyframe {
            "true"@
        } else {
            "false"@
        }) + ",\"sent\":"@ + text::decimal(sent as nat) + ",\"state\":"@ + json_string(state)
            + "}"@,
{
}

/// A text of plain characters, without quotes, backslashes or control characters, is quoted as
/// it is.
pub proof fn law_plain_texts_are_quoted_as_they_are(s: Seq<char>)
    requires
        forall|i: int|
            0 <= i < s.len() ==> #[trigger] s[i] != '"' && s[i] != '\\' && s[i] as u32 >= 32,
    ensures
        json_string(s) == seq!['"'] + s + seq!['"'],
{
    lemma_plain_chars(s);
}

proof fn lemma_plain_chars(s: Seq<char>)
    requires
        forall|i: int|
            0 <= i < s.len() ==> #[trigger] s[i] != '"' && s[i] != '\\' && s[i] as u32 >= 32,
    ensures
        json_chars(s) == s,
    decreases s.len(),
{
    if s.len() > 0 {
        let rest = s.drop_last();
        assert forall|i: int| 0 <= i < rest.len() implies #[trigger] rest[i] != '"' && rest[i]
            != '\\' && rest[i] as u32 >= 32 by {
            assert(rest[i] == s[i]);
        }
        lemma_plain_chars(rest);
        assert(s[s.len() - 1] == s.last());
        assert(json_chars(s) =~= s);
    } else {
        assert(json_chars(s) =~= s);
    }
}

/// A truth value is written as JSON has it, and a text that is not there as null.
pub proof fn law_values_in_json(s: Seq<char>)
    ensures
        json_bool(true) == "true"@,
        json_bool(false) == "false"@,
        json_maybe(None) == "null"@,
        json_maybe(Some(s)) == json_string(s),
{
}

} // verus!
