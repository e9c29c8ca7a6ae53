//! How the receiver announces itself on the local network.

use vstd::prelude::*;
use vstd::slice::slice_subrange;

use crate::messages::Version;
use crate::text;
use crate::text::{chars_of, joined, push_decimal, text_of, trimmed_chars};
use crate::wire;

verus! {

/// Type under which receivers announce themselves, so that phones can find them.
pub const SERVICE_TYPE: &'static str = "_wdlink._udp.local.";

/// Key of the protocol version in an announcement.
pub const TXT_PROTO_KEY: &'static str = "proto";

/// Key of the fingerprint in an announcement.
pub const TXT_FP_KEY: &'static str = "fp";

/// Most characters of an instance name.
pub const MAX_INSTANCE_LEN: usize = 48;

/// A character of an instance name; all but ASCII letters, digits, hyphens and spaces
/// become hyphens.
pub open spec fn instance_char(c: char) -> char {
    if text::ascii_alphanumeric(c) || c == '-' || c == ' ' {
        c
    } else {
        '-'
    }
}

/// The instance name for a receiver's name.
pub open spec fn instance_text(name: Seq<char>) -> Seq<char> {
    let cut = if text::trimmed(name).len() > MAX_INSTANCE_LEN {
        text::trimmed(name).take(MAX_INSTANCE_LEN as int)
    } else {
        text::trimmed(name)
    };
    if cut.len() == 0 {
        "Wireless Display"@
    } else {
        Seq::new(cut.len(), |i: int| instance_char(cut[i]))
    }
}

/// The instance name for a receiver's name.
pub fn sanitize_instance(name: &str) -> (r: String)
    ensures
        r@ == instance_text(name@),
{
    let chars = trimmed_chars(name);
    let n: usize = if chars.len() > MAX_INSTANCE_LEN {
        MAX_INSTANCE_LEN
    } else {
        chars.len()
    };
    if n == 0 {
        return "Wireless Display".to_owned();
    }
    let ghost cut = if text::trimmed(name@).len() > MAX_INSTANCE_LEN {
        text::trimmed(name@).take(MAX_INSTANCE_LEN as int)
    } else {
        text::trimmed(name@)
    };
    let mut out: Vec<char> = Vec::new();
    let mut i: usize = 0;
    while i < n
        invariant
            chars@ == text::trimmed(name@),
            n <= chars@.len(),
            cut.len() == n,
            i <= n,
            out@.len() == i,
            forall|k: int| 0 <= k < n ==> cut[k] == chars@[k],
            forall|k: int| 0 <= k < i ==> out@[k] == instance_char(cut[k]),
        decreases n - i,
    {
        let c = chars[i];
        let keep: bool = (c >= 'a' && c <= 'z') || (c >= 'A' && c <= 'Z') || (c >= '0' && c <= '9')
            || c == '-' || c == ' ';
        out.push(
            if keep {
                c
            } else {
                '-'
            },
        );
        i = i + 1;
    }
    proof {
        assert(out@ =~= instance_text(name@));
    }
    text_of(out.as_slice())
}

/// `s` without dots at its end.
pub open spec fn without_dots(s: Seq<char>) -> Seq<char>
    decreases s.len(),
{
    if s.len() > 0 && s.last() == '.' {
        without_dots(s.drop_last())
    } else {
        s
    }
}

fn trim_dots(s: &str) -> (r: String)
    ensures
        r@ == without_dots(s@),
{
    let chars = chars_of(s);
    let mut n: usize = chars.len();
    proof {
        assert(s@.take(n as int) =~= s@);
    }
    while n > 0 && chars[n - 1] == '.'
        invariant
            chars@ == s@,
            n <= chars@.len(),
            without_dots(s@.take(n as int)) == without_dots(s@),
        decreases n,
    {
        proof {
            assert(s@.take(n as int).drop_last() =~= s@.take(n - 1));
        }
        n = n - 1;
    }
    proof {
        assert(s@.take(n as int) =~= chars@.subrange(0, n as int));
    }
    text_of(slice_subrange(chars.as_slice(), 0, n))
}

/// What a receiver announces.
#[derive(Debug, Clone, PartialEq)]
pub struct Advertisement {
    instance_name: String,
    host: String,
    port: u16,
    proto: String,
    fingerprint: String,
}

/// The view of an `Advertisement`.
#[verifier::ext_equal]
pub struct AdvertisementModel {
    pub instance_name: Seq<char>,
    pub host: Seq<char>,
    pub port: u16,
    pub proto: Seq<char>,
    pub fingerprint: Seq<char>,
}

impl View for Advertisement {
    type V = AdvertisementModel;

    closed spec fn view(&self) -> AdvertisementModel {
        AdvertisementModel {
            instance_name: self.instance_name@,
            host: self.host@,
            port: self.port,
            proto: self.proto@,
            fingerprint: self.fingerprint@,
        }
    }
}

impl Advertisement {
    /// What a receiver announces under a name, for its host and port.
    pub fn new(receiver_name: &str, host_name: &str, port: u16, fingerprint_short: &str) -> (r:
        Advertisement)
        ensures
            r@ == (AdvertisementModel {
                instance_name: instance_text(receiver_name@),
                host: without_dots(host_name@) + "-wd.local."@,
                port,
                proto: "wdl/"@ + Version::current().text(),
                fingerprint: fingerprint_short@,
            }),
    {
        Advertisement {
            instance_name: sanitize_instance(receiver_name),
            host: joined(trim_dots(host_name).as_str(), "-wd.local."),
            port,
            proto: joined("wdl/", Version::current().to_string().as_str()),
            fingerprint: fingerprint_short.to_owned(),
        }
    }

    /// The instance name.
    pub fn instance_name(&self) -> (r: &str)
        ensures
            r@ == self@.instance_name,
    {
        self.instance_name.as_str()
    }

    /// The host.
    pub fn host(&self) -> (r: &str)
        ensures
            r@ == self@.host,
    {
        self.host.as_str()
    }

    /// The port.
    pub fn port(&self) -> (r: u16)
        ensures
            r == self@.port,
    {
        self.port
    }

    /// The protocol version, as it is announced.
    pub fn proto(&self) -> (r: &str)
        ensures
            r@ == self@.proto,
    {
        self.proto.as_str()
    }

    /// The fingerprint, as it is announced.
    pub fn fingerprint(&self) -> (r: &str)
        ensures
            r@ == self@.fingerprint,
    {
        self.fingerprint.as_str()
    }

    /// The name under which the announcement is taken back.
    pub fn full_name(&self) -> (r: String)
        ensures
            r@ == self@.instance_name + "."@ + SERVICE_TYPE@,
    {
        let mut out = self.instance_name.clone();
        out.append(".");
        out.append(SERVICE_TYPE);
        out
    }
}

/// The name that a receiver on a host goes by.
pub fn receiver_name(host: &str) -> (r: String)
    ensures
        r@ == "Wireless Display on "@ + host@,
{
    joined("Wireless Display on ", host)
}

/// What is shown where an announcement leaves something out.
pub open spec fn or_unknown(s: Option<Seq<char>>) -> Seq<char> {
    match s {
        Some(t) => t,
        None => "?"@,
    }
}

/// The line that shows a receiver that was found.
pub open spec fn found_text(
    name: Seq<char>,
    ip: Seq<char>,
    port: u16,
    fingerprint: Option<Seq<char>>,
    proto: Option<Seq<char>>,
) -> Seq<char> {
    name + "\t"@ + ip + ":"@ + text::decimal(port as nat) + "\tfp="@ + or_unknown(fingerprint)
        + "\tproto="@ + or_unknown(proto)
}

/// The line that shows a receiver that was found.
pub fn found_line(
    name: &str,
    ip: &str,
    port: u16,
    fingerprint: Option<String>,
    proto: Option<String>,
) -> (r: String)
    ensures
        r@ == found_text(
            name@,
            ip@,
            port,
            wire::maybe_view(fingerprint),
            wire::maybe_view(proto),
        ),
{
    let mut out = joined(name, "\t");
    out.append(ip);
    out.append(":");
    push_decimal(&mut out, port as u64);
    out.append("\tfp=");
    match fingerprint {
        Some(f) => out.append(f.as_str()),
        None => out.append("?"),
    }
    out.append("\tproto=");
    match proto {
        Some(p) => out.append(p.as_str()),
        None => out.append("?"),
    }
    out
}

/// What is said where no receiver was found.
pub fn nothing_found(timeout: u64) -> (r: String)
    ensures
        r@ == "no receivers advertised within "@ + text::decimal(timeout as nat) + "s"@,
{
    let mut out = "no receivers advertised within ".to_owned();
    push_decimal(&mut out, timeout);
    out.append("s");
    out
}

/// An instance name is never empty, has at most 48 characters, and holds nothing but ASCII
/// letters, digits, hyphens and spaces.
pub proof fn law_instance_names_are_plain(name: Seq<char>)
    ensures
        0 < instance_text(name).len() <= MAX_INSTANCE_LEN,
        forall|i: int|
            0 <= i < instance_text(name).len() ==> {
                let c = #[trigger] instance_text(name)[i];
                text::ascii_alphanumeric(c) || c == '-' || c == ' '
            },
{
    reveal_strlit("Wireless Display");
}

/// An instance name is the receiver's name without white space around it, up to 48 characters
/// of it, with a hyphen in place of each that is no ASCII letter or digit, hyphen or space; a
/// name of white space alone has a name of its own.
pub proof fn law_instance_names_keep_what_is_plain(name: Seq<char>, i: int)
    requires
        0 <= i < text::trimmed(name).len(),
        i < 48,
    ensures
        instance_text(name).len() == (if text::trimmed(name).len() <= 48 {
            text::trimmed(name).len() as int
        } else {
            48
        }),
        ({
            let c = text::trimmed(name)[i];
            instance_text(name)[i] == (if ('a' <= c && c <= 'z') || ('A' <= c && c <= 'Z') || ('0'
                <= c && c <= '9') || c == '-' || c == ' ' {
                c
            } else {
                '-'
            })
        }),
{
}

/// A receiver without a name is announced under one all the same.
pub proof fn law_nameless_receivers_have_a_name(name: Seq<char>)
    requires
        text::trimmed(name).len() == 0,
    ensures
        instance_text(name) == "Wireless Display"@,
{
}

/// Dots at the end of a host's name, all of them and nothing else, are left out.
pub proof fn law_dots_at_the_end_are_left_out(s: Seq<char>, n: nat)
    requires
        s.len() == 0 || s.last() != '.',
    ensures
        without_dots(s + Seq::new(n, |i: int| '.')) == s,
    decreases n,
{
    let all = s + Seq::new(n, |i: int| '.');
    if n == 0 {
        assert(all =~= s);
    } else {
        let m = (n - 1) as nat;
        law_dots_at_the_end_are_left_out(s, m);
        assert(all.drop_last() =~= s + Seq::new(m, |i: int| '.'));
        assert(all.last() == '.');
    }
}

/// The line on a receiver shows its name, where it is, and its fingerprint and protocol, or a
/// question mark in place of each that was left out.
pub proof fn law_found_receivers_are_shown(
    name: Seq<char>,
    ip: Seq<char>,
    port: u16,
    fp: Seq<char>,
    proto: Seq<char>,
)
    ensures
        found_text(name, ip, port, Some(fp), Some(proto)) == name + "\t"@ + ip + ":"@
            + text::decimal(port as nat) + "\tfp="@ + fp + "\tproto="@ + proto,
        found_text(name, ip, port, None, None) == name + "\t"@ + ip + ":"@ + text::decimal(
            port as nat,
        ) + "\tfp="@ + "?"@ + "\tproto="@ + "?"@,
{
}

} // verus!
