//! Command-line options of the mock phone.

use vstd::prelude::*;

use crate::text;
use crate::text::{parse_unsigned, same_text};
use crate::wire;

verus! {

/// Seconds for which receivers are looked for unless told otherwise.
pub const DEFAULT_TIMEOUT_SECS: u64 = 3;

/// The arguments as texts.
pub open spec fn arg_views(args: Seq<String>) -> Seq<Seq<char>> {
    Seq::new(args.len(), |i: int| args[i]@)
}

/// The argument behind the first one that is `key`.
pub open spec fn value_of(args: Seq<Seq<char>>, key: Seq<char>) -> Option<Seq<char>>
    decreases args.len(),
{
    if args.len() == 0 {
        None
    } else if args[0] == key {
        if args.len() > 1 {
            Some(args[1])
        } else {
            None
        }
    } else {
        value_of(args.drop_first(), key)
    }
}

/// The value of an option: the argument behind the first one that is `key`.
pub fn opt_value(args: &[String], key: &str) -> (r: Option<String>)
    ensures
        wire::maybe_view(r) == value_of(arg_views(args@), key@),
{
    let ghost all = arg_views(args@);
    let mut i: usize = 0;
    proof {
        assert(all.skip(0) =~= all);
    }
    while i < args.len()
        invariant
            i <= args@.len(),
            all == arg_views(args@),
            value_of(all.skip(i as int), key@) == value_of(all, key@),
        decreases args.len() - i,
    {
        proof {
            assert(all.skip(i as int)[0] == args@[i as int]@);
            assert(all.skip(i as int).drop_first() =~= all.skip(i + 1));
        }
        if same_text(args[i].as_str(), key) {
            if i + 1 < args.len() {
                proof {
                    assert(all.skip(i as int)[1] == args@[i + 1]@);
                }
                return Some(args[i + 1].clone());
            }
            return None;
        }
        i = i + 1;
    }
    None
}

/// How long to look for receivers: what `--timeout` says, if it is a number.
pub fn timeout_secs(args: &[String]) -> (r: u64)
    ensures
        r == (match value_of(arg_views(args@), "--timeout"@) {
            Some(v) => match text::parsed_unsigned(v, u64::MAX as nat) {
                Some(n) => n as u64,
                None => DEFAULT_TIMEOUT_SECS,
            },
            None => DEFAULT_TIMEOUT_SECS,
        }),
{
    match opt_value(args, "--timeout") {
        Some(v) => match parse_unsigned(v.as_str(), u64::MAX) {
            Some(n) => n,
            None => DEFAULT_TIMEOUT_SECS,
        },
        None => DEFAULT_TIMEOUT_SECS,
    }
}

/// What the program is asked to do.
#[derive(Debug, Clone, Copy, PartialEq, Eq, Structural)]
pub enum Command {
    Discover,
    Pair,
    Run,
    Usage,
}

/// What the first argument asks for.
pub fn command(args: &[String]) -> (r: Command)
    ensures
        r == (if args@.len() > 0 && args@[0]@ == "discover"@ {
            Command::Discover
        } else if args@.len() > 0 && args@[0]@ == "pair"@ {
            Command::Pair
        } else if args@.len() > 0 && args@[0]@ == "run"@ {
            Command::Run
        } else {
            Command::Usage
        }),
{
    if args.len() == 0 {
        return Command::Usage;
    }
    let first = args[0].as_str();
    if same_text(first, "discover") {
        Command::Discover
    } else if same_text(first, "pair") {
        Command::Pair
    } else if same_text(first, "run") {
        Command::Run
    } else {
        Command::Usage
    }
}

/// Where to connect to, and as whom.
#[derive(Debug, Clone, PartialEq)]
pub struct ConnectOpts {
    pub host: String,
    pub port: u16,
    pub name: String,
    /// Where credentials are kept, if the default place will not do.
    pub state_dir: Option<String>,
}

/// What is wrong with the options of a connection, if anything; `host_is_ip` tells whether
/// the host is an IP address.
pub open spec fn connect_problem(args: Seq<Seq<char>>, host_is_ip: bool) -> Option<Seq<char>> {
    match value_of(args, "--host"@) {
        None => Some("--host IP is required"@),
        Some(_) => if !host_is_ip {
            Some("invalid --host"@)
        } else {
            match value_of(args, "--port"@) {
                None => Some("--port is required"@),
                Some(p) => match text::parsed_unsigned(p, 65535) {
                    None => Some("invalid --port"@),
                    Some(_) => None,
                },
            }
        },
    }
}

impl ConnectOpts {
    /// Reads the options of a connection; `host_is_ip` tells whether what `--host` gives is
    /// an IP address.
    pub fn parse(args: &[String], host_is_ip: bool) -> (r: Result<ConnectOpts, String>)
        ensures
            match connect_problem(arg_views(args@), host_is_ip) {
                Some(why) => r matches Err(e) && e@ == why,
                None => r matches Ok(o) && ({
                    let all = arg_views(args@);
                    &&& Some(o.host@) == value_of(all, "--host"@)
                    &&& value_of(all, "--port"@) matches Some(p) && text::parsed_unsigned(p, 65535)
                        == Some(o.port as nat)
                    &&& o.name@ == (match value_of(all, "--name"@) {
                        Some(n) => n,
                        None => "Mock Phone"@,
                    })
                    &&& wire::maybe_view(o.state_dir) == value_of(all, "--state"@)
                }),
            },
    {
        let host = match opt_value(args, "--host") {
            None => {
                return Err("--host IP is required".to_owned());
            },
            Some(h) => h,
        };
        if !host_is_ip {
            return Err("invalid --host".to_owned());
        }
        let port = match opt_value(args, "--port") {
            None => {
                return Err("--port is required".to_owned());
            },
            Some(p) => p,
        };
        let port: u16 = match parse_unsigned(port.as_str(), 65535) {
            None => {
                return Err("invalid --port".to_owned());
            },
            Some(n) => n as u16,
        };
        let name = match opt_value(args, "--name") {
            Some(n) => n,
            None => "Mock Phone".to_owned(),
        };
        Ok(ConnectOpts { host, port, name, state_dir: opt_value(args, "--state") })
    }
}

/// The value of an option is what stands behind the first place at which its name stands, and
/// there is none where the name is missing or stands last.
pub proof fn law_values_stand_behind_their_name(
    before: Seq<Seq<char>>,
    key: Seq<char>,
    value: Seq<char>,
    behind: Seq<Seq<char>>,
)
    requires
        forall|i: int| 0 <= i < before.len() ==> #[trigger] before[i] != key,
    ensures
        value_of(before + seq![key, value] + behind, key) == Some(value),
        value_of(before + seq![key], key) is None,
        value_of(before, key) is None,
    decreases before.len(),
{
    let a = before + seq![key, value] + behind;
    let b = before + seq![key];
    if before.len() == 0 {
        assert(a[0] == key && a[1] == value);
        assert(b[0] == key);
    } else {
        let rest = before.drop_first();
        assert forall|i: int| 0 <= i < rest.len() implies #[trigger] rest[i] != key by {
            assert(rest[i] == before[i + 1]);
        }
        law_values_stand_behind_their_name(rest, key, value, behind);
        assert(before[0] != key);
        assert(a[0] == before[0] && b[0] == before[0]);
        assert(a.drop_first() =~= rest + seq![key, value] + behind);
        assert(b.drop_first() =~= rest + seq![key]);
    }
}

/// A connection needs a host that is an IP address and a port that is a number up to 65535;
/// the first of these that is missing or wrong is what is told.
pub proof fn law_connections_need_host_and_port(args: Seq<Seq<char>>, host_is_ip: bool)
    ensures
        ({
            let host = value_of(args, "--host"@);
            let port = value_of(args, "--port"@);
            let number = port matches Some(p) && text::without_plus(p).len() > 0
                && text::digits_only(text::without_plus(p)) && text::base10(text::without_plus(p))
                <= 65535;
            &&& connect_problem(args, host_is_ip) is None <==> host is Some && host_is_ip && number
            &&& host is None ==> connect_problem(args, host_is_ip) == Some(
                "--host IP is required"@,
            )
            &&& host is Some && !host_is_ip ==> connect_problem(args, host_is_ip) == Some(
                "invalid --host"@,
            )
            &&& host is Some && host_is_ip && port is None ==> connect_problem(args, host_is_ip)
                == Some("--port is required"@)
            &&& host is Some && host_is_ip && port is Some && !number ==> connect_problem(
                args,
                host_is_ip,
            ) == Some("invalid --port"@)
        }),
{
    match value_of(args, "--port"@) {
        Some(p) => {
            text::law_digits_are_read_as_their_number(p, 0, 65535);
        },
        None => {},
    }
}

/// The model of some arguments holds every argument, in its place.
pub proof fn law_models_hold_every_argument(args: Seq<String>, i: int)
    requires
        0 <= i < args.len(),
    ensures
        arg_views(args).len() == args.len(),
        arg_views(args)[i] == args[i]@,
{
}

} // verus!
