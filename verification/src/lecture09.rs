//! The first version of the chat's settings, read from positional
//! command-line arguments, and how it shows addresses.

use vstd::prelude::*;
use crate::constants::{DEFAULT_HOST, DEFAULT_PORT};
use crate::env_args::{ipv4_display, lemma_address_reads_back};
use crate::numbers::{ipv4_text, parse_ipv4, parse_u16, unsigned_text};
use crate::text::{decimal, push_decimal, str_equals};

verus! {

/// What a chat process was started with.
#[derive(Debug)]
pub struct EnvArgs {
    /// `server` or `client`.
    pub mode: String,
    pub host: [u8; 4],
    pub port: u16,
}

/// The argument at position `i`, if there is one.
pub open spec fn arg_at(args: Seq<String>, i: int) -> Option<Seq<char>> {
    if 0 <= i < args.len() {
        Some(args[i]@)
    } else {
        None
    }
}

/// The mode that the first argument selects: `server` when there is none.
pub open spec fn mode_of(arg: Option<Seq<char>>) -> Result<Seq<char>, Seq<char>> {
    match arg {
        None => Ok("server"@),
        Some(v) => if v == "-s"@ || v == "--server"@ {
            Ok("server"@)
        } else if v == "-c"@ || v == "--client"@ {
            Ok("client"@)
        } else {
            Err("Invalid mode '"@ + v + "'. Allowed are: '--server (-s)' | '--client (-c)'."@)
        },
    }
}

/// The host that the second argument names: `127.0.0.1` when there is none.
pub open spec fn host_of(arg: Option<Seq<char>>) -> Result<[u8; 4], Seq<char>> {
    match arg {
        None => Ok(DEFAULT_HOST),
        Some(v) => match ipv4_text(v) {
            Some(h) => Ok(h),
            None => Err("invalid address '"@ + v + "'. Use proper IPv4 address."@),
        },
    }
}

/// The port that the third argument names: 11111 when there is none.
pub open spec fn port_of(arg: Option<Seq<char>>) -> Result<u16, Seq<char>> {
    match arg {
        None => Ok(DEFAULT_PORT),
        Some(v) => if unsigned_text(v) matches Some(p) && p <= u16::MAX {
            Ok(unsigned_text(v)->0 as u16)
        } else {
            Err("invalid port '"@ + v + "'. Use port between "@ + decimal(u16::MAX as nat) + " - "@
                + decimal(u16::MAX as nat))
        },
    }
}

impl EnvArgs {
    /// Reads the settings from the command line, `args[0]` being the path of
    /// the program: mode, host and port, each optional; the first that is
    /// not valid is reported. Further arguments are ignored.
    pub fn new(args: &Vec<String>) -> (r: Result<Self, String>)
        ensures
            match (mode_of(arg_at(args@, 1)), host_of(arg_at(args@, 2)), port_of(arg_at(args@, 3))) {
                (Err(e), _, _) => r matches Err(m) && m@ == e,
                (Ok(_), Err(e), _) => r matches Err(m) && m@ == e,
                (Ok(_), Ok(_), Err(e)) => r matches Err(m) && m@ == e,
                (Ok(mode), Ok(host), Ok(port)) => r matches Ok(a) && a.mode@ == mode && a.host
                    == host && a.port == port,
            },
    {
        let mode = if args.len() > 1 {
            let value = args[1].as_str();
            if str_equals(value, "-s") || str_equals(value, "--server") {
                String::from_str("server")
            } else if str_equals(value, "-c") || str_equals(value, "--client") {
                String::from_str("client")
            } else {
                let mut m = String::new();
                m.append("Invalid mode '");
                m.append(value);
                m.append("'. Allowed are: '--server (-s)' | '--client (-c)'.");
                return Err(m);
            }
        } else {
            String::from_str("server")
        };
        let host = if args.len() > 2 {
            let value = args[2].as_str();
            match parse_ipv4(value) {
                Some(h) => h,
                None => {
                    let mut m = String::new();
                    m.append("invalid address '");
                    m.append(value);
                    m.append("'. Use proper IPv4 address.");
                    return Err(m);
                },
            }
        } else {
            DEFAULT_HOST
        };
        let port = if args.len() > 3 {
            let value = args[3].as_str();
            match parse_u16(value) {
                Ok(p) => p,
                Err(_) => {
                    let mut m = String::new();
                    m.append("invalid port '");
                    m.append(value);
                    m.append("'. Use port between ");
                    push_decimal(&mut m, u16::MAX as u128);
                    m.append(" - ");
                    push_decimal(&mut m, u16::MAX as u128);
                    return Err(m);
                },
            }
        } else {
            DEFAULT_PORT
        };
        Ok(EnvArgs { mode, host, port })
    }

    /// Whether the process runs as the server.
    pub fn is_server(&self) -> (r: bool)
        ensures
            r == (self.mode@ == "server"@),
    {
        str_equals(self.mode.as_str(), "server")
    }
}

/// A peer's address as a client shows it, with a fixed text when it is unknown.
pub fn peer_address_text(address: Option<String>) -> (r: String)
    ensures
        r@ == match address {
            Some(a) => a@,
            None => "CLIENT ERROR: unable to show address"@,
        },
{
    match address {
        Some(a) => a,
        None => String::from_str("CLIENT ERROR: unable to show address"),
    }
}

/// The server's own address as it shows it, with a fixed text when it is unknown.
pub fn server_address_text(address: Option<String>) -> (r: String)
    ensures
        r@ == match address {
            Some(a) => a@,
            None => "SERVER ERROR: unable to show address"@,
        },
{
    match address {
        Some(a) => a,
        None => String::from_str("SERVER ERROR: unable to show address"),
    }
}

/// Meant to send a message to a list of recipients; it does nothing.
pub fn broadcast_from(sender: String, recipients: Vec<String>) {
}

/// A host and port given on the command line as the chat shows them,
/// `a.b.c.d` and decimal digits, are read as that host and port.
pub proof fn lemma_shown_address_accepted(host: [u8; 4], port: u16)
    ensures
        host_of(Some(ipv4_display(host))) == Ok::<[u8; 4], Seq<char>>(host),
        port_of(Some(decimal(port as nat))) == Ok::<u16, Seq<char>>(port),
{
    lemma_address_reads_back(host, port);
}

/// Every spelling of a mode that the error message lists is accepted:
/// `--server` and `-s` select the server, `--client` and `-c` the client,
/// and no mode given means the server. Any other word is refused with a
/// message that quotes it.
pub proof fn lemma_listed_modes_accepted(v: Seq<char>)
    ensures
        mode_of(Some("--server"@)) == Ok::<Seq<char>, Seq<char>>("server"@),
        mode_of(Some("-s"@)) == Ok::<Seq<char>, Seq<char>>("server"@),
        mode_of(Some("--client"@)) == Ok::<Seq<char>, Seq<char>>("client"@),
        mode_of(Some("-c"@)) == Ok::<Seq<char>, Seq<char>>("client"@),
        mode_of(None) == Ok::<Seq<char>, Seq<char>>("server"@),
        host_of(None) == Ok::<[u8; 4], Seq<char>>([127u8, 0u8, 0u8, 1u8]),
        port_of(None) == Ok::<u16, Seq<char>>(11111u16),
        v != "--server"@ && v != "-s"@ && v != "--client"@ && v != "-c"@ ==> mode_of(Some(v))
            == Err::<Seq<char>, Seq<char>>(
            "Invalid mode '"@ + v + "'. Allowed are: '--server (-s)' | '--client (-c)'."@,
        ),
{
    reveal_strlit("--server");
    reveal_strlit("-s");
    reveal_strlit("--client");
    reveal_strlit("-c");
    assert("--server"@.len() == 8 && "--client"@.len() == 8);
    assert("-s"@.len() == 2 && "-c"@.len() == 2);
    assert("--client"@[2] == 'c' && "--server"@[2] == 's');
    assert("-c"@[1] == 'c' && "-s"@[1] == 's');
    assert("--server"@ != "-s"@);
    assert("--client"@ != "-s"@ && "--client"@ != "--server"@);
    assert("-c"@ != "-s"@ && "-c"@ != "--server"@);
}

} // verus!
