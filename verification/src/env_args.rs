//! The settings a chat process starts with: client or server, the address,
//! and how much it logs.

use vstd::prelude::*;
use crate::numbers::{
    ipv4_text, is_digit, lemma_decimal_reads_back, lemma_octet_text_of_decimal,
    lemma_split_after_first, lemma_split_without_separator, lemma_unsigned_text_of_decimal,
    unsigned_text,
};
use crate::text::{decimal, push_decimal, split_on, str_equals};

use tracing::Level;

verus! {

#[verifier::external_type_specification]
#[verifier::external_body]
pub struct ExLevel(Level);

/// A dotted IPv4 address, such as `127.0.0.1`.
pub open spec fn ipv4_display(host: [u8; 4]) -> Seq<char> {
    decimal(host[0] as nat) + seq!['.'] + decimal(host[1] as nat) + seq!['.'] + decimal(
        host[2] as nat,
    ) + seq!['.'] + decimal(host[3] as nat)
}

/// An IPv4 socket address, such as `127.0.0.1:11111`.
pub open spec fn socket_display(host: [u8; 4], port: u16) -> Seq<char> {
    ipv4_display(host) + seq![':'] + decimal(port as nat)
}

/// Appends a dotted IPv4 address.
pub fn push_ipv4(s: &mut String, host: [u8; 4])
    ensures
        final(s)@ == old(s)@ + ipv4_display(host),
{
    push_decimal(s, host[0] as u128);
    s.append(".");
    push_decimal(s, host[1] as u128);
    s.append(".");
    push_decimal(s, host[2] as u128);
    s.append(".");
    push_decimal(s, host[3] as u128);
    proof {
        reveal_strlit(".");
    }
    assert(s@ =~= old(s)@ + ipv4_display(host));
}

/// What a chat process was started with.
#[derive(Debug)]
pub struct EnvArgs {
    /// `server` or `client`.
    pub mode: String,
    pub host: [u8; 4],
    pub port: u16,
    pub log_level: Level,
}

impl EnvArgs {
    /// Whether the process runs as the server.
    pub fn is_server(&self) -> (r: bool)
        ensures
            r == (self.mode@ == "server"@),
    {
        str_equals(self.mode.as_str(), "server")
    }

    /// The address as `host:port`.
    pub fn get_address(&self) -> (r: String)
        ensures
            r@ == socket_display(self.host, self.port),
    {
        let mut r = String::new();
        push_ipv4(&mut r, self.host);
        r.append(":");
        push_decimal(&mut r, self.port as u128);
        proof {
            reveal_strlit(":");
        }
        assert(r@ =~= socket_display(self.host, self.port));
        r
    }
}

/// A host shown as a dotted IPv4 address reads back as the same host, and a
/// port shown in decimal reads back as the same port.
pub proof fn lemma_address_reads_back(host: [u8; 4], port: u16)
    ensures
        ipv4_text(ipv4_display(host)) == Some(host),
        unsigned_text(decimal(port as nat)) == Some(port as nat),
{
    let d0 = decimal(host[0] as nat);
    let d1 = decimal(host[1] as nat);
    let d2 = decimal(host[2] as nat);
    let d3 = decimal(host[3] as nat);
    lemma_decimal_reads_back(host[0] as nat);
    lemma_decimal_reads_back(host[1] as nat);
    lemma_decimal_reads_back(host[2] as nat);
    lemma_decimal_reads_back(host[3] as nat);
    let dot = seq!['.'];
    assert(!is_digit('.'));
    let r2 = d2 + dot + d3;
    let r1 = d1 + dot + r2;
    assert(ipv4_display(host) =~= d0 + dot + r1);
    lemma_split_without_separator(d3, '.');
    lemma_split_after_first(d2, '.', d3);
    lemma_split_after_first(d1, '.', r2);
    lemma_split_after_first(d0, '.', r1);
    let parts = split_on(ipv4_display(host), '.');
    assert(parts =~= seq![d0, d1, d2, d3]);
    lemma_octet_text_of_decimal(host[0]);
    lemma_octet_text_of_decimal(host[1]);
    lemma_octet_text_of_decimal(host[2]);
    lemma_octet_text_of_decimal(host[3]);
    assert(ipv4_text(ipv4_display(host))->0@ =~= host@);
    lemma_unsigned_text_of_decimal(port as nat);
}

} // verus!
