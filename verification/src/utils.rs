//! Small decisions and texts around the chat's input and output: folders
//! that must exist, how addresses are shown, and what a client says when a
//! message cannot be sent.

use vstd::prelude::*;
use crate::constants::CLIENT_MSG_BUFFER_SIZE;
use crate::text::{decimal, push_decimal};

verus! {

/// How creating one folder went.
#[derive(Debug, Clone, Copy, PartialEq, Eq, Structural)]
pub enum FolderCreation {
    /// The folder was created.
    Created,
    /// The folder was there already.
    AlreadyExists,
    /// Creating the folder failed for another reason.
    Failed,
}

/// Whether creating the folders goes on after this one: a folder that is
/// there already is as good as a new one; any other failure ends the work
/// with that failure.
pub fn keeps_creating(outcome: FolderCreation) -> (r: bool)
    ensures
        r == !(outcome is Failed),
{
    match outcome {
        FolderCreation::Failed => false,
        _ => true,
    }
}

/// A peer's address as a client shows it: the address, or why it is unknown.
pub fn peer_address_text(address: Result<String, String>) -> (r: String)
    ensures
        r@ == match address {
            Ok(a) => a@,
            Err(e) => "client: unable to show address: "@ + e@,
        },
{
    match address {
        Ok(a) => a,
        Err(e) => {
            let mut r = String::new();
            r.append("client: unable to show address: ");
            r.append(e.as_str());
            r
        },
    }
}

/// The server's own address as it shows it: the address, or why it is unknown.
pub fn server_address_text(address: Result<String, String>) -> (r: String)
    ensures
        r@ == match address {
            Ok(a) => a@,
            Err(e) => "SERVER ERROR: unable to show address: "@ + e@,
        },
{
    match address {
        Ok(a) => a,
        Err(e) => {
            let mut r = String::new();
            r.append("SERVER ERROR: unable to show address: ");
            r.append(e.as_str());
            r
        },
    }
}

/// What a client tells its user when a message could not be sent: that it
/// is larger than the receive buffer, or that sending failed.
pub fn send_failure_notice(too_large: bool) -> (r: String)
    ensures
        r@ == if too_large {
            "too big to send - max size of a message: "@ + decimal(CLIENT_MSG_BUFFER_SIZE as nat)
                + " bytes"@
        } else {
            "unable to send encoded message"@
        },
{
    let mut r = String::new();
    if too_large {
        r.append("too big to send - max size of a message: ");
        push_decimal(&mut r, CLIENT_MSG_BUFFER_SIZE as u128);
        r.append(" bytes");
    } else {
        r.append("unable to send encoded message");
    }
    r
}

} // verus!
