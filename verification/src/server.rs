//! The server's decisions: who receives a broadcast message, which client a
//! leaving message removes, and when to stop reading from a client.

use vstd::prelude::*;

verus! {

/// How many clients, from the first on, have an address that could be read.
pub open spec fn readable_prefix(peers: Seq<Option<String>>) -> nat
    decreases peers.len(),
{
    if peers.len() == 0 || peers[0] is None {
        0
    } else {
        1 + readable_prefix(peers.drop_first())
    }
}

/// Every client before position `k` has an address that could be read.
proof fn lemma_readable_prefix(peers: Seq<Option<String>>, k: int)
    requires
        0 <= k <= peers.len(),
        forall|j: int| 0 <= j < k ==> peers[j] is Some,
    ensures
        readable_prefix(peers) >= k,
        k < peers.len() && peers[k] is None ==> readable_prefix(peers) == k,
        k == peers.len() ==> readable_prefix(peers) == k,
    decreases k,
{
    if k > 0 {
        lemma_readable_prefix(peers.drop_first(), k - 1);
    }
}

/// Whether `k` is a position the message goes to: before the first client
/// whose address could not be read, and with an address other than the sender's.
pub open spec fn is_recipient(peers: Seq<Option<String>>, sender: Seq<char>, k: int) -> bool {
    &&& 0 <= k < readable_prefix(peers)
    &&& peers[k] matches Some(address) && address@ != sender
}

/// A broadcast never goes back to its sender, and reaches every client
/// before the first unreadable address whose address is another one.
pub proof fn lemma_sender_never_receives(peers: Seq<Option<String>>, sender: Seq<char>, k: int)
    ensures
        is_recipient(peers, sender, k) ==> 0 <= k < peers.len() && peers[k] is Some && peers[k]->0@
            != sender,
        (0 <= k < peers.len() && (forall|j: int| 0 <= j <= k ==> #[trigger] peers[j] is Some)
            && peers[k]->0@ != sender) ==> is_recipient(peers, sender, k),
{
    if 0 <= k < peers.len() && (forall|j: int| 0 <= j <= k ==> #[trigger] peers[j] is Some) {
        lemma_readable_prefix(peers, k + 1);
    }
    if is_recipient(peers, sender, k) {
        lemma_readable_prefix_bound(peers);
    }
}

/// At most all clients have a readable address.
proof fn lemma_readable_prefix_bound(peers: Seq<Option<String>>)
    ensures
        readable_prefix(peers) <= peers.len(),
    decreases peers.len(),
{
    if peers.len() > 0 && peers[0] is Some {
        lemma_readable_prefix_bound(peers.drop_first());
    }
}

/// Who a broadcast reaches, and whether it ends early.
pub struct BroadcastPlan {
    /// Positions of the clients the message is sent to, in order.
    pub recipients: Vec<usize>,
    /// Whether a client's address could not be read, which ends the broadcast there.
    pub address_unavailable: bool,
}

/// Plans a broadcast: the clients are visited in order; one whose address
/// cannot be read ends the broadcast; every other client that is not the
/// sender receives the message.
pub fn broadcast_plan(peers: &Vec<Option<String>>, sender: &String) -> (r: BroadcastPlan)
    ensures
        r.address_unavailable == (readable_prefix(peers@) < peers@.len()),
        forall|i: int, j: int|
            0 <= i < j < r.recipients@.len() ==> r.recipients@[i] < r.recipients@[j],
        forall|i: int|
            0 <= i < r.recipients@.len() ==> is_recipient(
                peers@,
                sender@,
                #[trigger] r.recipients@[i] as int,
            ),
        forall|k: int|
            is_recipient(peers@, sender@, k) ==> #[trigger] r.recipients@.contains(k as usize),
{
    let mut recipients: Vec<usize> = Vec::new();
    let n = peers.len();
    let mut i: usize = 0;
    while i < n
        invariant
            n == peers@.len(),
            i <= n,
            forall|j: int| 0 <= j < i ==> peers@[j] is Some,
            forall|a: int, b: int|
                0 <= a < b < recipients@.len() ==> recipients@[a] < recipients@[b],
            forall|a: int| 0 <= a < recipients@.len() ==> #[trigger] recipients@[a] < i,
            forall|a: int|
                0 <= a < recipients@.len() ==> (peers@[#[trigger] recipients@[a] as int] matches Some(
                    address,
                ) && address@ != sender@),
            forall|k: int|
                #![trigger peers@[k]]
                0 <= k < i && (peers@[k] matches Some(address) && address@ != sender@)
                    ==> recipients@.contains(k as usize),
        decreases n - i,
    {
        match &peers[i] {
            None => {
                proof {
                    lemma_readable_prefix(peers@, i as int);
                }
                assert forall|k: int| is_recipient(peers@, sender@, k) implies #[trigger] recipients@.contains(
                    k as usize,
                ) by {}
                return BroadcastPlan { recipients, address_unavailable: true };
            },
            Some(address) => {
                if *address != *sender {
                    let ghost before = recipients@;
                    recipients.push(i);
                    assert(recipients@.last() == i);
                    assert forall|k: int|
                        #![trigger peers@[k]]
                        0 <= k < i + 1 && (peers@[k] matches Some(address) && address@ != sender@)
                            implies recipients@.contains(k as usize) by {
                        if k < i {
                            assert(before.contains(k as usize));
                            let w = choose|w: int| 0 <= w < before.len() && before[w] == k as usize;
                            assert(recipients@[w] == k as usize);
                        } else {
                            assert(recipients@[recipients@.len() - 1] == k);
                        }
                    }
                }
            },
        }
        i = i + 1;
    }
    proof {
        lemma_readable_prefix(peers@, n as int);
    }
    BroadcastPlan { recipients, address_unavailable: false }
}

/// Whether the client at `j` has an address that could be read and is not
/// the sender's.
pub open spec fn other_client(peers: Seq<Option<String>>, sender: Seq<char>, j: int) -> bool {
    peers[j] matches Some(address) && address@ != sender
}

/// The client that a leaving message removes: the first one whose address
/// is the sender's. The clients are looked at in order; `Err` gives the
/// position of a client whose address cannot be read, met before any match.
pub fn position_of(peers: &Vec<Option<String>>, sender: &String) -> (r: Result<Option<usize>, usize>)
    ensures
        match r {
            Ok(Some(k)) => k < peers@.len() && (peers@[k as int] matches Some(address) && address@
                == sender@) && forall|j: int| 0 <= j < k ==> other_client(peers@, sender@, j),
            Ok(None) => forall|j: int| 0 <= j < peers@.len() ==> other_client(peers@, sender@, j),
            Err(k) => k < peers@.len() && peers@[k as int] is None && forall|j: int|
                0 <= j < k ==> other_client(peers@, sender@, j),
        },
{
    let n = peers.len();
    for i in 0..n
        invariant
            n == peers@.len(),
            forall|j: int| 0 <= j < i ==> other_client(peers@, sender@, j),
    {
        match &peers[i] {
            None => return Err(i),
            Some(address) => {
                if *address == *sender {
                    return Ok(Some(i));
                }
            },
        }
    }
    Ok(None)
}

/// What happened when the server tried to read the next message of a client.
#[derive(Debug, Clone, Copy, PartialEq, Eq, Structural)]
pub enum ReadOutcome {
    /// A message arrived; whether it is the client's leaving signal.
    Received { is_quit: bool },
    /// The client's connection was reset or aborted.
    ConnectionLost,
    /// Reading failed for another reason.
    Failed,
}

/// What the server does after a read from a client.
#[derive(Debug, Clone, Copy, PartialEq, Eq, Structural)]
pub enum ReadAction {
    /// Hand the message on for broadcasting, then stop reading from this client or go on.
    Forward { then_stop: bool },
    /// Announce that the client left, in its name, and stop reading from it.
    AnnounceLeaving,
    /// Stop reading from this client.
    Stop,
}

/// The server forwards every message, and stops after a leaving signal so
/// that it is broadcast once; a lost connection is announced as the client
/// leaving; any other failure ends the reading.
pub fn after_read(outcome: ReadOutcome) -> (r: ReadAction)
    ensures
        r == match outcome {
            ReadOutcome::Received { is_quit } => ReadAction::Forward { then_stop: is_quit },
            ReadOutcome::ConnectionLost => ReadAction::AnnounceLeaving,
            ReadOutcome::Failed => ReadAction::Stop,
        },
{
    match outcome {
        ReadOutcome::Received { is_quit } => ReadAction::Forward { then_stop: is_quit },
        ReadOutcome::ConnectionLost => ReadAction::AnnounceLeaving,
        ReadOutcome::Failed => ReadAction::Stop,
    }
}

} // verus!
