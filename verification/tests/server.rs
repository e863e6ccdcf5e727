use course_chat::server::{after_read, broadcast_plan, position_of, ReadAction, ReadOutcome};
use course_chat::utils::{keeps_creating, peer_address_text, send_failure_notice, server_address_text, FolderCreation};

fn s(x: &str) -> String {
    x.to_string()
}

#[test]
fn broadcast_skips_the_sender() {
    let peers = vec![Some(s("a:1")), Some(s("b:2")), Some(s("a:1")), Some(s("c:3"))];
    let plan = broadcast_plan(&peers, &s("a:1"));
    assert_eq!(plan.recipients, vec![1, 3]);
    assert!(!plan.address_unavailable);
}

#[test]
fn broadcast_stops_at_an_unreadable_address() {
    let peers = vec![Some(s("b:2")), None, Some(s("c:3"))];
    let plan = broadcast_plan(&peers, &s("a:1"));
    assert_eq!(plan.recipients, vec![0]);
    assert!(plan.address_unavailable);
}

#[test]
fn leaving_client_is_found() {
    let peers = vec![Some(s("b:2")), Some(s("a:1")), Some(s("a:1")), None];
    assert_eq!(position_of(&peers, &s("a:1")), Ok(Some(1)));
    assert_eq!(position_of(&peers, &s("z:9")), Err(3));
    assert_eq!(position_of(&peers[..3].to_vec(), &s("z:9")), Ok(None));
    assert_eq!(position_of(&vec![None, Some(s("a:1"))], &s("a:1")), Err(0));
}

#[test]
fn reading_decisions() {
    assert_eq!(after_read(ReadOutcome::Received { is_quit: false }), ReadAction::Forward { then_stop: false });
    assert_eq!(after_read(ReadOutcome::Received { is_quit: true }), ReadAction::Forward { then_stop: true });
    assert_eq!(after_read(ReadOutcome::ConnectionLost), ReadAction::AnnounceLeaving);
    assert_eq!(after_read(ReadOutcome::Failed), ReadAction::Stop);
}

#[test]
fn folders_and_notices() {
    assert!(keeps_creating(FolderCreation::Created));
    assert!(keeps_creating(FolderCreation::AlreadyExists));
    assert!(!keeps_creating(FolderCreation::Failed));
    assert_eq!(send_failure_notice(true), "too big to send - max size of a message: 65536 bytes");
    assert_eq!(send_failure_notice(false), "unable to send encoded message");
    assert_eq!(peer_address_text(Err(s("gone"))), "client: unable to show address: gone");
    assert_eq!(server_address_text(Ok(s("0.0.0.0:1"))), "0.0.0.0:1");
    assert_eq!(server_address_text(Err(s("x"))), "SERVER ERROR: unable to show address: x");
}
