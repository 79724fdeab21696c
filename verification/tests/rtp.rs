use obelisk::rtp::{
    peer_timed_out, RtpSessionError, RtpSessions, RtpTaskAttachments, RtpTaskCommand, RtpTaskState,
};
use obelisk::sdp::MediaSessionId;

#[test]
fn senders_and_receivers_attach_once() {
    let mut s: RtpSessions<&'static str> = RtpSessions::new();
    let id = MediaSessionId(1);
    assert!(!s.has_session(id));
    assert_eq!(s.add_sender(id, || "task-1"), Ok(()));
    assert!(s.has_session(id));
    assert_eq!(s.task(id), Some(&"task-1"));
    assert_eq!(s.add_sender(id, || "other"), Err(RtpSessionError::SenderExists));
    assert_eq!(s.add_receiver(id, || "other"), Ok(()));
    assert_eq!(s.add_receiver(id, || "other"), Err(RtpSessionError::ReceiverExists));
    assert_eq!(s.task(id), Some(&"task-1"));
    assert_eq!(s.sessions.len(), 1);
}

#[test]
fn cleanup_ends_idle_sessions() {
    let mut s: RtpSessions<u32> = RtpSessions::new();
    s.add_sender(MediaSessionId(1), || 10).unwrap();
    s.add_receiver(MediaSessionId(2), || 20).unwrap();
    s.add_sender(MediaSessionId(3), || 30).unwrap();
    assert!(s.remove_sender(MediaSessionId(1)));
    assert!(!s.remove_sender(MediaSessionId(9)));
    assert!(s.remove_receiver(MediaSessionId(2)));
    s.cleanup_sessions_without_sender_and_receiver();
    assert!(!s.has_session(MediaSessionId(1)));
    assert!(!s.has_session(MediaSessionId(2)));
    assert_eq!(s.task(MediaSessionId(3)), Some(&30));
    assert_eq!(s.sessions.len(), 1);
}

#[test]
fn an_existing_session_is_reused() {
    let mut s: RtpSessions<u32> = RtpSessions::new();
    let i = s.get_or_create_session(MediaSessionId(4), || 1);
    let j = s.get_or_create_session(MediaSessionId(4), || 2);
    assert_eq!(i, j);
    assert_eq!(s.task(MediaSessionId(4)), Some(&1));
}

#[test]
fn rtp_task_commands() {
    let mut t: RtpTaskAttachments<&'static str, u8> = RtpTaskAttachments::new();
    t.handle_command(Some(RtpTaskCommand::AddSender("src")));
    t.handle_command(Some(RtpTaskCommand::AddReceiver(5)));
    assert_eq!(t.sender, Some("src"));
    assert_eq!(t.receiver, Some(5));
    t.handle_command(Some(RtpTaskCommand::RemoveSender));
    assert_eq!(t.sender, None);
    t.handle_command(Some(RtpTaskCommand::RemoveReceiver));
    assert_eq!(t.receiver, None);
    assert_eq!(t.state, RtpTaskState::Running);
    t.handle_command(None);
    assert_eq!(t.state, RtpTaskState::ExitOk);
}

#[test]
fn rtp_task_read_errors_end_the_task() {
    let mut t: RtpTaskAttachments<u8, u8> = RtpTaskAttachments::new();
    assert_eq!(t.handle_recv_io_result::<()>(Ok(172)), Some(172));
    assert_eq!(t.state, RtpTaskState::Running);
    assert_eq!(t.handle_recv_io_result::<&str>(Err("reset")), None);
    assert_eq!(t.state, RtpTaskState::ExitErr);
}

#[test]
fn a_silent_peer_ends_the_call_after_five_seconds() {
    assert!(!peer_timed_out(0, 0));
    assert!(!peer_timed_out(4, 999_999_999));
    assert!(!peer_timed_out(5, 0));
    assert!(peer_timed_out(5, 1));
    assert!(peer_timed_out(6, 0));
}
