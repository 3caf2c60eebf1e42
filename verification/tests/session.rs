use minimux::protocol::{ClientMsg, DaemonMsg};
use minimux::session::{Session, SessionAction, SessionEvent};

fn output(s: &mut Session, data: &[u8]) -> SessionAction {
    s.handle(SessionEvent::PtyOutput(data.to_vec()))
}

#[test]
fn output_without_client_is_only_recorded() {
    let mut s = Session::new(30, 120, 1000);
    assert!(matches!(output(&mut s, b"hi"), SessionAction::Nothing));
    match s.handle(SessionEvent::ClientConnected) {
        SessionAction::SendToClient { msg: DaemonMsg::ScrollbackReplay(bytes), drop_on_error } => {
            assert_eq!(bytes, b"hi".to_vec());
            assert!(!drop_on_error);
        }
        other => panic!("unexpected {:?}", other),
    }
    assert!(s.client_attached());
}

#[test]
fn connecting_with_empty_history_sends_nothing() {
    let mut s = Session::new(30, 120, 1000);
    assert!(matches!(s.handle(SessionEvent::ClientConnected), SessionAction::Nothing));
    assert!(s.client_attached());
}

#[test]
fn attached_client_gets_output() {
    let mut s = Session::new(30, 120, 1000);
    s.handle(SessionEvent::ClientConnected);
    match output(&mut s, b"abc") {
        SessionAction::SendToClient { msg: DaemonMsg::Output(bytes), drop_on_error } => {
            assert_eq!(bytes, b"abc".to_vec());
            assert!(drop_on_error);
        }
        other => panic!("unexpected {:?}", other),
    }
}

#[test]
fn detach_then_reattach_replays_everything() {
    let mut s = Session::new(30, 120, 1000);
    s.handle(SessionEvent::ClientConnected);
    output(&mut s, b"one ");
    assert!(matches!(
        s.handle(SessionEvent::ClientMessage(ClientMsg::Detach)),
        SessionAction::StopReading
    ));
    assert!(!s.client_attached());
    assert!(matches!(output(&mut s, b"two"), SessionAction::Nothing));
    match s.handle(SessionEvent::ClientConnected) {
        SessionAction::SendToClient { msg: DaemonMsg::ScrollbackReplay(bytes), .. } => {
            assert_eq!(bytes, b"one two".to_vec());
        }
        other => panic!("unexpected {:?}", other),
    }
}

#[test]
fn input_goes_to_the_pty() {
    let mut s = Session::new(30, 120, 1000);
    match s.handle(SessionEvent::ClientMessage(ClientMsg::Input(b"ls\r".to_vec()))) {
        SessionAction::WriteToPty(bytes) => assert_eq!(bytes, b"ls\r".to_vec()),
        other => panic!("unexpected {:?}", other),
    }
}

#[test]
fn resize_reaches_the_pty() {
    let mut s = Session::new(30, 120, 1000);
    match s.handle(SessionEvent::ClientMessage(ClientMsg::Resize { cols: 90, rows: 20 })) {
        SessionAction::ResizePty { cols, rows } => assert_eq!((cols, rows), (90, 20)),
        other => panic!("unexpected {:?}", other),
    }
}

#[test]
fn shell_exit_is_announced_and_final() {
    let mut s = Session::new(30, 120, 1000);
    s.handle(SessionEvent::ClientConnected);
    assert!(matches!(
        s.handle(SessionEvent::PtyClosed),
        SessionAction::SendToClient { msg: DaemonMsg::SessionEnded, drop_on_error: false }
    ));
    assert!(s.shell_exited());
    s.handle(SessionEvent::ClientGone);
    s.handle(SessionEvent::ClientConnected);
    assert!(s.shell_exited());
}

#[test]
fn pty_failure_ends_the_session_silently() {
    let mut s = Session::new(30, 120, 1000);
    s.handle(SessionEvent::ClientConnected);
    assert!(matches!(s.handle(SessionEvent::PtyFailed), SessionAction::Nothing));
    assert!(s.shell_exited());
}

#[test]
fn corrupt_message_drops_the_client() {
    let mut s = Session::new(30, 120, 1000);
    s.handle(SessionEvent::ClientConnected);
    assert!(matches!(s.handle(SessionEvent::ClientCorrupt), SessionAction::StopReading));
    assert!(!s.client_attached());
    assert!(matches!(output(&mut s, b"x"), SessionAction::Nothing));
}

#[test]
fn failed_send_and_disconnect_drop_the_client() {
    let mut s = Session::new(30, 120, 1000);
    s.handle(SessionEvent::ClientConnected);
    assert!(matches!(s.handle(SessionEvent::ClientSendFailed), SessionAction::Nothing));
    assert!(!s.client_attached());
    s.handle(SessionEvent::ClientConnected);
    assert!(matches!(s.handle(SessionEvent::ClientGone), SessionAction::Nothing));
    assert!(!s.client_attached());
}

#[test]
fn resize_to_one_column_is_carried_out() {
    let mut s = Session::new(30, 120, 1000);
    s.handle(SessionEvent::PtyOutput("中文".as_bytes().to_vec()));
    match s.handle(SessionEvent::ClientMessage(ClientMsg::Resize { cols: 1, rows: 10 })) {
        SessionAction::ResizePty { cols, rows } => assert_eq!((cols, rows), (1, 10)),
        other => panic!("unexpected {:?}", other),
    }
    s.handle(SessionEvent::PtyOutput("宽".as_bytes().to_vec()));
}
