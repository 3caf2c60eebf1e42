use minimux::client::{
    after_connect_failure, size_or_default, terminal_output, AttachAction, AttachState,
    ConnectError, ConnectStep, TermEvent, CONNECT_ATTEMPTS,
};
use minimux::keys::{KeyCode, KeyEvent, KeyEventKind, MOD_CONTROL, MOD_SHIFT};
use minimux::protocol::{ClientMsg, DaemonMsg};

fn press(code: KeyCode, modifiers: u8) -> TermEvent {
    TermEvent::Key(KeyEvent { code, modifiers, kind: KeyEventKind::Press })
}

fn sent_input(action: AttachAction) -> Option<Vec<u8>> {
    match action {
        AttachAction::Send(ClientMsg::Input(bytes)) => Some(bytes),
        _ => None,
    }
}

#[test]
fn ordinary_keys_are_forwarded() {
    let mut st = AttachState::new();
    assert_eq!(sent_input(st.handle(press(KeyCode::Char('x'), 0))), Some(b"x".to_vec()));
    assert_eq!(sent_input(st.handle(press(KeyCode::Enter, 0))), Some(b"\r".to_vec()));
    assert!(!st.prefix_mode());
}

#[test]
fn ctrl_b_d_detaches() {
    let mut st = AttachState::new();
    assert!(matches!(st.handle(press(KeyCode::Char('b'), MOD_CONTROL)), AttachAction::Nothing));
    assert!(st.prefix_mode());
    assert!(matches!(st.handle(press(KeyCode::Char('d'), 0)), AttachAction::Detach));
    assert!(!st.prefix_mode());
}

#[test]
fn ctrl_b_twice_sends_literal_ctrl_b() {
    let mut st = AttachState::new();
    st.handle(press(KeyCode::Char('b'), MOD_CONTROL));
    assert_eq!(sent_input(st.handle(press(KeyCode::Char('b'), MOD_CONTROL))), Some(vec![0x02]));
    assert!(!st.prefix_mode());
}

#[test]
fn unknown_prefix_command_is_ignored() {
    let mut st = AttachState::new();
    st.handle(press(KeyCode::Char('b'), MOD_CONTROL));
    assert!(matches!(st.handle(press(KeyCode::Char('x'), 0)), AttachAction::Nothing));
    assert!(!st.prefix_mode());
    // The next key goes through again.
    assert_eq!(sent_input(st.handle(press(KeyCode::Char('x'), 0))), Some(b"x".to_vec()));
}

#[test]
fn ctrl_shift_b_is_not_the_prefix() {
    let mut st = AttachState::new();
    let action = st.handle(press(KeyCode::Char('b'), MOD_CONTROL | MOD_SHIFT));
    assert_eq!(sent_input(action), Some(vec![0x02]));
    assert!(!st.prefix_mode());
}

#[test]
fn released_keys_are_ignored() {
    let mut st = AttachState::new();
    let ev = TermEvent::Key(KeyEvent {
        code: KeyCode::Char('b'),
        modifiers: MOD_CONTROL,
        kind: KeyEventKind::Release,
    });
    assert!(matches!(st.handle(ev), AttachAction::Nothing));
    assert!(!st.prefix_mode());
    st.handle(press(KeyCode::Char('b'), MOD_CONTROL));
    let rep = TermEvent::Key(KeyEvent { code: KeyCode::Char('d'), modifiers: 0, kind: KeyEventKind::Repeat });
    assert!(matches!(st.handle(rep), AttachAction::Nothing));
    assert!(st.prefix_mode());
}

#[test]
fn resize_is_reported_and_keeps_prefix() {
    let mut st = AttachState::new();
    st.handle(press(KeyCode::Char('b'), MOD_CONTROL));
    match st.handle(TermEvent::Resize { cols: 100, rows: 40 }) {
        AttachAction::Send(ClientMsg::Resize { cols, rows }) => {
            assert_eq!((cols, rows), (100, 40));
        }
        other => panic!("unexpected {:?}", other),
    }
    assert!(st.prefix_mode());
    assert!(matches!(st.handle(TermEvent::Other), AttachAction::Nothing));
}

#[test]
fn keys_without_bytes_send_nothing() {
    let mut st = AttachState::new();
    assert!(matches!(st.handle(press(KeyCode::Other, 0)), AttachAction::Nothing));
    assert!(matches!(st.handle(press(KeyCode::F(20), 0)), AttachAction::Nothing));
}

#[test]
fn output_is_written_as_is() {
    assert_eq!(terminal_output(DaemonMsg::Output(b"abc".to_vec())), Some(b"abc".to_vec()));
}

#[test]
fn replay_resets_the_terminal_first() {
    assert_eq!(
        terminal_output(DaemonMsg::ScrollbackReplay(b"history".to_vec())),
        Some(b"\x1bchistory".to_vec())
    );
}

#[test]
fn session_end_stops_output() {
    assert_eq!(terminal_output(DaemonMsg::SessionEnded), None);
}

#[test]
fn default_terminal_size() {
    assert_eq!(size_or_default(None), (120, 30));
    assert_eq!(size_or_default(Some((80, 24))), (80, 24));
}

#[test]
fn connect_retries_then_times_out() {
    assert_eq!(after_connect_failure(0, Some(2)), ConnectStep::Retry);
    assert_eq!(after_connect_failure(18, None), ConnectStep::Retry);
    assert_eq!(
        after_connect_failure(CONNECT_ATTEMPTS - 1, Some(2)),
        ConnectStep::Fail(ConnectError::TimedOut)
    );
}

#[test]
fn busy_pipe_and_denied_access_fail_at_once() {
    assert_eq!(after_connect_failure(0, Some(231)), ConnectStep::Fail(ConnectError::PipeBusy));
    assert_eq!(after_connect_failure(3, Some(5)), ConnectStep::Fail(ConnectError::AccessDenied));
}

#[test]
fn connect_error_messages() {
    assert_eq!(
        ConnectError::PipeBusy.message(),
        "Another client is already attached to this session.\nDetach the other client first (Ctrl+D), then try again."
    );
    assert!(ConnectError::AccessDenied.message().starts_with("Cannot access the daemon pipe"));
    assert_eq!(
        ConnectError::TimedOut.message(),
        "Could not connect to daemon pipe (timed out after 2s)"
    );
}

#[test]
fn ctrl_d_detaches() {
    let mut st = AttachState::new();
    assert!(matches!(st.handle(press(KeyCode::Char('d'), MOD_CONTROL)), AttachAction::Detach));
    assert!(!st.prefix_mode());
}

#[test]
fn ctrl_d_in_prefix_mode_detaches() {
    let mut st = AttachState::new();
    st.handle(press(KeyCode::Char('b'), MOD_CONTROL));
    assert!(matches!(st.handle(press(KeyCode::Char('d'), MOD_CONTROL)), AttachAction::Detach));
}

#[test]
fn plain_d_is_typed() {
    let mut st = AttachState::new();
    assert_eq!(sent_input(st.handle(press(KeyCode::Char('d'), 0))), Some(b"d".to_vec()));
}
