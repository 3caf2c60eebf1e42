use crate::keys::{control_byte, has_control, key_bytes, key_event_to_bytes, KeyCode, KeyEvent, KeyEventKind, MOD_CONTROL};
use crate::protocol::{ClientMsg, ClientMsgView, DaemonMsg, DaemonMsgView};
use vstd::prelude::*;

verus! {

/// An event read from the client's terminal.
#[derive(Debug, Clone, Copy, PartialEq, Eq, Structural)]
pub enum TermEvent {
    Key(KeyEvent),
    Resize { cols: u16, rows: u16 },
    /// Focus, mouse, paste and the like, which the client ignores.
    Other,
}

/// What the client does after a terminal event.
#[derive(Debug)]
pub enum AttachAction {
    /// Nothing to send.
    Nothing,
    /// Send this message to the daemon; stop relaying if the send fails.
    Send(ClientMsg),
    /// Send `Detach` to the daemon (a failure does not matter) and stop:
    /// the user pressed Ctrl+D, or Ctrl+B then d.
    Detach,
}

/// The action of an event, over the message it carries.
#[verifier::ext_equal]
pub enum AttachOutcome {
    Nothing,
    Send(ClientMsgView),
    Detach,
}

impl View for AttachAction {
    type V = AttachOutcome;

    open spec fn view(&self) -> AttachOutcome {
        match self {
            AttachAction::Nothing => AttachOutcome::Nothing,
            AttachAction::Send(msg) => AttachOutcome::Send(msg@),
            AttachAction::Detach => AttachOutcome::Detach,
        }
    }
}

/// The literal Ctrl+B byte.
pub const CTRL_B: u8 = 0x02;

/// The prefix key (tmux-style): Ctrl+B pressed with no other modifier.
pub open spec fn is_prefix_key(key: KeyEvent) -> bool {
    &&& key.code == KeyCode::Char('b')
    &&& key.modifiers == MOD_CONTROL
    &&& key.kind == KeyEventKind::Press
}

/// The detach key: Ctrl+D pressed with no other modifier.
pub open spec fn is_detach_key(key: KeyEvent) -> bool {
    &&& key.code == KeyCode::Char('d')
    &&& key.modifiers == MOD_CONTROL
    &&& key.kind == KeyEventKind::Press
}

/// The next prefix mode and the action, for an event seen in the given
/// prefix mode.
pub open spec fn attach_step(prefix: bool, event: TermEvent) -> (bool, AttachOutcome) {
    match event {
        TermEvent::Key(key) => if is_prefix_key(key) {
            if prefix {
                // Ctrl+B Ctrl+B: send a literal Ctrl+B.
                (false, AttachOutcome::Send(ClientMsgView::Input(seq![CTRL_B])))
            } else {
                (true, AttachOutcome::Nothing)
            }
        } else if key.kind == KeyEventKind::Press {
            if prefix {
                if key.code == KeyCode::Char('d') {
                    (false, AttachOutcome::Detach)
                } else {
                    // Unknown prefix command: ignored.
                    (false, AttachOutcome::Nothing)
                }
            } else if is_detach_key(key) {
                (false, AttachOutcome::Detach)
            } else {
                match key_bytes(key) {
                    Some(bytes) => (false, AttachOutcome::Send(ClientMsgView::Input(bytes))),
                    None => (false, AttachOutcome::Nothing),
                }
            }
        } else {
            (prefix, AttachOutcome::Nothing)
        },
        TermEvent::Resize { cols, rows } => (
            prefix,
            AttachOutcome::Send(ClientMsgView::Resize { cols, rows }),
        ),
        TermEvent::Other => (prefix, AttachOutcome::Nothing),
    }
}

/// The client's keyboard state: whether the prefix key was just pressed.
pub struct AttachState {
    prefix_mode: bool,
}

impl AttachState {
    /// Whether the next key is read as a prefix command.
    pub closed spec fn prefix(&self) -> bool {
        self.prefix_mode
    }

    pub fn new() -> (s: Self)
        ensures
            !s.prefix(),
    {
        AttachState { prefix_mode: false }
    }

    pub fn prefix_mode(&self) -> (b: bool)
        ensures
            b == self.prefix(),
    {
        self.prefix_mode
    }

    /// Decide what a terminal event means: a key to forward, a prefix
    /// command, a request to detach (Ctrl+D, or Ctrl+B d), or a resize to
    /// report.
    pub fn handle(&mut self, event: TermEvent) -> (action: AttachAction)
        ensures
            (final(self).prefix(), action@) == attach_step(old(self).prefix(), event),
    {
        match event {
            TermEvent::Key(key) => {
                if key.code == KeyCode::Char('b') && key.modifiers == MOD_CONTROL && key.kind
                    == KeyEventKind::Press {
                    if self.prefix_mode {
                        self.prefix_mode = false;
                        let literal = vec![CTRL_B];
                        assert(literal@ =~= seq![CTRL_B]);
                        AttachAction::Send(ClientMsg::Input(literal))
                    } else {
                        self.prefix_mode = true;
                        AttachAction::Nothing
                    }
                } else if key.kind == KeyEventKind::Press {
                    if self.prefix_mode {
                        self.prefix_mode = false;
                        if key.code == KeyCode::Char('d') {
                            AttachAction::Detach
                        } else {
                            AttachAction::Nothing
                        }
                    } else if key.code == KeyCode::Char('d') && key.modifiers == MOD_CONTROL {
                        AttachAction::Detach
                    } else {
                        match key_event_to_bytes(&key) {
                            Some(bytes) => AttachAction::Send(ClientMsg::Input(bytes)),
                            None => AttachAction::Nothing,
                        }
                    }
                } else {
                    AttachAction::Nothing
                }
            },
            TermEvent::Resize { cols, rows } => AttachAction::Send(ClientMsg::Resize { cols, rows }),
            TermEvent::Other => AttachAction::Nothing,
        }
    }
}

/// Ctrl+B then `d` detaches: the first key only enters prefix mode and
/// sends nothing, the second asks to detach and leaves prefix mode.
pub proof fn lemma_prefix_then_d_detaches(prefix_key: KeyEvent, d_key: KeyEvent)
    requires
        is_prefix_key(prefix_key),
        d_key.code == KeyCode::Char('d'),
        d_key.kind == KeyEventKind::Press,
    ensures
        ({
            let (p1, a1) = attach_step(false, TermEvent::Key(prefix_key));
            let (p2, a2) = attach_step(p1, TermEvent::Key(d_key));
            &&& a1 == AttachOutcome::Nothing
            &&& p1
            &&& a2 == AttachOutcome::Detach
            &&& !p2
        }),
{
}

/// Ctrl+D detaches at once, outside prefix mode as in it.
pub proof fn lemma_ctrl_d_detaches(key: KeyEvent, prefix: bool)
    requires
        is_detach_key(key),
    ensures
        attach_step(prefix, TermEvent::Key(key)) == (false, AttachOutcome::Detach),
{
}

/// Ctrl+B Ctrl+B sends the shell the same byte a lone Ctrl+B would send
/// were it not the prefix key, and leaves prefix mode.
pub proof fn lemma_prefix_twice_sends_ctrl_b(prefix_key: KeyEvent)
    requires
        is_prefix_key(prefix_key),
    ensures
        ({
            let (p1, a1) = attach_step(false, TermEvent::Key(prefix_key));
            let (p2, a2) = attach_step(p1, TermEvent::Key(prefix_key));
            &&& a1 == AttachOutcome::Nothing
            &&& a2 == AttachOutcome::Send(ClientMsgView::Input(seq![CTRL_B]))
            &&& !p2
            &&& key_bytes(prefix_key) == Some(seq![CTRL_B])
        }),
{
    assert(0x2u8 & 0x2u8 != 0) by (bit_vector);
    assert(has_control(prefix_key.modifiers));
    assert(control_byte('b') == CTRL_B);
    assert(seq![control_byte('b')] =~= seq![CTRL_B]);
}

/// What forwarding a key to the shell sends: its bytes, if it has any.
pub open spec fn forwarded(key: KeyEvent) -> AttachOutcome {
    match key_bytes(key) {
        Some(bytes) => AttachOutcome::Send(ClientMsgView::Input(bytes)),
        None => AttachOutcome::Nothing,
    }
}

/// Outside prefix mode every pressed key but the prefix and detach keys goes to the shell as exactly
/// the bytes it stands for, and prefix mode stays off.
pub proof fn lemma_keys_reach_shell(pressed: KeyEvent)
    requires
        pressed.kind == KeyEventKind::Press,
        !is_prefix_key(pressed),
        !is_detach_key(pressed),
    ensures
        ({
            let (prefix, action) = attach_step(false, TermEvent::Key(pressed));
            &&& !prefix
            &&& action == forwarded(pressed)
        }),
{
}

/// Only key presses act: a repeated or released key sends nothing and
/// leaves prefix mode as it was, so a key typed once reaches the shell once.
pub proof fn lemma_only_presses_act(key: KeyEvent, prefix: bool)
    requires
        key.kind != KeyEventKind::Press,
    ensures
        attach_step(prefix, TermEvent::Key(key)) == (prefix, AttachOutcome::Nothing),
{
}

/// Outside prefix mode, a pressed character key without Control reaches the
/// shell as exactly its UTF-8 encoding, which decodes back to that one
/// character, whatever Shift or Alt is held.
pub proof fn lemma_typed_character_reaches_shell(c: char, modifiers: u8)
    requires
        modifiers & MOD_CONTROL == 0,
    ensures
        ({
            let key = KeyEvent { code: KeyCode::Char(c), modifiers, kind: KeyEventKind::Press };
            let (prefix, action) = attach_step(false, TermEvent::Key(key));
            &&& !prefix
            &&& action == AttachOutcome::Send(
                ClientMsgView::Input(vstd::utf8::encode_utf8(seq![c])),
            )
            &&& vstd::utf8::decode_utf8(vstd::utf8::encode_utf8(seq![c])) == seq![c]
        }),
{
    let key = KeyEvent { code: KeyCode::Char(c), modifiers, kind: KeyEventKind::Press };
    assert(modifiers & 2u8 == 0 ==> modifiers != 2u8) by (bit_vector);
    crate::keys::lemma_character_bytes(c, modifiers, KeyEventKind::Press);
}

/// A resize is reported with the new size as given, in any prefix mode,
/// and changes nothing else.
pub proof fn lemma_resize_reported(cols: u16, rows: u16, prefix: bool)
    ensures
        attach_step(prefix, TermEvent::Resize { cols, rows }) == (
            prefix,
            AttachOutcome::Send(ClientMsgView::Resize { cols, rows }),
        ),
{
}

/// What a daemon message puts on the client's terminal: `None` when the
/// session has ended.
pub open spec fn terminal_bytes(msg: DaemonMsgView) -> Option<Seq<u8>> {
    match msg {
        DaemonMsgView::Output(data) => Some(data),
        // Reset the terminal (ESC c) before replaying, so that stale client
        // state does not mix with the replay.
        DaemonMsgView::ScrollbackReplay(data) => Some(seq![0x1bu8, 0x63] + data),
        DaemonMsgView::SessionEnded => None,
    }
}

/// PTY output reaches the terminal unchanged, byte for byte; a replay
/// reaches it whole after the two bytes ESC `c` that reset the terminal; the
/// end of the session writes nothing and stops.
pub proof fn lemma_output_written_unchanged(data: Seq<u8>)
    ensures
        terminal_bytes(DaemonMsgView::Output(data)) == Some(data),
        terminal_bytes(DaemonMsgView::ScrollbackReplay(data)) is Some,
        terminal_bytes(DaemonMsgView::ScrollbackReplay(data)).unwrap().len() == data.len() + 2,
        terminal_bytes(DaemonMsgView::ScrollbackReplay(data)).unwrap()[0] == 0x1b,
        terminal_bytes(DaemonMsgView::ScrollbackReplay(data)).unwrap()[1] == 0x63,
        terminal_bytes(DaemonMsgView::ScrollbackReplay(data)).unwrap().skip(2) == data,
        terminal_bytes(DaemonMsgView::SessionEnded) is None,
{
    let r = terminal_bytes(DaemonMsgView::ScrollbackReplay(data)).unwrap();
    assert(r.skip(2) =~= data);
}

/// The bytes to write to the client's terminal for a message from the
/// daemon, or `None` when the session has ended.
pub fn terminal_output(msg: DaemonMsg) -> (out: Option<Vec<u8>>)
    ensures
        match (out, terminal_bytes(msg@)) {
            (Some(v), Some(s)) => v@ == s,
            (None, None) => true,
            _ => false,
        },
{
    match msg {
        DaemonMsg::Output(data) => Some(data),
        DaemonMsg::ScrollbackReplay(data) => {
            let mut out: Vec<u8> = vec![0x1b, 0x63];
            let mut i: usize = 0;
            while i < data.len()
                invariant
                    i <= data@.len(),
                    out@ == seq![0x1bu8, 0x63] + data@.take(i as int),
                decreases data@.len() - i,
            {
                out.push(data[i]);
                i = i + 1;
                assert(data@.take(i as int) == data@.take(i - 1).push(data@[i - 1]));
            }
            assert(data@.take(data@.len() as int) == data@);
            Some(out)
        },
        DaemonMsg::SessionEnded => None,
    }
}

/// Terminal size `(cols, rows)` assumed when the real one cannot be read.
pub const DEFAULT_COLS: u16 = 120;
pub const DEFAULT_ROWS: u16 = 30;

/// The terminal size as read, or the default when it could not be read.
pub fn size_or_default(size: Option<(u16, u16)>) -> (r: (u16, u16))
    ensures
        r == match size {
            Some(s) => s,
            None => (DEFAULT_COLS, DEFAULT_ROWS),
        },
{
    match size {
        Some(s) => s,
        None => (DEFAULT_COLS, DEFAULT_ROWS),
    }
}

/// Number of attempts to open the daemon's pipe.
pub const CONNECT_ATTEMPTS: u32 = 20;

/// Pause between two attempts, in milliseconds.
pub const CONNECT_RETRY_MS: u64 = 100;

/// OS error: the pipe exists but another client holds it.
pub const ERROR_PIPE_BUSY: i32 = 231;

/// OS error: the pipe exists but this session may not open it.
pub const ERROR_ACCESS_DENIED: i32 = 5;

/// Why the client could not reach the daemon.
#[derive(Debug, Clone, Copy, PartialEq, Eq, Structural)]
pub enum ConnectError {
    /// Another client is attached.
    PipeBusy,
    /// The daemon was started from another logon session.
    AccessDenied,
    /// The pipe never became available.
    TimedOut,
}

/// What to do after an attempt to open the pipe failed.
#[derive(Debug, Clone, Copy, PartialEq, Eq, Structural)]
pub enum ConnectStep {
    /// Wait `CONNECT_RETRY_MS` and try again.
    Retry,
    /// Give up with this error.
    Fail(ConnectError),
}

/// The step after failed attempt number `attempt` (counting from 0).
pub open spec fn connect_step(attempt: u32, os_error: Option<i32>) -> ConnectStep {
    if os_error == Some(ERROR_PIPE_BUSY) {
        ConnectStep::Fail(ConnectError::PipeBusy)
    } else if os_error == Some(ERROR_ACCESS_DENIED) {
        ConnectStep::Fail(ConnectError::AccessDenied)
    } else if attempt + 1 < CONNECT_ATTEMPTS {
        ConnectStep::Retry
    } else {
        ConnectStep::Fail(ConnectError::TimedOut)
    }
}

/// Decide, after a failed attempt to open the daemon's pipe, whether to try
/// again: a busy pipe or a denied access will not get better, any other
/// error is retried until the attempts run out.
pub fn after_connect_failure(attempt: u32, os_error: Option<i32>) -> (step: ConnectStep)
    requires
        attempt < CONNECT_ATTEMPTS,
    ensures
        step == connect_step(attempt, os_error),
{
    match os_error {
        Some(code) => {
            if code == ERROR_PIPE_BUSY {
                return ConnectStep::Fail(ConnectError::PipeBusy);
            }
            if code == ERROR_ACCESS_DENIED {
                return ConnectStep::Fail(ConnectError::AccessDenied);
            }
        },
        None => {},
    }
    if attempt + 1 < CONNECT_ATTEMPTS {
        ConnectStep::Retry
    } else {
        ConnectStep::Fail(ConnectError::TimedOut)
    }
}

/// The client gives up at the last attempt whatever the error, so it never
/// tries more than `CONNECT_ATTEMPTS` times; a busy pipe or a denied access
/// ends the attempts at once.
pub proof fn lemma_connect_gives_up(os_error: Option<i32>)
    ensures
        connect_step((CONNECT_ATTEMPTS - 1) as u32, os_error) is Fail,
        connect_step(0, Some(ERROR_PIPE_BUSY)) == ConnectStep::Fail(ConnectError::PipeBusy),
        connect_step(0, Some(ERROR_ACCESS_DENIED)) == ConnectStep::Fail(ConnectError::AccessDenied),
{
}

impl ConnectError {
    /// The message shown to the user.
    pub fn message(&self) -> (s: String)
        ensures
            s@ == match self {
                ConnectError::PipeBusy => "Another client is already attached to this session.\nDetach the other client first (Ctrl+D), then try again."@,
                ConnectError::AccessDenied => "Cannot access the daemon pipe (access denied).\nThe daemon may have been started from a different session.\nTry: mm kill, then start a new session."@,
                ConnectError::TimedOut => "Could not connect to daemon pipe (timed out after 2s)"@,
            },
    {
        match self {
            ConnectError::PipeBusy => String::from_str(
                "Another client is already attached to this session.\nDetach the other client first (Ctrl+D), then try again.",
            ),
            ConnectError::AccessDenied => String::from_str(
                "Cannot access the daemon pipe (access denied).\nThe daemon may have been started from a different session.\nTry: mm kill, then start a new session.",
            ),
            ConnectError::TimedOut => String::from_str(
                "Could not connect to daemon pipe (timed out after 2s)",
            ),
        }
    }
}

} // verus!
