use crate::protocol::{ClientMsg, ClientMsgView, DaemonMsg, DaemonMsgView};
use crate::scrollback::{concat, fed, kept, lemma_feeds_keep_last_lines, tracked_cols, Scrollback};
use vstd::prelude::*;

verus! {

/// Something that happened to the daemon: output or end of the PTY, or a
/// client connecting, speaking, or going away.
#[derive(Debug)]
pub enum SessionEvent {
    /// The PTY produced output.
    PtyOutput(Vec<u8>),
    /// The PTY reached end of file: the shell exited.
    PtyClosed,
    /// Reading the PTY failed.
    PtyFailed,
    /// A client connected to the pipe.
    ClientConnected,
    /// A complete message arrived from the client.
    ClientMessage(ClientMsg),
    /// A frame from the client did not hold a valid message.
    ClientCorrupt,
    /// The client closed the pipe, or reading from it failed.
    ClientGone,
    /// Sending PTY output to the client failed.
    ClientSendFailed,
}

/// What the daemon does after an event.
#[derive(Debug)]
pub enum SessionAction {
    /// Nothing to do.
    Nothing,
    /// Send this message to the attached client.  When `drop_on_error` is
    /// set, a failed send means the client is gone and is reported back as
    /// `ClientSendFailed`; otherwise the failure is ignored.
    SendToClient { msg: DaemonMsg, drop_on_error: bool },
    /// Write these bytes to the PTY (a failure is ignored).
    WriteToPty(Vec<u8>),
    /// Resize the PTY (a failure is ignored).
    ResizePty { cols: u16, rows: u16 },
    /// Stop processing the messages buffered from this client.
    StopReading,
}

/// An event, over the bytes it carries.
#[verifier::ext_equal]
pub enum SessionEventView {
    PtyOutput(Seq<u8>),
    PtyClosed,
    PtyFailed,
    ClientConnected,
    ClientMessage(ClientMsgView),
    ClientCorrupt,
    ClientGone,
    ClientSendFailed,
}

/// An action, over the bytes it carries.
#[verifier::ext_equal]
pub enum SessionOutcome {
    Nothing,
    SendToClient { msg: DaemonMsgView, drop_on_error: bool },
    WriteToPty(Seq<u8>),
    ResizePty { cols: u16, rows: u16 },
    StopReading,
}

impl View for SessionEvent {
    type V = SessionEventView;

    open spec fn view(&self) -> SessionEventView {
        match self {
            SessionEvent::PtyOutput(data) => SessionEventView::PtyOutput(data@),
            SessionEvent::PtyClosed => SessionEventView::PtyClosed,
            SessionEvent::PtyFailed => SessionEventView::PtyFailed,
            SessionEvent::ClientConnected => SessionEventView::ClientConnected,
            SessionEvent::ClientMessage(msg) => SessionEventView::ClientMessage(msg@),
            SessionEvent::ClientCorrupt => SessionEventView::ClientCorrupt,
            SessionEvent::ClientGone => SessionEventView::ClientGone,
            SessionEvent::ClientSendFailed => SessionEventView::ClientSendFailed,
        }
    }
}

impl View for SessionAction {
    type V = SessionOutcome;

    open spec fn view(&self) -> SessionOutcome {
        match self {
            SessionAction::Nothing => SessionOutcome::Nothing,
            SessionAction::SendToClient { msg, drop_on_error } => SessionOutcome::SendToClient {
                msg: msg@,
                drop_on_error: *drop_on_error,
            },
            SessionAction::WriteToPty(data) => SessionOutcome::WriteToPty(data@),
            SessionAction::ResizePty { cols, rows } => SessionOutcome::ResizePty {
                cols: *cols,
                rows: *rows,
            },
            SessionAction::StopReading => SessionOutcome::StopReading,
        }
    }
}

/// The daemon's state as the proofs see it.
#[verifier::ext_equal]
pub struct SessionView {
    /// The bytes a reattaching client is sent.
    pub replay: Seq<u8>,
    /// The most bytes the replay buffer keeps.
    pub capacity: nat,
    /// The most lines of output the replay buffer keeps.
    pub lines: nat,
    /// The `(rows, cols)` of the tracked virtual terminal, whose width is
    /// the client's brought within `MIN_COLS..=MAX_COLS`.
    pub size: (u16, u16),
    /// Whether a client is attached and receives output.
    pub attached: bool,
    /// Whether the shell has exited.
    pub exited: bool,
}

/// Whether the daemon can take this event: a terminal of zero rows or
/// columns cannot be tracked.
pub open spec fn acceptable(event: SessionEventView) -> bool {
    match event {
        SessionEventView::ClientMessage(ClientMsgView::Resize { cols, rows }) => cols
            >= 1 && rows >= 1,
        _ => true,
    }
}

/// The next state and the action of one event.
pub open spec fn session_step(s: SessionView, event: SessionEventView) -> (SessionView, SessionOutcome) {
    match event {
        SessionEventView::PtyOutput(data) => (
            SessionView { replay: kept(s.replay + data, s.capacity, s.lines), ..s },
            if s.attached {
                SessionOutcome::SendToClient {
                    msg: DaemonMsgView::Output(data),
                    drop_on_error: true,
                }
            } else {
                SessionOutcome::Nothing
            },
        ),
        SessionEventView::PtyClosed => (
            SessionView { exited: true, ..s },
            if s.attached {
                SessionOutcome::SendToClient {
                    msg: DaemonMsgView::SessionEnded,
                    drop_on_error: false,
                }
            } else {
                SessionOutcome::Nothing
            },
        ),
        SessionEventView::PtyFailed => (SessionView { exited: true, ..s }, SessionOutcome::Nothing),
        SessionEventView::ClientConnected => (
            SessionView { attached: true, ..s },
            if s.replay.len() > 0 {
                SessionOutcome::SendToClient {
                    msg: DaemonMsgView::ScrollbackReplay(s.replay),
                    drop_on_error: false,
                }
            } else {
                SessionOutcome::Nothing
            },
        ),
        SessionEventView::ClientMessage(msg) => match msg {
            ClientMsgView::Input(data) => (s, SessionOutcome::WriteToPty(data)),
            ClientMsgView::Resize { cols, rows } => (
                SessionView { size: (rows, tracked_cols(cols)), ..s },
                SessionOutcome::ResizePty { cols, rows },
            ),
            ClientMsgView::Detach => (SessionView { attached: false, ..s }, SessionOutcome::StopReading),
        },
        SessionEventView::ClientCorrupt => (
            SessionView { attached: false, ..s },
            SessionOutcome::StopReading,
        ),
        SessionEventView::ClientGone => (SessionView { attached: false, ..s }, SessionOutcome::Nothing),
        SessionEventView::ClientSendFailed => (
            SessionView { attached: false, ..s },
            SessionOutcome::Nothing,
        ),
    }
}

/// The daemon's session: the replay buffer, whether a client is attached,
/// and whether the shell has exited.
pub struct Session {
    scrollback: Scrollback,
    client_attached: bool,
    shell_exited: bool,
}

impl View for Session {
    type V = SessionView;

    closed spec fn view(&self) -> SessionView {
        SessionView {
            replay: self.scrollback.bytes(),
            capacity: self.scrollback.capacity(),
            lines: self.scrollback.lines(),
            size: self.scrollback.dims(),
            attached: self.client_attached,
            exited: self.shell_exited,
        }
    }
}

impl Session {
    /// Well-formedness of the replay buffer.
    pub closed spec fn wf(&self) -> bool {
        self.scrollback.wf()
    }

    /// A session for a shell on a `rows` x `cols` terminal (tracked
    /// `tracked_cols(cols)` wide) that keeps the last `lines` lines of
    /// output for replay: nothing recorded, no client, shell running.
    pub fn new(rows: u16, cols: u16, lines: usize) -> (s: Self)
        requires
            rows >= 1,
            cols >= 1,
        ensures
            s.wf(),
            s@ == (SessionView {
                replay: Seq::empty(),
                capacity: crate::scrollback::DEFAULT_RAW_CAPACITY as nat,
                lines: lines as nat,
                size: (rows, tracked_cols(cols)),
                attached: false,
                exited: false,
            }),
    {
        Session { scrollback: Scrollback::new(rows, cols, lines), client_attached: false, shell_exited: false }
    }

    /// Whether the shell has exited.
    pub fn shell_exited(&self) -> (b: bool)
        ensures
            b == self@.exited,
    {
        self.shell_exited
    }

    /// Whether a client is attached.
    pub fn client_attached(&self) -> (b: bool)
        ensures
            b == self@.attached,
    {
        self.client_attached
    }

    /// Take one event and say what to do about it.
    pub fn handle(&mut self, event: SessionEvent) -> (action: SessionAction)
        requires
            old(self).wf(),
            acceptable(event@),
        ensures
            final(self).wf(),
            (final(self)@, action@) == session_step(old(self)@, event@),
            old(self)@.exited ==> final(self)@.exited,
    {
        match event {
            SessionEvent::PtyOutput(data) => {
                self.scrollback.feed(&data);
                if self.client_attached {
                    SessionAction::SendToClient { msg: DaemonMsg::Output(data), drop_on_error: true }
                } else {
                    SessionAction::Nothing
                }
            },
            SessionEvent::PtyClosed => {
                self.shell_exited = true;
                if self.client_attached {
                    SessionAction::SendToClient { msg: DaemonMsg::SessionEnded, drop_on_error: false }
                } else {
                    SessionAction::Nothing
                }
            },
            SessionEvent::PtyFailed => {
                self.shell_exited = true;
                SessionAction::Nothing
            },
            SessionEvent::ClientConnected => {
                let replay = self.scrollback.replay();
                self.client_attached = true;
                if replay.len() > 0 {
                    SessionAction::SendToClient {
                        msg: DaemonMsg::ScrollbackReplay(replay),
                        drop_on_error: false,
                    }
                } else {
                    SessionAction::Nothing
                }
            },
            SessionEvent::ClientMessage(msg) => match msg {
                ClientMsg::Input(data) => SessionAction::WriteToPty(data),
                ClientMsg::Resize { cols, rows } => {
                    self.scrollback.resize(rows, cols);
                    SessionAction::ResizePty { cols, rows }
                },
                ClientMsg::Detach => {
                    self.client_attached = false;
                    SessionAction::StopReading
                },
            },
            SessionEvent::ClientCorrupt => {
                self.client_attached = false;
                SessionAction::StopReading
            },
            SessionEvent::ClientGone => {
                self.client_attached = false;
                SessionAction::Nothing
            },
            SessionEvent::ClientSendFailed => {
                self.client_attached = false;
                SessionAction::Nothing
            },
        }
    }
}

/// The state after a sequence of events, with the action of each.
pub open spec fn run(s: SessionView, events: Seq<SessionEventView>) -> (SessionView, Seq<SessionOutcome>)
    decreases events.len(),
{
    if events.len() == 0 {
        (s, Seq::empty())
    } else {
        let (t, outcomes) = run(s, events.drop_last());
        let (u, outcome) = session_step(t, events.last());
        (u, outcomes.push(outcome))
    }
}

/// The events of the PTY producing these chunks of output, in order.
pub open spec fn pty_outputs(chunks: Seq<Seq<u8>>) -> Seq<SessionEventView> {
    chunks.map_values(|c: Seq<u8>| SessionEventView::PtyOutput(c))
}

/// PTY output changes only the replay buffer, which it extends chunk by
/// chunk; an attached client is sent each chunk in order, a detached one
/// nothing.
pub proof fn lemma_run_outputs(s: SessionView, chunks: Seq<Seq<u8>>)
    ensures
        ({
            let (t, outcomes) = run(s, pty_outputs(chunks));
            &&& t == SessionView { replay: fed(s.replay, chunks, s.capacity, s.lines), ..s }
            &&& outcomes.len() == chunks.len()
            &&& forall|i: int|
                0 <= i < chunks.len() ==> #[trigger] outcomes[i] == if s.attached {
                    SessionOutcome::SendToClient {
                        msg: DaemonMsgView::Output(chunks[i]),
                        drop_on_error: true,
                    }
                } else {
                    SessionOutcome::Nothing
                }
        }),
    decreases chunks.len(),
{
    if chunks.len() > 0 {
        let init = chunks.drop_last();
        lemma_run_outputs(s, init);
        assert(pty_outputs(chunks).drop_last() =~= pty_outputs(init));
        assert(pty_outputs(chunks).last() == SessionEventView::PtyOutput(chunks.last()));
        let (t, outcomes) = run(s, pty_outputs(init));
        assert forall|i: int| 0 <= i < init.len() implies init[i] == chunks[i] by {}
    } else {
        assert(pty_outputs(chunks) =~= Seq::<SessionEventView>::empty());
    }
}

/// What happened while no client was attached is replayed on reattach:
/// output produced while detached reaches no one, enters the replay buffer,
/// and the next client to connect is sent the last lines of all output so
/// far, as many as the scrollback setting keeps within the byte capacity.
pub proof fn lemma_reattach_replays_missed_output(
    s: SessionView,
    history: Seq<u8>,
    chunks: Seq<Seq<u8>>,
)
    requires
        !s.attached,
        s.replay == kept(history, s.capacity, s.lines),
    ensures
        ({
            let (t, outcomes) = run(s, pty_outputs(chunks));
            let replay = kept(history + concat(chunks), s.capacity, s.lines);
            &&& forall|i: int| 0 <= i < outcomes.len() ==> #[trigger] outcomes[i] == SessionOutcome::Nothing
            &&& t.replay == replay
            &&& !t.attached
            &&& session_step(t, SessionEventView::ClientConnected) == (
                SessionView { attached: true, ..t },
                if replay.len() > 0 {
                    SessionOutcome::SendToClient {
                        msg: DaemonMsgView::ScrollbackReplay(replay),
                        drop_on_error: false,
                    }
                } else {
                    SessionOutcome::Nothing
                },
            )
        }),
{
    lemma_run_outputs(s, chunks);
    lemma_feeds_keep_last_lines(history, chunks, s.capacity, s.lines);
    let (t, outcomes) = run(s, pty_outputs(chunks));
    assert forall|i: int| 0 <= i < outcomes.len() implies #[trigger] outcomes[i] == SessionOutcome::Nothing by {
        assert(outcomes[i] == SessionOutcome::Nothing);
    }
}

/// An attached client is sent every chunk of PTY output, in the order it
/// was produced, and stays attached.
pub proof fn lemma_attached_client_sees_all_output(s: SessionView, chunks: Seq<Seq<u8>>)
    requires
        s.attached,
    ensures
        ({
            let (t, outcomes) = run(s, pty_outputs(chunks));
            &&& t.attached
            &&& outcomes.len() == chunks.len()
            &&& forall|i: int|
                0 <= i < chunks.len() ==> #[trigger] outcomes[i] == SessionOutcome::SendToClient {
                    msg: DaemonMsgView::Output(chunks[i]),
                    drop_on_error: true,
                }
        }),
{
    lemma_run_outputs(s, chunks);
}

/// Client input goes to the PTY exactly as sent and changes nothing of the
/// session: the client stays attached and keeps receiving output.
pub proof fn lemma_input_changes_nothing(s: SessionView, data: Seq<u8>, output: Seq<u8>)
    ensures
        session_step(s, SessionEventView::ClientMessage(ClientMsgView::Input(data))) == (
            s,
            SessionOutcome::WriteToPty(data),
        ),
        s.attached ==> session_step(
            session_step(s, SessionEventView::ClientMessage(ClientMsgView::Input(data))).0,
            SessionEventView::PtyOutput(output),
        ).1 == (SessionOutcome::SendToClient {
            msg: DaemonMsgView::Output(output),
            drop_on_error: true,
        }),
{
}

/// A resize reaches the PTY with the client's size as given and changes
/// only the tracked screen size: the client, the shell and the replay stay.
pub proof fn lemma_resize_changes_only_size(s: SessionView, cols: u16, rows: u16)
    ensures
        ({
            let (t, action) = session_step(
                s,
                SessionEventView::ClientMessage(ClientMsgView::Resize { cols, rows }),
            );
            &&& action == SessionOutcome::ResizePty { cols, rows }
            &&& t.attached == s.attached
            &&& t.exited == s.exited
            &&& t.replay == s.replay
            &&& t.capacity == s.capacity
            &&& t.lines == s.lines
            &&& t.size.0 == rows
        }),
{
}

/// A connecting client is attached and sent exactly the bytes recorded so
/// far, if there are any; the recorded bytes stay.
pub proof fn lemma_connect_sends_replay(s: SessionView)
    ensures
        ({
            let (t, action) = session_step(s, SessionEventView::ClientConnected);
            &&& t.attached
            &&& t.replay == s.replay
            &&& t.exited == s.exited
            &&& (s.replay.len() > 0 ==> action == SessionOutcome::SendToClient {
                msg: DaemonMsgView::ScrollbackReplay(s.replay),
                drop_on_error: false,
            })
            &&& (s.replay.len() == 0 ==> action == SessionOutcome::Nothing)
        }),
{
}

/// When the shell exits the session is marked ended and an attached client
/// is told so, once, with nothing else sent; a failed read ends it silently.
/// What was recorded stays for replay.
pub proof fn lemma_shell_exit_announced(s: SessionView)
    ensures
        ({
            let (t, action) = session_step(s, SessionEventView::PtyClosed);
            &&& t.exited
            &&& t.replay == s.replay
            &&& t.attached == s.attached
            &&& (s.attached ==> action == SessionOutcome::SendToClient {
                msg: DaemonMsgView::SessionEnded,
                drop_on_error: false,
            })
            &&& (!s.attached ==> action == SessionOutcome::Nothing)
        }),
        ({
            let (t, action) = session_step(s, SessionEventView::PtyFailed);
            &&& t.exited
            &&& t.replay == s.replay
            &&& action == SessionOutcome::Nothing
        }),
{
}

/// Once the shell has exited, the session stays exited whatever happens.
pub proof fn lemma_exit_is_final(s: SessionView, events: Seq<SessionEventView>)
    requires
        s.exited,
    ensures
        run(s, events).0.exited,
    decreases events.len(),
{
    if events.len() > 0 {
        lemma_exit_is_final(s, events.drop_last());
    }
}

/// After the client detaches, nothing is sent until a client connects
/// again, while output keeps being recorded.
pub proof fn lemma_detach_stops_output(s: SessionView, chunks: Seq<Seq<u8>>)
    ensures
        ({
            let (d, detach_outcome) = session_step(
                s,
                SessionEventView::ClientMessage(ClientMsgView::Detach),
            );
            let (t, outcomes) = run(d, pty_outputs(chunks));
            &&& detach_outcome == SessionOutcome::StopReading
            &&& !t.attached
            &&& t.replay == fed(s.replay, chunks, s.capacity, s.lines)
            &&& forall|i: int| 0 <= i < outcomes.len() ==> #[trigger] outcomes[i] == SessionOutcome::Nothing
        }),
{
    let (d, _) = session_step(s, SessionEventView::ClientMessage(ClientMsgView::Detach));
    lemma_run_outputs(d, chunks);
    let (t, outcomes) = run(d, pty_outputs(chunks));
    assert forall|i: int| 0 <= i < outcomes.len() implies #[trigger] outcomes[i] == SessionOutcome::Nothing by {
        assert(outcomes[i] == SessionOutcome::Nothing);
    }
}

} // verus!
