use vstd::bytes::*;
use vstd::prelude::*;

verus! {

/// Messages sent from client to daemon.
#[derive(Debug)]
pub enum ClientMsg {
    /// Raw input bytes from the client terminal.
    Input(Vec<u8>),
    /// Terminal was resized.
    Resize { cols: u16, rows: u16 },
    /// Client is detaching gracefully.
    Detach,
}

/// Messages sent from daemon to client.
#[derive(Debug)]
pub enum DaemonMsg {
    /// Raw output bytes from the PTY.
    Output(Vec<u8>),
    /// Scrollback replay on reattach.
    ScrollbackReplay(Vec<u8>),
    /// The shell inside the PTY has exited.
    SessionEnded,
}

/// What a client message says, over the bytes it carries.
#[verifier::ext_equal]
pub enum ClientMsgView {
    Input(Seq<u8>),
    Resize { cols: u16, rows: u16 },
    Detach,
}

/// What a daemon message says, over the bytes it carries.
#[verifier::ext_equal]
pub enum DaemonMsgView {
    Output(Seq<u8>),
    ScrollbackReplay(Seq<u8>),
    SessionEnded,
}

impl View for ClientMsg {
    type V = ClientMsgView;

    open spec fn view(&self) -> ClientMsgView {
        match self {
            ClientMsg::Input(data) => ClientMsgView::Input(data@),
            ClientMsg::Resize { cols, rows } => ClientMsgView::Resize { cols: *cols, rows: *rows },
            ClientMsg::Detach => ClientMsgView::Detach,
        }
    }
}

impl View for DaemonMsg {
    type V = DaemonMsgView;

    open spec fn view(&self) -> DaemonMsgView {
        match self {
            DaemonMsg::Output(data) => DaemonMsgView::Output(data@),
            DaemonMsg::ScrollbackReplay(data) => DaemonMsgView::ScrollbackReplay(data@),
            DaemonMsg::SessionEnded => DaemonMsgView::SessionEnded,
        }
    }
}

/// Pipe name for IPC.
pub const PIPE_NAME: &'static str = "\\\\.\\pipe\\minimux";

/// Number of bytes of the little-endian length prefix of every frame.
pub const HEADER_LEN: usize = 4;

/// The frame that carries `payload`: its length as a little-endian `u32`,
/// then the payload itself.  A payload longer than `u32::MAX` has its length
/// truncated to 32 bits, as the prefix has no room for more.
pub open spec fn frame(payload: Seq<u8>) -> Seq<u8> {
    spec_u32_to_le_bytes(payload.len() as u32) + payload
}

/// The payload length announced by the first four bytes of `buf`.
pub open spec fn announced_len(buf: Seq<u8>) -> nat
    recommends
        buf.len() >= 4,
{
    spec_u32_from_le_bytes(buf.take(4)) as nat
}

/// What reading one frame from the front of `buf` yields: `None` while the
/// header or the payload is still incomplete, otherwise the payload and the
/// number of bytes the frame occupies.
pub open spec fn read_frame(buf: Seq<u8>) -> Option<(Seq<u8>, nat)> {
    if buf.len() < 4 {
        None
    } else if buf.len() < 4 + announced_len(buf) {
        None
    } else {
        let end = 4 + announced_len(buf);
        Some((buf.subrange(4, end as int), end as nat))
    }
}

/// Wrap a serialized message in a length-prefixed frame.
pub fn encode(payload: &[u8]) -> (out: Vec<u8>)
    ensures
        out@ == frame(payload@),
{
    let len = payload.len() as u32;
    let mut out = u32_to_le_bytes(len);
    let mut i: usize = 0;
    while i < payload.len()
        invariant
            i <= payload@.len(),
            out@ == spec_u32_to_le_bytes(len) + payload@.take(i as int),
        decreases payload@.len() - i,
    {
        out.push(payload[i]);
        i = i + 1;
        assert(payload@.take(i as int) == payload@.take(i - 1) .push(payload@[i - 1]));
    }
    assert(payload@.take(payload@.len() as int) == payload@);
    out
}

/// Read one length-prefixed frame from the front of a byte buffer.
/// Returns the frame's payload and the number of bytes it occupies, or
/// `None` if not enough data has arrived yet.
pub fn decode(buf: &[u8]) -> (res: Option<(Vec<u8>, usize)>)
    ensures
        match (res, read_frame(buf@)) {
            (None, None) => true,
            (Some((payload, consumed)), Some((p, n))) => payload@ == p && consumed == n,
            _ => false,
        },
{
    if buf.len() < HEADER_LEN {
        return None;
    }
    let header = vstd::slice::slice_subrange(buf, 0, HEADER_LEN);
    assert(header@ == buf@.take(4));
    let len = u32_from_le_bytes(header) as usize;
    if buf.len() - HEADER_LEN < len {
        return None;
    }
    let end = HEADER_LEN + len;
    let mut payload: Vec<u8> = Vec::with_capacity(len);
    let mut i: usize = HEADER_LEN;
    while i < end
        invariant
            HEADER_LEN <= i <= end,
            end <= buf@.len(),
            payload@ == buf@.subrange(4, i as int),
        decreases end - i,
    {
        payload.push(buf[i]);
        i = i + 1;
        assert(buf@.subrange(4, i as int) == buf@.subrange(4, i - 1).push(buf@[i - 1]));
    }
    Some((payload, end))
}

/// Bytes received from the other side and not yet taken as frames.
pub struct FrameBuffer {
    buf: Vec<u8>,
}

impl View for FrameBuffer {
    type V = Seq<u8>;

    closed spec fn view(&self) -> Seq<u8> {
        self.buf@
    }
}

impl FrameBuffer {
    pub fn new() -> (fb: Self)
        ensures
            fb@ == Seq::<u8>::empty(),
    {
        FrameBuffer { buf: Vec::new() }
    }

    /// Append bytes as they arrive.
    pub fn extend(&mut self, data: &[u8])
        ensures
            final(self)@ == old(self)@ + data@,
    {
        let mut i: usize = 0;
        while i < data.len()
            invariant
                i <= data@.len(),
                self@ == old(self)@ + data@.take(i as int),
            decreases data@.len() - i,
        {
            self.buf.push(data[i]);
            i = i + 1;
            assert(data@.take(i as int) == data@.take(i - 1).push(data@[i - 1]));
        }
        assert(data@.take(data@.len() as int) == data@);
    }

    /// The first complete frame, not yet taken: its payload and the number
    /// of bytes it occupies, or `None` while only part of a frame is here.
    pub fn next_frame(&self) -> (res: Option<(Vec<u8>, usize)>)
        ensures
            match (res, read_frame(self@)) {
                (None, None) => true,
                (Some((payload, consumed)), Some((p, n))) => payload@ == p && consumed == n,
                _ => false,
            },
    {
        decode(self.buf.as_slice())
    }

    /// Take the first `n` bytes, once the frame they hold has been handled.
    pub fn consume(&mut self, n: usize)
        requires
            n <= old(self)@.len(),
        ensures
            final(self)@ == old(self)@.skip(n as int),
    {
        let mut rest: Vec<u8> = Vec::with_capacity(self.buf.len() - n);
        let mut i: usize = n;
        while i < self.buf.len()
            invariant
                n <= i <= self.buf@.len(),
                rest@ == self.buf@.subrange(n as int, i as int),
            decreases self.buf@.len() - i,
        {
            rest.push(self.buf[i]);
            i = i + 1;
            assert(self.buf@.subrange(n as int, i as int) == self.buf@.subrange(n as int, i - 1).push(
                self.buf@[i - 1],
            ));
        }
        assert(self.buf@.subrange(n as int, self.buf@.len() as int) == self.buf@.skip(n as int));
        self.buf = rest;
    }
}

/// Frames arriving in any pieces are taken whole and in order: when the
/// buffer holds a frame followed by more bytes, the frame's payload is what
/// is read, and consuming it leaves exactly the bytes that followed.
pub proof fn lemma_take_frame(payload: Seq<u8>, rest: Seq<u8>)
    requires
        payload.len() <= u32::MAX,
    ensures
        read_frame(frame(payload) + rest) == Some((payload, 4 + payload.len())),
        (frame(payload) + rest).skip(4 + payload.len() as int) == rest,
{
    lemma_decode_encode(payload, rest);
    lemma_auto_spec_u32_to_from_le_bytes();
    assert((frame(payload) + rest).skip(4 + payload.len() as int) =~= rest);
}

/// A frame read back from the front of a buffer gives the payload it was
/// made from, and occupies exactly its own bytes, whatever follows it.
pub proof fn lemma_decode_encode(payload: Seq<u8>, rest: Seq<u8>)
    requires
        payload.len() <= u32::MAX,
    ensures
        read_frame(frame(payload) + rest) == Some((payload, 4 + payload.len())),
{
    lemma_auto_spec_u32_to_from_le_bytes();
    let buf = frame(payload) + rest;
    let header = spec_u32_to_le_bytes(payload.len() as u32);
    assert(buf.take(4) =~= header);
    assert(announced_len(buf) == payload.len());
    assert(buf.subrange(4, 4 + payload.len() as int) =~= payload);
}

/// No frame can be read from a buffer holding only part of a frame.
pub proof fn lemma_partial_frame(payload: Seq<u8>, k: int)
    requires
        payload.len() <= u32::MAX,
        0 <= k < frame(payload).len(),
    ensures
        read_frame(frame(payload).take(k)) is None,
{
    lemma_auto_spec_u32_to_from_le_bytes();
    let buf = frame(payload).take(k);
    if buf.len() >= 4 {
        assert(buf.take(4) =~= spec_u32_to_le_bytes(payload.len() as u32));
        assert(announced_len(buf) == payload.len());
    }
}

/// Whatever is read from a buffer is a whole frame at its front: the bytes
/// consumed are exactly the frame of the payload returned.
pub proof fn lemma_encode_decode(buf: Seq<u8>)
    requires
        read_frame(buf) is Some,
    ensures
        ({
            let (payload, consumed) = read_frame(buf).unwrap();
            &&& consumed == 4 + payload.len()
            &&& consumed <= buf.len()
            &&& buf.take(consumed as int) == frame(payload)
        }),
{
    lemma_auto_spec_u32_to_from_le_bytes();
    let (payload, consumed) = read_frame(buf).unwrap();
    assert(spec_u32_to_le_bytes(spec_u32_from_le_bytes(buf.take(4))) == buf.take(4));
    assert(payload.len() as u32 == spec_u32_from_le_bytes(buf.take(4)));
    assert(buf.take(consumed as int) =~= buf.take(4) + payload);
}

/// Frames sent back to back come out one after the other: after the first
/// frame is consumed, the second is read from what remains.
pub proof fn lemma_frames_in_order(p1: Seq<u8>, p2: Seq<u8>, rest: Seq<u8>)
    requires
        p1.len() <= u32::MAX,
        p2.len() <= u32::MAX,
    ensures
        ({
            let buf = frame(p1) + frame(p2) + rest;
            &&& read_frame(buf) == Some((p1, 4 + p1.len()))
            &&& read_frame(buf.skip(4 + p1.len() as int)) == Some((p2, 4 + p2.len()))
        }),
{
    let buf = frame(p1) + frame(p2) + rest;
    lemma_auto_spec_u32_to_from_le_bytes();
    assert(buf =~= frame(p1) + (frame(p2) + rest));
    lemma_decode_encode(p1, frame(p2) + rest);
    assert(buf.skip(4 + p1.len() as int) =~= frame(p2) + rest);
    lemma_decode_encode(p2, rest);
}

/// The frames at the front of `buf`, in order, and what follows them: the
/// payloads read one after another until no complete frame is left.
pub open spec fn frames_of(buf: Seq<u8>) -> (Seq<Seq<u8>>, Seq<u8>)
    decreases buf.len(),
{
    match read_frame(buf) {
        Some((payload, n)) => if 0 < n <= buf.len() {
            let (rest_payloads, rest) = frames_of(buf.skip(n as int));
            (seq![payload] + rest_payloads, rest)
        } else {
            (Seq::empty(), buf)
        },
        None => (Seq::empty(), buf),
    }
}

/// The bytes of the frames of these payloads, one after another.
pub open spec fn frames_bytes(payloads: Seq<Seq<u8>>) -> Seq<u8>
    decreases payloads.len(),
{
    if payloads.len() == 0 {
        Seq::empty()
    } else {
        frame(payloads[0]) + frames_bytes(payloads.drop_first())
    }
}

/// Taking every complete frame from a buffer leaves only an incomplete
/// trailing frame: the buffer is the frames taken, in order, followed by a
/// remainder from which no frame can be read.
pub proof fn lemma_drain_leaves_partial_frame(buf: Seq<u8>)
    ensures
        ({
            let (payloads, rest) = frames_of(buf);
            &&& frames_bytes(payloads) + rest == buf
            &&& read_frame(rest) is None
        }),
    decreases buf.len(),
{
    match read_frame(buf) {
        Some((payload, n)) => {
            lemma_encode_decode(buf);
            let tail = buf.skip(n as int);
            lemma_drain_leaves_partial_frame(tail);
            let (ps, rest) = frames_of(tail);
            let payloads = seq![payload] + ps;
            assert(payloads[0] == payload);
            assert(payloads.drop_first() =~= ps);
            assert(buf =~= buf.take(n as int) + tail);
            assert(frames_bytes(payloads) + rest =~= frame(payload) + (frames_bytes(ps) + rest));
        },
        None => {
            assert(frames_bytes(Seq::<Seq<u8>>::empty()) + buf =~= buf);
        },
    }
}

} // verus!
