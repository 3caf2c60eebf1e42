use std::collections::VecDeque;
use vstd::prelude::*;

verus! {

/// The vt100 terminal parser that tracks the visible screen, held opaque:
/// the proofs see only its screen size.
#[verifier::external_body]
pub struct VtParser {
    parser: vt100::Parser,
}

/// The screen size `(rows, cols)` that `vt100::Screen::size` reports for the
/// parser's screen.
pub uninterp spec fn screen_size(parser: VtParser) -> (u16, u16);

/// Whether every double-width character on the parser's screen still has
/// both halves: none has lost its second half to a narrowing of the screen.
pub uninterp spec fn wide_chars_whole(parser: VtParser) -> bool;

/// Calls `vt100::Parser::new(rows, cols, scrollback_len)`.  Its screen (both
/// the main and the alternate grid) starts out `rows` x `cols`.  The grid
/// computes `rows - 1` here and `cols - 1` while processing output, so zero
/// sizes are excluded.  The screen starts empty, so no character is cut.
#[verifier::external_body]
fn parser_new(rows: u16, cols: u16, scrollback_len: usize) -> (parser: VtParser)
    requires
        rows > 0,
        cols > 0,
    ensures
        screen_size(parser) == (rows, cols),
        wide_chars_whole(parser),
{
    VtParser { parser: vt100::Parser::new(rows, cols, scrollback_len) }
}

/// Calls `vt100::Parser::process(bytes)`, which feeds the bytes through the
/// escape-sequence state machine.  Nothing in that path changes the size of
/// either grid; what it does to the screen contents is not stated.  Printing
/// a double-width character computes `cols - 2` and reads the cell at column
/// 1, so the screen must have at least two columns; a tab adds 8 to the
/// cursor column in a `u16`, so it must have at most `MAX_COLS`.  Writing
/// over a double-width character whose second half is missing unwraps the
/// missing cell, so every such character must be whole; printing keeps
/// them whole.
#[verifier::external_body]
fn parser_process(parser: &mut VtParser, bytes: &[u8])
    requires
        screen_size(*old(parser)).0 >= 1,
        screen_size(*old(parser)).1 >= MIN_COLS,
        screen_size(*old(parser)).1 <= MAX_COLS,
        wide_chars_whole(*old(parser)),
    ensures
        screen_size(*final(parser)) == screen_size(*old(parser)),
        wide_chars_whole(*final(parser)),
{
    parser.parser.process(bytes)
}

/// Calls `vt100::Screen::size()` on the parser's screen.
#[verifier::external_body]
fn parser_size(parser: &VtParser) -> (size: (u16, u16))
    ensures
        size == screen_size(*parser),
{
    parser.parser.screen().size()
}

/// Calls `vt100::Screen::set_size(rows, cols)` on the parser's screen, which
/// gives both grids the new size.  The grid computes `rows - 1` and
/// `cols - 1`, so zero sizes are excluded.  Rows are cut to the new width
/// without clearing a double-width character whose second half falls off,
/// so characters stay whole only when the width does not shrink.
#[verifier::external_body]
fn parser_set_size(parser: &mut VtParser, rows: u16, cols: u16)
    requires
        rows > 0,
        cols > 0,
    ensures
        screen_size(*final(parser)) == (rows, cols),
        wide_chars_whole(*old(parser)) && cols >= screen_size(*old(parser)).1 ==> wide_chars_whole(
            *final(parser),
        ),
{
    parser.parser.screen_mut().set_size(rows, cols)
}

/// Maximum bytes of raw output retained for replay (1 MiB).
pub const DEFAULT_RAW_CAPACITY: usize = 1024 * 1024;

/// Fewest columns the tracked screen may have.
pub const MIN_COLS: u16 = 2;

/// Most columns the tracked screen may have.
pub const MAX_COLS: u16 = 65527;

/// The width of the tracked screen for a terminal `cols` wide: the same,
/// brought within `MIN_COLS..=MAX_COLS`.
pub open spec fn tracked_cols(cols: u16) -> u16 {
    if cols < MIN_COLS {
        MIN_COLS
    } else if cols > MAX_COLS {
        MAX_COLS
    } else {
        cols
    }
}

/// The width of the tracked screen for a terminal `cols` wide.
pub fn tracked_width(cols: u16) -> (w: u16)
    ensures
        w == tracked_cols(cols),
{
    if cols < MIN_COLS {
        MIN_COLS
    } else if cols > MAX_COLS {
        MAX_COLS
    } else {
        cols
    }
}

/// Line feed, which ends a line of output.
pub const NEWLINE: u8 = 0x0a;

/// Number of line feeds in `s`.
pub open spec fn newline_count(s: Seq<u8>) -> nat
    decreases s.len(),
{
    if s.len() == 0 {
        0
    } else {
        newline_count(s.drop_last()) + if s.last() == NEWLINE {
            1nat
        } else {
            0nat
        }
    }
}

/// Whether `t` may be replayed whole: at most `capacity` bytes and at most
/// `lines` lines, where every line feed but a final one starts a new line
/// (so an unfinished last line counts as a line).
pub open spec fn fits(t: Seq<u8>, capacity: nat, lines: nat) -> bool {
    t.len() == 0 || (t.len() <= capacity && newline_count(t.drop_last()) < lines)
}

/// The longest suffix of `s` that fits: the last `lines` lines of the
/// output, cut further to its last `capacity` bytes.
pub open spec fn kept(s: Seq<u8>, capacity: nat, lines: nat) -> Seq<u8>
    decreases s.len(),
{
    if fits(s, capacity, lines) {
        s
    } else {
        kept(s.drop_first(), capacity, lines)
    }
}

/// Scrollback buffer that stores raw PTY output for replay on reattach.
///
/// The buffer keeps the last lines of raw output, as many as the scrollback
/// setting asks for and at most `capacity` bytes of them. On reattach these
/// bytes are replayed directly, letting the client terminal rebuild the
/// full screen state including scrollback history.
///
/// A vt100 parser is also maintained for the current visible screen.
pub struct Scrollback {
    parser: VtParser,
    /// Raw PTY output buffer for replay.
    raw: VecDeque<u8>,
    /// Maximum bytes to retain.
    capacity: usize,
    /// Maximum lines to retain.
    max_lines: usize,
    /// Number of line feeds in `raw`.
    newlines: usize,
}

impl Scrollback {
    /// Well-formedness: the tracked screen has at least one row and
    /// `MIN_COLS..=MAX_COLS` columns, with its double-width characters
    /// whole, the byte capacity is the default one, the line-feed count
    /// is that of the buffer, and the buffer holds only what may be kept.
    pub closed spec fn wf(&self) -> bool {
        &&& screen_size(self.parser).0 >= 1
        &&& MIN_COLS <= screen_size(self.parser).1 <= MAX_COLS
        &&& wide_chars_whole(self.parser)
        &&& self.capacity == DEFAULT_RAW_CAPACITY
        &&& self.newlines == newline_count(self.raw@)
        &&& fits(self.raw@, self.capacity as nat, self.max_lines as nat)
    }

    /// The bytes that would be replayed now.
    pub closed spec fn bytes(&self) -> Seq<u8> {
        self.raw@
    }

    /// The most bytes the buffer keeps.
    pub closed spec fn capacity(&self) -> nat {
        self.capacity as nat
    }

    /// The most lines the buffer keeps.
    pub closed spec fn lines(&self) -> nat {
        self.max_lines as nat
    }

    /// The `(rows, cols)` of the tracked virtual terminal.
    pub closed spec fn dims(&self) -> (u16, u16) {
        screen_size(self.parser)
    }

    /// A buffer that keeps the last `lines` lines of output, for a terminal
    /// of `rows` x `cols` (the tracked screen is `tracked_cols(cols)` wide).
    pub fn new(rows: u16, cols: u16, lines: usize) -> (s: Self)
        requires
            rows >= 1,
            cols >= 1,
        ensures
            s.wf(),
            s.bytes() == Seq::<u8>::empty(),
            s.capacity() == DEFAULT_RAW_CAPACITY,
            s.lines() == lines,
            s.dims() == (rows, tracked_cols(cols)),
    {
        Scrollback {
            parser: parser_new(rows, tracked_width(cols), 0),
            raw: VecDeque::with_capacity(DEFAULT_RAW_CAPACITY),
            capacity: DEFAULT_RAW_CAPACITY,
            max_lines: lines,
            newlines: 0,
        }
    }

    /// Feed raw PTY output into the parser and raw buffer: the buffer then
    /// holds what may be kept of its old contents followed by the data.
    pub fn feed(&mut self, data: &[u8])
        requires
            old(self).wf(),
        ensures
            final(self).wf(),
            final(self).bytes() == kept(
                old(self).bytes() + data@,
                old(self).capacity(),
                old(self).lines(),
            ),
            final(self).capacity() == old(self).capacity(),
            final(self).lines() == old(self).lines(),
            final(self).dims() == old(self).dims(),
    {
        parser_process(&mut self.parser, data);
        let ghost parser = self.parser;
        let ghost whole = self.raw@ + data@;
        let ghost lines = self.max_lines;
        let ghost before = self.raw@;
        proof {
            lemma_newline_count_le_len(self.raw@);
        }

        // Append the new output, counting its line feeds.
        let mut i: usize = 0;
        while i < data.len()
            invariant
                i <= data@.len(),
                self.raw@ == before + data@.take(i as int),
                self.newlines == newline_count(self.raw@),
                self.newlines <= self.raw@.len(),
                self.parser == parser,
                self.capacity == DEFAULT_RAW_CAPACITY,
                self.max_lines == lines,
            decreases data@.len() - i,
        {
            let b = data[i];
            let ghost prev = self.raw@;
            self.raw.push_back(b);
            let len = self.raw.len();
            assert(self.raw@.drop_last() =~= prev);
            assert(self.raw@.last() == b);
            if b == NEWLINE {
                self.newlines = self.newlines + 1;
            }
            i = i + 1;
            assert(data@.take(i as int) == data@.take(i - 1).push(data@[i - 1]));
        }
        assert(data@.take(data@.len() as int) == data@);
        assert(self.raw@ == whole);

        // Evict the oldest bytes until what is left may be kept.
        loop
            invariant
                kept(self.raw@, self.capacity as nat, self.max_lines as nat) == kept(
                    whole,
                    self.capacity as nat,
                    self.max_lines as nat,
                ),
                self.newlines == newline_count(self.raw@),
                self.parser == parser,
                self.capacity == DEFAULT_RAW_CAPACITY,
                self.max_lines == lines,
            ensures
                self.raw@ == kept(whole, self.capacity as nat, self.max_lines as nat),
                self.newlines == newline_count(self.raw@),
                self.parser == parser,
                self.capacity == DEFAULT_RAW_CAPACITY,
                self.max_lines == lines,
            decreases self.raw@.len(),
        {
            let len = self.raw.len();
            if len == 0 {
                break;
            }
            let last_is_newline = self.raw[len - 1] == NEWLINE;
            let inner = if last_is_newline {
                self.newlines - 1
            } else {
                self.newlines
            };
            assert(inner == newline_count(self.raw@.drop_last()));
            if len <= self.capacity && inner < self.max_lines {
                break;
            }
            proof {
                lemma_newline_count_first(self.raw@);
            }
            let front = self.raw.pop_front();
            if front == Some(NEWLINE) {
                self.newlines = self.newlines - 1;
            }
        }
        proof {
            lemma_kept_fits(whole, self.capacity as nat, self.max_lines as nat);
        }
    }

    /// Produce bytes that, when written to a fresh terminal, reproduce
    /// the full screen contents including scrollback history.
    pub fn replay(&self) -> (out: Vec<u8>)
        ensures
            out@ == self.bytes(),
    {
        let mut out: Vec<u8> = Vec::with_capacity(self.raw.len());
        let mut i: usize = 0;
        while i < self.raw.len()
            invariant
                i <= self.raw@.len(),
                out@ == self.raw@.take(i as int),
            decreases self.raw@.len() - i,
        {
            out.push(self.raw[i]);
            i = i + 1;
            assert(self.raw@.take(i as int) == self.raw@.take(i - 1).push(self.raw@[i - 1]));
        }
        assert(self.raw@.take(self.raw@.len() as int) == self.raw@);
        out
    }

    /// The `(rows, cols)` of the tracked virtual terminal.
    pub fn size(&self) -> (size: (u16, u16))
        ensures
            size == self.dims(),
    {
        parser_size(&self.parser)
    }

    /// Resize the virtual terminal tracked by the parser to `rows` x
    /// `tracked_cols(cols)`.  A narrower screen is started afresh, since
    /// cutting rows could split a double-width character; the retained
    /// output is untouched either way.
    pub fn resize(&mut self, rows: u16, cols: u16)
        requires
            old(self).wf(),
            rows >= 1,
            cols >= 1,
        ensures
            final(self).wf(),
            final(self).bytes() == old(self).bytes(),
            final(self).capacity() == old(self).capacity(),
            final(self).lines() == old(self).lines(),
            final(self).dims() == (rows, tracked_cols(cols)),
    {
        let width = tracked_width(cols);
        let (_, current) = parser_size(&self.parser);
        if width < current {
            self.parser = parser_new(rows, width, 0);
        } else {
            parser_set_size(&mut self.parser, rows, width);
        }
    }
}

/// There are no more line feeds than bytes.
pub proof fn lemma_newline_count_le_len(s: Seq<u8>)
    ensures
        newline_count(s) <= s.len(),
    decreases s.len(),
{
    if s.len() > 0 {
        lemma_newline_count_le_len(s.drop_last());
    }
}

/// Line feeds add up over concatenation.
pub proof fn lemma_newline_count_concat(x: Seq<u8>, y: Seq<u8>)
    ensures
        newline_count(x + y) == newline_count(x) + newline_count(y),
    decreases y.len(),
{
    if y.len() == 0 {
        assert(x + y =~= x);
    } else {
        lemma_newline_count_concat(x, y.drop_last());
        assert((x + y).drop_last() =~= x + y.drop_last());
        assert((x + y).last() == y.last());
    }
}

/// Counting from the front: the first byte, then the rest.
pub proof fn lemma_newline_count_first(s: Seq<u8>)
    requires
        s.len() > 0,
    ensures
        newline_count(s) == newline_count(s.drop_first()) + if s[0] == NEWLINE {
            1nat
        } else {
            0nat
        },
{
    let one = seq![s[0]];
    lemma_newline_count_concat(one, s.drop_first());
    assert(one + s.drop_first() =~= s);
    assert(one.drop_last() =~= Seq::<u8>::empty());
    assert(one.last() == s[0]);
    assert(newline_count(Seq::<u8>::empty()) == 0);
    assert(newline_count(one) == newline_count(one.drop_last()) + if one.last() == NEWLINE {
        1nat
    } else {
        0nat
    });
}

/// A string that fits still fits without its first byte.
proof fn lemma_fits_drop_first(t: Seq<u8>, capacity: nat, lines: nat)
    requires
        fits(t, capacity, lines),
        t.len() > 0,
    ensures
        fits(t.drop_first(), capacity, lines),
{
    if t.len() >= 2 {
        let inner = t.drop_last();
        lemma_newline_count_first(inner);
        assert(t.drop_first().drop_last() =~= inner.drop_first());
    }
}

/// A string that fits still fits with its last bytes cut off.
proof fn lemma_fits_prefix(p: Seq<u8>, d: Seq<u8>, capacity: nat, lines: nat)
    requires
        fits(p + d, capacity, lines),
    ensures
        fits(p, capacity, lines),
{
    if p.len() > 0 {
        let whole = p + d;
        assert(whole.drop_last() =~= p.drop_last() + whole.drop_last().skip(
            p.len() - 1,
        ));
        lemma_newline_count_concat(p.drop_last(), whole.drop_last().skip(p.len() - 1));
    }
}

/// What is kept fits.
pub proof fn lemma_kept_fits(s: Seq<u8>, capacity: nat, lines: nat)
    ensures
        fits(kept(s, capacity, lines), capacity, lines),
    decreases s.len(),
{
    if !fits(s, capacity, lines) {
        lemma_kept_fits(s.drop_first(), capacity, lines);
    }
}

/// What is kept is a suffix of the output: `kept(s)` is `s` without its
/// first `k` bytes, where no longer suffix fits.
pub proof fn lemma_kept_suffix(s: Seq<u8>, capacity: nat, lines: nat) -> (k: nat)
    ensures
        k <= s.len(),
        kept(s, capacity, lines) == s.skip(k as int),
        forall|i: int| 0 <= i < k ==> !fits(#[trigger] s.skip(i), capacity, lines),
    decreases s.len(),
{
    if fits(s, capacity, lines) {
        assert(s.skip(0) =~= s);
        0
    } else {
        let k1 = lemma_kept_suffix(s.drop_first(), capacity, lines);
        assert(s.drop_first().skip(k1 as int) =~= s.skip(k1 + 1 as int));
        assert forall|i: int| 0 <= i < k1 + 1 implies !fits(#[trigger] s.skip(i), capacity, lines) by {
            if i == 0 {
                assert(s.skip(0) =~= s);
            } else {
                assert(s.drop_first().skip(i - 1) =~= s.skip(i));
            }
        }
        k1 + 1
    }
}

/// Dropping bytes that do not fit does not change what is kept.
proof fn lemma_kept_skip(s: Seq<u8>, j: nat, capacity: nat, lines: nat)
    requires
        j <= s.len(),
        forall|i: int| 0 <= i < j ==> !fits(#[trigger] s.skip(i), capacity, lines),
    ensures
        kept(s.skip(j as int), capacity, lines) == kept(s, capacity, lines),
    decreases j,
{
    if j > 0 {
        assert(!fits(s.skip(0), capacity, lines));
        assert(s.skip(0) =~= s);
        let t = s.drop_first();
        assert forall|i: int| 0 <= i < j - 1 implies !fits(#[trigger] t.skip(i), capacity, lines) by {
            assert(t.skip(i) =~= s.skip(i + 1));
        }
        assert(kept(s, capacity, lines) == kept(t, capacity, lines));
        lemma_kept_skip(t, (j - 1) as nat, capacity, lines);
        assert(t.skip(j - 1) =~= s.skip(j as int));
    } else {
        assert(s.skip(0) =~= s);
    }
}

/// Trimming before more output arrives changes nothing: keeping what fits
/// of `h`, appending `d` and keeping what fits gives what keeping what fits
/// of `h + d` gives.
pub proof fn lemma_kept_append(h: Seq<u8>, d: Seq<u8>, capacity: nat, lines: nat)
    ensures
        kept(kept(h, capacity, lines) + d, capacity, lines) == kept(h + d, capacity, lines),
{
    let kh = lemma_kept_suffix(h, capacity, lines);
    let u = h + d;
    assert forall|i: int| 0 <= i < kh implies !fits(#[trigger] u.skip(i), capacity, lines) by {
        assert(u.skip(i) =~= h.skip(i) + d);
        if fits(u.skip(i), capacity, lines) {
            lemma_fits_prefix(h.skip(i), d, capacity, lines);
        }
    }
    lemma_kept_skip(u, kh, capacity, lines);
    assert(u.skip(kh as int) =~= h.skip(kh as int) + d);
}

/// All bytes fed into a buffer, chunk after chunk.
pub open spec fn concat(chunks: Seq<Seq<u8>>) -> Seq<u8>
    decreases chunks.len(),
{
    if chunks.len() == 0 {
        Seq::empty()
    } else {
        concat(chunks.drop_last()) + chunks.last()
    }
}

/// The contents of a buffer that held `start`, after the chunks were fed
/// into it in order.
pub open spec fn fed(start: Seq<u8>, chunks: Seq<Seq<u8>>, capacity: nat, lines: nat) -> Seq<u8>
    decreases chunks.len(),
{
    if chunks.len() == 0 {
        start
    } else {
        kept(fed(start, chunks.drop_last(), capacity, lines) + chunks.last(), capacity, lines)
    }
}

/// Feeding `a` then `b` leaves the same contents as feeding `a` and `b`
/// as one chunk.
pub proof fn lemma_feed_split(raw: Seq<u8>, a: Seq<u8>, b: Seq<u8>, capacity: nat, lines: nat)
    ensures
        kept(kept(raw + a, capacity, lines) + b, capacity, lines) == kept(
            raw + (a + b),
            capacity,
            lines,
        ),
{
    lemma_kept_append(raw + a, b, capacity, lines);
    assert(raw + a + b =~= raw + (a + b));
}

/// A buffer holding what it kept of some history, fed any number of chunks,
/// holds what it keeps of the history followed by everything fed: the last
/// `lines` lines, within `capacity` bytes.  In particular a fresh buffer
/// (empty history) replays exactly that of all output, and never more than
/// `capacity` bytes or `lines` lines.
pub proof fn lemma_feeds_keep_last_lines(
    history: Seq<u8>,
    chunks: Seq<Seq<u8>>,
    capacity: nat,
    lines: nat,
)
    ensures
        fed(kept(history, capacity, lines), chunks, capacity, lines) == kept(
            history + concat(chunks),
            capacity,
            lines,
        ),
        fits(fed(kept(history, capacity, lines), chunks, capacity, lines), capacity, lines),
    decreases chunks.len(),
{
    if chunks.len() == 0 {
        assert(history + concat(chunks) =~= history);
    } else {
        let init = chunks.drop_last();
        lemma_feeds_keep_last_lines(history, init, capacity, lines);
        lemma_kept_append(history + concat(init), chunks.last(), capacity, lines);
        assert(history + concat(init) + chunks.last() =~= history + concat(chunks));
    }
    lemma_kept_fits(history + concat(chunks), capacity, lines);
}

/// Output that fits is kept whole: nothing is lost while the output is
/// within both limits.
pub proof fn lemma_small_output_kept_whole(s: Seq<u8>, capacity: nat, lines: nat)
    requires
        fits(s, capacity, lines),
    ensures
        kept(s, capacity, lines) == s,
{
}

} // verus!
