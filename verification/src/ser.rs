//! The two directions of the serial link, as byte queues.
//!
//! The reader holds the bytes that have arrived from the radio and have not
//! been consumed yet; the writer holds the bytes that are to be sent. The
//! caller moves bytes between these queues and the port.

use crate::text::{spec_trim, spec_utf8_lossy, trim, utf8_lossy};
use vstd::prelude::*;
use vstd::string::StringSliceAdditionalSpecFns;

verus! {

/// The byte that ends a line from the radio.
pub const CARRIAGE_RETURN: u8 = 0x0d;

/// Where `b` first occurs in `s`; `s.len()` when it does not occur.
pub open spec fn spec_first_index(s: Seq<u8>, b: u8) -> int
    decreases s.len(),
{
    if s.len() == 0 || s[0] == b {
        0
    } else {
        1 + spec_first_index(s.drop_first(), b)
    }
}

/// `spec_first_index` is the one position before which `b` does not occur
/// and at which, if it lies inside `s`, `b` stands.
pub proof fn lemma_first_index(s: Seq<u8>, b: u8, j: int)
    requires
        0 <= j <= s.len(),
        forall|k: int| 0 <= k < j ==> s[k] != b,
        j < s.len() ==> s[j] == b,
    ensures
        spec_first_index(s, b) == j,
    decreases s.len(),
{
    if s.len() == 0 || s[0] == b {
    } else {
        let t = s.drop_first();
        assert forall|k: int| 0 <= k < j - 1 implies t[k] != b by {
            assert(t[k] == s[k + 1]);
        }
        lemma_first_index(t, b, j - 1);
    }
}

/// The position that `spec_first_index` names lies in `0..=s.len()`, `b` does
/// not occur before it, and `b` stands there if it lies inside `s`.
pub proof fn lemma_first_index_bounds(s: Seq<u8>, b: u8)
    ensures
        0 <= spec_first_index(s, b) <= s.len(),
        forall|k: int| 0 <= k < spec_first_index(s, b) ==> s[k] != b,
        spec_first_index(s, b) < s.len() ==> s[spec_first_index(s, b)] == b,
    decreases s.len(),
{
    if s.len() == 0 || s[0] == b {
    } else {
        let t = s.drop_first();
        lemma_first_index_bounds(t, b);
        assert forall|k: int| 0 <= k < spec_first_index(s, b) implies s[k] != b by {
            if k > 0 {
                assert(s[k] == t[k - 1]);
            }
        }
    }
}

/// Finds where `b` first occurs in `data`; `data.len()` when it does not.
pub fn first_index(data: &[u8], b: u8) -> (j: usize)
    ensures
        j == spec_first_index(data@, b),
        j <= data@.len(),
{
    let mut j: usize = 0;
    while j < data.len() && data[j] != b
        invariant
            j <= data@.len(),
            forall|k: int| 0 <= k < j ==> data@[k] != b,
        decreases data@.len() - j,
    {
        j += 1;
    }
    proof {
        lemma_first_index(data@, b, j as int);
    }
    j
}

/// What a line read found.
#[derive(Debug, PartialEq, Eq)]
pub enum LineRead {
    /// A line, decoded and trimmed.
    Line(String),
    /// The stream has ended and nothing is left to read.
    Eof,
    /// No whole line has arrived yet; nothing was consumed.
    Pending,
}

/// A line read as plain values.
pub enum LineReadView {
    Line(Seq<char>),
    Eof,
    Pending,
}

impl View for LineRead {
    type V = LineReadView;

    open spec fn view(&self) -> LineReadView {
        match self {
            LineRead::Line(text) => LineReadView::Line(text@),
            LineRead::Eof => LineReadView::Eof,
            LineRead::Pending => LineReadView::Pending,
        }
    }
}

/// The text of a raw line: decoded leniently, then trimmed.
pub open spec fn spec_line_text(raw: Seq<u8>) -> Seq<char> {
    spec_trim(spec_utf8_lossy(raw))
}

/// How many bytes a line read takes from `pending`: the line up to and
/// including its carriage return, or whatever is left of a stream that has
/// ended.
pub open spec fn spec_readln_consumed(pending: Seq<u8>, closed: bool) -> int {
    let j = spec_first_index(pending, CARRIAGE_RETURN);
    if j < pending.len() {
        j + 1
    } else if closed {
        pending.len() as int
    } else {
        0
    }
}

/// What a line read finds in `pending`.
pub open spec fn spec_readln(pending: Seq<u8>, closed: bool) -> LineReadView {
    let n = spec_readln_consumed(pending, closed);
    if n > 0 {
        LineReadView::Line(spec_line_text(pending.take(n)))
    } else if closed {
        LineReadView::Eof
    } else {
        LineReadView::Pending
    }
}

/// The receiving side of the serial link.
pub struct XBSerReader {
    /// Bytes that have arrived and have not been consumed.
    pending: Vec<u8>,
    /// Whether the stream has ended.
    closed: bool,
}

impl View for XBSerReader {
    type V = Seq<u8>;

    /// The bytes that have arrived and have not been consumed, oldest first.
    closed spec fn view(&self) -> Seq<u8> {
        self.pending@
    }
}

impl XBSerReader {
    /// Whether the end of the stream has been reported.
    pub closed spec fn is_closed(&self) -> bool {
        self.closed
    }

    /// A reader with nothing pending, on a stream that has not ended.
    pub fn new() -> (r: Self)
        ensures
            r@ == Seq::<u8>::empty(),
            !r.is_closed(),
    {
        XBSerReader { pending: Vec::new(), closed: false }
    }

    /// Queues bytes that have arrived from the port.
    pub fn feed(&mut self, data: &[u8])
        ensures
            final(self)@ == old(self)@ + data@,
            final(self).is_closed() == old(self).is_closed(),
    {
        self.pending.extend_from_slice(data);
        assert(self.pending@ =~= old(self).pending@ + data@);
    }

    /// Records that the port has reported the end of the stream.
    pub fn close(&mut self)
        ensures
            final(self)@ == old(self)@,
            final(self).is_closed(),
    {
        self.closed = true;
    }

    /// The number of pending bytes.
    pub fn pending_len(&self) -> (n: usize)
        ensures
            n == self@.len(),
    {
        self.pending.len()
    }

    /// The pending bytes, without consuming them.
    pub fn peek(&self) -> (s: &[u8])
        ensures
            s@ == self@,
    {
        self.pending.as_slice()
    }

    /// Takes the first `n` pending bytes. When fewer are pending, nothing is
    /// consumed and `None` is returned.
    pub fn read_exact(&mut self, n: usize) -> (r: Option<Vec<u8>>)
        ensures
            final(self).is_closed() == old(self).is_closed(),
            match r {
                Some(bytes) => n <= old(self)@.len() && bytes@ == old(self)@.take(n as int)
                    && final(self)@ == old(self)@.skip(n as int),
                None => n > old(self)@.len() && final(self)@ == old(self)@,
            },
    {
        if n > self.pending.len() {
            return None;
        }
        let mut rest = self.pending.split_off(n);
        core::mem::swap(&mut self.pending, &mut rest);
        Some(rest)
    }

    /// Reads a line: the bytes up to and including the next carriage return,
    /// decoded leniently and trimmed. Once the stream has ended, what is left
    /// counts as a last line, and after that the end is reported.
    pub fn readln(&mut self) -> (r: LineRead)
        ensures
            r@ == spec_readln(old(self)@, old(self).is_closed()),
            final(self)@ == old(self)@.skip(spec_readln_consumed(old(self)@, old(self).is_closed())),
            final(self).is_closed() == old(self).is_closed(),
    {
        let j = first_index(self.pending.as_slice(), CARRIAGE_RETURN);
        let n: usize = if j < self.pending.len() {
            j + 1
        } else if self.closed {
            self.pending.len()
        } else {
            0
        };
        if n == 0 {
            assert(self@.skip(0) =~= self@);
            return if self.closed {
                LineRead::Eof
            } else {
                LineRead::Pending
            };
        }
        let raw = self.read_exact(n).unwrap();
        let text = utf8_lossy(raw.as_slice());
        let line = trim(text.as_str()).to_owned();
        LineRead::Line(line)
    }
}

/// The sending side of the serial link.
pub struct XBSerWriter {
    /// Bytes that are to be written to the port.
    out: Vec<u8>,
}

impl View for XBSerWriter {
    type V = Seq<u8>;

    /// The bytes that are waiting to be written, oldest first.
    closed spec fn view(&self) -> Seq<u8> {
        self.out@
    }
}

impl XBSerWriter {
    /// A writer with nothing to send.
    pub fn new() -> (r: Self)
        ensures
            r@ == Seq::<u8>::empty(),
    {
        XBSerWriter { out: Vec::new() }
    }

    /// Queues raw bytes.
    pub fn write_all(&mut self, data: &[u8])
        ensures
            final(self)@ == old(self)@ + data@,
    {
        self.out.extend_from_slice(data);
        assert(self.out@ =~= old(self).out@ + data@);
    }

    /// Queues a command followed by carriage return and line feed.
    pub fn writeln(&mut self, data: &str)
        ensures
            final(self)@ == old(self)@ + data.spec_bytes() + seq![0x0du8, 0x0au8],
    {
        self.write_all(data.as_bytes());
        self.out.push(0x0d);
        self.out.push(0x0a);
        assert(self.out@ =~= old(self).out@ + data.spec_bytes() + seq![0x0du8, 0x0au8]);
    }

    /// Hands out everything that is waiting to be written.
    pub fn take(&mut self) -> (r: Vec<u8>)
        ensures
            r@ == old(self)@,
            final(self)@ == Seq::<u8>::empty(),
    {
        let mut out: Vec<u8> = Vec::new();
        core::mem::swap(&mut self.out, &mut out);
        out
    }
}

} // verus!
