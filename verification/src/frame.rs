//! Where a reply ends in the byte stream.
//!
//! The stream carries no lengths. A reply is either one line, or a block of
//! lines that ends with a line holding nothing but a known closing tag.

use crate::error::Error;
use crate::text::{chars_of, trimmed, trimmed_equals, utf8_text};
use vstd::prelude::*;
use vstd::slice::slice_subrange;
use vstd::string::StringExecFns;
use vstd::utf8::{decode_utf8, valid_utf8, valid_utf8_concat};

verus! {

/// The byte that ends a line.
pub const NEWLINE: u8 = 0x0A;

/// What a look at the bytes received so far finds.
pub enum Scan {
    /// No reply ends in the bytes at hand.
    Incomplete,
    /// The reply is the first so many bytes.
    Complete(nat),
    /// A line of the reply is not well-formed UTF-8.
    Invalid,
}

impl Scan {
    /// This result, found after `n` bytes that were passed over.
    pub open spec fn after(self, n: nat) -> Scan {
        match self {
            Scan::Complete(m) => Scan::Complete(n + m),
            other => other,
        }
    }
}

/// Whether `line` ends the reply: always where the reply is one line, else
/// where the line reads, apart from whitespace, exactly the terminator.
pub open spec fn closes_frame(line: Seq<char>, terminator: Option<Seq<char>>) -> bool {
    match terminator {
        None => true,
        Some(tag) => trimmed(line) == tag,
    }
}

/// The index of the first line end in `stream`, or its length where it has
/// none.
pub open spec fn first_newline(stream: Seq<u8>) -> nat
    decreases stream.len(),
{
    if stream.len() == 0 || stream[0] == NEWLINE {
        0
    } else {
        (1 + first_newline(stream.skip(1))) as nat
    }
}

/// Where the reply ends in `stream`, read line by line.
///
/// Without a terminator the first line is the reply. With one, the reply
/// ends with the first line that reads, apart from whitespace, exactly the
/// terminator. Once the stream is `closed`, a last line without a line end
/// may be that line.
pub open spec fn scan(stream: Seq<u8>, terminator: Option<Seq<char>>, closed: bool) -> Scan
    decreases stream.len(),
{
    let n = first_newline(stream) as int;
    if n >= stream.len() {
        if closed && terminator is Some && valid_utf8(stream) && closes_frame(
            decode_utf8(stream),
            terminator,
        ) {
            Scan::Complete(stream.len())
        } else {
            Scan::Incomplete
        }
    } else {
        let line = stream.take(n + 1);
        if !valid_utf8(line) {
            Scan::Invalid
        } else if closes_frame(decode_utf8(line), terminator) {
            Scan::Complete((n + 1) as nat)
        } else {
            scan(stream.skip(n + 1), terminator, closed).after((n + 1) as nat)
        }
    }
}

/// Whether `prefix` is made of whole lines, each well-formed and none of
/// them the end of the reply.
pub open spec fn passed(prefix: Seq<u8>, terminator: Option<Seq<char>>) -> bool
    decreases prefix.len(),
{
    prefix.len() > 0 ==> {
        let n = first_newline(prefix) as int;
        &&& n < prefix.len()
        &&& valid_utf8(prefix.take(n + 1))
        &&& !closes_frame(decode_utf8(prefix.take(n + 1)), terminator)
        &&& passed(prefix.skip(n + 1), terminator)
    }
}

/// The last line of `frame`: what follows the last line end before its end.
pub open spec fn last_line(frame: Seq<u8>) -> Seq<u8>
    decreases frame.len(),
{
    let n = first_newline(frame) as int;
    if n + 1 >= frame.len() {
        frame
    } else {
        last_line(frame.skip(n + 1))
    }
}

/// `first_newline` is the least index that holds a line end.
pub proof fn lemma_first_newline(stream: Seq<u8>)
    ensures
        0 <= first_newline(stream) <= stream.len(),
        first_newline(stream) < stream.len() ==> stream[first_newline(stream) as int] == NEWLINE,
        forall|i: int| 0 <= i < first_newline(stream) ==> #[trigger] stream[i] != NEWLINE,
    decreases stream.len(),
{
    if stream.len() == 0 || stream[0] == NEWLINE {
    } else {
        let rest = stream.skip(1);
        lemma_first_newline(rest);
        assert forall|i: int| 0 <= i < first_newline(stream) implies #[trigger] stream[i]
            != NEWLINE by {
            if i > 0 {
                assert(stream[i] == rest[i - 1]);
            }
        }
    }
}

/// An index that holds the first line end is `first_newline`.
pub proof fn lemma_first_newline_is(stream: Seq<u8>, n: int)
    requires
        0 <= n <= stream.len(),
        forall|i: int| 0 <= i < n ==> #[trigger] stream[i] != NEWLINE,
        n < stream.len() ==> stream[n] == NEWLINE,
    ensures
        first_newline(stream) == n,
{
    lemma_first_newline(stream);
    let m = first_newline(stream) as int;
    if m < n {
        assert(stream[m] == NEWLINE);
    } else if n < m {
        assert(stream[n] == NEWLINE);
    }
}

/// More bytes behind a line end do not move it.
pub proof fn lemma_first_newline_extends(stream: Seq<u8>, more: Seq<u8>)
    requires
        first_newline(stream) < stream.len(),
    ensures
        first_newline(stream + more) == first_newline(stream),
{
    lemma_first_newline(stream);
    let n = first_newline(stream) as int;
    let both = stream + more;
    assert forall|i: int| 0 <= i < n implies #[trigger] both[i] != NEWLINE by {
        assert(both[i] == stream[i]);
    }
    assert(both[n] == stream[n]);
    lemma_first_newline_is(both, n);
}

/// What was found in the bytes received so far stays found, whatever
/// arrives after it: a reply does not depend on how much of what follows
/// it has been delivered.
pub proof fn lemma_scan_is_stable(
    stream: Seq<u8>,
    more: Seq<u8>,
    terminator: Option<Seq<char>>,
    closed: bool,
)
    requires
        scan(stream, terminator, false) != Scan::Incomplete,
    ensures
        scan(stream + more, terminator, closed) == scan(stream, terminator, false),
    decreases stream.len(),
{
    lemma_first_newline(stream);
    let n = first_newline(stream) as int;
    let both = stream + more;
    lemma_first_newline_extends(stream, more);
    assert(both.take(n + 1) =~= stream.take(n + 1));
    let line = stream.take(n + 1);
    if valid_utf8(line) && !closes_frame(decode_utf8(line), terminator) {
        assert(both.skip(n + 1) =~= stream.skip(n + 1) + more);
        lemma_scan_is_stable(stream.skip(n + 1), more, terminator, closed);
    }
}

/// Lines that were passed over are skipped: the reply is found behind them.
pub proof fn lemma_scan_after_passed(
    prefix: Seq<u8>,
    rest: Seq<u8>,
    terminator: Option<Seq<char>>,
    closed: bool,
)
    requires
        passed(prefix, terminator),
    ensures
        scan(prefix + rest, terminator, closed) == scan(rest, terminator, closed).after(
            prefix.len(),
        ),
        valid_utf8(prefix),
    decreases prefix.len(),
{
    if prefix.len() == 0 {
        assert(prefix + rest =~= rest);
    } else {
        lemma_first_newline(prefix);
        let n = first_newline(prefix) as int;
        let both = prefix + rest;
        lemma_first_newline_extends(prefix, rest);
        assert(both.take(n + 1) =~= prefix.take(n + 1));
        assert(both.skip(n + 1) =~= prefix.skip(n + 1) + rest);
        lemma_scan_after_passed(prefix.skip(n + 1), rest, terminator, closed);
        valid_utf8_concat(prefix.take(n + 1), prefix.skip(n + 1));
        assert(prefix =~= prefix.take(n + 1) + prefix.skip(n + 1));
    }
}

/// One more whole line that does not end the reply is passed over too.
pub proof fn lemma_passed_extends(prefix: Seq<u8>, line: Seq<u8>, terminator: Option<Seq<char>>)
    requires
        passed(prefix, terminator),
        line.len() > 0,
        first_newline(line) == line.len() - 1,
        valid_utf8(line),
        !closes_frame(decode_utf8(line), terminator),
    ensures
        passed(prefix + line, terminator),
    decreases prefix.len(),
{
    if prefix.len() == 0 {
        assert(prefix + line =~= line);
        assert(line.take(line.len() as int) =~= line);
        assert(line.skip(line.len() as int).len() == 0);
        assert(passed(line.skip(line.len() as int), terminator));
        assert(passed(line, terminator));
    } else {
        lemma_first_newline(prefix);
        let n = first_newline(prefix) as int;
        let both = prefix + line;
        lemma_first_newline_extends(prefix, line);
        assert(both.take(n + 1) =~= prefix.take(n + 1));
        assert(both.skip(n + 1) =~= prefix.skip(n + 1) + line);
        lemma_passed_extends(prefix.skip(n + 1), line, terminator);
    }
}

/// A reply that was found with a terminator is well-formed UTF-8 and ends
/// with a line that reads, apart from whitespace, exactly the terminator.
pub proof fn lemma_frame_ends_with_terminator(stream: Seq<u8>, tag: Seq<char>, closed: bool)
    requires
        tag.len() > 0,
        scan(stream, Some(tag), closed) is Complete,
    ensures
        ({
            let frame = stream.take(scan(stream, Some(tag), closed)->Complete_0 as int);
            &&& scan(stream, Some(tag), closed)->Complete_0 <= stream.len()
            &&& valid_utf8(frame)
            &&& valid_utf8(last_line(frame))
            &&& trimmed(decode_utf8(last_line(frame))) == tag
        }),
    decreases stream.len(),
{
    lemma_first_newline(stream);
    let n = first_newline(stream) as int;
    let len = scan(stream, Some(tag), closed)->Complete_0 as int;
    let frame = stream.take(len);
    if n >= stream.len() {
        assert(frame =~= stream);
    } else {
        let line = stream.take(n + 1);
        if closes_frame(decode_utf8(line), Some(tag)) {
            assert forall|i: int| 0 <= i < n implies #[trigger] frame[i] != NEWLINE by {
                assert(frame[i] == stream[i]);
            }
            lemma_first_newline_is(frame, n);
        } else {
            let rest = stream.skip(n + 1);
            lemma_frame_ends_with_terminator(rest, tag, closed);
            let m = scan(rest, Some(tag), closed)->Complete_0 as int;
            assert(frame =~= line + rest.take(m));
            assert forall|i: int| 0 <= i < n implies #[trigger] frame[i] != NEWLINE by {
                assert(frame[i] == stream[i]);
            }
            assert(frame[n] == stream[n]);
            lemma_first_newline_is(frame, n);
            assert(frame.skip(n + 1) =~= rest.take(m));
            valid_utf8_concat(line, rest.take(m));
            lemma_complete_is_not_empty(rest, tag, closed);
        }
    }
}

/// A reply that ends with a terminator that is not empty is not empty.
pub proof fn lemma_complete_is_not_empty(stream: Seq<u8>, tag: Seq<char>, closed: bool)
    requires
        tag.len() > 0,
    ensures
        scan(stream, Some(tag), closed) != Scan::Complete(0),
{
    lemma_first_newline(stream);
    let n = first_newline(stream) as int;
    if n >= stream.len() && stream.len() == 0 {
        assert(valid_utf8(stream));
        assert(decode_utf8(stream) =~= Seq::<char>::empty());
        assert(trimmed(Seq::<char>::empty()) =~= Seq::<char>::empty());
    }
}

/// What `scan` finds where, behind lines that were passed over, a whole
/// line follows: the bytes from `start` up to `stop`.
pub proof fn lemma_scan_line(
    buffer: Seq<u8>,
    start: int,
    stop: int,
    terminator: Option<Seq<char>>,
    closed: bool,
)
    requires
        0 <= start < stop <= buffer.len(),
        passed(buffer.take(start), terminator),
        first_newline(buffer.skip(start)) == stop - start - 1,
    ensures
        ({
            let line = buffer.subrange(start, stop);
            &&& !valid_utf8(line) ==> scan(buffer, terminator, closed) == Scan::Invalid
            &&& valid_utf8(line) && closes_frame(decode_utf8(line), terminator) ==> {
                &&& scan(buffer, terminator, closed) == Scan::Complete(stop as nat)
                &&& valid_utf8(buffer.take(stop))
            }
            &&& valid_utf8(line) && !closes_frame(decode_utf8(line), terminator) ==> passed(
                buffer.take(stop),
                terminator,
            )
        }),
{
    let head = buffer.take(start);
    let rest = buffer.skip(start);
    let line = buffer.subrange(start, stop);
    assert(buffer =~= head + rest);
    assert(rest.take(stop - start) =~= line);
    assert(buffer.take(stop) =~= head + line);
    lemma_scan_after_passed(head, rest, terminator, closed);
    if valid_utf8(line) {
        valid_utf8_concat(head, line);
        if !closes_frame(decode_utf8(line), terminator) {
            assert forall|i: int| 0 <= i < line.len() - 1 implies #[trigger] line[i]
                != NEWLINE by {
                lemma_first_newline(rest);
                assert(line[i] == rest[i]);
            }
            lemma_first_newline(rest);
            assert(line[line.len() - 1] == rest[stop - start - 1]);
            lemma_first_newline_is(line, line.len() - 1);
            lemma_passed_extends(head, line, terminator);
        }
    }
}

/// What `scan` finds where, behind lines that were passed over, the stream
/// stops inside a line.
pub proof fn lemma_scan_tail(
    buffer: Seq<u8>,
    start: int,
    terminator: Option<Seq<char>>,
    closed: bool,
)
    requires
        0 <= start <= buffer.len(),
        passed(buffer.take(start), terminator),
        first_newline(buffer.skip(start)) == buffer.len() - start,
    ensures
        ({
            let tail = buffer.skip(start);
            if closed && terminator is Some && valid_utf8(tail) && closes_frame(
                decode_utf8(tail),
                terminator,
            ) {
                &&& scan(buffer, terminator, closed) == Scan::Complete(buffer.len())
                &&& valid_utf8(buffer)
            } else {
                scan(buffer, terminator, closed) == Scan::Incomplete
            }
        }),
{
    let head = buffer.take(start);
    let tail = buffer.skip(start);
    assert(buffer =~= head + tail);
    lemma_scan_after_passed(head, tail, terminator, closed);
    if valid_utf8(tail) {
        valid_utf8_concat(head, tail);
    }
}

/// The index of the first line end in `buffer` at or after `start`, or the
/// length of `buffer` where no line ends there.
fn line_end(buffer: &Vec<u8>, start: usize) -> (end: usize)
    requires
        start <= buffer@.len(),
    ensures
        start <= end <= buffer@.len(),
        first_newline(buffer@.skip(start as int)) == end - start,
{
    let len = buffer.len();
    let mut end: usize = start;
    while end < len && buffer[end] != NEWLINE
        invariant
            start <= end <= len == buffer@.len(),
            forall|i: int| start <= i < end ==> #[trigger] buffer@[i] != NEWLINE,
        decreases len - end,
    {
        end += 1;
    }
    proof {
        let rest = buffer@.skip(start as int);
        assert forall|i: int| 0 <= i < end - start implies #[trigger] rest[i] != NEWLINE by {
            assert(rest[i] == buffer@[start + i]);
        }
        lemma_first_newline_is(rest, end - start);
    }
    end
}

/// The bytes received from the simulator and not yet handed out as a reply.
#[derive(Debug)]
pub struct FrameReader {
    buffer: Vec<u8>,
    scanned: usize,
    terminator: Option<Vec<char>>,
    closed: bool,
}

impl FrameReader {
    /// The bytes that were received and belong to no reply handed out so far.
    pub closed spec fn buffered(&self) -> Seq<u8> {
        self.buffer@
    }

    /// The closing tag that ends the reply now awaited, if it has one.
    pub closed spec fn terminator(&self) -> Option<Seq<char>> {
        match self.terminator {
            Some(tag) => Some(tag@),
            None => None,
        }
    }

    /// Whether the stream has ended.
    pub closed spec fn is_closed(&self) -> bool {
        self.closed
    }

    /// The reader's invariant: what it has passed over of the buffer is
    /// whole lines that do not end the awaited reply.
    pub closed spec fn wf(&self) -> bool {
        &&& self.scanned <= self.buffer@.len()
        &&& passed(self.buffer@.take(self.scanned as int), self.terminator())
    }

    /// What the reader would find now.
    pub open spec fn pending(&self) -> Scan {
        scan(self.buffered(), self.terminator(), self.is_closed())
    }

    /// A reader that has received nothing and awaits a one-line reply.
    pub fn new() -> (r: FrameReader)
        ensures
            r.wf(),
            r.buffered() == Seq::<u8>::empty(),
            r.terminator() == None::<Seq<char>>,
            !r.is_closed(),
    {
        let r = FrameReader { buffer: Vec::new(), scanned: 0, terminator: None, closed: false };
        assert(r.buffer@.take(0) =~= Seq::<u8>::empty());
        r
    }

    /// Says how the next reply ends: with the closing tag `terminator`, or,
    /// without one, at the end of its first line.
    pub fn expect(&mut self, terminator: Option<&str>)
        requires
            old(self).wf(),
        ensures
            final(self).wf(),
            final(self).buffered() == old(self).buffered(),
            final(self).is_closed() == old(self).is_closed(),
            final(self).terminator() == match terminator {
                Some(tag) => Some(tag@),
                None => None,
            },
    {
        self.terminator = match terminator {
            Some(tag) => Some(chars_of(tag)),
            None => None,
        };
        self.scanned = 0;
        assert(self.buffer@.take(0) =~= Seq::<u8>::empty());
    }

    /// Takes in bytes that the transport delivered, in the order of the
    /// stream. How the stream is cut into deliveries leaves no trace.
    pub fn push(&mut self, chunk: &[u8])
        requires
            old(self).wf(),
        ensures
            final(self).wf(),
            final(self).buffered() == old(self).buffered() + chunk@,
            final(self).terminator() == old(self).terminator(),
            final(self).is_closed() == old(self).is_closed(),
    {
        self.buffer.extend_from_slice(chunk);
        assert(self.buffer@.take(self.scanned as int) =~= old(self).buffer@.take(
            self.scanned as int,
        ));
    }

    /// Records that the stream has ended: nothing will arrive after what was
    /// received.
    pub fn close(&mut self)
        requires
            old(self).wf(),
        ensures
            final(self).wf(),
            final(self).buffered() == old(self).buffered(),
            final(self).terminator() == old(self).terminator(),
            final(self).is_closed(),
    {
        self.closed = true;
    }

    /// Hands out the awaited reply, if it has arrived in full.
    ///
    /// - `Ok(Some(text))`: the reply, taken off the front of the buffer;
    ///   what was received behind it stays.
    /// - `Ok(None)`: the reply has not ended yet and the stream is open;
    ///   nothing changes.
    /// - `Err(Error::Network(_))`: a line of the reply is not well-formed
    ///   UTF-8, or the stream ended before the reply did.
    pub fn poll(&mut self) -> (r: Result<Option<String>, Error>)
        requires
            old(self).wf(),
        ensures
            final(self).wf(),
            final(self).terminator() == old(self).terminator(),
            final(self).is_closed() == old(self).is_closed(),
            match old(self).pending() {
                Scan::Complete(n) => {
                    &&& n <= old(self).buffered().len()
                    &&& r matches Ok(Some(text))
                    &&& text@ == decode_utf8(old(self).buffered().take(n as int))
                    &&& valid_utf8(old(self).buffered().take(n as int))
                    &&& final(self).buffered() == old(self).buffered().skip(n as int)
                },
                Scan::Incomplete => {
                    &&& final(self).buffered() == old(self).buffered()
                    &&& if old(self).is_closed() {
                        r matches Err(Error::Network(_))
                    } else {
                        r == Ok::<Option<String>, Error>(None)
                    }
                },
                Scan::Invalid => {
                    &&& final(self).buffered() == old(self).buffered()
                    &&& r matches Err(Error::Network(_))
                },
            },
    {
        let len = self.buffer.len();
        loop
            invariant
                self.wf(),
                len == self.buffer@.len(),
                self.buffer@ == old(self).buffer@,
                self.terminator == old(self).terminator,
                self.closed == old(self).closed,
            decreases len - self.scanned,
        {
            let start = self.scanned;
            let end = line_end(&self.buffer, start);
            if end == len {
                // the stream stops inside a line
                proof {
                    lemma_scan_tail(self.buffer@, start as int, self.terminator(), self.closed);
                }
                if self.closed && self.terminator.is_some() {
                    let tail = slice_subrange(self.buffer.as_slice(), start, len);
                    assert(tail@ =~= self.buffer@.skip(start as int));
                    if self.line_closes(tail) == Some(true) {
                        assert(self.buffer@.take(len as int) =~= self.buffer@);
                        return self.take(len);
                    }
                }
                if self.closed {
                    return Err(Error::Network(String::from_str("the stream ended inside a reply")));
                }
                return Ok(None);
            }
            let stop = end + 1;
            let line = slice_subrange(self.buffer.as_slice(), start, stop);
            proof {
                lemma_scan_line(
                    self.buffer@,
                    start as int,
                    stop as int,
                    self.terminator(),
                    self.closed,
                );
            }
            match self.line_closes(line) {
                None => {
                    return Err(
                        Error::Network(String::from_str("the stream did not contain valid UTF-8")),
                    );
                },
                Some(true) => {
                    return self.take(stop);
                },
                Some(false) => {
                    self.scanned = stop;
                },
            }
        }
    }

    /// Whether `line` ends the awaited reply; `None` where it is not
    /// well-formed UTF-8.
    fn line_closes(&self, line: &[u8]) -> (r: Option<bool>)
        ensures
            r is Some == valid_utf8(line@),
            r matches Some(closes) ==> closes == closes_frame(
                decode_utf8(line@),
                self.terminator(),
            ),
    {
        match utf8_text(line) {
            None => None,
            Some(text) => match &self.terminator {
                None => Some(true),
                Some(tag) => {
                    let chars = chars_of(text);
                    Some(trimmed_equals(&chars, tag))
                },
            },
        }
    }

    /// Cuts the first `n` bytes off the buffer and hands them out as text.
    fn take(&mut self, n: usize) -> (r: Result<Option<String>, Error>)
        requires
            n <= old(self).buffer@.len(),
            valid_utf8(old(self).buffer@.take(n as int)),
        ensures
            final(self).wf(),
            final(self).terminator == old(self).terminator,
            final(self).closed == old(self).closed,
            final(self).buffer@ == old(self).buffer@.skip(n as int),
            r matches Ok(Some(text)) && text@ == decode_utf8(old(self).buffer@.take(n as int)),
    {
        let rest = self.buffer.split_off(n);
        let frame = match utf8_text(self.buffer.as_slice()) {
            Some(text) => String::from_str(text),
            None => String::new(),
        };
        self.buffer = rest;
        self.scanned = 0;
        proof {
            assert(old(self).buffer@.take(n as int) =~= old(self).buffer@.subrange(0, n as int));
            assert(old(self).buffer@.skip(n as int) =~= old(self).buffer@.subrange(
                n as int,
                old(self).buffer@.len() as int,
            ));
            assert(self.buffer@.take(0) =~= Seq::<u8>::empty());
        }
        Ok(Some(frame))
    }
}

/// The bytes of `chunks` in one piece.
pub open spec fn joined(chunks: Seq<Seq<u8>>) -> Seq<u8>
    decreases chunks.len(),
{
    if chunks.len() == 0 {
        Seq::empty()
    } else {
        joined(chunks.drop_last()) + chunks.last()
    }
}

/// What a reader finds that looks for the reply after each delivery and
/// stops at the first find: the find, and the bytes it has left over then.
pub open spec fn delivered(chunks: Seq<Seq<u8>>, terminator: Option<Seq<char>>) -> (Scan, Seq<u8>)
    decreases chunks.len(),
{
    if chunks.len() == 0 {
        (Scan::Incomplete, Seq::empty())
    } else {
        let before = delivered(chunks.drop_last(), terminator);
        match before.0 {
            Scan::Incomplete => {
                let stream = before.1 + chunks.last();
                match scan(stream, terminator, false) {
                    Scan::Complete(n) => (Scan::Complete(n), stream.skip(n as int)),
                    other => (other, stream),
                }
            },
            Scan::Complete(n) => (Scan::Complete(n), before.1 + chunks.last()),
            Scan::Invalid => (Scan::Invalid, before.1 + chunks.last()),
        }
    }
}

/// The reply that is read from a stream, and what is left of the stream
/// behind it, do not depend on how the transport cut the stream into
/// deliveries: they are those of the stream taken in one piece.
pub proof fn lemma_chunking_is_irrelevant(chunks: Seq<Seq<u8>>, terminator: Option<Seq<char>>)
    ensures
        delivered(chunks, terminator).0 == scan(joined(chunks), terminator, false),
        delivered(chunks, terminator).1 == match scan(joined(chunks), terminator, false) {
            Scan::Complete(n) => joined(chunks).skip(n as int),
            _ => joined(chunks),
        },
        scan(joined(chunks), terminator, false) matches Scan::Complete(n) ==> n <= joined(
            chunks,
        ).len(),
    decreases chunks.len(),
{
    let whole = joined(chunks);
    if chunks.len() == 0 {
        assert(first_newline(whole) == 0);
    } else {
        let front = chunks.drop_last();
        lemma_chunking_is_irrelevant(front, terminator);
        let before = scan(joined(front), terminator, false);
        match before {
            Scan::Incomplete => {
                if let Scan::Complete(n) = scan(whole, terminator, false) {
                    lemma_complete_within(whole, terminator, false);
                }
            },
            Scan::Complete(n) => {
                lemma_scan_is_stable(joined(front), chunks.last(), terminator, false);
                assert(whole.skip(n as int) =~= joined(front).skip(n as int) + chunks.last());
            },
            Scan::Invalid => {
                lemma_scan_is_stable(joined(front), chunks.last(), terminator, false);
            },
        }
    }
}

/// A reply lies within the stream it was found in.
pub proof fn lemma_complete_within(stream: Seq<u8>, terminator: Option<Seq<char>>, closed: bool)
    ensures
        scan(stream, terminator, closed) matches Scan::Complete(n) ==> n <= stream.len(),
    decreases stream.len(),
{
    lemma_first_newline(stream);
    let n = first_newline(stream) as int;
    if n < stream.len() {
        lemma_complete_within(stream.skip(n + 1), terminator, closed);
    }
}

} // verus!
