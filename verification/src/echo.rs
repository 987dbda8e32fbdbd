//! Serial line reverser: bytes are collected into a [`LineBuffer`]; when a
//! carriage return or a line feed arrives the whole line, terminator
//! included, is sent back in reverse order followed by `\n\r`. A byte that
//! finds the line full is dropped, an error is reported and the line starts
//! over.

use vstd::prelude::*;
use crate::line_buffer::{LineBuffer, LINE_CAPACITY};

verus! {

/// Carriage return.
pub const CARRIAGE_RETURN: u8 = 0x0d;

/// Line feed.
pub const LINE_FEED: u8 = 0x0a;

/// A byte that ends a line: carriage return or line feed.
pub open spec fn ends_line(byte: u8) -> bool {
    byte == CARRIAGE_RETURN || byte == LINE_FEED
}

/// Whether `byte` ends a line.
pub fn is_line_end(byte: u8) -> (end: bool)
    ensures
        end == ends_line(byte),
{
    byte == CARRIAGE_RETURN || byte == LINE_FEED
}

/// What the echo answers to one received byte.
pub enum EchoReply {
    /// The byte was stored; nothing is sent yet.
    Waiting,
    /// The line was full: the byte was dropped and the line emptied.
    Overflow,
    /// The line ended: these bytes are sent back.
    Line(Vec<u8>),
}

/// The kind of answer, without its bytes.
pub enum EchoKind {
    Waiting,
    Overflow,
    Line,
}

/// The line that stays held after `byte` arrives on `line`.
pub open spec fn echo_line_after(line: Seq<u8>, byte: u8) -> Seq<u8> {
    if line.len() >= LINE_CAPACITY || ends_line(byte) {
        Seq::empty()
    } else {
        line.push(byte)
    }
}

/// The kind of answer when `byte` arrives on `line`.
pub open spec fn echo_kind(line: Seq<u8>, byte: u8) -> EchoKind {
    if line.len() >= LINE_CAPACITY {
        EchoKind::Overflow
    } else if ends_line(byte) {
        EchoKind::Line
    } else {
        EchoKind::Waiting
    }
}

/// The bytes sent back when `byte` ends `line`: the line with its terminator,
/// reversed, then a line feed and a carriage return.
pub open spec fn echo_answer(line: Seq<u8>, byte: u8) -> Seq<u8> {
    line.push(byte).reverse() + seq![LINE_FEED, CARRIAGE_RETURN]
}

/// The line held after feeding `bytes`, one after another, to `line`.
pub open spec fn echo_run(line: Seq<u8>, bytes: Seq<u8>) -> Seq<u8>
    decreases bytes.len(),
{
    if bytes.len() == 0 {
        line
    } else {
        echo_line_after(echo_run(line, bytes.drop_last()), bytes.last())
    }
}

/// Bytes of which none ends a line.
pub open spec fn no_line_end(bytes: Seq<u8>) -> bool {
    forall|i: int| 0 <= i < bytes.len() ==> !ends_line(#[trigger] bytes[i])
}

/// Feeding an empty line at most [`LINE_CAPACITY`] bytes that end no line
/// leaves exactly those bytes held.
pub proof fn lemma_bytes_accumulate(bytes: Seq<u8>)
    requires
        bytes.len() <= LINE_CAPACITY,
        no_line_end(bytes),
    ensures
        echo_run(Seq::empty(), bytes) == bytes,
    decreases bytes.len(),
{
    if bytes.len() > 0 {
        let init = bytes.drop_last();
        assert(no_line_end(init));
        lemma_bytes_accumulate(init);
        assert(!ends_line(bytes[bytes.len() - 1]));
        assert(init.push(bytes.last()) =~= bytes);
    } else {
        assert(bytes =~= Seq::<u8>::empty());
    }
}

/// Whatever is received, the held line never exceeds [`LINE_CAPACITY`]
/// bytes.
pub proof fn lemma_echo_line_bounded(line: Seq<u8>, bytes: Seq<u8>)
    requires
        line.len() <= LINE_CAPACITY,
    ensures
        echo_run(line, bytes).len() <= LINE_CAPACITY,
    decreases bytes.len(),
{
    if bytes.len() > 0 {
        lemma_echo_line_bounded(line, bytes.drop_last());
    }
}

/// A line of at most [`LINE_CAPACITY`] bytes whose only line end is its
/// last byte is answered, when its last byte arrives, with the whole line
/// reversed followed by `\n\r`; every earlier byte is answered with
/// nothing, and afterwards the held line is empty again.
pub proof fn lemma_line_echoed_reversed(body: Seq<u8>, end: u8)
    requires
        body.len() < LINE_CAPACITY,
        no_line_end(body),
        ends_line(end),
    ensures
        forall|i: int|
            0 <= i < body.len() ==> #[trigger] echo_kind(echo_run(Seq::empty(), body.take(i)), body[i])
                == EchoKind::Waiting,
        echo_kind(echo_run(Seq::empty(), body), end) == EchoKind::Line,
        echo_answer(echo_run(Seq::empty(), body), end) == body.push(end).reverse() + seq![LINE_FEED, CARRIAGE_RETURN],
        echo_answer(echo_run(Seq::empty(), body), end)[0] == end,
        echo_run(Seq::empty(), body.push(end)) == Seq::<u8>::empty(),
{
    lemma_bytes_accumulate(body);
    assert forall|i: int|
        0 <= i < body.len() implies #[trigger] echo_kind(echo_run(Seq::empty(), body.take(i)), body[i])
        == EchoKind::Waiting by {
        let prefix = body.take(i);
        assert(no_line_end(prefix));
        lemma_bytes_accumulate(prefix);
        assert(!ends_line(body[i]));
    }
    assert(body.push(end).drop_last() =~= body);
}

/// After [`LINE_CAPACITY`] bytes without a line end, the next byte, line end
/// or not, is answered with an overflow and the held line is emptied.
pub proof fn lemma_full_line_overflows(bytes: Seq<u8>, next: u8)
    requires
        bytes.len() == LINE_CAPACITY,
        no_line_end(bytes),
    ensures
        echo_run(Seq::empty(), bytes) == bytes,
        echo_kind(echo_run(Seq::empty(), bytes), next) == EchoKind::Overflow,
        echo_run(Seq::empty(), bytes.push(next)) == Seq::<u8>::empty(),
{
    lemma_bytes_accumulate(bytes);
    assert(bytes.push(next).drop_last() =~= bytes);
}

/// `bytes` in reverse order.
pub fn reversed(bytes: &Vec<u8>) -> (out: Vec<u8>)
    ensures
        out@ == bytes@.reverse(),
{
    let n = bytes.len();
    let mut out: Vec<u8> = Vec::new();
    let mut k: usize = 0;
    while k < n
        invariant
            n == bytes.len(),
            k <= n,
            out.len() == k,
            forall|j: int| 0 <= j < k ==> out@[j] == bytes@[n - 1 - j],
        decreases n - k,
    {
        out.push(bytes[n - 1 - k]);
        k = k + 1;
    }
    assert(out@ =~= bytes@.reverse());
    out
}

/// Handles one received byte.
pub fn echo_byte(line: &mut LineBuffer, byte: u8) -> (reply: EchoReply)
    ensures
        final(line).contents() == echo_line_after(old(line).contents(), byte),
        match reply {
            EchoReply::Waiting => echo_kind(old(line).contents(), byte) == EchoKind::Waiting,
            EchoReply::Overflow => echo_kind(old(line).contents(), byte) == EchoKind::Overflow,
            EchoReply::Line(out) => echo_kind(old(line).contents(), byte) == EchoKind::Line
                && out@ == echo_answer(old(line).contents(), byte),
        },
{
    let stored = line.push(byte);
    if !stored {
        line.clear();
        return EchoReply::Overflow;
    }
    if is_line_end(byte) {
        let held = line.take();
        let mut out = reversed(&held);
        out.push(LINE_FEED);
        out.push(CARRIAGE_RETURN);
        assert(out@ =~= echo_answer(old(line).contents(), byte));
        EchoReply::Line(out)
    } else {
        EchoReply::Waiting
    }
}

} // verus!
