//! Serial command reader: bytes are collected into a [`LineBuffer`] until a
//! carriage return or a line feed; the line, read as UTF-8 text with
//! surrounding whitespace ignored, names the sensor to report on.

use vstd::prelude::*;
use vstd::string::*;
use vstd::utf8::{decode_utf8, encode_utf8, encode_utf8_decode_utf8, valid_utf8};
use crate::echo::{ends_line, is_line_end, CARRIAGE_RETURN, no_line_end};
use crate::line_buffer::{LineBuffer, LINE_CAPACITY};

verus! {

/// Where a line stands after one received byte.
#[derive(PartialEq, Eq, Structural, Debug, Clone, Copy)]
pub enum LineStatus {
    /// The byte was stored; the line goes on.
    Pending,
    /// The byte ended the line (it is not stored).
    Complete,
    /// The line was full: the byte was dropped and the line is over.
    Overflow,
}

/// The request a line names.
#[derive(PartialEq, Eq, Structural, Debug, Clone, Copy)]
pub enum Command {
    /// The line reads `accelerometer`.
    Accelerometer,
    /// The line reads `magnetometer`.
    Magnetometer,
    /// The line reads anything else.
    Unknown,
}

/// The line held after `byte` arrives on `line`.
pub open spec fn command_line_after(line: Seq<u8>, byte: u8) -> Seq<u8> {
    if ends_line(byte) || line.len() >= LINE_CAPACITY {
        line
    } else {
        line.push(byte)
    }
}

/// Where the line stands after `byte` arrives on `line`.
pub open spec fn command_status(line: Seq<u8>, byte: u8) -> LineStatus {
    if ends_line(byte) {
        LineStatus::Complete
    } else if line.len() >= LINE_CAPACITY {
        LineStatus::Overflow
    } else {
        LineStatus::Pending
    }
}

/// Handles one received byte of a command line: a line end completes the
/// line, any other byte is stored if there is room.
pub fn read_command_byte(line: &mut LineBuffer, byte: u8) -> (status: LineStatus)
    ensures
        status == command_status(old(line).contents(), byte),
        final(line).contents() == command_line_after(old(line).contents(), byte),
{
    if is_line_end(byte) {
        return LineStatus::Complete;
    }
    if line.push(byte) {
        LineStatus::Pending
    } else {
        LineStatus::Overflow
    }
}

/// The line held after feeding `bytes`, one after another, to `line`.
pub open spec fn command_run(line: Seq<u8>, bytes: Seq<u8>) -> Seq<u8>
    decreases bytes.len(),
{
    if bytes.len() == 0 {
        line
    } else {
        command_line_after(command_run(line, bytes.drop_last()), bytes.last())
    }
}

/// Bytes that end no line, fed to an empty line, are all held while there is
/// room; a line end that follows completes the line with exactly those bytes.
pub proof fn lemma_command_line_collects(body: Seq<u8>, end: u8)
    requires
        body.len() <= LINE_CAPACITY,
        no_line_end(body),
        ends_line(end),
    ensures
        command_run(Seq::empty(), body) == body,
        forall|i: int|
            0 <= i < body.len() ==> #[trigger] command_status(command_run(Seq::empty(), body.take(i)), body[i])
                == LineStatus::Pending,
        command_status(body, end) == LineStatus::Complete,
        command_run(Seq::empty(), body.push(end)) == body,
    decreases body.len(),
{
    if body.len() > 0 {
        let init = body.drop_last();
        assert(no_line_end(init));
        lemma_command_line_collects(init, end);
        assert(!ends_line(body[body.len() - 1]));
        assert(init.push(body.last()) =~= body);
        assert forall|i: int|
            0 <= i < body.len() implies #[trigger] command_status(command_run(Seq::empty(), body.take(i)), body[i])
            == LineStatus::Pending by {
            if i < init.len() {
                assert(body.take(i) =~= init.take(i));
                assert(body[i] == init[i]);
            } else {
                assert(body.take(i) =~= init);
                assert(!ends_line(body[i]));
            }
        }
    } else {
        assert(body =~= Seq::<u8>::empty());
    }
    assert(body.push(end).drop_last() =~= body);
    assert(body.push(end).last() == end);
    assert(command_run(Seq::empty(), body.push(end)) == command_line_after(command_run(Seq::empty(), body), end));
}

/// On a full line, a byte that ends no line is dropped and reported as an
/// overflow; the held bytes stay as they were.
pub proof fn lemma_command_line_overflows(body: Seq<u8>, extra: u8)
    requires
        body.len() == LINE_CAPACITY,
        no_line_end(body),
        !ends_line(extra),
    ensures
        command_run(Seq::empty(), body) == body,
        command_status(body, extra) == LineStatus::Overflow,
        command_run(Seq::empty(), body.push(extra)) == body,
{
    lemma_command_line_collects(body, CARRIAGE_RETURN);
    assert(body.push(extra).drop_last() =~= body);
}

/// Whether `c` has the Unicode `White_Space` property (what
/// `char::is_whitespace` tests): tab, line feed, vertical tab, form feed,
/// carriage return, space, next line, no-break space, ogham space mark, the
/// spaces U+2000 to U+200A, line separator, paragraph separator, narrow
/// no-break space, medium mathematical space and ideographic space.
pub open spec fn is_white_space(c: char) -> bool {
    let u = c as u32;
    ||| 0x09 <= u <= 0x0d
    ||| u == 0x20
    ||| u == 0x85
    ||| u == 0xa0
    ||| u == 0x1680
    ||| 0x2000 <= u <= 0x200a
    ||| u == 0x2028
    ||| u == 0x2029
    ||| u == 0x202f
    ||| u == 0x205f
    ||| u == 0x3000
}

/// `text` without its leading white space.
pub open spec fn trim_start_chars(text: Seq<char>) -> Seq<char>
    decreases text.len(),
{
    if text.len() > 0 && is_white_space(text[0]) {
        trim_start_chars(text.drop_first())
    } else {
        text
    }
}

/// `text` without its trailing white space.
pub open spec fn trim_end_chars(text: Seq<char>) -> Seq<char>
    decreases text.len(),
{
    if text.len() > 0 && is_white_space(text.last()) {
        trim_end_chars(text.drop_last())
    } else {
        text
    }
}

/// `text` without its leading and trailing white space: the stretch from
/// its first character that is not white space to its last.
pub open spec fn trimmed_text(text: Seq<char>) -> Seq<char> {
    trim_end_chars(trim_start_chars(text))
}

/// Characters that are all white space.
pub open spec fn all_white_space(text: Seq<char>) -> bool {
    forall|i: int| 0 <= i < text.len() ==> is_white_space(#[trigger] text[i])
}

/// Leading white space before a character that is not white space is
/// stripped, and nothing else.
pub proof fn lemma_trim_start_skips(lead: Seq<char>, rest: Seq<char>)
    requires
        all_white_space(lead),
        rest.len() > 0,
        !is_white_space(rest[0]),
    ensures
        trim_start_chars(lead + rest) == rest,
    decreases lead.len(),
{
    if lead.len() == 0 {
        assert(lead + rest =~= rest);
    } else {
        assert((lead + rest)[0] == lead[0]);
        assert((lead + rest).drop_first() =~= lead.drop_first() + rest);
        lemma_trim_start_skips(lead.drop_first(), rest);
    }
}

/// Trailing white space after a character that is not white space is
/// stripped, and nothing else.
pub proof fn lemma_trim_end_skips(rest: Seq<char>, trail: Seq<char>)
    requires
        all_white_space(trail),
        rest.len() > 0,
        !is_white_space(rest.last()),
    ensures
        trim_end_chars(rest + trail) == rest,
    decreases trail.len(),
{
    if trail.len() == 0 {
        assert(rest + trail =~= rest);
    } else {
        assert((rest + trail).last() == trail.last());
        assert((rest + trail).drop_last() =~= rest + trail.drop_last());
        lemma_trim_end_skips(rest, trail.drop_last());
    }
}

/// A text that is `accelerometer` or `magnetometer` with any white space
/// before and after it names that command.
pub proof fn lemma_padded_command(lead: Seq<char>, trail: Seq<char>)
    requires
        all_white_space(lead),
        all_white_space(trail),
    ensures
        command_named(lead + "accelerometer"@ + trail) == Command::Accelerometer,
        command_named(lead + "magnetometer"@ + trail) == Command::Magnetometer,
{
    reveal_strlit("accelerometer");
    reveal_strlit("magnetometer");
    let a = "accelerometer"@;
    let m = "magnetometer"@;
    assert(lead + a + trail =~= lead + (a + trail));
    assert((a + trail)[0] == a[0]);
    lemma_trim_start_skips(lead, a + trail);
    lemma_trim_end_skips(a, trail);
    assert(lead + m + trail =~= lead + (m + trail));
    assert((m + trail)[0] == m[0]);
    lemma_trim_start_skips(lead, m + trail);
    lemma_trim_end_skips(m, trail);
}

/// `std::str::from_utf8`: the text that `bytes` encode, or `None` when they
/// are not valid UTF-8. The text's UTF-8 encoding is `bytes`.
#[verifier::external_body]
fn decode_text(bytes: &[u8]) -> (text: Option<&str>)
    ensures
        text is Some <==> valid_utf8(bytes@),
        text matches Some(t) ==> t.spec_bytes() == bytes@,
{
    std::str::from_utf8(bytes).ok()
}

/// `str::trim`: the text with its leading and trailing characters of the
/// Unicode `White_Space` property removed.
#[verifier::external_body]
fn trim_text(text: &str) -> (trimmed: &str)
    ensures
        trimmed@ == trimmed_text(text@),
{
    text.trim()
}

/// Whether two byte slices hold the same bytes.
pub fn bytes_equal(a: &[u8], b: &[u8]) -> (same: bool)
    ensures
        same == (a@ == b@),
{
    if a.len() != b.len() {
        return false;
    }
    let n = a.len();
    let mut i: usize = 0;
    while i < n
        invariant
            n == a@.len(),
            n == b@.len(),
            i <= n,
            forall|j: int| 0 <= j < i ==> a@[j] == b@[j],
        decreases n - i,
    {
        if a[i] != b[i] {
            return false;
        }
        i = i + 1;
    }
    assert(a@ =~= b@);
    true
}

/// Whether two texts hold the same characters.
pub fn same_text(a: &str, b: &str) -> (same: bool)
    ensures
        same == (a@ == b@),
{
    let same = bytes_equal(a.as_bytes(), b.as_bytes());
    proof {
        broadcast use encode_utf8_decode_utf8;
        if same {
            assert(decode_utf8(encode_utf8(a@)) == decode_utf8(encode_utf8(b@)));
        }
    }
    same
}

/// The command a text names once trimmed.
pub open spec fn command_named(text: Seq<char>) -> Command {
    let t = trimmed_text(text);
    if t == "accelerometer"@ {
        Command::Accelerometer
    } else if t == "magnetometer"@ {
        Command::Magnetometer
    } else {
        Command::Unknown
    }
}

/// A text names the accelerometer exactly when, trimmed, it is
/// `accelerometer`, the magnetometer exactly when, trimmed, it is
/// `magnetometer`, and nothing known otherwise.
pub proof fn lemma_command_exact(text: Seq<char>)
    ensures
        (command_named(text) == Command::Accelerometer) == (trimmed_text(text) == "accelerometer"@),
        (command_named(text) == Command::Magnetometer) == (trimmed_text(text) == "magnetometer"@),
        trimmed_text(text) != "accelerometer"@ && trimmed_text(text) != "magnetometer"@ ==> command_named(text)
            == Command::Unknown,
{
    reveal_strlit("accelerometer");
    reveal_strlit("magnetometer");
    assert("accelerometer"@ != "magnetometer"@) by {
        assert("accelerometer"@.len() != "magnetometer"@.len());
    }
}

/// The command a text names: `accelerometer` or `magnetometer`, with any
/// surrounding white space, or else none known.
pub fn parse_command(text: &str) -> (command: Command)
    ensures
        command == command_named(text@),
        (command == Command::Accelerometer) == (trimmed_text(text@) == "accelerometer"@),
        (command == Command::Magnetometer) == (trimmed_text(text@) == "magnetometer"@),
{
    proof { lemma_command_exact(text@); }
    let trimmed = trim_text(text);
    if same_text(trimmed, "accelerometer") {
        Command::Accelerometer
    } else if same_text(trimmed, "magnetometer") {
        Command::Magnetometer
    } else {
        Command::Unknown
    }
}

/// The command a received line names, or `None` when the line is not valid
/// UTF-8 text.
pub fn classify_line(bytes: &[u8]) -> (command: Option<Command>)
    ensures
        !valid_utf8(bytes@) ==> command is None,
        valid_utf8(bytes@) ==> command == Some(command_named(decode_utf8(bytes@))),
        (command == Some(Command::Accelerometer)) == (valid_utf8(bytes@) && trimmed_text(decode_utf8(bytes@)) == "accelerometer"@),
        (command == Some(Command::Magnetometer)) == (valid_utf8(bytes@) && trimmed_text(decode_utf8(bytes@)) == "magnetometer"@),
{
    proof { lemma_command_exact(decode_utf8(bytes@)); }
    match decode_text(bytes) {
        None => None,
        Some(text) => {
            proof {
                broadcast use encode_utf8_decode_utf8;
                assert(decode_utf8(encode_utf8(text@)) == text@);
            }
            Some(parse_command(text))
        },
    }
}

} // verus!
