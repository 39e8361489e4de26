//! The framing of messages on a byte stream: a block of header lines, a
//! blank line, then as many body bytes as the length header said.
//!
//! The reader works on the bytes received so far and says whether they hold
//! a whole frame; the writer produces the bytes of a frame. Moving the bytes
//! is left to the caller.

use crate::error::FramingError;
use vstd::prelude::*;

verus! {

/// The bytes of `Content-Length: `, the one header that is read.
pub open spec fn length_prefix() -> Seq<u8> {
    seq![67u8, 111u8, 110u8, 116u8, 101u8, 110u8, 116u8, 45u8, 76u8, 101u8, 110u8, 103u8, 116u8,
        104u8, 58u8, 32u8]
}

/// A carriage return and a line feed: the line that ends the header block.
pub open spec fn blank_line() -> Seq<u8> {
    seq![13u8, 10u8]
}

/// An ASCII decimal digit.
pub open spec fn is_digit(b: u8) -> bool {
    48 <= b <= 57
}

/// ASCII white space: space, tab, line feed, vertical tab, form feed,
/// carriage return.
pub open spec fn is_space(b: u8) -> bool {
    b == 32 || (9 <= b <= 13)
}

/// The number that a run of decimal digits writes.
pub open spec fn decimal_value(digits: Seq<u8>) -> nat
    decreases digits.len(),
{
    if digits.len() == 0 {
        0
    } else {
        decimal_value(digits.drop_last()) * 10 + (digits.last() - 48) as nat
    }
}

/// The decimal digits of `n`, without leading zeros.
pub open spec fn decimal_text(n: nat) -> Seq<u8>
    decreases n,
{
    if n < 10 {
        seq![(48 + n) as u8]
    } else {
        decimal_text(n / 10).push((48 + n % 10) as u8)
    }
}

/// The number that `digits` writes, where it is one or more decimal digits.
pub open spec fn digits_value(digits: Seq<u8>) -> Option<nat> {
    if digits.len() > 0 && forall|i: int| 0 <= i < digits.len() ==> is_digit(#[trigger] digits[i]) {
        Some(decimal_value(digits))
    } else {
        None
    }
}

/// The number that `text` writes: one or more decimal digits, after an
/// optional plus sign.
pub open spec fn number_value(text: Seq<u8>) -> Option<nat> {
    if text.len() > 0 && text[0] == 43 {
        digits_value(text.skip(1))
    } else {
        digits_value(text)
    }
}

/// Index of the first byte of `line[from..]` that is not white space.
pub open spec fn trim_start(line: Seq<u8>, from: int) -> int
    decreases line.len() - from,
{
    if from < 0 || from >= line.len() || !is_space(line[from]) {
        from
    } else {
        trim_start(line, from + 1)
    }
}

/// Index after the last byte of `line[..to]` that is not white space, but
/// not below `floor`.
pub open spec fn trim_end(line: Seq<u8>, floor: int, to: int) -> int
    decreases to,
{
    if to <= floor || to > line.len() || to <= 0 || !is_space(line[to - 1]) {
        to
    } else {
        trim_end(line, floor, to - 1)
    }
}

/// `line` without the white space at its ends.
pub open spec fn trimmed(line: Seq<u8>) -> Seq<u8> {
    let start = trim_start(line, 0);
    line.subrange(start, trim_end(line, start, line.len() as int))
}

/// What one header line says.
pub ghost enum LineModel {
    /// The blank line: the block ends.
    End,
    /// The length header with a value that fits.
    Length(usize),
    /// The length header with a value that is no number or does not fit.
    BadLength,
    /// Any other line; ignored.
    Other,
}

/// Reads one line of the header block, line break included.
pub open spec fn classify(line: Seq<u8>) -> LineModel {
    let text = trimmed(line);
    let prefix = length_prefix();
    if line == blank_line() {
        LineModel::End
    } else if text.len() >= prefix.len() && text.subrange(0, prefix.len() as int) == prefix {
        match number_value(text.skip(prefix.len() as int)) {
            Some(n) => if n <= usize::MAX {
                LineModel::Length(n as usize)
            } else {
                LineModel::BadLength
            },
            None => LineModel::BadLength,
        }
    } else {
        LineModel::Other
    }
}

/// Index of the first line feed in `bytes[from..]`.
pub open spec fn next_newline(bytes: Seq<u8>, from: int) -> Option<int>
    decreases bytes.len() - from,
{
    if from < 0 || from >= bytes.len() {
        None
    } else if bytes[from] == 10 {
        Some(from)
    } else {
        next_newline(bytes, from + 1)
    }
}

/// What the bytes received so far say about the header block.
pub ghost enum ScanModel {
    /// The block is whole: the body has `content_length` bytes and starts at
    /// `body_start`.
    Complete { content_length: usize, body_start: int },
    /// The block has not ended yet.
    Incomplete,
    /// The block ended without a length header.
    MissingLength,
    /// The length header's value is no number that fits.
    InvalidLength,
}

/// Reads the header lines of `bytes` from `from` on, `length` being the
/// length header seen so far; a later length header replaces an earlier one.
pub open spec fn scan_from(bytes: Seq<u8>, from: int, length: Option<usize>) -> ScanModel
    decreases bytes.len() - from,
{
    match next_newline(bytes, from) {
        None => ScanModel::Incomplete,
        Some(at) => if at < from || at >= bytes.len() {
            ScanModel::Incomplete
        } else {
            match classify(bytes.subrange(from, at + 1)) {
                LineModel::End => match length {
                    Some(n) => ScanModel::Complete { content_length: n, body_start: at + 1 },
                    None => ScanModel::MissingLength,
                },
                LineModel::Length(n) => scan_from(bytes, at + 1, Some(n)),
                LineModel::BadLength => ScanModel::InvalidLength,
                LineModel::Other => scan_from(bytes, at + 1, length),
            }
        },
    }
}

/// The header block of `bytes`.
pub open spec fn scan_headers(bytes: Seq<u8>) -> ScanModel {
    scan_from(bytes, 0, None)
}

/// The bytes of the frame that carries `body`.
pub open spec fn frame_bytes(body: Seq<u8>) -> Seq<u8> {
    length_prefix() + decimal_text(body.len()) + blank_line() + blank_line() + body
}

/// The header block that announces a body of `n` bytes.
pub open spec fn header_bytes(n: nat) -> Seq<u8> {
    length_prefix() + decimal_text(n) + blank_line() + blank_line()
}

/// A line feed with none before it from `from` on is the next line feed.
pub proof fn lemma_newline_at(bytes: Seq<u8>, from: int, at: int)
    requires
        0 <= from <= at < bytes.len(),
        bytes[at] == 10,
        forall|j: int| from <= j < at ==> bytes[j] != 10,
    ensures
        next_newline(bytes, from) == Some(at),
    decreases at - from,
{
    if from < at {
        lemma_newline_at(bytes, from + 1, at);
    }
}

/// What is written can be read: the bytes of a frame, whatever follows them,
/// scan as a whole header block that announces the length of the body and
/// ends where the body starts.
pub proof fn lemma_frame_round_trip(body: Seq<u8>, rest: Seq<u8>)
    requires
        body.len() <= usize::MAX,
    ensures
        frame_bytes(body) == header_bytes(body.len()) + body,
        scan_headers(frame_bytes(body) + rest) == (ScanModel::Complete {
            content_length: body.len() as usize,
            body_start: header_bytes(body.len()).len() as int,
        }),
        (frame_bytes(body) + rest).subrange(
            header_bytes(body.len()).len() as int,
            (header_bytes(body.len()).len() + body.len()) as int,
        ) == body,
{
    let n = body.len();
    let prefix = length_prefix();
    let digits = decimal_text(n);
    let header = header_bytes(n);
    let bytes = frame_bytes(body) + rest;
    lemma_decimal_round_trip(n);
    assert(frame_bytes(body) =~= header + body);
    assert(prefix.len() == 16);
    let d = digits.len() as int;
    let at = 16 + d + 1;
    assert(header.len() == 16 + d + 4);
    assert(bytes.subrange(header.len() as int, (header.len() + body.len()) as int) =~= body);
    assert forall|j: int| 0 <= j < 16 + d + 4 implies bytes[j] == header[j] by {}
    assert forall|j: int| 0 <= j < 16 implies header[j] == prefix[j] by {}
    assert forall|j: int| 16 <= j < 16 + d implies header[j] == digits[j - 16] by {}
    assert(header[16 + d] == 13 && header[16 + d + 1] == 10);
    assert(header[16 + d + 2] == 13 && header[16 + d + 3] == 10);
    assert forall|j: int| 0 <= j < at implies bytes[j] != 10 by {
        if 16 <= j < 16 + d {
            assert(is_digit(digits[j - 16]));
        }
    }
    lemma_newline_at(bytes, 0, at);
    let line = bytes.subrange(0, at + 1);
    assert(line =~= prefix + digits + blank_line());
    assert(line.len() == 16 + d + 2);
    assert(line != blank_line());
    assert(line[0] == 67);
    assert(trim_start(line, 0) == 0);
    assert(is_digit(digits[d - 1]));
    assert(line[16 + d - 1] == digits[d - 1]);
    assert(line[16 + d] == 13 && line[16 + d + 1] == 10);
    assert(trim_end(line, 0, 16 + d) == 16 + d);
    assert(trim_end(line, 0, 16 + d + 1) == 16 + d);
    assert(trim_end(line, 0, 16 + d + 2) == 16 + d);
    let text = trimmed(line);
    assert(text =~= prefix + digits);
    assert(text.subrange(0, 16) =~= prefix);
    assert(text.skip(16) =~= digits);
    assert(is_digit(digits[0]));
    assert(number_value(digits) == Some(n));
    assert(classify(line) == LineModel::Length(n as usize));
    assert(bytes[at + 1] == 13 && bytes[at + 2] == 10);
    lemma_newline_at(bytes, at + 1, at + 2);
    assert(bytes.subrange(at + 1, at + 3) =~= blank_line());
    assert(scan_from(bytes, at + 1, Some(n as usize)) == (ScanModel::Complete {
        content_length: n as usize,
        body_start: at + 3,
    }));
}

/// The digits of a number write that number.
pub proof fn lemma_decimal_round_trip(n: nat)
    ensures
        decimal_text(n).len() > 0,
        forall|i: int| 0 <= i < decimal_text(n).len() ==> is_digit(#[trigger] decimal_text(n)[i]),
        decimal_value(decimal_text(n)) == n,
        number_value(decimal_text(n)) == Some(n),
    decreases n,
{
    if n < 10 {
        let text = decimal_text(n);
        assert(text.drop_last() =~= Seq::<u8>::empty());
        assert(decimal_value(text.drop_last()) == 0);
    } else {
        lemma_decimal_round_trip(n / 10);
        let text = decimal_text(n);
        assert(text.drop_last() =~= decimal_text(n / 10));
        assert(text[0] == decimal_text(n / 10)[0]);
    }
}

/// A prefix of a run of digits writes no more than the whole run.
pub proof fn lemma_decimal_prefix(digits: Seq<u8>, k: int)
    requires
        0 <= k <= digits.len(),
        forall|i: int| 0 <= i < digits.len() ==> is_digit(#[trigger] digits[i]),
    ensures
        decimal_value(digits.take(k)) <= decimal_value(digits),
    decreases digits.len() - k,
{
    if k < digits.len() {
        lemma_decimal_prefix(digits, k + 1);
        assert(digits.take(k + 1).drop_last() =~= digits.take(k));
        assert(digits.take(k + 1).last() == digits[k]);
    } else {
        assert(digits.take(k) =~= digits);
    }
}

/// What one header line says.
#[derive(Debug, Clone, Copy, PartialEq, Eq, Structural)]
pub enum HeaderLine {
    End,
    Length(usize),
    BadLength,
    Other,
}

impl View for HeaderLine {
    type V = LineModel;

    open spec fn view(&self) -> LineModel {
        match self {
            HeaderLine::End => LineModel::End,
            HeaderLine::Length(n) => LineModel::Length(*n),
            HeaderLine::BadLength => LineModel::BadLength,
            HeaderLine::Other => LineModel::Other,
        }
    }
}

/// What the bytes received so far say about the header block.
#[derive(Debug)]
pub enum HeaderScan {
    Complete { content_length: usize, body_start: usize },
    Incomplete,
    Malformed(FramingError),
}

impl View for HeaderScan {
    type V = ScanModel;

    open spec fn view(&self) -> ScanModel {
        match self {
            HeaderScan::Complete { content_length, body_start } => ScanModel::Complete {
                content_length: *content_length,
                body_start: *body_start as int,
            },
            HeaderScan::Incomplete => ScanModel::Incomplete,
            HeaderScan::Malformed(FramingError::MissingContentLength) => ScanModel::MissingLength,
            HeaderScan::Malformed(_) => ScanModel::InvalidLength,
        }
    }
}

/// Reads the number that `text[from..to]` writes, where it writes one that
/// fits.
pub fn parse_number(text: &[u8], from: usize, to: usize) -> (number: Option<usize>)
    requires
        from <= to <= text@.len(),
    ensures
        number == match number_value(text@.subrange(from as int, to as int)) {
            Some(n) => if n <= usize::MAX {
                Some(n as usize)
            } else {
                None
            },
            None => None,
        },
{
    let ghost whole = text@.subrange(from as int, to as int);
    let start: usize = if from < to && text[from] == 43 {
        from + 1
    } else {
        from
    };
    let ghost digits = text@.subrange(start as int, to as int);
    proof {
        if from < to && text@[from as int] == 43 {
            assert(whole[0] == 43);
            assert(whole.skip(1) =~= digits);
        } else {
            assert(whole =~= digits);
            if whole.len() > 0 {
                assert(whole[0] == text@[from as int]);
            }
        }
    }
    if start == to {
        return None;
    }
    let mut value: usize = 0;
    let mut i: usize = start;
    while i < to
        invariant
            start <= i <= to <= text@.len(),
            digits == text@.subrange(start as int, to as int),
            number_value(text@.subrange(from as int, to as int)) == digits_value(digits),
            forall|j: int| 0 <= j < i - start ==> is_digit(#[trigger] digits[j]),
            value == decimal_value(digits.take(i - start)),
        decreases to - i,
    {
        let b: u8 = text[i];
        proof {
            assert(digits[i - start] == b);
            assert(digits.take(i - start + 1).drop_last() =~= digits.take(i - start));
            assert(digits.take(i - start + 1).last() == b);
        }
        if b < 48 || b > 57 {
            return None;
        }
        let digit: usize = (b - 48) as usize;
        if value > (usize::MAX - digit) / 10 {
            proof {
                if forall|j: int| 0 <= j < digits.len() ==> is_digit(#[trigger] digits[j]) {
                    lemma_decimal_prefix(digits, i - start + 1);
                }
            }
            return None;
        }
        value = value * 10 + digit;
        i = i + 1;
    }
    proof {
        assert(digits.take(i - start) =~= digits);
    }
    Some(value)
}

/// Reads one line of the header block, line break included.
pub fn classify_line(line: &[u8]) -> (kind: HeaderLine)
    ensures
        kind@ == classify(line@),
{
    if line.len() == 2 && line[0] == 13 && line[1] == 10 {
        assert(line@ =~= blank_line());
        return HeaderLine::End;
    }
    proof {
        if line@ == blank_line() {
            assert(line@.len() == 2 && line@[0] == 13 && line@[1] == 10);
        }
    }
    let mut start: usize = 0;
    while start < line.len() && is_space_byte(line[start])
        invariant
            0 <= start <= line@.len(),
            trim_start(line@, 0) == trim_start(line@, start as int),
        decreases line@.len() - start,
    {
        start = start + 1;
    }
    let mut end: usize = line.len();
    while end > start && is_space_byte(line[end - 1])
        invariant
            start <= end <= line@.len(),
            trim_end(line@, start as int, line@.len() as int) == trim_end(
                line@,
                start as int,
                end as int,
            ),
        decreases end,
    {
        end = end - 1;
    }
    let ghost text = trimmed(line@);
    assert(text == line@.subrange(start as int, end as int));
    let prefix: Vec<u8> = vec![67u8, 111u8, 110u8, 116u8, 101u8, 110u8, 116u8, 45u8, 76u8, 101u8,
        110u8, 103u8, 116u8, 104u8, 58u8, 32u8];
    assert(prefix@ =~= length_prefix());
    if end - start < prefix.len() {
        return HeaderLine::Other;
    }
    let mut k: usize = 0;
    while k < prefix.len()
        invariant
            0 <= k <= prefix@.len(),
            prefix@ == length_prefix(),
            start <= end <= line@.len(),
            end - start >= prefix@.len(),
            text == line@.subrange(start as int, end as int),
            text == trimmed(line@),
            line@ != blank_line(),
            forall|j: int| 0 <= j < k ==> text[j] == prefix@[j],
        decreases prefix@.len() - k,
    {
        if line[start + k] != prefix[k] {
            proof {
                assert(text[k as int] != prefix@[k as int]);
                assert(text.subrange(0, prefix@.len() as int)[k as int] == text[k as int]);
            }
            return HeaderLine::Other;
        }
        k = k + 1;
    }
    proof {
        assert(text.subrange(0, prefix@.len() as int) =~= prefix@);
        assert(text.skip(prefix@.len() as int) =~= line@.subrange(
            start + prefix@.len(),
            end as int,
        ));
    }
    match parse_number(line, start + prefix.len(), end) {
        Some(n) => HeaderLine::Length(n),
        None => HeaderLine::BadLength,
    }
}

/// Whether `b` is ASCII white space.
pub fn is_space_byte(b: u8) -> (space: bool)
    ensures
        space == is_space(b),
{
    b == 32 || (9 <= b && b <= 13)
}

/// What the bytes received so far hold.
#[derive(Debug)]
pub enum FrameRead {
    /// One whole frame; its body.
    Frame(Vec<u8>),
    /// No whole frame yet.
    Incomplete,
    /// A header block that cannot be read.
    Malformed(FramingError),
}

/// Collects received bytes and cuts frames out of them.
pub struct LspFrameReader {
    /// The bytes received and not yet handed out.
    pub buffer: Vec<u8>,
    pub debug: bool,
}

impl LspFrameReader {
    /// A reader that has received nothing.
    pub fn new() -> (reader: Self)
        ensures
            reader.buffer@.len() == 0,
            !reader.debug,
    {
        LspFrameReader { buffer: Vec::new(), debug: false }
    }

    /// Takes in bytes that arrived.
    pub fn feed(&mut self, bytes: &[u8])
        ensures
            final(self).buffer@ == old(self).buffer@ + bytes@,
            final(self).debug == old(self).debug,
    {
        self.buffer.extend_from_slice(bytes);
    }

    /// Reads the header block at the front of the buffer: the length it
    /// announces and where the body starts, or that the block has not ended,
    /// or what is wrong with it.
    pub fn read_headers(&self) -> (scan: HeaderScan)
        ensures
            scan@ == scan_headers(self.buffer@),
            scan matches HeaderScan::Malformed(e) ==> e is MissingContentLength
                || e is InvalidContentLength,
            scan matches HeaderScan::Complete { body_start, .. } ==> body_start
                <= self.buffer@.len(),
    {
        let bytes: &[u8] = self.buffer.as_slice();
        let mut length: Option<usize> = None;
        let mut from: usize = 0;
        loop
            invariant
                0 <= from <= bytes@.len(),
                bytes@ == self.buffer@,
                scan_headers(bytes@) == scan_from(bytes@, from as int, length),
            decreases bytes@.len() - from,
        {
            let mut at: usize = from;
            while at < bytes.len() && bytes[at] != 10
                invariant
                    from <= at <= bytes@.len(),
                    next_newline(bytes@, from as int) == next_newline(bytes@, at as int),
                decreases bytes@.len() - at,
            {
                at = at + 1;
            }
            if at >= bytes.len() {
                return HeaderScan::Incomplete;
            }
            let line: &[u8] = vstd::slice::slice_subrange(bytes, from, at + 1);
            match classify_line(line) {
                HeaderLine::End => {
                    return match length {
                        Some(n) => HeaderScan::Complete { content_length: n, body_start: at + 1 },
                        None => HeaderScan::Malformed(FramingError::MissingContentLength),
                    };
                },
                HeaderLine::Length(n) => {
                    length = Some(n);
                },
                HeaderLine::BadLength => {
                    return HeaderScan::Malformed(FramingError::InvalidContentLength);
                },
                HeaderLine::Other => {},
            }
            from = at + 1;
        }
    }

    /// Cuts the first frame out of the buffer, where the buffer holds all of
    /// it, and hands out its body. A malformed header block is reported and
    /// left in place.
    pub fn read_message(&mut self) -> (read: FrameRead)
        ensures
            final(self).debug == old(self).debug,
            match scan_headers(old(self).buffer@) {
                ScanModel::Complete { content_length, body_start } => if body_start
                    + content_length <= old(self).buffer@.len() {
                    &&& read matches FrameRead::Frame(body)
                    &&& body@ == old(self).buffer@.subrange(body_start, body_start + content_length)
                    &&& final(self).buffer@ == old(self).buffer@.subrange(
                        body_start + content_length,
                        old(self).buffer@.len() as int,
                    )
                } else {
                    read is Incomplete && final(self).buffer@ == old(self).buffer@
                },
                ScanModel::Incomplete => read is Incomplete && final(self).buffer@ == old(
                    self).buffer@,
                ScanModel::MissingLength => (read matches FrameRead::Malformed(
                    FramingError::MissingContentLength,
                )) && final(self).buffer@ == old(self).buffer@,
                ScanModel::InvalidLength => (read matches FrameRead::Malformed(
                    FramingError::InvalidContentLength,
                )) && final(self).buffer@ == old(self).buffer@,
            },
    {
        match self.read_headers() {
            HeaderScan::Complete { content_length, body_start } => {
                if self.buffer.len() - body_start < content_length {
                    return FrameRead::Incomplete;
                }
                let ghost before = self.buffer@;
                let mut rest: Vec<u8> = self.buffer.split_off(body_start + content_length);
                let body: Vec<u8> = self.buffer.split_off(body_start);
                self.buffer = rest;
                FrameRead::Frame(body)
            },
            HeaderScan::Incomplete => FrameRead::Incomplete,
            HeaderScan::Malformed(e) => FrameRead::Malformed(e),
        }
    }
}

/// Holds the sink that frames are written to.
pub struct LspFrameWriter<W> {
    pub writer: W,
    pub debug: bool,
}

impl<W> LspFrameWriter<W> {
    /// A writer on `writer`.
    pub fn new(writer: W) -> (made: Self)
        ensures
            made.writer == writer,
            !made.debug,
    {
        LspFrameWriter { writer, debug: false }
    }

    /// The bytes to write for a message with the serialized form `body`: the
    /// length header, a blank line, the body.
    pub fn write_message(&self, body: &[u8]) -> (frame: Vec<u8>)
        ensures
            frame@ == frame_bytes(body@),
    {
        let mut frame: Vec<u8> = vec![67u8, 111u8, 110u8, 116u8, 101u8, 110u8, 116u8, 45u8, 76u8,
            101u8, 110u8, 103u8, 116u8, 104u8, 58u8, 32u8];
        assert(frame@ =~= length_prefix());
        push_decimal(&mut frame, body.len());
        frame.push(13);
        frame.push(10);
        frame.push(13);
        frame.push(10);
        frame.extend_from_slice(body);
        assert(frame@ =~= frame_bytes(body@));
        frame
    }
}

/// Appends the decimal digits of `n` to `out`.
pub fn push_decimal(out: &mut Vec<u8>, n: usize)
    ensures
        final(out)@ == old(out)@ + decimal_text(n as nat),
    decreases n,
{
    if n >= 10 {
        push_decimal(out, n / 10);
    }
    let digit: u8 = (n % 10) as u8;
    out.push(48 + digit);
    proof {
        if n < 10 {
            assert(out@ =~= old(out)@ + decimal_text(n as nat));
        } else {
            assert(out@ =~= old(out)@ + decimal_text(n as nat));
        }
    }
}

} // verus!
