//! The media streaming responder: which bytes of a file a request asks for,
//! what the response headers say, and how the chunked read moves on.

use crate::content_type::{content_type_or_unknown, resolved_content_type};
use crate::text::{all_digits, chars_of, decimal, decimal_string, digit_value, digits_value, is_digit};
use vstd::prelude::*;

verus! {

/// The number of bytes that one read of the stream asks for.
pub const CHUNK_SIZE: usize = 1048576;

/// The status of every successful response: partial content.
pub const PARTIAL_CONTENT: u16 = 206;

/// Why a request is refused.
#[derive(Debug, Clone, Copy, PartialEq, Eq)]
pub enum RangeError {
    /// The range asked for does not lie within the file.
    InvalidRange,
}

/// The unit that a range header starts with.
pub open spec fn unit() -> Seq<char> {
    seq!['b', 'y', 't', 'e', 's', '=']
}

/// Whether the unit stands in `s` at index `at`.
pub open spec fn has_unit_at(s: Seq<char>, at: int) -> bool {
    0 <= at && at + 6 <= s.len() && s.subrange(at, at + 6) == unit()
}

/// The index behind the units that follow one another from `from` on.
pub open spec fn unit_end(s: Seq<char>, from: int) -> int
    decreases s.len() - from,
{
    if has_unit_at(s, from) {
        unit_end(s, from + 6)
    } else {
        from
    }
}

/// Whether `c` is white space.
pub open spec fn is_space(c: char) -> bool {
    c == ' ' || ('\t' <= c && c <= '\r') || c == '\u{85}' || c == '\u{A0}' || c == '\u{1680}' || (
    '\u{2000}' <= c && c <= '\u{200A}') || c == '\u{2028}' || c == '\u{2029}' || c == '\u{202F}'
        || c == '\u{205F}' || c == '\u{3000}'
}

/// The first index from `from` on, below `to`, that holds no white space;
/// `to` if there is none.
pub open spec fn space_end(s: Seq<char>, from: int, to: int) -> int
    decreases to - from,
{
    if 0 <= from < to <= s.len() && is_space(s[from]) {
        space_end(s, from + 1, to)
    } else {
        from
    }
}

/// The index behind the last character below `to`, from `from` on, that is
/// no white space; `from` if there is none.
pub open spec fn trimmed_end(s: Seq<char>, from: int, to: int) -> int
    decreases to - from,
{
    if 0 <= from < to <= s.len() && is_space(s[to - 1]) {
        trimmed_end(s, from, to - 1)
    } else {
        to
    }
}

/// The index of the first `-` from `from` on, below `to`; `to` if there is
/// none.
pub open spec fn dash_at(s: Seq<char>, from: int, to: int) -> int
    decreases to - from,
{
    if 0 <= from < to <= s.len() && s[from] != '-' {
        dash_at(s, from + 1, to)
    } else {
        from
    }
}

/// The two fields of a range header: what stands before the first `-`, and
/// what stands between it and the next, if there is a `-` at all. Units at
/// the front and white space around the rest do not count.
pub open spec fn range_fields(s: Seq<char>) -> (Seq<char>, Option<Seq<char>>) {
    let lo = space_end(s, unit_end(s, 0), s.len() as int);
    let hi = trimmed_end(s, lo, s.len() as int);
    let first = dash_at(s, lo, hi);
    if first == hi {
        (s.subrange(lo, hi), None)
    } else {
        (s.subrange(lo, first), Some(s.subrange(first + 1, dash_at(s, first + 1, hi))))
    }
}

/// The number that a field spells: decimal digits, at least one, after an
/// optional `+`, with a value that fits 64 bits.
pub open spec fn numeral(field: Seq<char>) -> Option<u64> {
    let digits = if field.len() > 0 && field[0] == '+' {
        field.skip(1)
    } else {
        field
    };
    if digits.len() > 0 && all_digits(digits) && digits_value(digits) <= u64::MAX {
        Some(digits_value(digits) as u64)
    } else {
        None
    }
}

/// What a range header asks for: the first byte and, where it names one, the
/// last. `None` where the first field spells no number; a second field that
/// spells none counts as absent.
pub open spec fn requested(s: Seq<char>) -> Option<(u64, Option<u64>)> {
    let (first, second) = range_fields(s);
    match numeral(first) {
        None => None,
        Some(start) => Some(
            (
                start,
                match second {
                    Some(field) => numeral(field),
                    None => None,
                },
            ),
        ),
    }
}

/// The first and last byte that a request wants of a file of `length`
/// bytes: the whole file where no header asks for less, and up to the last
/// byte where the header names no end.
pub open spec fn wanted(header: Option<Seq<char>>, length: u64) -> (int, int) {
    let asked = match header {
        Some(s) => requested(s),
        None => None,
    };
    match asked {
        Some((start, Some(end))) => (start as int, end as int),
        Some((start, None)) => (start as int, length - 1),
        None => (0, length - 1),
    }
}

/// Whether the bytes `start` to `end` lie within a file of `length` bytes.
pub open spec fn in_file(start: int, end: int, length: u64) -> bool {
    0 <= start <= length && start <= end && end < length
}

/// The value of the `Content-Range` header.
pub open spec fn content_range(start: u64, end: u64, length: u64) -> Seq<char> {
    "bytes "@ + decimal(start as nat) + "-"@ + decimal(end as nat) + "/"@ + decimal(length as nat)
}

proof fn lemma_prefix_value(s: Seq<char>, n: int)
    requires
        0 <= n <= s.len(),
    ensures
        digits_value(s.subrange(0, n)) <= digits_value(s),
    decreases s.len() - n,
{
    if n == s.len() {
        assert(s.subrange(0, n) =~= s);
    } else {
        lemma_prefix_value(s.drop_last(), n);
        assert(s.drop_last().subrange(0, n) =~= s.subrange(0, n));
    }
}

fn is_space_char(c: char) -> (out: bool)
    ensures
        out == is_space(c),
{
    c == ' ' || ('\t' <= c && c <= '\r') || c == '\u{85}' || c == '\u{A0}' || c == '\u{1680}' || (
    '\u{2000}' <= c && c <= '\u{200A}') || c == '\u{2028}' || c == '\u{2029}' || c == '\u{202F}'
        || c == '\u{205F}' || c == '\u{3000}'
}

fn unit_at(v: &Vec<char>, at: usize) -> (out: bool)
    ensures
        out == has_unit_at(v@, at as int),
{
    if v.len() < 6 || at > v.len() - 6 {
        return false;
    }
    let out = v[at] == 'b' && v[at + 1] == 'y' && v[at + 2] == 't' && v[at + 3] == 'e' && v[at
        + 4] == 's' && v[at + 5] == '=';
    proof {
        let part = v@.subrange(at as int, at + 6);
        if out {
            assert(part =~= unit());
        } else {
            assert(part[0] == v@[at as int]);
            assert(part[1] == v@[at + 1]);
            assert(part[2] == v@[at + 2]);
            assert(part[3] == v@[at + 3]);
            assert(part[4] == v@[at + 4]);
            assert(part[5] == v@[at + 5]);
        }
    }
    out
}

fn find_dash(v: &Vec<char>, from: usize, to: usize) -> (out: usize)
    requires
        from <= to <= v.len(),
    ensures
        out == dash_at(v@, from as int, to as int),
        from <= out <= to,
{
    let mut i: usize = from;
    while i < to && v[i] != '-'
        invariant
            from <= i <= to <= v.len(),
            dash_at(v@, from as int, to as int) == dash_at(v@, i as int, to as int),
        decreases to - i,
    {
        i += 1;
    }
    i
}

fn parse_numeral(v: &Vec<char>, from: usize, to: usize) -> (out: Option<u64>)
    requires
        from <= to <= v.len(),
    ensures
        out == numeral(v@.subrange(from as int, to as int)),
{
    let ghost field = v@.subrange(from as int, to as int);
    let start: usize = if from < to && v[from] == '+' {
        from + 1
    } else {
        from
    };
    let ghost digits = v@.subrange(start as int, to as int);
    assert(digits =~= if field.len() > 0 && field[0] == '+' {
        field.skip(1)
    } else {
        field
    });
    if start == to {
        return None;
    }
    let mut acc: u64 = 0;
    let mut i: usize = start;
    assert(digits.subrange(0, 0) =~= Seq::<char>::empty());
    while i < to
        invariant
            from <= start <= i <= to <= v.len(),
            digits == v@.subrange(start as int, to as int),
            field == v@.subrange(from as int, to as int),
            digits == if field.len() > 0 && field[0] == '+' {
                field.skip(1)
            } else {
                field
            },
            acc == digits_value(digits.subrange(0, i - start)),
            all_digits(digits.subrange(0, i - start)),
        decreases to - i,
    {
        let c: char = v[i];
        if !('0' <= c && c <= '9') {
            assert(!is_digit(digits[i - start]));
            return None;
        }
        let d: u64 = (c as u32 - '0' as u32) as u64;
        let ghost longer = digits.subrange(0, i + 1 - start);
        proof {
            assert(longer.drop_last() =~= digits.subrange(0, i - start));
            assert(longer.last() == c);
            assert(digits_value(longer) == acc * 10 + digit_value(c));
            assert(digit_value(c) == d);
        }
        if acc > (u64::MAX - d) / 10 {
            proof {
                lemma_prefix_value(digits, i + 1 - start);
            }
            return None;
        }
        acc = acc * 10 + d;
        proof {
            assert forall|j: int| 0 <= j < longer.len() implies is_digit(#[trigger] longer[j]) by {
                if j < i - start {
                    assert(longer[j] == digits.subrange(0, i - start)[j]);
                }
            }
        }
        i += 1;
    }
    assert(digits.subrange(0, to - start) =~= digits);
    Some(acc)
}

/// Reads a range header: the first byte asked for and, where the header
/// names one, the last.
pub fn parse_range(header: &str) -> (out: Option<(u64, Option<u64>)>)
    ensures
        out == requested(header@),
{
    let v = chars_of(header);
    let n: usize = v.len();
    let mut a: usize = 0;
    while unit_at(&v, a)
        invariant
            a <= n,
            n == v.len(),
            unit_end(v@, 0) == unit_end(v@, a as int),
        decreases n - a,
    {
        a += 6;
    }
    let mut lo: usize = a;
    while lo < n && is_space_char(v[lo])
        invariant
            a <= lo <= n,
            n == v.len(),
            space_end(v@, a as int, n as int) == space_end(v@, lo as int, n as int),
        decreases n - lo,
    {
        lo += 1;
    }
    let mut hi: usize = n;
    while lo < hi && is_space_char(v[hi - 1])
        invariant
            lo <= hi <= n,
            n == v.len(),
            trimmed_end(v@, lo as int, n as int) == trimmed_end(v@, lo as int, hi as int),
        decreases hi - lo,
    {
        hi -= 1;
    }
    let first = find_dash(&v, lo, hi);
    let start = parse_numeral(&v, lo, first);
    if first == hi {
        match start {
            None => None,
            Some(start) => Some((start, None)),
        }
    } else {
        let second = find_dash(&v, first + 1, hi);
        let end = parse_numeral(&v, first + 1, second);
        match start {
            None => None,
            Some(start) => Some((start, end)),
        }
    }
}

/// The bytes of a file that a response covers.
#[derive(Debug, Clone, Copy, PartialEq, Eq)]
pub struct ByteRange {
    /// Offset of the first byte.
    pub start: u64,
    /// Offset of the last byte.
    pub end: u64,
}

/// Decides which bytes of a file of `length` bytes a request is served.
/// A header that spells no first byte counts as absent. The request is
/// refused exactly when the bytes wanted do not lie within the file; of an
/// empty file no byte does.
pub fn resolve_range(header: Option<&str>, length: u64) -> (out: Result<ByteRange, RangeError>)
    ensures
        ({
            let (start, end) = wanted(
                match header {
                    Some(h) => Some(h@),
                    None => None,
                },
                length,
            );
            if in_file(start, end, length) {
                out == Ok::<ByteRange, RangeError>(ByteRange { start: start as u64, end: end as u64 })
            } else {
                out == Err::<ByteRange, RangeError>(RangeError::InvalidRange)
            }
        }),
{
    let asked = match header {
        Some(h) => parse_range(h),
        None => None,
    };
    if length == 0 {
        return Err(RangeError::InvalidRange);
    }
    let (start, end) = match asked {
        Some((start, Some(end))) => (start, end),
        Some((start, None)) => (start, length - 1),
        None => (0, length - 1),
    };
    if start > length || start > end || end >= length {
        Err(RangeError::InvalidRange)
    } else {
        Ok(ByteRange { start, end })
    }
}

/// Writes the value of the `Content-Range` header.
pub fn content_range_value(range: ByteRange, length: u64) -> (out: String)
    ensures
        out@ == content_range(range.start, range.end, length),
{
    String::from_str("bytes ").concat(decimal_string(range.start).as_str()).concat("-").concat(
        decimal_string(range.end).as_str(),
    ).concat("/").concat(decimal_string(length).as_str())
}

/// The head of a response that streams a file.
#[derive(Debug)]
pub struct PartialContent {
    /// HTTP status code.
    pub status: u16,
    /// Value of `Content-Type`.
    pub content_type: String,
    /// Value of `Content-Length`: the length of the whole file.
    pub content_length: u64,
    /// Value of `Content-Range`.
    pub content_range: String,
    /// Offset at which the stream starts to read.
    pub start: u64,
}

/// Answers a request for the file at `path`, which is `content_length` bytes
/// long. The response is always partial content; a request without a range
/// header is served the whole file.
pub fn get_video(path: &str, range_header: Option<&str>, content_length: u64) -> (out: Result<
    PartialContent,
    RangeError,
>)
    ensures
        ({
            let (start, end) = wanted(
                match range_header {
                    Some(h) => Some(h@),
                    None => None,
                },
                content_length,
            );
            if in_file(start, end, content_length) {
                &&& out matches Ok(head)
                &&& head.status == PARTIAL_CONTENT
                &&& head.content_type@ == resolved_content_type(path@)
                &&& head.content_length == content_length
                &&& head.content_range@ == content_range(start as u64, end as u64, content_length)
                &&& head.start == start
            } else {
                out matches Err(RangeError::InvalidRange)
            }
        }),
{
    match resolve_range(range_header, content_length) {
        Err(e) => Err(e),
        Ok(range) => Ok(
            PartialContent {
                status: PARTIAL_CONTENT,
                content_type: content_type_or_unknown(path),
                content_length,
                content_range: content_range_value(range, content_length),
                start: range.start,
            },
        ),
    }
}

/// What one read of the file gave.
#[derive(Debug, Clone, Copy, PartialEq, Eq)]
pub enum ReadOutcome {
    /// This many bytes were read; zero means the end of the file.
    Read(usize),
    /// The read was interrupted before it gave anything.
    Interrupted,
    /// The read failed.
    Failed,
}

/// What the stream does after a read.
#[derive(Debug, Clone, Copy, PartialEq, Eq)]
pub enum StreamStep {
    /// Hand on this many bytes, read at this offset.
    Chunk { offset: u64, len: usize },
    /// Nothing yet: read again at the same offset.
    Pending,
    /// The stream is over.
    Finished,
    /// The stream ends with an error.
    Failed,
}

/// The step that follows a read at offset `pos`, and the offset of the next
/// read. The stream goes on until a read gives nothing: it does not stop at
/// the last byte of the range that was asked for.
pub open spec fn stream_step(pos: u64, outcome: ReadOutcome) -> (StreamStep, u64) {
    match outcome {
        ReadOutcome::Read(n) => if n == 0 {
            (StreamStep::Finished, pos)
        } else if pos + n > u64::MAX {
            (StreamStep::Failed, pos)
        } else {
            (StreamStep::Chunk { offset: pos, len: n }, (pos + n) as u64)
        },
        ReadOutcome::Interrupted => (StreamStep::Pending, pos),
        ReadOutcome::Failed => (StreamStep::Failed, pos),
    }
}

fn step_from(pos: u64, outcome: ReadOutcome) -> (out: (StreamStep, u64))
    ensures
        out == stream_step(pos, outcome),
{
    match outcome {
        ReadOutcome::Read(n) => {
            if n == 0 {
                (StreamStep::Finished, pos)
            } else if n as u64 > u64::MAX - pos {
                (StreamStep::Failed, pos)
            } else {
                (StreamStep::Chunk { offset: pos, len: n }, pos + n as u64)
            }
        },
        ReadOutcome::Interrupted => (StreamStep::Pending, pos),
        ReadOutcome::Failed => (StreamStep::Failed, pos),
    }
}

/// The cursor of a chunked read of a file.
#[derive(Debug)]
pub struct FileReaderStream {
    pos: u64,
}

impl FileReaderStream {
    /// The offset of the next read.
    pub closed spec fn offset(&self) -> u64 {
        self.pos
    }

    /// A cursor that starts to read at `pos`.
    pub fn new(pos: u64) -> (out: FileReaderStream)
        ensures
            out.offset() == pos,
    {
        FileReaderStream { pos }
    }

    /// The offset at which to read next.
    pub fn position(&self) -> (out: u64)
        ensures
            out == self.offset(),
    {
        self.pos
    }

    /// Takes the outcome of the read at the current offset and says what
    /// the stream does.
    pub fn poll_next(&mut self, outcome: ReadOutcome) -> (out: StreamStep)
        ensures
            (out, final(self).offset()) == stream_step(old(self).offset(), outcome),
    {
        let (step, pos) = step_from(self.pos, outcome);
        self.pos = pos;
        step
    }
}

/// A source of media bytes that knows its length and its kind.
pub trait FileStream {
    /// The length of the file in bytes.
    spec fn length(&self) -> u64;

    /// The content type of the file.
    spec fn kind(&self) -> Seq<char>;

    /// The length of the file in bytes.
    fn get_file_length(&self) -> (out: u64)
        ensures
            out == self.length(),
    ;

    /// The content type of the file.
    fn get_file_type(&self) -> (out: String)
        ensures
            out@ == self.kind(),
    ;
}

/// A file of the local file system, read in chunks.
#[derive(Debug)]
pub struct LocalFileStream {
    content_length: u64,
    content_type: String,
    pos: u64,
}

impl LocalFileStream {
    /// The offset of the next read.
    pub closed spec fn offset(&self) -> u64 {
        self.pos
    }

    /// The stream of the file at `path`, `content_length` bytes long, from
    /// offset `pos` on.
    pub fn new(path: &str, pos: u64, content_length: u64) -> (out: LocalFileStream)
        ensures
            out.length() == content_length,
            out.kind() == resolved_content_type(path@),
            out.offset() == pos,
    {
        LocalFileStream { content_length, content_type: content_type_or_unknown(path), pos }
    }

    /// The offset at which to read next.
    pub fn position(&self) -> (out: u64)
        ensures
            out == self.offset(),
    {
        self.pos
    }

    /// Takes the outcome of the read at the current offset and says what
    /// the stream does.
    pub fn poll_next(&mut self, outcome: ReadOutcome) -> (out: StreamStep)
        ensures
            (out, final(self).offset()) == stream_step(old(self).offset(), outcome),
            final(self).length() == old(self).length(),
            final(self).kind() == old(self).kind(),
    {
        let (step, pos) = step_from(self.pos, outcome);
        self.pos = pos;
        step
    }
}

impl FileStream for LocalFileStream {
    closed spec fn length(&self) -> u64 {
        self.content_length
    }

    closed spec fn kind(&self) -> Seq<char> {
        self.content_type@
    }

    fn get_file_length(&self) -> (out: u64) {
        self.content_length
    }

    fn get_file_type(&self) -> (out: String) {
        self.content_type.clone()
    }
}

/// A file on attached USB storage. Its stream holds no bytes yet.
#[derive(Debug)]
pub struct AndroidUsbStorageFileStream {
    content_length: u64,
    content_type: String,
    pos: u64,
}

impl AndroidUsbStorageFileStream {
    /// The offset that the stream was opened at.
    pub closed spec fn offset(&self) -> u64 {
        self.pos
    }

    /// The stream of the file at `path`, `content_length` bytes long, from
    /// offset `pos` on.
    pub fn new(path: &str, pos: u64, content_length: u64) -> (out: AndroidUsbStorageFileStream)
        ensures
            out.length() == content_length,
            out.kind() == resolved_content_type(path@),
            out.offset() == pos,
    {
        AndroidUsbStorageFileStream {
            content_length,
            content_type: content_type_or_unknown(path),
            pos,
        }
    }

    /// The offset that the stream was opened at.
    pub fn position(&self) -> (out: u64)
        ensures
            out == self.offset(),
    {
        self.pos
    }

    /// The stream is over at once.
    pub fn poll_next(&self) -> (out: StreamStep)
        ensures
            out == StreamStep::Finished,
    {
        StreamStep::Finished
    }
}

impl FileStream for AndroidUsbStorageFileStream {
    closed spec fn length(&self) -> u64 {
        self.content_length
    }

    closed spec fn kind(&self) -> Seq<char> {
        self.content_type@
    }

    fn get_file_length(&self) -> (out: u64) {
        self.content_length
    }

    fn get_file_type(&self) -> (out: String) {
        self.content_type.clone()
    }
}

} // verus!
