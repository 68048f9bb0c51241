use vstd::prelude::*;
use vstd::utf8::*;

verus! {

broadcast use {encode_utf8_valid_utf8, encode_utf8_decode_utf8};

/// Why a frame could not be read off the wire.
#[derive(Debug, Clone, Copy, PartialEq, Eq)]
pub enum FramingError {
    /// A header line does not end in CRLF, or has no `": "` separator.
    MalformedHeader,
    /// A `Content-Length` value that is not a non-negative number that fits a `usize`.
    BadContentLength,
    /// The blank line came before any `Content-Length` header.
    MissingContentLength,
    /// The stream ended inside a frame.
    Truncated,
    /// The body is not UTF-8.
    InvalidUtf8,
}

/// What one frame read from the start of a byte stream gives, in the model.
pub enum FrameSpec {
    /// A frame whose body is these bytes, and the number of bytes it took up.
    Frame(Seq<u8>, nat),
    /// The stream ended cleanly before any header line.
    End,
    /// The bytes so far are a proper beginning of a frame.
    NeedMore,
    Error(FramingError),
}

/// What one frame read from a byte buffer gives.
#[derive(Debug)]
pub enum ReadOutcome {
    /// A whole frame: its body, and the number of bytes it took up.
    Message { text: String, consumed: usize },
    /// The peer closed the stream before any header line: a clean end.
    EndOfStream,
    /// The buffer holds a proper beginning of a frame; more bytes are needed.
    NeedMore,
    Failed(FramingError),
}

impl ReadOutcome {
    pub open spec fn spec(&self) -> FrameSpec {
        match self {
            ReadOutcome::Message { text, consumed } => FrameSpec::Frame(
                encode_utf8(text@),
                *consumed as nat,
            ),
            ReadOutcome::EndOfStream => FrameSpec::End,
            ReadOutcome::NeedMore => FrameSpec::NeedMore,
            ReadOutcome::Failed(e) => FrameSpec::Error(*e),
        }
    }
}

/// The decimal digits of `n`, most significant first, without leading zeros.
pub open spec fn decimal(n: nat) -> Seq<u8>
    decreases n,
{
    if n < 10 {
        seq![(48 + n) as u8]
    } else {
        decimal(n / 10).push((48 + n % 10) as u8)
    }
}

pub open spec fn is_digit(b: u8) -> bool {
    48 <= b <= 57
}

/// The number that a run of decimal digits spells.
pub open spec fn digits_value(s: Seq<u8>) -> nat
    decreases s.len(),
{
    if s.len() == 0 {
        0
    } else {
        digits_value(s.drop_last()) * 10 + (s.last() - 48) as nat
    }
}

/// The digits of a length, past an optional leading `+`.
pub open spec fn unsigned_part(s: Seq<u8>) -> Seq<u8> {
    if s.len() > 0 && s[0] == 43 {
        s.subrange(1, s.len() as int)
    } else {
        s
    }
}

pub open spec fn all_digits(d: Seq<u8>) -> bool {
    forall|i: int| 0 <= i < d.len() ==> is_digit(#[trigger] d[i])
}

/// A `usize` in decimal, with an optional leading `+`, as std reads one.
pub open spec fn parse_length(s: Seq<u8>) -> Option<nat> {
    let d = unsigned_part(s);
    if d.len() > 0 && all_digits(d) && digits_value(d) <= usize::MAX {
        Some(digits_value(d))
    } else {
        None
    }
}

/// `Content-Length: `
pub open spec fn length_prefix() -> Seq<u8> {
    seq![67, 111, 110, 116, 101, 110, 116, 45, 76, 101, 110, 103, 116, 104, 58, 32]
}

/// `content-length`, the header name in lower case.
pub open spec fn length_name_lower() -> Seq<u8> {
    seq![99, 111, 110, 116, 101, 110, 116, 45, 108, 101, 110, 103, 116, 104]
}

pub open spec fn ascii_lower(b: u8) -> u8 {
    if 65 <= b <= 90 {
        (b + 32) as u8
    } else {
        b
    }
}

/// The header name is `Content-Length`, ignoring ASCII case.
pub open spec fn is_length_name(name: Seq<u8>) -> bool {
    name.len() == length_name_lower().len() && forall|i: int|
        0 <= i < name.len() ==> #[trigger] ascii_lower(name[i]) == length_name_lower()[i]
}

/// The bytes of one frame: a `Content-Length` header, a blank line, the body.
pub open spec fn frame_of(body: Seq<u8>) -> Seq<u8> {
    length_prefix() + decimal(body.len()) + seq![13u8, 10, 13, 10] + body
}

/// The first line feed at or after `from`.
pub open spec fn first_newline(buf: Seq<u8>, from: int) -> Option<int>
    decreases buf.len() - from,
{
    if from < 0 || from >= buf.len() {
        None
    } else if buf[from] == 10 {
        Some(from)
    } else {
        first_newline(buf, from + 1)
    }
}

/// The first `": "` at or after `from`.
pub open spec fn first_separator(line: Seq<u8>, from: int) -> Option<int>
    decreases line.len() - from,
{
    if from < 0 || from + 1 >= line.len() {
        None
    } else if line[from] == 58 && line[from + 1] == 32 {
        Some(from)
    } else {
        first_separator(line, from + 1)
    }
}

/// What one header line (without its CRLF) says.
pub enum HeaderSpec {
    Malformed,
    BadLength,
    Length(nat),
    Other,
}

pub open spec fn header_spec(line: Seq<u8>) -> HeaderSpec {
    match first_separator(line, 0) {
        None => HeaderSpec::Malformed,
        Some(k) => if is_length_name(line.subrange(0, k)) {
            match parse_length(line.subrange(k + 2, line.len() as int)) {
                Some(n) => HeaderSpec::Length(n),
                None => HeaderSpec::BadLength,
            }
        } else {
            HeaderSpec::Other
        },
    }
}

/// The body that follows the blank line at `start`, given the length read.
pub open spec fn body_spec(buf: Seq<u8>, eof: bool, start: int, size: Option<nat>) -> FrameSpec {
    match size {
        None => FrameSpec::Error(FramingError::MissingContentLength),
        Some(n) => if buf.len() - start < n {
            if eof {
                FrameSpec::Error(FramingError::Truncated)
            } else {
                FrameSpec::NeedMore
            }
        } else if valid_utf8(buf.subrange(start, start + n)) {
            FrameSpec::Frame(buf.subrange(start, start + n), (start + n) as nat)
        } else {
            FrameSpec::Error(FramingError::InvalidUtf8)
        },
    }
}

/// Reading header lines from `pos` on, with the length seen so far.
pub open spec fn headers_spec(buf: Seq<u8>, eof: bool, pos: int, size: Option<nat>) -> FrameSpec
    decreases buf.len() - pos,
{
    if pos < 0 || pos >= buf.len() {
        if !eof {
            FrameSpec::NeedMore
        } else if pos == 0 {
            FrameSpec::End
        } else {
            FrameSpec::Error(FramingError::Truncated)
        }
    } else {
        match first_newline(buf, pos) {
            None => if eof {
                FrameSpec::Error(FramingError::MalformedHeader)
            } else {
                FrameSpec::NeedMore
            },
            Some(nl) => if nl <= pos || nl >= buf.len() || buf[nl - 1] != 13 {
                FrameSpec::Error(FramingError::MalformedHeader)
            } else if nl - 1 == pos {
                body_spec(buf, eof, nl + 1, size)
            } else {
                match header_spec(buf.subrange(pos, nl - 1)) {
                    HeaderSpec::Malformed => FrameSpec::Error(FramingError::MalformedHeader),
                    HeaderSpec::BadLength => FrameSpec::Error(FramingError::BadContentLength),
                    HeaderSpec::Length(n) => headers_spec(buf, eof, nl + 1, Some(n)),
                    HeaderSpec::Other => headers_spec(buf, eof, nl + 1, size),
                }
            },
        }
    }
}

/// The frame at the start of `buf`; `eof` says that no byte follows.
pub open spec fn frame_spec(buf: Seq<u8>, eof: bool) -> FrameSpec {
    headers_spec(buf, eof, 0, None)
}

pub open spec fn size_view(size: Option<usize>) -> Option<nat> {
    match size {
        Some(n) => Some(n as nat),
        None => None,
    }
}

/// Relies on `String::from_utf8`: the bytes as a string exactly when they are UTF-8.
#[verifier::external_body]
pub(crate) fn utf8_string(bytes: Vec<u8>) -> (r: Option<String>)
    ensures
        r.is_some() == valid_utf8(bytes@),
        r matches Some(s) ==> s@ == decode_utf8(bytes@),
{
    String::from_utf8(bytes).ok()
}

pub(crate) fn push_decimal(out: &mut Vec<u8>, n: usize)
    ensures
        final(out)@ == old(out)@ + decimal(n as nat),
    decreases n,
{
    if n >= 10 {
        push_decimal(out, n / 10);
    }
    out.push(48 + (n % 10) as u8);
    proof {
        assert(final(out)@ =~= old(out)@ + decimal(n as nat));
    }
}

/// Frames a message body for the wire: a `Content-Length` header giving its
/// length in bytes, a blank line, then the body itself.
pub fn encode_frame(text: &str) -> (r: Vec<u8>)
    ensures
        r@ == frame_of(encode_utf8(text@)),
{
    let bytes = text.as_bytes();
    let mut out: Vec<u8> = vec![67, 111, 110, 116, 101, 110, 116, 45, 76, 101, 110, 103, 116, 104, 58, 32];
    push_decimal(&mut out, bytes.len());
    out.push(13);
    out.push(10);
    out.push(13);
    out.push(10);
    let ghost head = out@;
    let mut i: usize = 0;
    while i < bytes.len()
        invariant
            0 <= i <= bytes.len(),
            out@ == head + bytes@.subrange(0, i as int),
        decreases bytes.len() - i,
    {
        out.push(bytes[i]);
        i = i + 1;
        proof {
            assert(out@ =~= head + bytes@.subrange(0, i as int));
        }
    }
    proof {
        assert(bytes@.subrange(0, bytes@.len() as int) =~= bytes@);
        assert(out@ =~= frame_of(bytes@));
    }
    out
}

/// What one header line gave, in the form the reader keeps.
enum HeaderLine {
    Malformed,
    BadLength,
    Length(usize),
    Other,
}

spec fn header_line_spec(h: HeaderLine) -> HeaderSpec {
    match h {
        HeaderLine::Malformed => HeaderSpec::Malformed,
        HeaderLine::BadLength => HeaderSpec::BadLength,
        HeaderLine::Length(n) => HeaderSpec::Length(n as nat),
        HeaderLine::Other => HeaderSpec::Other,
    }
}

proof fn lemma_digits_prefix(s: Seq<u8>, k: int)
    requires
        0 <= k <= s.len(),
    ensures
        digits_value(s.subrange(0, k)) <= digits_value(s),
    decreases s.len(),
{
    if k < s.len() {
        lemma_digits_prefix(s.drop_last(), k);
        assert(s.drop_last().subrange(0, k) =~= s.subrange(0, k));
    } else {
        assert(s.subrange(0, k) =~= s);
    }
}

fn find_newline(buf: &[u8], from: usize) -> (r: Option<usize>)
    ensures
        match r {
            Some(i) => first_newline(buf@, from as int) == Some(i as int),
            None => first_newline(buf@, from as int) is None,
        },
{
    let mut i = from;
    while i < buf.len()
        invariant
            from <= i,
            i >= buf.len() ==> first_newline(buf@, i as int) is None,
            first_newline(buf@, from as int) == first_newline(buf@, i as int),
        decreases buf.len() - i,
    {
        if buf[i] == 10 {
            return Some(i);
        }
        i = i + 1;
    }
    None
}

fn find_separator(buf: &[u8], start: usize, end: usize) -> (r: Option<usize>)
    requires
        start <= end <= buf.len(),
    ensures
        match r {
            Some(k) => start <= k && k + 2 <= end && first_separator(buf@.subrange(start as int, end as int), 0)
                == Some(k - start),
            None => first_separator(buf@.subrange(start as int, end as int), 0) is None,
        },
{
    let ghost line = buf@.subrange(start as int, end as int);
    let mut k = start;
    while end - k > 1
        invariant
            start <= k <= end,
            end <= buf.len(),
            line == buf@.subrange(start as int, end as int),
            first_separator(line, 0) == first_separator(line, k - start),
        decreases end - k,
    {
        if buf[k] == 58 && buf[k + 1] == 32 {
            assert(line[k - start] == 58 && line[k - start + 1] == 32);
            return Some(k);
        }
        k = k + 1;
    }
    None
}

fn is_length_header(buf: &[u8], start: usize, end: usize) -> (r: bool)
    requires
        start <= end <= buf.len(),
    ensures
        r == is_length_name(buf@.subrange(start as int, end as int)),
{
    let ghost name = buf@.subrange(start as int, end as int);
    let lower: Vec<u8> = vec![99, 111, 110, 116, 101, 110, 116, 45, 108, 101, 110, 103, 116, 104];
    assert(lower@ =~= length_name_lower());
    if end - start != lower.len() {
        return false;
    }
    let mut i: usize = 0;
    while i < lower.len()
        invariant
            0 <= i <= lower.len(),
            end - start == lower.len(),
            end <= buf.len(),
            lower@ == length_name_lower(),
            name == buf@.subrange(start as int, end as int),
            forall|j: int| 0 <= j < i ==> #[trigger] ascii_lower(name[j]) == length_name_lower()[j],
        decreases lower.len() - i,
    {
        let b = buf[start + i];
        let l = if 65 <= b && b <= 90 {
            b + 32
        } else {
            b
        };
        if l != lower[i] {
            assert(ascii_lower(name[i as int]) != length_name_lower()[i as int]);
            return false;
        }
        i = i + 1;
    }
    true
}

fn parse_length_at(buf: &[u8], start: usize, end: usize) -> (r: Option<usize>)
    requires
        start <= end <= buf.len(),
    ensures
        size_view(r) == parse_length(buf@.subrange(start as int, end as int)),
{
    let ghost s = buf@.subrange(start as int, end as int);
    let mut i = start;
    if i < end && buf[i] == 43 {
        i = i + 1;
    }
    let ghost d = buf@.subrange(i as int, end as int);
    assert(d =~= unsigned_part(s));
    if i == end {
        return None;
    }
    let first = i;
    let mut acc: usize = 0;
    while i < end
        invariant
            start <= first <= i <= end,
            end <= buf.len(),
            d == buf@.subrange(first as int, end as int),
            s == buf@.subrange(start as int, end as int),
            d == unsigned_part(s),
            forall|j: int| 0 <= j < i - first ==> is_digit(#[trigger] d[j]),
            acc as nat == digits_value(d.subrange(0, i - first)),
        decreases end - i,
    {
        let b = buf[i];
        if b < 48 || b > 57 {
            assert(!is_digit(d[i - first]));
            assert(!all_digits(d));
            return None;
        }
        let ghost next = d.subrange(0, i - first + 1);
        assert(next.drop_last() =~= d.subrange(0, i - first));
        assert(next.last() == b);
        assert(digits_value(next) == acc * 10 + (b - 48) as nat);
        match acc.checked_mul(10) {
            None => {
                proof {
                    lemma_digits_prefix(d, i - first + 1);
                    assert(digits_value(d) > usize::MAX);
                }
                return None;
            },
            Some(m) => match m.checked_add((b - 48) as usize) {
                None => {
                    proof {
                        lemma_digits_prefix(d, i - first + 1);
                        assert(digits_value(d) > usize::MAX);
                    }
                    return None;
                },
                Some(v) => {
                    acc = v;
                },
            },
        }
        i = i + 1;
    }
    assert(d.subrange(0, d.len() as int) =~= d);
    Some(acc)
}

fn parse_header(buf: &[u8], start: usize, end: usize) -> (r: HeaderLine)
    requires
        start <= end <= buf.len(),
    ensures
        header_line_spec(r) == header_spec(buf@.subrange(start as int, end as int)),
{
    let ghost line = buf@.subrange(start as int, end as int);
    match find_separator(buf, start, end) {
        None => HeaderLine::Malformed,
        Some(k) => {
            assert(line.subrange(0, k - start) =~= buf@.subrange(start as int, k as int));
            assert(line.subrange(k - start + 2, line.len() as int) =~= buf@.subrange(
                k + 2,
                end as int,
            ));
            if is_length_header(buf, start, k) {
                match parse_length_at(buf, k + 2, end) {
                    Some(n) => HeaderLine::Length(n),
                    None => HeaderLine::BadLength,
                }
            } else {
                HeaderLine::Other
            }
        },
    }
}

fn read_body(buf: &[u8], eof: bool, start: usize, size: Option<usize>) -> (r: ReadOutcome)
    requires
        start <= buf.len(),
    ensures
        r.spec() == body_spec(buf@, eof, start as int, size_view(size)),
{
    match size {
        None => ReadOutcome::Failed(FramingError::MissingContentLength),
        Some(n) => {
            if buf.len() - start < n {
                if eof {
                    ReadOutcome::Failed(FramingError::Truncated)
                } else {
                    ReadOutcome::NeedMore
                }
            } else {
                let mut body: Vec<u8> = Vec::new();
                let mut i: usize = 0;
                while i < n
                    invariant
                        0 <= i <= n,
                        start + n <= buf.len(),
                        body@ == buf@.subrange(start as int, start + i),
                    decreases n - i,
                {
                    body.push(buf[start + i]);
                    i = i + 1;
                    proof {
                        assert(body@ =~= buf@.subrange(start as int, start + i));
                    }
                }
                let ghost bytes = body@;
                match utf8_string(body) {
                    Some(text) => {
                        proof {
                            decode_utf8_encode_utf8(bytes);
                        }
                        ReadOutcome::Message { text, consumed: start + n }
                    },
                    None => ReadOutcome::Failed(FramingError::InvalidUtf8),
                }
            }
        },
    }
}

/// Reads one frame from the start of `buf`, the bytes received so far;
/// `eof` says that the peer has closed the stream after them.
///
/// Header lines end in CRLF and a blank line ends them. Only `Content-Length`
/// (in any ASCII case) is read, the last one wins, and other headers are
/// skipped. An empty buffer at the end of the stream is a clean end; a stream
/// that ends anywhere else inside a frame is truncated.
pub fn read_msg_text(buf: &[u8], eof: bool) -> (r: ReadOutcome)
    ensures
        r.spec() == frame_spec(buf@, eof),
{
    let mut pos: usize = 0;
    let mut size: Option<usize> = None;
    loop
        invariant
            pos <= buf.len(),
            headers_spec(buf@, eof, pos as int, size_view(size)) == frame_spec(buf@, eof),
        decreases buf.len() - pos,
    {
        if pos >= buf.len() {
            return if !eof {
                ReadOutcome::NeedMore
            } else if pos == 0 {
                ReadOutcome::EndOfStream
            } else {
                ReadOutcome::Failed(FramingError::Truncated)
            };
        }
        match find_newline(buf, pos) {
            None => {
                return if eof {
                    ReadOutcome::Failed(FramingError::MalformedHeader)
                } else {
                    ReadOutcome::NeedMore
                };
            },
            Some(nl) => {
                if nl <= pos || nl >= buf.len() || buf[nl - 1] != 13 {
                    return ReadOutcome::Failed(FramingError::MalformedHeader);
                }
                if nl - 1 == pos {
                    return read_body(buf, eof, nl + 1, size);
                }
                match parse_header(buf, pos, nl - 1) {
                    HeaderLine::Malformed => {
                        return ReadOutcome::Failed(FramingError::MalformedHeader);
                    },
                    HeaderLine::BadLength => {
                        return ReadOutcome::Failed(FramingError::BadContentLength);
                    },
                    HeaderLine::Length(n) => {
                        size = Some(n);
                    },
                    HeaderLine::Other => {},
                }
                pos = nl + 1;
            },
        }
    }
}

proof fn lemma_decimal(n: nat)
    ensures
        decimal(n).len() >= 1,
        all_digits(decimal(n)),
        digits_value(decimal(n)) == n,
    decreases n,
{
    if n >= 10 {
        lemma_decimal(n / 10);
        let d = decimal(n);
        assert(d.drop_last() =~= decimal(n / 10));
        assert(d.last() == (48 + n % 10) as u8);
        assert((n / 10) * 10 + n % 10 == n) by (nonlinear_arith);
        assert(d.last() - 48 == n % 10);
        assert(digits_value(d) == digits_value(decimal(n / 10)) * 10 + (d.last() - 48) as nat);
        assert forall|i: int| 0 <= i < d.len() implies is_digit(#[trigger] d[i]) by {
            if i < d.len() - 1 {
                assert(d[i] == decimal(n / 10)[i]);
            }
        }
    } else {
        assert(decimal(n).drop_last() =~= Seq::<u8>::empty());
        assert(digits_value(decimal(n)) == digits_value(Seq::<u8>::empty()) * 10 + (decimal(n).last() - 48) as nat);
    }
}

proof fn lemma_first_newline_at(buf: Seq<u8>, from: int, k: int)
    requires
        0 <= from <= k < buf.len(),
        buf[k] == 10,
        forall|j: int| from <= j < k ==> buf[j] != 10,
    ensures
        first_newline(buf, from) == Some(k),
    decreases k - from,
{
    if from < k {
        lemma_first_newline_at(buf, from + 1, k);
    }
}

proof fn lemma_first_separator_at(line: Seq<u8>, from: int, k: int)
    requires
        0 <= from <= k,
        k + 1 < line.len(),
        line[k] == 58 && line[k + 1] == 32,
        forall|j: int| from <= j < k ==> line[j] != 58,
    ensures
        first_separator(line, from) == Some(k),
    decreases k - from,
{
    if from < k {
        lemma_first_separator_at(line, from + 1, k);
    }
}

/// A frame that `encode_frame` builds reads back as exactly its body, and
/// takes up exactly its own bytes, whatever follows it on the stream.
pub proof fn lemma_frame_round_trip(body: Seq<u8>, rest: Seq<u8>, eof: bool)
    requires
        valid_utf8(body),
        body.len() <= usize::MAX,
    ensures
        frame_spec(frame_of(body) + rest, eof) == FrameSpec::Frame(body, frame_of(body).len()),
{
    let n = body.len();
    let d = decimal(n);
    lemma_decimal(n);
    let p = length_prefix();
    let buf = frame_of(body) + rest;
    let w = d.len() as int;
    assert(buf =~= p + d + seq![13u8, 10, 13, 10] + body + rest);
    assert forall|j: int| 0 <= j < 16 implies buf[j] == p[j] by {}
    assert forall|j: int| 16 <= j < 16 + w implies buf[j] == d[j - 16] by {}
    assert(buf[16 + w] == 13);
    assert(buf[17 + w] == 10);
    assert(buf[18 + w] == 13);
    assert(buf[19 + w] == 10);
    assert forall|j: int| 0 <= j < 17 + w implies buf[j] != 10 by {
        if j >= 16 && j < 16 + w {
            assert(is_digit(d[j - 16]));
        }
    }
    lemma_first_newline_at(buf, 0, 17 + w);
    let line = buf.subrange(0, 16 + w);
    assert(line =~= p + d);
    assert forall|j: int| 0 <= j < 14 implies line[j] != 58 by {}
    lemma_first_separator_at(line, 0, 14);
    assert(line.subrange(0, 14) =~= p.subrange(0, 14));
    assert(is_length_name(line.subrange(0, 14)));
    assert(line.subrange(16, line.len() as int) =~= d);
    assert(unsigned_part(d) == d);
    assert(header_spec(line) == HeaderSpec::Length(n));
    lemma_first_newline_at(buf, 18 + w, 19 + w);
    assert(buf.subrange(20 + w, 20 + w + n) =~= body);
    assert(headers_spec(buf, eof, 18 + w, Some(n)) == body_spec(buf, eof, 20 + w, Some(n)));
}

} // verus!
