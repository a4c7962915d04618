//! Incremental framing of one telemetry request.
//!
//! A request arrives as a byte stream: a request line, header lines, a blank
//! line, then a body of exactly `Content-Length` bytes. A single socket read
//! is not guaranteed to contain the whole header block, so the parser is
//! re-run on the growing buffer after every read: it reports "need more
//! bytes" until the blank line is present, then extracts the declared length
//! and waits until the body is complete.
//!
//! The grammar accepted here is deliberately small. The header block ends at
//! the first `\r\n\r\n`. Lines within it are separated by `\r\n`; the first
//! line is the request line and is not inspected; every later line must
//! contain a colon, and names are matched byte-for-byte (`Content-Length`,
//! exactly as the telemetry sender writes it). A header value is what follows
//! the first colon of its line, with leading spaces removed.

use vstd::prelude::*;

verus! {

/// Carriage return.
pub const CR: u8 = 13;

/// Line feed.
pub const LF: u8 = 10;

/// ASCII colon, the name/value separator of a header line.
pub const COLON: u8 = 58;

/// ASCII space.
pub const SP: u8 = 32;

/// Why a header block was rejected. Each condition is fatal for its
/// connection and none produces a payload.
#[derive(Debug, Clone, Copy, PartialEq, Eq, Structural)]
pub enum FrameError {
    /// A header line contains no colon.
    MalformedHeaders,
    /// The header block is complete but declares no `Content-Length`.
    MissingContentLength,
    /// The `Content-Length` value is empty, not decimal digits, or too large
    /// for this machine.
    InvalidContentLength,
}

/// How far framing has progressed on the bytes read so far.
#[derive(Debug, Clone, Copy, PartialEq, Eq, Structural)]
pub enum FrameStatus {
    /// The terminating blank line has not arrived yet: read more bytes.
    AwaitHeaders,
    /// The header block is parsed; the body is still short of
    /// `content_length` bytes.
    HeadersComplete { header_len: usize, content_length: usize },
    /// The buffer holds the whole request: `content_length` payload bytes
    /// start at `header_len`.
    BodyComplete { header_len: usize, content_length: usize },
}

/// `\r\n` starts at position `i` of `s`.
pub open spec fn is_crlf_at(s: Seq<u8>, i: int) -> bool {
    &&& 0 <= i
    &&& i + 2 <= s.len()
    &&& s[i] == CR
    &&& s[i + 1] == LF
}

/// The blank line `\r\n\r\n` that terminates a header block starts at `i`.
pub open spec fn is_blank_at(s: Seq<u8>, i: int) -> bool {
    &&& 0 <= i
    &&& i + 4 <= s.len()
    &&& s[i] == CR
    &&& s[i + 1] == LF
    &&& s[i + 2] == CR
    &&& s[i + 3] == LF
}

/// Position of the first `\r\n` at or after `i`, if any.
pub open spec fn find_crlf_from(s: Seq<u8>, i: int) -> Option<int>
    decreases s.len() - i when 0 <= i <= s.len()
{
    if i + 2 > s.len() {
        None
    } else if is_crlf_at(s, i) {
        Some(i)
    } else {
        find_crlf_from(s, i + 1)
    }
}

/// Position of the first `\r\n\r\n` at or after `i`, if any.
pub open spec fn find_blank_from(s: Seq<u8>, i: int) -> Option<int>
    decreases s.len() - i when 0 <= i <= s.len()
{
    if i + 4 > s.len() {
        None
    } else if is_blank_at(s, i) {
        Some(i)
    } else {
        find_blank_from(s, i + 1)
    }
}

/// What `find_crlf_from` returns: the least `\r\n` position at or after `i`.
pub proof fn lemma_find_crlf_bounds(s: Seq<u8>, i: int)
    requires
        0 <= i <= s.len(),
    ensures
        match find_crlf_from(s, i) {
            Some(j) => i <= j && j + 2 <= s.len() && is_crlf_at(s, j)
                && forall|k: int| i <= k < j ==> !is_crlf_at(s, k),
            None => forall|k: int| i <= k ==> !is_crlf_at(s, k),
        },
    decreases s.len() - i,
{
    if i + 2 > s.len() {
    } else if is_crlf_at(s, i) {
    } else {
        lemma_find_crlf_bounds(s, i + 1);
    }
}

/// What `find_blank_from` returns: the least `\r\n\r\n` position at or after `i`.
pub proof fn lemma_find_blank_bounds(s: Seq<u8>, i: int)
    requires
        0 <= i <= s.len(),
    ensures
        match find_blank_from(s, i) {
            Some(j) => i <= j && j + 4 <= s.len() && is_blank_at(s, j)
                && forall|k: int| i <= k < j ==> !is_blank_at(s, k),
            None => forall|k: int| i <= k ==> !is_blank_at(s, k),
        },
    decreases s.len() - i,
{
    if i + 4 > s.len() {
    } else if is_blank_at(s, i) {
    } else {
        lemma_find_blank_bounds(s, i + 1);
    }
}

/// The lines of `r` from position `i` on, split at each `\r\n`.
pub open spec fn lines_from(r: Seq<u8>, i: int) -> Seq<Seq<u8>>
    decreases r.len() - i when 0 <= i <= r.len()
    via lines_from_decreases
{
    match find_crlf_from(r, i) {
        Some(j) => seq![r.subrange(i, j)] + lines_from(r, j + 2),
        None => seq![r.subrange(i, r.len() as int)],
    }
}

#[via_fn]
proof fn lines_from_decreases(r: Seq<u8>, i: int) {
    lemma_find_crlf_bounds(r, i);
}

/// The header lines of a header region: everything after the request line.
pub open spec fn header_lines(region: Seq<u8>) -> Seq<Seq<u8>> {
    lines_from(region, 0).skip(1)
}

/// Position of the first colon of `line` at or after `i`; `line.len()` if none.
pub open spec fn spec_colon_pos(line: Seq<u8>, i: int) -> int
    decreases line.len() - i when 0 <= i <= line.len()
{
    if i >= line.len() {
        i
    } else if line[i] == COLON {
        i
    } else {
        spec_colon_pos(line, i + 1)
    }
}

/// What `spec_colon_pos` returns: the least colon position at or after `i`.
pub proof fn lemma_colon_pos_bounds(line: Seq<u8>, i: int)
    requires
        0 <= i <= line.len(),
    ensures
        ({
            let p = spec_colon_pos(line, i);
            &&& i <= p <= line.len()
            &&& p < line.len() ==> line[p] == COLON
            &&& forall|k: int| i <= k < p ==> line[k] != COLON
        }),
    decreases line.len() - i,
{
    if i >= line.len() {
    } else if line[i] == COLON {
    } else {
        lemma_colon_pos_bounds(line, i + 1);
    }
}

/// The line contains a colon, i.e. it is a well-formed header line.
pub open spec fn line_has_colon(line: Seq<u8>) -> bool {
    spec_colon_pos(line, 0) < line.len()
}

/// Position of the first non-space byte of `s` at or after `i`.
pub open spec fn skip_spaces(s: Seq<u8>, i: int) -> int
    decreases s.len() - i when 0 <= i <= s.len()
{
    if i < s.len() && s[i] == SP {
        skip_spaces(s, i + 1)
    } else {
        i
    }
}

/// What `skip_spaces` returns: the least non-space position at or after `i`.
pub proof fn lemma_skip_spaces_bounds(s: Seq<u8>, i: int)
    requires
        0 <= i <= s.len(),
    ensures
        ({
            let p = skip_spaces(s, i);
            &&& i <= p <= s.len()
            &&& p < s.len() ==> s[p] != SP
            &&& forall|k: int| i <= k < p ==> s[k] == SP
        }),
    decreases s.len() - i,
{
    if i < s.len() && s[i] == SP {
        lemma_skip_spaces_bounds(s, i + 1);
    }
}

/// The name of a header line: the bytes before its first colon.
pub open spec fn field_name(line: Seq<u8>) -> Seq<u8> {
    line.subrange(0, spec_colon_pos(line, 0))
}

/// The value of a header line: the bytes after its first colon, with leading
/// spaces removed. Meaningful only for a line that contains a colon.
pub open spec fn field_value(line: Seq<u8>) -> Seq<u8> {
    line.subrange(skip_spaces(line, spec_colon_pos(line, 0) + 1), line.len() as int)
}

/// Every line of `lines` contains a colon.
pub open spec fn all_lines_have_colon(lines: Seq<Seq<u8>>) -> bool {
    forall|k: int| 0 <= k < lines.len() ==> line_has_colon(#[trigger] lines[k])
}

/// The (name, value) pairs of a sequence of header lines.
pub open spec fn fields_of(lines: Seq<Seq<u8>>) -> Seq<(Seq<u8>, Seq<u8>)> {
    lines.map_values(|l: Seq<u8>| (field_name(l), field_value(l)))
}

/// One parsed header line: its name and its value, as raw bytes.
pub struct HeaderField {
    /// The bytes before the first colon of the line.
    pub name: Vec<u8>,
    /// The bytes after the first colon, with leading spaces removed.
    pub value: Vec<u8>,
}

/// The (name, value) pairs that a sequence of `HeaderField`s holds.
pub open spec fn fields_view(fields: Seq<HeaderField>) -> Seq<(Seq<u8>, Seq<u8>)> {
    fields.map_values(|f: HeaderField| (f.name@, f.value@))
}

proof fn lemma_fields_view_push(fields: Seq<HeaderField>, f: HeaderField)
    ensures
        fields_view(fields.push(f)) =~= fields_view(fields).push((f.name@, f.value@)),
{
}

proof fn lemma_fields_of_push(lines: Seq<Seq<u8>>, l: Seq<u8>)
    ensures
        fields_of(lines.push(l)) =~= fields_of(lines).push((field_name(l), field_value(l))),
{
}

/// Copy `v[a..b]` into a fresh vector.
fn copy_range(v: &Vec<u8>, a: usize, b: usize) -> (out: Vec<u8>)
    requires
        a <= b <= v@.len(),
    ensures
        out@ == v@.subrange(a as int, b as int),
{
    let mut out: Vec<u8> = Vec::new();
    let mut i: usize = a;
    while i < b
        invariant
            a <= i <= b <= v@.len(),
            out@ == v@.subrange(a as int, i as int),
        decreases b - i,
    {
        out.push(v[i]);
        proof {
            assert(out@ =~= v@.subrange(a as int, i + 1));
        }
        i = i + 1;
    }
    out
}

/// Find the first `\r\n` of `buf` at or after `from`.
fn find_crlf(buf: &Vec<u8>, from: usize) -> (r: Option<usize>)
    requires
        from <= buf@.len(),
    ensures
        match r {
            Some(j) => find_crlf_from(buf@, from as int) == Some(j as int),
            None => find_crlf_from(buf@, from as int) is None,
        },
{
    let n = buf.len();
    if n < 2 || from > n - 2 {
        proof {
            lemma_find_crlf_bounds(buf@, from as int);
            assert(find_crlf_from(buf@, from as int) is None);
        }
        return None;
    }
    let mut i: usize = from;
    while i <= n - 2
        invariant
            2 <= n == buf@.len(),
            from <= i <= n,
            find_crlf_from(buf@, from as int) == find_crlf_from(buf@, i as int),
        decreases n - i,
    {
        if buf[i] == CR && buf[i + 1] == LF {
            proof {
                assert(is_crlf_at(buf@, i as int));
            }
            return Some(i);
        }
        proof {
            assert(!is_crlf_at(buf@, i as int));
            assert(find_crlf_from(buf@, i as int) == find_crlf_from(buf@, i + 1));
        }
        i = i + 1;
    }
    proof {
        assert(find_crlf_from(buf@, i as int) is None);
    }
    None
}

/// First colon position of `line`, or its length if it has none.
fn line_colon_pos(line: &Vec<u8>) -> (r: usize)
    ensures
        r as int == spec_colon_pos(line@, 0),
{
    let n = line.len();
    let mut i: usize = 0;
    while i < n
        invariant
            n == line@.len(),
            0 <= i <= n,
            spec_colon_pos(line@, 0) == spec_colon_pos(line@, i as int),
        decreases n - i,
    {
        if line[i] == COLON {
            return i;
        }
        proof {
            assert(spec_colon_pos(line@, i as int) == spec_colon_pos(line@, i + 1));
        }
        i = i + 1;
    }
    n
}

/// First non-space position of `line` at or after `from`.
fn line_skip_spaces(line: &Vec<u8>, from: usize) -> (r: usize)
    requires
        from <= line@.len(),
    ensures
        r as int == skip_spaces(line@, from as int),
        from <= r <= line@.len(),
{
    let n = line.len();
    let mut i: usize = from;
    while i < n
        invariant
            n == line@.len(),
            from <= i <= n,
            skip_spaces(line@, from as int) == skip_spaces(line@, i as int),
        decreases n - i,
    {
        if line[i] != SP {
            return i;
        }
        i = i + 1;
    }
    i
}

/// Split one header line into a `HeaderField`, or report that it has no colon.
fn split_field(line: &Vec<u8>) -> (r: Option<HeaderField>)
    ensures
        match r {
            Some(f) => line_has_colon(line@) && f.name@ == field_name(line@)
                && f.value@ == field_value(line@),
            None => !line_has_colon(line@),
        },
{
    let cpos = line_colon_pos(line);
    if cpos == line.len() {
        return None;
    }
    proof {
        lemma_colon_pos_bounds(line@, 0);
        lemma_skip_spaces_bounds(line@, cpos + 1);
    }
    let vstart = line_skip_spaces(line, cpos + 1);
    let name = copy_range(line, 0, cpos);
    let value = copy_range(line, vstart, line.len());
    Some(HeaderField { name, value })
}

/// Parse the header region (the bytes before the terminating blank line) into
/// its header fields, in order. The request line is skipped. Fails when a
/// header line contains no colon.
pub fn parse_header_fields(region: &Vec<u8>) -> (r: Result<Vec<HeaderField>, FrameError>)
    ensures
        match r {
            Ok(fields) => all_lines_have_colon(header_lines(region@))
                && fields_view(fields@) == fields_of(header_lines(region@)),
            Err(e) => e == FrameError::MalformedHeaders
                && !all_lines_have_colon(header_lines(region@)),
        },
{
    let n = region.len();
    let mut fields: Vec<HeaderField> = Vec::new();
    let mut pos: usize;
    match find_crlf(region, 0) {
        None => {
            proof {
                assert(lines_from(region@, 0) =~= seq![region@.subrange(0, n as int)]);
                assert(header_lines(region@) =~= Seq::<Seq<u8>>::empty());
                assert(fields_view(fields@) =~= fields_of(header_lines(region@)));
            }
            return Ok(fields);
        },
        Some(j) => {
            proof {
                lemma_find_crlf_bounds(region@, 0);
            }
            pos = j + 2;
        },
    }
    let ghost mut processed: Seq<Seq<u8>> = Seq::empty();
    proof {
        assert(header_lines(region@) =~= processed + lines_from(region@, pos as int));
    }
    loop
        invariant
            n == region@.len(),
            0 <= pos <= n,
            header_lines(region@) == processed + lines_from(region@, pos as int),
            fields_view(fields@) == fields_of(processed),
            forall|k: int| 0 <= k < processed.len() ==> line_has_colon(#[trigger] processed[k]),
        decreases n - pos + 1,
    {
        match find_crlf(region, pos) {
            Some(j) => {
                proof {
                    lemma_find_crlf_bounds(region@, pos as int);
                }
                let line = copy_range(region, pos, j);
                match split_field(&line) {
                    Some(f) => {
                        proof {
                            lemma_fields_view_push(fields@, f);
                            lemma_fields_of_push(processed, line@);
                        }
                        fields.push(f);
                        proof {
                            assert(lines_from(region@, pos as int)
                                == seq![line@] + lines_from(region@, j + 2));
                            processed = processed.push(line@);
                            assert(header_lines(region@)
                                =~= processed + lines_from(region@, j + 2));
                            assert(fields_view(fields@) == fields_of(processed));
                        }
                        pos = j + 2;
                    },
                    None => {
                        proof {
                            assert(lines_from(region@, pos as int)[0] == line@);
                            let bad = processed.len() as int;
                            assert(header_lines(region@)[bad] == line@);
                            assert(!all_lines_have_colon(header_lines(region@)));
                        }
                        return Err(FrameError::MalformedHeaders);
                    },
                }
            },
            None => {
                let line = copy_range(region, pos, n);
                match split_field(&line) {
                    Some(f) => {
                        proof {
                            lemma_fields_view_push(fields@, f);
                            lemma_fields_of_push(processed, line@);
                        }
                        fields.push(f);
                        proof {
                            assert(lines_from(region@, pos as int) =~= seq![line@]);
                            processed = processed.push(line@);
                            assert(header_lines(region@) =~= processed);
                            assert(fields_view(fields@) == fields_of(processed));
                        }
                        return Ok(fields);
                    },
                    None => {
                        proof {
                            assert(lines_from(region@, pos as int)[0] == line@);
                            let bad = processed.len() as int;
                            assert(header_lines(region@)[bad] == line@);
                            assert(!all_lines_have_colon(header_lines(region@)));
                        }
                        return Err(FrameError::MalformedHeaders);
                    },
                }
            },
        }
    }
}

/// The bytes of the header name `Content-Length`.
pub open spec fn content_length_name() -> Seq<u8> {
    seq![67u8, 111u8, 110u8, 116u8, 101u8, 110u8, 116u8, 45u8, 76u8, 101u8, 110u8, 103u8, 116u8, 104u8]
}

/// `b` is an ASCII decimal digit.
pub open spec fn is_digit(b: u8) -> bool {
    48 <= b <= 57
}

/// Every byte of `s` is an ASCII decimal digit.
pub open spec fn all_digits(s: Seq<u8>) -> bool {
    forall|k: int| 0 <= k < s.len() ==> is_digit(#[trigger] s[k])
}

/// The number that the decimal digits `s` denote.
pub open spec fn decimal_value(s: Seq<u8>) -> int
    decreases s.len(),
{
    if s.len() == 0 {
        0
    } else {
        decimal_value(s.drop_last()) * 10 + (s.last() - 48)
    }
}

/// A longer digit string never denotes a smaller number.
pub proof fn lemma_decimal_value_monotone(s: Seq<u8>, i: int)
    requires
        all_digits(s),
        0 <= i <= s.len(),
    ensures
        0 <= decimal_value(s.take(i)) <= decimal_value(s),
        i < s.len() ==> decimal_value(s.take(i + 1)) == decimal_value(s.take(i)) * 10 + (s[i] - 48),
    decreases s.len() - i,
{
    if i == s.len() {
        assert(s.take(i) =~= s);
        lemma_decimal_value_nonneg(s);
    } else {
        assert(s.take(i + 1).drop_last() =~= s.take(i));
        assert(s.take(i + 1).last() == s[i]);
        lemma_decimal_value_nonneg(s.take(i));
        lemma_decimal_value_monotone(s, i + 1);
    }
}

/// Decimal digit strings denote nonnegative numbers.
pub proof fn lemma_decimal_value_nonneg(s: Seq<u8>)
    requires
        all_digits(s),
    ensures
        decimal_value(s) >= 0,
    decreases s.len(),
{
    if s.len() > 0 {
        assert(all_digits(s.drop_last()));
        lemma_decimal_value_nonneg(s.drop_last());
    }
}

/// The value of the first field named `Content-Length`, if any.
pub open spec fn find_content_length(fields: Seq<(Seq<u8>, Seq<u8>)>) -> Option<Seq<u8>>
    decreases fields.len(),
{
    if fields.len() == 0 {
        None
    } else if fields[0].0 == content_length_name() {
        Some(fields[0].1)
    } else {
        find_content_length(fields.skip(1))
    }
}

/// `v` is a usable `Content-Length` value: nonempty decimal digits whose
/// number fits this machine's `usize`.
pub open spec fn valid_content_length(v: Seq<u8>) -> bool {
    &&& v.len() > 0
    &&& all_digits(v)
    &&& decimal_value(v) <= usize::MAX
}

/// Is this name `Content-Length`, byte for byte?
fn is_content_length_name(name: &Vec<u8>) -> (r: bool)
    ensures
        r == (name@ == content_length_name()),
{
    if name.len() != 14 {
        return false;
    }
    let r = name[0] == 67 && name[1] == 111 && name[2] == 110 && name[3] == 116 && name[4] == 101
        && name[5] == 110 && name[6] == 116 && name[7] == 45 && name[8] == 76 && name[9] == 101
        && name[10] == 110 && name[11] == 103 && name[12] == 116 && name[13] == 104;
    proof {
        if r {
            assert(name@ =~= content_length_name());
        } else {
            assert(name@ != content_length_name());
        }
    }
    r
}

/// Parse a `Content-Length` value: nonempty decimal digits, rejecting
/// anything else and any number that does not fit `usize`.
fn parse_content_length(value: &Vec<u8>) -> (r: Result<usize, FrameError>)
    ensures
        match r {
            Ok(n) => valid_content_length(value@) && n == decimal_value(value@),
            Err(e) => e == FrameError::InvalidContentLength && !valid_content_length(value@),
        },
{
    let len = value.len();
    if len == 0 {
        return Err(FrameError::InvalidContentLength);
    }
    let mut n: usize = 0;
    let mut i: usize = 0;
    while i < len
        invariant
            len == value@.len(),
            0 <= i <= len,
            all_digits(value@.take(i as int)),
            n == decimal_value(value@.take(i as int)),
        decreases len - i,
    {
        let b = value[i];
        if b < 48 || b > 57 {
            proof {
                assert(!is_digit(value@[i as int]));
            }
            return Err(FrameError::InvalidContentLength);
        }
        let d = (b - 48) as usize;
        let grown = match n.checked_mul(10) {
            Some(m) => m.checked_add(d),
            None => None,
        };
        match grown {
            Some(m) => {
                proof {
                    assert(value@.take(i + 1).drop_last() =~= value@.take(i as int));
                    assert(value@.take(i + 1).last() == value@[i as int]);
                    assert(all_digits(value@.take(i + 1)));
                }
                n = m;
                i = i + 1;
            },
            None => {
                // The digits seen so far already exceed usize; the whole
                // value can only be larger.
                proof {
                    assert(value@.take(i + 1).drop_last() =~= value@.take(i as int));
                    assert(value@.take(i + 1).last() == value@[i as int]);
                    if valid_content_length(value@) {
                        lemma_decimal_value_monotone(value@, i + 1);
                        assert(decimal_value(value@.take(i + 1)) <= decimal_value(value@));
                        assert(decimal_value(value@.take(i + 1)) == n * 10 + (value@[i as int] - 48));
                        assert(false);
                    }
                }
                return Err(FrameError::InvalidContentLength);
            },
        }
    }
    proof {
        assert(value@.take(len as int) =~= value@);
    }
    Ok(n)
}

/// Extract the declared body length from a request's header fields: the value
/// of the first field named `Content-Length`, which must be nonempty decimal
/// digits. Reports a missing field and an unusable value as distinct errors.
pub fn get_content_length_from_headers(headers: &Vec<HeaderField>) -> (r: Result<usize, FrameError>)
    ensures
        match r {
            Ok(n) => ({
                &&& find_content_length(fields_view(headers@)) matches Some(v)
                    && valid_content_length(v) && n == decimal_value(v)
            }),
            Err(FrameError::MissingContentLength) =>
                find_content_length(fields_view(headers@)) is None,
            Err(FrameError::InvalidContentLength) => ({
                &&& find_content_length(fields_view(headers@)) matches Some(v)
                    && !valid_content_length(v)
            }),
            Err(FrameError::MalformedHeaders) => false,
        },
{
    let len = headers.len();
    let mut i: usize = 0;
    proof {
        assert(fields_view(headers@).skip(0) =~= fields_view(headers@));
    }
    while i < len
        invariant
            len == headers@.len(),
            0 <= i <= len,
            find_content_length(fields_view(headers@))
                == find_content_length(fields_view(headers@).skip(i as int)),
            forall|k: int| 0 <= k < i ==> #[trigger] headers@[k].name@ != content_length_name(),
        decreases len - i,
    {
        proof {
            assert(fields_view(headers@).skip(i as int)[0] == (headers@[i as int].name@, headers@[i as int].value@));
        }
        let f = &headers[i];
        if is_content_length_name(&f.name) {
            proof {
                assert(find_content_length(fields_view(headers@).skip(i as int))
                    == Some(headers@[i as int].value@));
            }
            return parse_content_length(&f.value);
        }
        proof {
            assert(fields_view(headers@).skip(i as int).skip(1)
                =~= fields_view(headers@).skip(i + 1));
        }
        i = i + 1;
    }
    proof {
        assert(fields_view(headers@).skip(len as int).len() == 0);
    }
    Err(FrameError::MissingContentLength)
}

/// Find the header-block terminator in the whole buffer.
fn find_blank(buf: &Vec<u8>) -> (r: Option<usize>)
    ensures
        match r {
            Some(i) => find_blank_from(buf@, 0) == Some(i as int),
            None => find_blank_from(buf@, 0) is None,
        },
{
    let n = buf.len();
    if n < 4 {
        proof {
            lemma_find_blank_bounds(buf@, 0);
        }
        return None;
    }
    let mut i: usize = 0;
    while i <= n - 4
        invariant
            4 <= n == buf@.len(),
            0 <= i <= n,
            find_blank_from(buf@, 0) == find_blank_from(buf@, i as int),
        decreases n - i,
    {
        if buf[i] == CR && buf[i + 1] == LF && buf[i + 2] == CR && buf[i + 3] == LF {
            proof {
                assert(is_blank_at(buf@, i as int));
            }
            return Some(i);
        }
        proof {
            assert(!is_blank_at(buf@, i as int));
            assert(find_blank_from(buf@, i as int) == find_blank_from(buf@, i + 1));
        }
        i = i + 1;
    }
    proof {
        assert(find_blank_from(buf@, i as int) is None);
    }
    None
}

/// The outcome of framing on the bytes `s` read so far: how far parsing has
/// progressed, or why the request is rejected.
pub open spec fn spec_frame(s: Seq<u8>) -> Result<FrameStatus, FrameError> {
    match find_blank_from(s, 0) {
        None => Ok(FrameStatus::AwaitHeaders),
        Some(h) => {
            let lines = header_lines(s.subrange(0, h));
            if !all_lines_have_colon(lines) {
                Err(FrameError::MalformedHeaders)
            } else {
                match find_content_length(fields_of(lines)) {
                    None => Err(FrameError::MissingContentLength),
                    Some(v) => {
                        if !valid_content_length(v) {
                            Err(FrameError::InvalidContentLength)
                        } else if s.len() >= h + 4 + decimal_value(v) {
                            Ok(FrameStatus::BodyComplete {
                                header_len: (h + 4) as usize,
                                content_length: decimal_value(v) as usize,
                            })
                        } else {
                            Ok(FrameStatus::HeadersComplete {
                                header_len: (h + 4) as usize,
                                content_length: decimal_value(v) as usize,
                            })
                        }
                    },
                }
            }
        },
    }
}

/// The payload of a completely framed request: the `content_length` bytes
/// that follow the header block. Empty unless framing is complete.
pub open spec fn spec_payload(s: Seq<u8>) -> Seq<u8> {
    match spec_frame(s) {
        Ok(FrameStatus::BodyComplete { header_len, content_length }) =>
            s.subrange(header_len as int, header_len + content_length),
        _ => Seq::empty(),
    }
}

/// A completely framed request has a payload of exactly the declared
/// `Content-Length` bytes, sitting entirely inside the buffer.
pub proof fn lemma_payload_length(s: Seq<u8>)
    requires
        s.len() <= usize::MAX,
    ensures
        match spec_frame(s) {
            Ok(FrameStatus::BodyComplete { header_len, content_length }) => {
                &&& 4 <= header_len
                &&& header_len + content_length <= s.len()
                &&& spec_payload(s) == s.subrange(header_len as int, header_len + content_length)
                &&& spec_payload(s).len() == content_length
                &&& match find_blank_from(s, 0) {
                    Some(h) => header_len == h + 4 && match find_content_length(
                        fields_of(header_lines(s.subrange(0, h))),
                    ) {
                        Some(v) => content_length == decimal_value(v),
                        None => false,
                    },
                    None => false,
                }
            },
            _ => true,
        },
{
    match find_blank_from(s, 0) {
        None => {},
        Some(h) => {
            lemma_find_blank_bounds(s, 0);
            let lines = header_lines(s.subrange(0, h));
            if all_lines_have_colon(lines) {
                match find_content_length(fields_of(lines)) {
                    None => {},
                    Some(v) => {
                        if valid_content_length(v) {
                            lemma_decimal_value_nonneg(v);
                        }
                    },
                }
            }
        },
    }
}

/// Once the header terminator is present, extending the buffer never moves it.
pub proof fn lemma_find_blank_prefix_stable(s: Seq<u8>, t: Seq<u8>)
    requires
        s.len() <= t.len(),
        t.subrange(0, s.len() as int) == s,
        find_blank_from(s, 0) is Some,
    ensures
        find_blank_from(t, 0) == find_blank_from(s, 0),
{
    let h = find_blank_from(s, 0)->Some_0;
    lemma_find_blank_bounds(s, 0);
    assert(forall|k: int| 0 <= k < s.len() ==> t[k] == s[k]) by {
        assert(forall|k: int| 0 <= k < s.len() ==> t.subrange(0, s.len() as int)[k] == t[k]);
    }
    assert(is_blank_at(t, h));
    assert(forall|k: int| 0 <= k < h ==> !is_blank_at(t, k)) by {
        assert forall|k: int| 0 <= k < h implies !is_blank_at(t, k) by {
            assert(k + 4 <= s.len());
            assert(!is_blank_at(s, k));
        }
    }
    lemma_find_blank_bounds(t, 0);
    match find_blank_from(t, 0) {
        None => {
            assert(false);
        },
        Some(j) => {
            if j < h {
                assert(!is_blank_at(t, j));
                assert(false);
            }
            if j > h {
                assert(!is_blank_at(t, h));
                assert(false);
            }
        },
    }
}

/// A fatal parse or a complete frame is stable: reading further bytes (which
/// belong to a later, unsupported pipelined request) changes neither the
/// outcome nor the payload. This is what makes framing independent of how the
/// request was split across socket reads.
pub proof fn lemma_frame_prefix_stable(s: Seq<u8>, t: Seq<u8>)
    requires
        s.len() <= usize::MAX,
        s.len() <= t.len(),
        t.subrange(0, s.len() as int) == s,
        (spec_frame(s) matches Ok(FrameStatus::BodyComplete { .. })) || spec_frame(s) is Err,
    ensures
        spec_frame(t) == spec_frame(s),
        spec_payload(t) == spec_payload(s),
{
    assert(find_blank_from(s, 0) is Some);
    let h = find_blank_from(s, 0)->Some_0;
    lemma_find_blank_bounds(s, 0);
    lemma_find_blank_prefix_stable(s, t);
    assert(forall|k: int| 0 <= k < s.len() ==> t[k] == s[k]) by {
        assert(forall|k: int| 0 <= k < s.len() ==> t.subrange(0, s.len() as int)[k] == t[k]);
    }
    assert(t.subrange(0, h) =~= s.subrange(0, h));
    let lines = header_lines(s.subrange(0, h));
    if all_lines_have_colon(lines) {
        match find_content_length(fields_of(lines)) {
            None => {},
            Some(v) => {
                if valid_content_length(v) {
                    lemma_decimal_value_nonneg(v);
                    let cl = decimal_value(v);
                    assert(s.len() >= h + 4 + cl);
                    assert(t.len() >= h + 4 + cl);
                    assert(spec_payload(t) =~= spec_payload(s));
                }
            },
        }
    }
}

/// Run the frame decision on everything read so far.
pub fn try_frame(buf: &Vec<u8>) -> (r: Result<FrameStatus, FrameError>)
    ensures
        r == spec_frame(buf@),
{
    let h = match find_blank(buf) {
        None => {
            return Ok(FrameStatus::AwaitHeaders);
        },
        Some(h) => h,
    };
    proof {
        lemma_find_blank_bounds(buf@, 0);
    }
    let region = copy_range(buf, 0, h);
    let fields = match parse_header_fields(&region) {
        Err(e) => {
            return Err(e);
        },
        Ok(f) => f,
    };
    let content_length = match get_content_length_from_headers(&fields) {
        Err(e) => {
            return Err(e);
        },
        Ok(n) => n,
    };
    let blen = buf.len();
    proof {
        assert(h + 4 <= blen);
        lemma_decimal_value_nonneg(find_content_length(fields_of(header_lines(buf@.subrange(0, h as int))))->Some_0);
    }
    let header_len = h + 4;
    if blen - header_len >= content_length {
        Ok(FrameStatus::BodyComplete { header_len, content_length })
    } else {
        Ok(FrameStatus::HeadersComplete { header_len, content_length })
    }
}

/// What one more read made of the request: still incomplete, or done with its
/// payload extracted.
pub enum FrameProgress {
    /// Keep reading: the request is not complete yet.
    NeedMore,
    /// The request is complete; this is its payload, exactly the declared
    /// `Content-Length` bytes.
    Done(Vec<u8>),
}

/// Reassembles one request from successive socket reads. Stateless across
/// connections: each connection gets a fresh framer.
pub struct RequestFramer {
    buf: Vec<u8>,
}

impl RequestFramer {
    /// All bytes fed so far.
    pub closed spec fn bytes(self) -> Seq<u8> {
        self.buf@
    }

    /// A framer that has seen nothing.
    pub fn new() -> (f: Self)
        ensures
            f.bytes() == Seq::<u8>::empty(),
    {
        RequestFramer { buf: Vec::new() }
    }

    /// Feed the bytes of one socket read and re-run the frame decision on
    /// everything received so far. The outcome is a function of the
    /// accumulated bytes alone, never of how they were split across reads.
    pub fn feed(&mut self, chunk: Vec<u8>) -> (r: Result<FrameProgress, FrameError>)
        ensures
            final(self).bytes() == old(self).bytes() + chunk@,
            match r {
                Ok(FrameProgress::Done(p)) => {
                    &&& spec_frame(final(self).bytes()) matches Ok(FrameStatus::BodyComplete { .. })
                    &&& p@ == spec_payload(final(self).bytes())
                },
                Ok(FrameProgress::NeedMore) => {
                    ||| spec_frame(final(self).bytes()) matches Ok(FrameStatus::AwaitHeaders)
                    ||| spec_frame(final(self).bytes()) matches Ok(FrameStatus::HeadersComplete { .. })
                },
                Err(e) => spec_frame(final(self).bytes()) == Err::<FrameStatus, FrameError>(e),
            },
    {
        let mut c = chunk;
        self.buf.append(&mut c);
        match try_frame(&self.buf) {
            Err(e) => Err(e),
            Ok(FrameStatus::AwaitHeaders) => Ok(FrameProgress::NeedMore),
            Ok(FrameStatus::HeadersComplete { .. }) => Ok(FrameProgress::NeedMore),
            Ok(FrameStatus::BodyComplete { header_len, content_length }) => {
                let blen = self.buf.len();
                proof {
                    assert(self.buf@.len() <= usize::MAX);
                    lemma_payload_length(self.buf@);
                }
                let payload = copy_range(&self.buf, header_len, header_len + content_length);
                Ok(FrameProgress::Done(payload))
            },
        }
    }
}

/// The concatenation of a sequence of byte chunks.
pub open spec fn concat_chunks(chunks: Seq<Seq<u8>>) -> Seq<u8>
    decreases chunks.len(),
{
    if chunks.len() == 0 {
        Seq::empty()
    } else {
        concat_chunks(chunks.drop_last()) + chunks.last()
    }
}

/// Any prefix of the chunk sequence concatenates to a prefix of the whole.
pub proof fn lemma_concat_chunks_prefix(chunks: Seq<Seq<u8>>, i: int)
    requires
        0 <= i <= chunks.len(),
    ensures
        concat_chunks(chunks.take(i)).len() <= concat_chunks(chunks).len(),
        concat_chunks(chunks).subrange(0, concat_chunks(chunks.take(i)).len() as int)
            == concat_chunks(chunks.take(i)),
    decreases chunks.len() - i,
{
    if i == chunks.len() {
        assert(chunks.take(i) =~= chunks);
        assert(concat_chunks(chunks).subrange(0, concat_chunks(chunks).len() as int)
            =~= concat_chunks(chunks));
    } else {
        lemma_concat_chunks_prefix(chunks, i + 1);
        assert(chunks.take(i + 1).drop_last() =~= chunks.take(i));
        assert(chunks.take(i + 1).last() == chunks[i]);
        let a = concat_chunks(chunks.take(i));
        let b = concat_chunks(chunks.take(i + 1));
        assert(b == a + chunks[i]);
        assert(b.subrange(0, a.len() as int) =~= a);
        let whole = concat_chunks(chunks);
        assert(whole.subrange(0, a.len() as int)
            =~= whole.subrange(0, b.len() as int).subrange(0, a.len() as int));
    }
}

/// Frame one request from a recorded sequence of socket reads, exactly as
/// feeding them one by one would. The result depends only on the
/// concatenation of the reads: splitting one request across 1, 2 or 50 reads
/// yields the same payload or the same error.
pub fn assemble_request(reads: &Vec<Vec<u8>>) -> (r: Result<Option<Vec<u8>>, FrameError>)
    ensures
        ({
            let all = concat_chunks(reads@.map_values(|v: Vec<u8>| v@));
            match spec_frame(all) {
                Ok(FrameStatus::BodyComplete { .. }) => r matches Ok(p) && p matches Some(p)
                    && p@ == spec_payload(all),
                Ok(_) => r == Ok::<Option<Vec<u8>>, FrameError>(None),
                Err(e) => r == Err::<Option<Vec<u8>>, FrameError>(e),
            }
        }),
{
    let ghost views = reads@.map_values(|v: Vec<u8>| v@);
    let mut framer = RequestFramer::new();
    let n = reads.len();
    let mut i: usize = 0;
    proof {
        assert(framer.bytes() =~= concat_chunks(views.take(0)));
    }
    while i < n
        invariant
            n == reads@.len(),
            0 <= i <= n,
            views == reads@.map_values(|v: Vec<u8>| v@),
            framer.bytes() == concat_chunks(views.take(i as int)),
            !((spec_frame(framer.bytes()) matches Ok(FrameStatus::BodyComplete { .. }))
                || spec_frame(framer.bytes()) is Err),
        decreases n - i,
    {
        let rd = &reads[i];
        let chunk = copy_range(rd, 0, rd.len());
        proof {
            assert(rd@.subrange(0, rd@.len() as int) =~= rd@);
        }
        let progress = framer.feed(chunk);
        proof {
            assert(views.take(i + 1).drop_last() =~= views.take(i as int));
            assert(views.take(i + 1).last() == views[i as int]);
            assert(framer.bytes() == concat_chunks(views.take(i + 1)));
        }
        match progress {
            Ok(FrameProgress::NeedMore) => {
                i = i + 1;
            },
            Ok(FrameProgress::Done(p)) => {
                proof {
                    vstd::std_specs::vec::axiom_spec_len(&framer.buf);
                    lemma_concat_chunks_prefix(views, i + 1);
                    lemma_frame_prefix_stable(framer.bytes(), concat_chunks(views));
                }
                return Ok(Some(p));
            },
            Err(e) => {
                proof {
                    vstd::std_specs::vec::axiom_spec_len(&framer.buf);
                    lemma_concat_chunks_prefix(views, i + 1);
                    lemma_frame_prefix_stable(framer.bytes(), concat_chunks(views));
                }
                return Err(e);
            },
        }
    }
    proof {
        assert(views.take(n as int) =~= views);
    }
    Ok(None)
}

} // verus!
