use vstd::prelude::*;
use crate::ascii::{
    bytes_unit, bytes_unit_bytes, closing, closing_bytes, content_length, content_length_bytes,
    content_range, content_range_bytes, content_type, content_type_bytes, crlf, crlf_bytes, dash_line,
    dash_line_bytes, multipart_type, multipart_type_bytes, part_range_head, part_range_head_bytes,
    part_type_line, part_type_line_bytes, unsatisfied_prefix, unsatisfied_prefix_bytes, video_mp4,
    video_mp4_bytes,
};

verus! {

/// The ASCII digits of `n` in base ten, most significant first.
pub open spec fn decimal(n: nat) -> Seq<u8>
    decreases n,
{
    if n < 10 {
        seq![(48 + n) as u8]
    } else {
        decimal(n / 10).push((48 + n % 10) as u8)
    }
}

/// Appends the decimal digits of `n` to `out`.
pub fn push_decimal(out: &mut Vec<u8>, n: u64)
    ensures
        final(out)@ == old(out)@ + decimal(n as nat),
    decreases n,
{
    if n >= 10 {
        push_decimal(out, n / 10);
    }
    out.push(48 + (n % 10) as u8);
    proof {
        assert(final(out)@ =~= old(out)@ + decimal(n as nat));
    }
}

/// Appends `src` to `out`.
pub fn push_bytes(out: &mut Vec<u8>, src: &[u8])
    ensures
        final(out)@ == old(out)@ + src@,
{
    let mut i: usize = 0;
    while i < src.len()
        invariant
            i <= src@.len(),
            out@ == old(out)@ + src@.subrange(0, i as int),
        decreases src@.len() - i,
    {
        out.push(src[i]);
        i += 1;
        proof {
            assert(out@ =~= old(out)@ + src@.subrange(0, i as int));
        }
    }
    proof {
        assert(src@.subrange(0, src@.len() as int) =~= src@);
    }
}

/// An HTTP-shaped answer: status, header lines in order, and body.
#[derive(Clone, Debug)]
pub struct ContentResponse {
    pub status: u16,
    pub headers: Vec<(Vec<u8>, Vec<u8>)>,
    pub body: Vec<u8>,
}

impl ContentResponse {
    /// The header lines as name and value bytes.
    pub open spec fn header_view(&self) -> Seq<(Seq<u8>, Seq<u8>)> {
        self.headers@.map_values(|h: (Vec<u8>, Vec<u8>)| (h.0@, h.1@))
    }
}

/// `bytes {start}-{end}/{len}`.
pub open spec fn range_value(start: u64, end: u64, len: u64) -> Seq<u8> {
    bytes_unit() + decimal(start as nat) + seq![45u8] + decimal(end as nat) + seq![47u8] + decimal(
        len as nat,
    )
}

/// Appends `{start}-{end}/{len}` to `out`.
fn push_span(out: &mut Vec<u8>, start: u64, end: u64, len: u64)
    ensures
        final(out)@ == old(out)@ + decimal(start as nat) + seq![45u8] + decimal(end as nat) + seq![
            47u8,
        ] + decimal(len as nat),
{
    push_decimal(out, start);
    out.push(45);
    push_decimal(out, end);
    out.push(47);
    push_decimal(out, len);
    proof {
        assert(final(out)@ =~= old(out)@ + decimal(start as nat) + seq![45u8] + decimal(end as nat)
            + seq![47u8] + decimal(len as nat));
    }
}

fn range_value_bytes(start: u64, end: u64, len: u64) -> (r: Vec<u8>)
    ensures
        r@ == range_value(start, end, len),
{
    let mut r = bytes_unit_bytes();
    push_span(&mut r, start, end, len);
    proof {
        assert(r@ =~= range_value(start, end, len));
    }
    r
}

fn decimal_bytes(n: u64) -> (r: Vec<u8>)
    ensures
        r@ == decimal(n as nat),
{
    let mut r: Vec<u8> = Vec::new();
    push_decimal(&mut r, n);
    proof {
        assert(r@ =~= decimal(n as nat));
    }
    r
}

/// The whole file: status 200 with its type and length.
pub fn full_response(body: Vec<u8>) -> (r: ContentResponse)
    ensures
        r.status == 200,
        r.header_view() == seq![
            (content_type(), video_mp4()),
            (content_length(), decimal(body@.len())),
        ],
        r.body@ == body@,
{
    let mut headers: Vec<(Vec<u8>, Vec<u8>)> = Vec::new();
    headers.push((content_type_bytes(), video_mp4_bytes()));
    headers.push((content_length_bytes(), decimal_bytes(body.len() as u64)));
    let r = ContentResponse { status: 200, headers, body };
    proof {
        assert(r.header_view() =~= seq![
            (content_type(), video_mp4()),
            (content_length(), decimal(r.body@.len())),
        ]);
    }
    r
}

/// Bytes `start..=end` of a file of `len` bytes: status 206 with the range
/// and its length.
pub fn partial_response(start: u64, end: u64, len: u64, body: Vec<u8>) -> (r: ContentResponse)
    requires
        start <= end < len,
    ensures
        r.status == 206,
        r.header_view() == seq![
            (content_type(), video_mp4()),
            (content_range(), range_value(start, end, len)),
            (content_length(), decimal((end - start + 1) as nat)),
        ],
        r.body@ == body@,
{
    let mut headers: Vec<(Vec<u8>, Vec<u8>)> = Vec::new();
    headers.push((content_type_bytes(), video_mp4_bytes()));
    headers.push((content_range_bytes(), range_value_bytes(start, end, len)));
    headers.push((content_length_bytes(), decimal_bytes(end - start + 1)));
    let r = ContentResponse { status: 206, headers, body };
    proof {
        assert(r.header_view() =~= seq![
            (content_type(), video_mp4()),
            (content_range(), range_value(start, end, len)),
            (content_length(), decimal((end - start + 1) as nat)),
        ]);
    }
    r
}

/// No asked-for range lies in the file: status 416 naming its length.
pub fn not_satisfiable_response(len: u64) -> (r: ContentResponse)
    ensures
        r.status == 416,
        r.header_view() == seq![(content_range(), unsatisfied_prefix() + decimal(len as nat))],
        r.body@.len() == 0,
{
    let mut value = unsatisfied_prefix_bytes();
    push_decimal(&mut value, len);
    let mut headers: Vec<(Vec<u8>, Vec<u8>)> = Vec::new();
    headers.push((content_range_bytes(), value));
    let r = ContentResponse { status: 416, headers, body: Vec::new() };
    proof {
        assert(r.header_view() =~= seq![
            (content_range(), unsatisfied_prefix() + decimal(len as nat)),
        ]);
    }
    r
}

/// The path names no served file: status 404, nothing else.
pub fn not_found_response() -> (r: ContentResponse)
    ensures
        r.status == 404,
        r.header_view().len() == 0,
        r.body@.len() == 0,
{
    let r = ContentResponse { status: 404, headers: Vec::new(), body: Vec::new() };
    proof {
        assert(r.header_view() =~= Seq::<(Seq<u8>, Seq<u8>)>::empty());
    }
    r
}

/// One part of a multipart body: boundary, media type, range, blank line,
/// then the bytes of the range.
pub open spec fn part(boundary: Seq<u8>, range: (u64, u64), len: u64, chunk: Seq<u8>) -> Seq<u8> {
    dash_line() + boundary + crlf() + part_type_line() + part_range_head() + decimal(range.0 as nat)
        + seq![45u8] + decimal(range.1 as nat) + seq![47u8] + decimal(len as nat) + crlf() + crlf()
        + chunk
}

/// The first `n` parts, in order.
pub open spec fn parts(
    boundary: Seq<u8>,
    ranges: Seq<(u64, u64)>,
    len: u64,
    chunks: Seq<Seq<u8>>,
    n: nat,
) -> Seq<u8>
    decreases n,
{
    if n == 0 {
        Seq::empty()
    } else {
        parts(boundary, ranges, len, chunks, (n - 1) as nat) + part(
            boundary,
            ranges[n - 1],
            len,
            chunks[n - 1],
        )
    }
}

/// Every part, then the closing boundary.
pub open spec fn multipart_body(
    boundary: Seq<u8>,
    ranges: Seq<(u64, u64)>,
    len: u64,
    chunks: Seq<Seq<u8>>,
) -> Seq<u8> {
    parts(boundary, ranges, len, chunks, ranges.len()) + dash_line() + boundary + closing()
}

pub open spec fn chunk_view(chunks: Seq<Vec<u8>>) -> Seq<Seq<u8>> {
    chunks.map_values(|c: Vec<u8>| c@)
}

/// Several ranges of a file of `len` bytes, `chunks[i]` holding the bytes of
/// `ranges[i]`: status 206 and one multipart body framed by `boundary`.
pub fn multipart_response(
    boundary: &[u8],
    ranges: &Vec<(u64, u64)>,
    len: u64,
    chunks: &Vec<Vec<u8>>,
) -> (r: ContentResponse)
    requires
        chunks@.len() == ranges@.len(),
    ensures
        r.status == 206,
        r.header_view() == seq![(content_type(), multipart_type() + boundary@)],
        r.body@ == multipart_body(boundary@, ranges@, len, chunk_view(chunks@)),
{
    let ghost cv = chunk_view(chunks@);
    let mut body: Vec<u8> = Vec::new();
    let mut i: usize = 0;
    while i < ranges.len()
        invariant
            i <= ranges@.len(),
            chunks@.len() == ranges@.len(),
            cv == chunk_view(chunks@),
            body@ == parts(boundary@, ranges@, len, cv, i as nat),
        decreases ranges@.len() - i,
    {
        let ghost before = body@;
        push_bytes(&mut body, dash_line_bytes().as_slice());
        push_bytes(&mut body, boundary);
        push_bytes(&mut body, crlf_bytes().as_slice());
        push_bytes(&mut body, part_type_line_bytes().as_slice());
        push_bytes(&mut body, part_range_head_bytes().as_slice());
        let (start, end) = ranges[i];
        push_span(&mut body, start, end, len);
        push_bytes(&mut body, crlf_bytes().as_slice());
        push_bytes(&mut body, crlf_bytes().as_slice());
        push_bytes(&mut body, chunks[i].as_slice());
        proof {
            assert(body@ =~= before + part(boundary@, ranges@[i as int], len, cv[i as int]));
        }
        i += 1;
    }
    push_bytes(&mut body, dash_line_bytes().as_slice());
    push_bytes(&mut body, boundary);
    push_bytes(&mut body, closing_bytes().as_slice());
    let mut value = multipart_type_bytes();
    push_bytes(&mut value, boundary);
    let mut headers: Vec<(Vec<u8>, Vec<u8>)> = Vec::new();
    headers.push((content_type_bytes(), value));
    let r = ContentResponse { status: 206, headers, body };
    proof {
        assert(r.header_view() =~= seq![(content_type(), multipart_type() + boundary@)]);
        assert(r.body@ =~= multipart_body(boundary@, ranges@, len, cv));
    }
    r
}

/// Bytes of randomness behind a multipart boundary.
pub const BOUNDARY_BYTES: usize = 30;

/// Failures of building a response.
#[derive(Clone, Copy, Debug, PartialEq, Eq, Structural)]
pub enum ServeError {
    /// No randomness could be had for a multipart boundary.
    BoundaryGenerationFailure,
}

/// The lowercase hex digit of `d < 16`.
pub open spec fn hex_digit(d: u8) -> u8 {
    if d < 10 { (48 + d) as u8 } else { (87 + d) as u8 }
}

/// `b` in lowercase hex, without a leading zero.
pub open spec fn byte_hex(b: u8) -> Seq<u8> {
    if b < 16 {
        seq![hex_digit(b)]
    } else {
        seq![hex_digit(b / 16), hex_digit(b % 16)]
    }
}

/// The hex forms of `bytes`, one after another.
pub open spec fn hex_run(bytes: Seq<u8>) -> Seq<u8>
    decreases bytes.len(),
{
    if bytes.len() == 0 {
        Seq::empty()
    } else {
        hex_run(bytes.drop_last()) + byte_hex(bytes.last())
    }
}

fn hex_digit_exec(d: u8) -> (r: u8)
    requires
        d < 16,
    ensures
        r == hex_digit(d),
{
    if d < 10 {
        48 + d
    } else {
        87 + d
    }
}

/// A multipart boundary made of `bytes`: each byte in lowercase hex, without
/// a leading zero.
pub fn boundary_from_bytes(bytes: &[u8]) -> (r: Vec<u8>)
    ensures
        r@ == hex_run(bytes@),
{
    let mut r: Vec<u8> = Vec::new();
    let mut i: usize = 0;
    while i < bytes.len()
        invariant
            i <= bytes@.len(),
            r@ == hex_run(bytes@.subrange(0, i as int)),
        decreases bytes@.len() - i,
    {
        let b = bytes[i];
        proof {
            assert(bytes@.subrange(0, i + 1).drop_last() =~= bytes@.subrange(0, i as int));
        }
        if b >= 16 {
            r.push(hex_digit_exec(b / 16));
        }
        r.push(hex_digit_exec(b % 16));
        proof {
            assert(r@ =~= hex_run(bytes@.subrange(0, i + 1)));
        }
        i += 1;
    }
    proof {
        assert(bytes@.subrange(0, bytes@.len() as int) =~= bytes@);
    }
    r
}

#[verifier::external_type_specification]
#[verifier::external_body]
pub struct ExRandomError(getrandom::Error);

/// Relies on `getrandom::fill`: it writes random bytes into `dest` and leaves
/// its length as it is.
#[verifier::external_body]
fn fill_random(dest: &mut Vec<u8>) -> (r: Result<(), getrandom::Error>)
    ensures
        final(dest)@.len() == old(dest)@.len(),
{
    getrandom::fill(dest.as_mut_slice())
}

/// A fresh multipart boundary: the hex form of `BOUNDARY_BYTES` random bytes.
pub fn random_boundary() -> (r: Result<Vec<u8>, ServeError>)
    ensures
        r matches Ok(b) ==> exists|s: Seq<u8>| s.len() == BOUNDARY_BYTES && b@ == hex_run(s),
        r matches Err(e) ==> e == ServeError::BoundaryGenerationFailure,
{
    let mut bytes: Vec<u8> = vec![0u8; BOUNDARY_BYTES];
    match fill_random(&mut bytes) {
        Ok(()) => {
            let b = boundary_from_bytes(bytes.as_slice());
            Ok(b)
        },
        Err(_) => Err(ServeError::BoundaryGenerationFailure),
    }
}

} // verus!
