use vstd::prelude::*;
use vstd::string::StringSliceAdditionalSpecFns;

verus! {

/// The most bytes served for one range; a longer request is cut short.
pub const MAX_CHUNK: u64 = 1024000;

/// How a request for a file of known length is answered.
#[derive(Clone, Debug, PartialEq, Eq)]
pub enum RangePlan {
    /// No range asked for: the whole file.
    Full,
    /// One range, `start..=end`.
    Single { start: u64, end: u64 },
    /// Several ranges, each `start..=end`, sent as one multipart body.
    Multi { ranges: Vec<(u64, u64)> },
    /// Nothing asked for can be served.
    NotSatisfiable,
}

/// A span `(start, length)` covers at least one byte, all inside the file.
pub open spec fn span_valid(span: (u64, u64), len: u64) -> bool {
    span.1 >= 1 && span.0 + span.1 <= len
}

/// The inclusive range served for a valid span: its first `MAX_CHUNK` bytes.
pub open spec fn served(span: (u64, u64)) -> (u64, u64) {
    let last = if span.1 <= MAX_CHUNK { span.1 - 1 } else { MAX_CHUNK - 1 };
    (span.0, (span.0 + last) as u64)
}

/// The served ranges of the valid spans, in order; invalid spans are dropped.
pub open spec fn valid_ranges(spans: Seq<(u64, u64)>, len: u64) -> Seq<(u64, u64)>
    decreases spans.len(),
{
    if spans.len() == 0 {
        Seq::empty()
    } else {
        let rest = valid_ranges(spans.drop_last(), len);
        if span_valid(spans.last(), len) {
            rest.push(served(spans.last()))
        } else {
            rest
        }
    }
}

/// Every served range lies inside the file, starts no later than it ends,
/// and spans at most `MAX_CHUNK` bytes.
pub proof fn lemma_valid_ranges_in_file(spans: Seq<(u64, u64)>, len: u64)
    ensures
        forall|i: int|
            0 <= i < valid_ranges(spans, len).len() ==> {
                let r = #[trigger] valid_ranges(spans, len)[i];
                r.0 <= r.1 < len && r.1 - r.0 < MAX_CHUNK
            },
    decreases spans.len(),
{
    if spans.len() > 0 {
        lemma_valid_ranges_in_file(spans.drop_last(), len);
        let rest = valid_ranges(spans.drop_last(), len);
        let all = valid_ranges(spans, len);
        assert forall|i: int| 0 <= i < all.len() implies {
            let r = #[trigger] all[i];
            r.0 <= r.1 < len && r.1 - r.0 < MAX_CHUNK
        } by {
            if i < rest.len() {
                assert(all[i] == rest[i]);
            }
        }
    }
}

/// The answer to a request whose Range header gave `spans`, or could not be
/// parsed (`None`).
pub open spec fn plan_for(r: RangePlan, spans: Option<Seq<(u64, u64)>>, len: u64) -> bool {
    match spans {
        None => r == RangePlan::NotSatisfiable,
        Some(v) => {
            let vs = valid_ranges(v, len);
            if vs.len() == 0 {
                r == RangePlan::NotSatisfiable
            } else if v.len() == 1 {
                r == (RangePlan::Single { start: vs[0].0, end: vs[0].1 })
            } else {
                r matches RangePlan::Multi { ranges } && ranges@ == vs
            }
        },
    }
}

/// Decides how to answer a request from the `(start, length)` spans that its
/// Range header named, or from `None` when the header could not be parsed.
pub fn plan_ranges(spans: Option<Vec<(u64, u64)>>, len: u64) -> (r: RangePlan)
    ensures
        plan_for(
            r,
            match spans {
                Some(v) => Some(v@),
                None => None,
            },
            len,
        ),
{
    let v = match spans {
        None => {
            return RangePlan::NotSatisfiable;
        },
        Some(v) => v,
    };
    let mut out: Vec<(u64, u64)> = Vec::new();
    let mut i: usize = 0;
    while i < v.len()
        invariant
            i <= v@.len(),
            out@ == valid_ranges(v@.subrange(0, i as int), len),
        decreases v@.len() - i,
    {
        let (start, length) = v[i];
        proof {
            assert(v@.subrange(0, i + 1).drop_last() =~= v@.subrange(0, i as int));
        }
        if length >= 1 && start <= len && length <= len - start {
            let last: u64 = if length <= MAX_CHUNK { length - 1 } else { MAX_CHUNK - 1 };
            out.push((start, start + last));
        }
        i += 1;
    }
    proof {
        assert(v@.subrange(0, v@.len() as int) =~= v@);
    }
    if out.len() == 0 {
        RangePlan::NotSatisfiable
    } else if v.len() == 1 {
        RangePlan::Single { start: out[0].0, end: out[0].1 }
    } else {
        RangePlan::Multi { ranges: out }
    }
}

/// The `(start, length)` spans that `http_range` reads from a Range header
/// against a file of `size` bytes, or `None` where it refuses the header.
pub uninterp spec fn parsed_spans(header: Seq<char>, size: u64) -> Option<Seq<(u64, u64)>>;

/// Relies on `http_range::HttpRange::parse`: its result depends on the header
/// and size alone, every span it returns ends within the file, and on a
/// non-empty file none is empty.
#[verifier::external_body]
fn parse_range_header(header: &str, size: u64) -> (r: Option<Vec<(u64, u64)>>)
    ensures
        match r {
            Some(v) => parsed_spans(header@, size) == Some(v@),
            None => parsed_spans(header@, size) is None,
        },
        r matches Some(v) ==> forall|i: int|
            0 <= i < v@.len() ==> #[trigger] v@[i].0 + v@[i].1 <= size && (size > 0 ==> v@[i].1 >= 1),
{
    match http_range::HttpRange::parse(header, size) {
        Ok(v) => Some(v.iter().map(|s| (s.start, s.length)).collect()),
        Err(_) => None,
    }
}

/// Decides how to answer a request for a file of `len` bytes that carried
/// the Range header `range_header`, if any.
pub fn plan_request(range_header: Option<&str>, len: u64) -> (r: RangePlan)
    ensures
        match range_header {
            None => r == RangePlan::Full,
            Some(h) => plan_for(r, parsed_spans(h@, len), len),
        },
{
    match range_header {
        None => RangePlan::Full,
        Some(h) => plan_ranges(parse_range_header(h, len), len),
    }
}

/// The bytes that `percent_encoding` decodes from `input`, read as UTF-8
/// with invalid sequences replaced.
pub uninterp spec fn percent_decoded(input: Seq<u8>) -> Seq<u8>;

/// Relies on `percent_encoding::percent_decode` and `decode_utf8_lossy`: the
/// result depends on the input bytes alone.
#[verifier::external_body]
fn decode_percent(input: &[u8]) -> (r: Vec<u8>)
    ensures
        r@ == percent_decoded(input@),
{
    percent_encoding::percent_decode(input).decode_utf8_lossy().into_owned().into_bytes()
}

/// A request path without its leading byte (the `/`).
pub open spec fn path_tail(path: Seq<u8>) -> Seq<u8> {
    if path.len() == 0 { path } else { path.subrange(1, path.len() as int) }
}

/// Whether a request path, once its leading `/` is dropped and it is
/// percent-decoded, names the served file `name`.
pub fn is_served_path(uri_path: &str, name: &[u8]) -> (r: bool)
    ensures
        r == (percent_decoded(path_tail(uri_path.spec_bytes())) == name@),
{
    let bytes = uri_path.as_bytes();
    let mut tail: Vec<u8> = Vec::new();
    let mut i: usize = 1;
    while i < bytes.len()
        invariant
            1 <= i,
            bytes@.len() == 0 || i <= bytes@.len(),
            bytes@.len() > 0 ==> tail@ == bytes@.subrange(1, i as int),
            bytes@.len() == 0 ==> tail@.len() == 0,
        decreases bytes@.len() - i,
    {
        tail.push(bytes[i]);
        i += 1;
        proof {
            assert(tail@ =~= bytes@.subrange(1, i as int));
        }
    }
    proof {
        if bytes@.len() == 0 {
            assert(tail@ =~= bytes@);
        }
    }
    let decoded = decode_percent(tail.as_slice());
    same_bytes(decoded.as_slice(), name)
}

/// Whether `a` and `b` hold the same bytes.
pub fn same_bytes(a: &[u8], b: &[u8]) -> (r: bool)
    ensures
        r == (a@ == b@),
{
    if a.len() != b.len() {
        return false;
    }
    let mut j: usize = 0;
    while j < b.len()
        invariant
            j <= b@.len(),
            a@.len() == b@.len(),
            a@.subrange(0, j as int) == b@.subrange(0, j as int),
        decreases b@.len() - j,
    {
        if a[j] != b[j] {
            proof {
                assert(a@[j as int] != b@[j as int]);
            }
            return false;
        }
        proof {
            assert(a@.subrange(0, j + 1) =~= a@.subrange(0, j as int).push(a@[j as int]));
            assert(b@.subrange(0, j + 1) =~= b@.subrange(0, j as int).push(b@[j as int]));
        }
        j += 1;
    }
    proof {
        assert(a@ =~= a@.subrange(0, j as int));
        assert(b@ =~= b@.subrange(0, j as int));
    }
    true
}

} // verus!
