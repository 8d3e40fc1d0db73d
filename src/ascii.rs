use vstd::prelude::*;

verus! {

/// The media type of the served file. ASCII `video/mp4`.
pub open spec fn video_mp4() -> Seq<u8> {
    seq![118, 105, 100, 101, 111, 47, 109, 112, 52]
}

pub(crate) fn video_mp4_bytes() -> (r: Vec<u8>)
    ensures
        r@ == video_mp4(),
{
    let r: Vec<u8> = vec![118, 105, 100, 101, 111, 47, 109, 112, 52];
    proof {
        assert(r@ =~= video_mp4());
    }
    r
}

/// The `Content-Type` header name. ASCII `content-type`.
pub open spec fn content_type() -> Seq<u8> {
    seq![99, 111, 110, 116, 101, 110, 116, 45, 116, 121, 112, 101]
}

pub(crate) fn content_type_bytes() -> (r: Vec<u8>)
    ensures
        r@ == content_type(),
{
    let r: Vec<u8> = vec![99, 111, 110, 116, 101, 110, 116, 45, 116, 121, 112, 101];
    proof {
        assert(r@ =~= content_type());
    }
    r
}

/// The `Content-Range` header name. ASCII `content-range`.
pub open spec fn content_range() -> Seq<u8> {
    seq![99, 111, 110, 116, 101, 110, 116, 45, 114, 97, 110, 103, 101]
}

pub(crate) fn content_range_bytes() -> (r: Vec<u8>)
    ensures
        r@ == content_range(),
{
    let r: Vec<u8> = vec![99, 111, 110, 116, 101, 110, 116, 45, 114, 97, 110, 103, 101];
    proof {
        assert(r@ =~= content_range());
    }
    r
}

/// The `Content-Length` header name. ASCII `content-length`.
pub open spec fn content_length() -> Seq<u8> {
    seq![99, 111, 110, 116, 101, 110, 116, 45, 108, 101, 110, 103, 116, 104]
}

pub(crate) fn content_length_bytes() -> (r: Vec<u8>)
    ensures
        r@ == content_length(),
{
    let r: Vec<u8> = vec![99, 111, 110, 116, 101, 110, 116, 45, 108, 101, 110, 103, 116, 104];
    proof {
        assert(r@ =~= content_length());
    }
    r
}

/// The unit that opens a `Content-Range` value. ASCII `bytes `.
pub open spec fn bytes_unit() -> Seq<u8> {
    seq![98, 121, 116, 101, 115, 32]
}

pub(crate) fn bytes_unit_bytes() -> (r: Vec<u8>)
    ensures
        r@ == bytes_unit(),
{
    let r: Vec<u8> = vec![98, 121, 116, 101, 115, 32];
    proof {
        assert(r@ =~= bytes_unit());
    }
    r
}

/// What opens the `Content-Range` value of a refusal. ASCII `bytes */`.
pub open spec fn unsatisfied_prefix() -> Seq<u8> {
    seq![98, 121, 116, 101, 115, 32, 42, 47]
}

pub(crate) fn unsatisfied_prefix_bytes() -> (r: Vec<u8>)
    ensures
        r@ == unsatisfied_prefix(),
{
    let r: Vec<u8> = vec![98, 121, 116, 101, 115, 32, 42, 47];
    proof {
        assert(r@ =~= unsatisfied_prefix());
    }
    r
}

/// The media type of a multipart body, up to its boundary. ASCII `multipart/byteranges; boundary=`.
pub open spec fn multipart_type() -> Seq<u8> {
    seq![109, 117, 108, 116, 105, 112, 97, 114, 116, 47, 98, 121, 116, 101, 114, 97, 110, 103, 101, 115, 59, 32, 98, 111, 117, 110, 100, 97, 114, 121, 61]
}

pub(crate) fn multipart_type_bytes() -> (r: Vec<u8>)
    ensures
        r@ == multipart_type(),
{
    let r: Vec<u8> = vec![109, 117, 108, 116, 105, 112, 97, 114, 116, 47, 98, 121, 116, 101, 114, 97, 110, 103, 101, 115, 59, 32, 98, 111, 117, 110, 100, 97, 114, 121, 61];
    proof {
        assert(r@ =~= multipart_type());
    }
    r
}

/// What stands before a boundary. ASCII `\r\n--`.
pub open spec fn dash_line() -> Seq<u8> {
    seq![13, 10, 45, 45]
}

pub(crate) fn dash_line_bytes() -> (r: Vec<u8>)
    ensures
        r@ == dash_line(),
{
    let r: Vec<u8> = vec![13, 10, 45, 45];
    proof {
        assert(r@ =~= dash_line());
    }
    r
}

/// A line end. ASCII `\r\n`.
pub open spec fn crlf() -> Seq<u8> {
    seq![13, 10]
}

pub(crate) fn crlf_bytes() -> (r: Vec<u8>)
    ensures
        r@ == crlf(),
{
    let r: Vec<u8> = vec![13, 10];
    proof {
        assert(r@ =~= crlf());
    }
    r
}

/// What ends the closing boundary. ASCII `--\r\n`.
pub open spec fn closing() -> Seq<u8> {
    seq![45, 45, 13, 10]
}

pub(crate) fn closing_bytes() -> (r: Vec<u8>)
    ensures
        r@ == closing(),
{
    let r: Vec<u8> = vec![45, 45, 13, 10];
    proof {
        assert(r@ =~= closing());
    }
    r
}

/// The media type line of each part. ASCII `content-type: video/mp4\r\n`.
pub open spec fn part_type_line() -> Seq<u8> {
    seq![99, 111, 110, 116, 101, 110, 116, 45, 116, 121, 112, 101, 58, 32, 118, 105, 100, 101, 111, 47, 109, 112, 52, 13, 10]
}

pub(crate) fn part_type_line_bytes() -> (r: Vec<u8>)
    ensures
        r@ == part_type_line(),
{
    let r: Vec<u8> = vec![99, 111, 110, 116, 101, 110, 116, 45, 116, 121, 112, 101, 58, 32, 118, 105, 100, 101, 111, 47, 109, 112, 52, 13, 10];
    proof {
        assert(r@ =~= part_type_line());
    }
    r
}

/// What opens the range line of each part. ASCII `content-range: bytes `.
pub open spec fn part_range_head() -> Seq<u8> {
    seq![99, 111, 110, 116, 101, 110, 116, 45, 114, 97, 110, 103, 101, 58, 32, 98, 121, 116, 101, 115, 32]
}

pub(crate) fn part_range_head_bytes() -> (r: Vec<u8>)
    ensures
        r@ == part_range_head(),
{
    let r: Vec<u8> = vec![99, 111, 110, 116, 101, 110, 116, 45, 114, 97, 110, 103, 101, 58, 32, 98, 121, 116, 101, 115, 32];
    proof {
        assert(r@ =~= part_range_head());
    }
    r
}

} // verus!
