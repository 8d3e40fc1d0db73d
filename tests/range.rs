use vidstream::{
    boundary_from_bytes, full_response, is_served_path, multipart_response, not_found_response,
    not_satisfiable_response, partial_response, plan_ranges, plan_request, push_decimal,
    random_boundary, same_bytes, ContentResponse, RangePlan, MAX_CHUNK,
};

fn header<'a>(r: &'a ContentResponse, name: &str) -> Option<&'a [u8]> {
    r.headers.iter().find(|h| h.0 == name.as_bytes()).map(|h| h.1.as_slice())
}

fn count(hay: &[u8], needle: &[u8]) -> usize {
    hay.windows(needle.len()).filter(|w| *w == needle).count()
}

#[test]
fn single_range_first_hundred_bytes() {
    let plan = plan_request(Some("bytes=0-99"), 1000);
    assert_eq!(plan, RangePlan::Single { start: 0, end: 99 });
    let r = partial_response(0, 99, 1000, vec![7u8; 100]);
    assert_eq!(r.status, 206);
    assert_eq!(header(&r, "content-range"), Some(&b"bytes 0-99/1000"[..]));
    assert_eq!(header(&r, "content-length"), Some(&b"100"[..]));
    assert_eq!(header(&r, "content-type"), Some(&b"video/mp4"[..]));
    assert_eq!(r.body.len(), 100);
}

#[test]
fn range_past_end_is_not_satisfiable() {
    let plan = plan_request(Some("bytes=2000-3000"), 1000);
    assert_eq!(plan, RangePlan::NotSatisfiable);
    let r = not_satisfiable_response(1000);
    assert_eq!(r.status, 416);
    assert_eq!(header(&r, "content-range"), Some(&b"bytes */1000"[..]));
    assert!(r.body.is_empty());
}

#[test]
fn two_ranges_make_two_parts() {
    let plan = plan_request(Some("bytes=0-9,20-29"), 1000);
    let ranges = match plan {
        RangePlan::Multi { ranges } => ranges,
        other => panic!("unexpected plan {:?}", other),
    };
    assert_eq!(ranges, vec![(0, 9), (20, 29)]);
    let chunks = vec![vec![b'a'; 10], vec![b'b'; 10]];
    let r = multipart_response(b"xyz", &ranges, 1000, &chunks);
    assert_eq!(r.status, 206);
    assert_eq!(header(&r, "content-type"), Some(&b"multipart/byteranges; boundary=xyz"[..]));
    let expected = [
        "\r\n--xyz\r\ncontent-type: video/mp4\r\ncontent-range: bytes 0-9/1000\r\n\r\naaaaaaaaaa",
        "\r\n--xyz\r\ncontent-type: video/mp4\r\ncontent-range: bytes 20-29/1000\r\n\r\nbbbbbbbbbb",
        "\r\n--xyz--\r\n",
    ]
    .concat();
    assert_eq!(String::from_utf8(r.body.clone()).unwrap(), expected);
    assert_eq!(count(&r.body, b"content-range: "), 2);
}

#[test]
fn no_range_header_serves_everything() {
    assert_eq!(plan_request(None, 1000), RangePlan::Full);
    let r = full_response(vec![1u8; 1000]);
    assert_eq!(r.status, 200);
    assert_eq!(header(&r, "content-length"), Some(&b"1000"[..]));
    assert_eq!(r.body.len(), 1000);
}

#[test]
fn long_range_is_cut_to_chunk() {
    let plan = plan_request(Some("bytes=0-"), 5_000_000);
    assert_eq!(plan, RangePlan::Single { start: 0, end: MAX_CHUNK - 1 });
    assert_eq!(MAX_CHUNK, 1_024_000);
}

#[test]
fn range_end_past_file_is_clamped_to_file() {
    assert_eq!(plan_request(Some("bytes=900-5000"), 1000), RangePlan::Single { start: 900, end: 999 });
}

#[test]
fn suffix_range_serves_the_tail() {
    assert_eq!(plan_request(Some("bytes=-100"), 1000), RangePlan::Single { start: 900, end: 999 });
}

#[test]
fn garbage_header_is_not_satisfiable() {
    assert_eq!(plan_request(Some("foo"), 1000), RangePlan::NotSatisfiable);
    assert_eq!(plan_request(Some("bytes=5-4"), 1000), RangePlan::NotSatisfiable);
    assert_eq!(plan_request(Some("bytes="), 1000), RangePlan::NotSatisfiable);
}

#[test]
fn invalid_spans_are_dropped() {
    let plan = plan_ranges(Some(vec![(0, 10), (990, 20), (5, 0), (100, 5)]), 1000);
    assert_eq!(plan, RangePlan::Multi { ranges: vec![(0, 9), (100, 104)] });
    assert_eq!(plan_ranges(Some(vec![(990, 20)]), 1000), RangePlan::NotSatisfiable);
    assert_eq!(plan_ranges(None, 1000), RangePlan::NotSatisfiable);
}

#[test]
fn not_found_is_bare() {
    let r = not_found_response();
    assert_eq!(r.status, 404);
    assert!(r.headers.is_empty());
    assert!(r.body.is_empty());
}

#[test]
fn decimal_digits() {
    let mut out = b"n=".to_vec();
    push_decimal(&mut out, 0);
    assert_eq!(out, b"n=0");
    let mut out = Vec::new();
    push_decimal(&mut out, 18_446_744_073_709_551_615);
    assert_eq!(out, b"18446744073709551615");
}

#[test]
fn boundary_is_unpadded_hex() {
    assert_eq!(boundary_from_bytes(&[0x0a, 0xff, 0x10, 0x00]), b"aff100");
    assert!(boundary_from_bytes(&[]).is_empty());
}

#[test]
fn random_boundary_is_hex() {
    let b = random_boundary().unwrap();
    assert!(b.len() >= 30 && b.len() <= 60);
    assert!(b.iter().all(|c| c.is_ascii_hexdigit() && !c.is_ascii_uppercase()));
    assert_ne!(b, vec![b'0'; 30]);
}

#[test]
fn served_path_is_decoded() {
    assert!(is_served_path("/v.mp4", b"v.mp4"));
    assert!(is_served_path("/v%2Emp4", b"v.mp4"));
    assert!(!is_served_path("/w.mp4", b"v.mp4"));
    assert!(!is_served_path("/v.mp4x", b"v.mp4"));
    assert!(is_served_path("/caf%C3%A9", "café".as_bytes()));
}

#[test]
fn byte_comparison() {
    assert!(same_bytes(b"v.mp4", b"v.mp4"));
    assert!(!same_bytes(b"v.mp4", b"v.mp3"));
    assert!(!same_bytes(b"v.mp4", b"v.mp"));
    assert!(same_bytes(b"", b""));
}
