use vstd::prelude::*;

verus! {

/// The media type of a container stream.
#[derive(Clone, Copy, Debug, PartialEq, Eq, Structural)]
pub enum MediaKind {
    Video,
    Audio,
    Subtitle,
    Data,
    Attachment,
    Unknown,
}

/// Only video and audio streams are carried into a transcoded file.
pub open spec fn is_transcoded(kind: MediaKind) -> bool {
    kind == MediaKind::Video || kind == MediaKind::Audio
}

/// How many of `kinds` are carried over.
pub open spec fn carried_count(kinds: Seq<MediaKind>) -> nat
    decreases kinds.len(),
{
    if kinds.len() == 0 {
        0
    } else {
        carried_count(kinds.drop_last()) + if is_transcoded(kinds.last()) {
            1nat
        } else {
            0nat
        }
    }
}

/// The output stream of input stream `i`: carried streams are numbered in
/// input order from zero, the others have none.
pub open spec fn output_slot(kinds: Seq<MediaKind>, i: int) -> Option<usize> {
    if is_transcoded(kinds[i]) {
        Some(carried_count(kinds.subrange(0, i)) as usize)
    } else {
        None
    }
}

pub fn is_transcoded_kind(kind: MediaKind) -> (r: bool)
    ensures
        r == is_transcoded(kind),
{
    match kind {
        MediaKind::Video | MediaKind::Audio => true,
        _ => false,
    }
}

/// Assigns each input stream its output stream, if it is carried over.
pub fn build_stream_map(kinds: &Vec<MediaKind>) -> (r: Vec<Option<usize>>)
    ensures
        r@.len() == kinds@.len(),
        forall|i: int| 0 <= i < kinds@.len() ==> #[trigger] r@[i] == output_slot(kinds@, i),
{
    let mut r: Vec<Option<usize>> = Vec::new();
    let mut next: usize = 0;
    let mut i: usize = 0;
    while i < kinds.len()
        invariant
            i <= kinds@.len(),
            r@.len() == i,
            next == carried_count(kinds@.subrange(0, i as int)),
            next <= i,
            forall|j: int| 0 <= j < i ==> #[trigger] r@[j] == output_slot(kinds@, j),
        decreases kinds@.len() - i,
    {
        proof {
            assert(kinds@.subrange(0, i + 1).drop_last() =~= kinds@.subrange(0, i as int));
        }
        if is_transcoded_kind(kinds[i]) {
            r.push(Some(next));
            next += 1;
        } else {
            r.push(None);
        }
        i += 1;
    }
    r
}

/// The output stream that packets of input stream `stream_index` go to.
pub fn route_packet(map: &Vec<Option<usize>>, stream_index: usize) -> (r: Option<usize>)
    ensures
        r == (if stream_index < map@.len() {
            map@[stream_index as int]
        } else {
            None
        }),
{
    if stream_index < map.len() {
        map[stream_index]
    } else {
        None
    }
}

} // verus!
