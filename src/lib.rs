//! Frame-accurate access into a video stream, the timestamp arithmetic it
//! rests on, the stream mapping of a transcode, and byte-range delivery of
//! media files.

mod ascii;
mod media;
mod range;
mod response;
mod streams;
mod timing;

pub use media::{
    frame_at, frame_count, packed_rows, rows_fit, seek_ticks, FFHelp, MediaError, VideoStreamInfo,
    BYTES_PER_PIXEL, TIME_UNIT,
};
pub use range::{
    is_served_path, lemma_valid_ranges_in_file, plan_ranges, plan_request, same_bytes, RangePlan,
    MAX_CHUNK,
};
pub use response::{
    boundary_from_bytes, full_response, multipart_response, not_found_response,
    not_satisfiable_response, partial_response, push_decimal, random_boundary, ContentResponse,
    ServeError, BOUNDARY_BYTES,
};
pub use streams::{build_stream_map, is_transcoded_kind, route_packet, MediaKind};
pub use timing::{lemma_seek_index_law, seek_in_frames, seek_index, Rational};
