use vidstream::{seek_in_frames, FFHelp, MediaError, Rational, VideoStreamInfo};

fn stream(fps: Rational, time_base: Rational) -> VideoStreamInfo {
    VideoStreamInfo { index: 0, width: 2, height: 2, time_base, frame_rate: fps }
}

fn seek(position: u64, duration: u64, nframes: usize) -> usize {
    let mut current = 7usize;
    seek_in_frames(&mut current, position, duration, nframes);
    current
}

#[test]
fn seek_start_is_first_frame() {
    assert_eq!(seek(0, 10_000, 300), 0);
}

#[test]
fn seek_end_is_last_frame() {
    assert_eq!(seek(10_000, 10_000, 300), 299);
    assert_eq!(seek(25_000, 10_000, 300), 299);
}

#[test]
fn seek_middle_rounds_half_up() {
    // 5 / 10 * (100 - 1/2) = 49.75
    assert_eq!(seek(5, 10, 100), 50);
}

#[test]
fn seek_is_monotonic_on_samples() {
    let mut last = 0usize;
    for p in 0..=1000u64 {
        let f = seek(p, 1000, 37);
        assert!(f >= last);
        assert!(f <= 36);
        last = f;
    }
}

#[test]
fn seek_without_frames_keeps_position() {
    assert_eq!(seek(5, 10, 0), 7);
}

#[test]
fn seek_on_empty_timeline_is_first_frame() {
    assert_eq!(seek(5, 0, 10), 0);
}

#[test]
fn open_without_video_stream() {
    assert_eq!(FFHelp::open(None, 10).err(), Some(MediaError::NoVideoStream));
}

#[test]
fn open_with_zero_frame_rate() {
    let s = stream(Rational::new(0, 0), Rational::new(1, 15360));
    assert_eq!(FFHelp::open(Some(s), 10).err(), Some(MediaError::BadTiming));
}

#[test]
fn total_frames_of_ten_seconds_at_thirty() {
    let f = FFHelp::open(Some(stream(Rational::new(30, 1), Rational::new(1, 15360))), 10_000_000)
        .unwrap();
    assert_eq!(f.total_frames(), 300);
}

#[test]
fn total_frames_rounds_up() {
    let f = FFHelp::open(Some(stream(Rational::new(30000, 1001), Rational::new(1, 30000))), 10_000_000)
        .unwrap();
    // 10 * 29.97... = 299.7
    assert_eq!(f.total_frames(), 300);
}

#[test]
fn total_frames_of_unknown_duration() {
    let f = FFHelp::open(Some(stream(Rational::new(30, 1), Rational::new(1, 15360))), i64::MIN)
        .unwrap();
    assert_eq!(f.total_frames(), 0);
}

#[test]
fn seek_timestamp_of_frame() {
    let f = FFHelp::open(Some(stream(Rational::new(30, 1), Rational::new(1, 15360))), 0).unwrap();
    assert_eq!(f.seek_timestamp(30), 15360);
    assert_eq!(f.seek_timestamp(1), 512);
    assert_eq!(f.seek_timestamp(0), 0);
}

#[test]
fn seek_timestamp_truncates() {
    let f = FFHelp::open(Some(stream(Rational::new(3, 1), Rational::new(1, 10))), 0).unwrap();
    // (1 / 3) / (1 / 10) = 3.33...
    assert_eq!(f.seek_timestamp(1), 3);
}

#[test]
fn frame_index_of_timestamps() {
    let f = FFHelp::open(Some(stream(Rational::new(30, 1), Rational::new(1, 15360))), 0).unwrap();
    assert_eq!(f.frame_index_of(Some(15360)), 30);
    assert_eq!(f.frame_index_of(Some(256)), 1);
    assert_eq!(f.frame_index_of(Some(255)), 0);
    assert_eq!(f.frame_index_of(Some(-40)), 0);
    assert_eq!(f.frame_index_of(None), 0);
}

#[test]
fn requested_frame_is_first_at_or_after() {
    let f = FFHelp::open(Some(stream(Rational::new(30, 1), Rational::new(1, 15360))), 0).unwrap();
    assert!(!f.is_requested_frame(Some(512 * 4), 5));
    assert!(f.is_requested_frame(Some(512 * 5), 5));
    assert!(f.is_requested_frame(Some(512 * 6), 5));
}

#[test]
fn pack_frame_trims_stride() {
    let f = FFHelp::open(Some(stream(Rational::new(30, 1), Rational::new(1, 15360))), 0).unwrap();
    let data: Vec<u8> = (0u8..16).collect();
    let out = f.pack_frame(&data, 8).unwrap();
    assert_eq!(out, vec![0, 1, 2, 3, 4, 5, 8, 9, 10, 11, 12, 13]);
    assert_eq!(out.len(), 2 * 2 * 3);
    assert_eq!(f.get_width_height(), (2, 2));
}

#[test]
fn pack_frame_without_padding() {
    let f = FFHelp::open(Some(stream(Rational::new(30, 1), Rational::new(1, 15360))), 0).unwrap();
    let data: Vec<u8> = (0u8..12).collect();
    assert_eq!(f.pack_frame(&data, 6).unwrap(), data);
}

#[test]
fn pack_frame_rejects_short_stride() {
    let f = FFHelp::open(Some(stream(Rational::new(30, 1), Rational::new(1, 15360))), 0).unwrap();
    let data = vec![0u8; 64];
    assert_eq!(f.pack_frame(&data, 5).err(), Some(MediaError::DecodeError));
}

#[test]
fn pack_frame_rejects_short_data() {
    let f = FFHelp::open(Some(stream(Rational::new(30, 1), Rational::new(1, 15360))), 0).unwrap();
    let data = vec![0u8; 13];
    assert_eq!(f.pack_frame(&data, 8).err(), Some(MediaError::DecodeError));
}

#[test]
fn open_keeps_stream_facts() {
    let s = VideoStreamInfo {
        index: 3,
        width: 640,
        height: 360,
        time_base: Rational::new(1, 90000),
        frame_rate: Rational::new(25, 1),
    };
    let f = FFHelp::open(Some(s), 4_000_000).unwrap();
    assert_eq!(f.video_stream_index(), 3);
    assert_eq!(f.get_width_height(), (640, 360));
    assert_eq!(f.duration(), 4_000_000);
    assert_eq!(f.frame_rate(), Rational::new(25, 1));
    assert_eq!(f.time_base(), Rational::new(1, 90000));
    assert_eq!(f.total_frames(), 100);
}
