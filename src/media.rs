use vstd::prelude::*;
use crate::timing::Rational;

verus! {

/// Ticks per second of a container's duration.
pub const TIME_UNIT: u64 = 1000000;

/// Bytes per pixel of the packed RGB output.
pub const BYTES_PER_PIXEL: u32 = 3;

/// Failures of opening a stream and of fetching a frame.
#[derive(Clone, Copy, Debug, PartialEq, Eq, Structural)]
pub enum MediaError {
    /// The container holds no video stream.
    NoVideoStream,
    /// The stream's frame rate or time base is not a positive rational.
    BadTiming,
    /// The stream ended before the requested frame.
    FrameNotFound,
    /// A decoded picture does not have the promised shape.
    DecodeError,
}

/// What a container reports of its best video stream.
#[derive(Clone, Copy, Debug, PartialEq, Eq, Structural)]
pub struct VideoStreamInfo {
    pub index: usize,
    pub width: u32,
    pub height: u32,
    pub time_base: Rational,
    pub frame_rate: Rational,
}

/// An open video stream: its index, picture size and timing. The stream
/// index is fixed when the stream is opened.
#[derive(Clone, Copy, Debug)]
pub struct FFHelp {
    video_stream_index: usize,
    w: u32,
    h: u32,
    time_base: Rational,
    fps: Rational,
    duration: i64,
}

pub open spec fn min_int(a: int, b: int) -> int {
    if a <= b { a } else { b }
}

/// `ceil(duration / TIME_UNIT * fps)`, none for a non-positive duration.
pub open spec fn frame_count(duration: int, fps: Rational) -> int {
    if duration <= 0 {
        0
    } else {
        let num = duration * fps.num;
        let den = TIME_UNIT * fps.den;
        min_int((num + den - 1) / den, usize::MAX as int)
    }
}

/// `(index / fps) / time_base`, truncated to whole ticks.
pub open spec fn seek_ticks(index: int, fps: Rational, time_base: Rational) -> int {
    min_int(
        (index * fps.den * time_base.den) / (fps.num * time_base.num),
        i64::MAX as int,
    )
}

/// `pts * time_base * fps`, rounded half up; a negative or missing
/// timestamp counts as zero.
pub open spec fn frame_at(pts: int, time_base: Rational, fps: Rational) -> int {
    if pts <= 0 {
        0
    } else {
        let den = time_base.den * fps.den;
        min_int((2 * pts * time_base.num * fps.num + den) / (2 * den), usize::MAX as int)
    }
}

/// Whether `rows` rows of `row_len` bytes, `stride` bytes apart, lie within
/// `data_len` bytes.
pub open spec fn rows_fit(data_len: int, stride: int, row_len: int, rows: int) -> bool {
    row_len <= stride && (rows == 0 || (rows - 1) * stride + row_len <= data_len)
}

/// Rows of `row_len` bytes taken `stride` bytes apart from `data`.
pub open spec fn packed_rows(data: Seq<u8>, stride: int, row_len: int, rows: int) -> Seq<u8> {
    Seq::new((rows * row_len) as nat, |k: int| data[(k / row_len) * stride + k % row_len])
}

proof fn lemma_mul_le(a: int, b: int, x: int, y: int)
    requires
        0 <= a <= x,
        0 <= b <= y,
    ensures
        0 <= a * b <= x * y,
        a > 0 && b > 0 ==> a * b > 0,
{
    assert(0 <= a * b <= x * y) by (nonlinear_arith)
        requires
            0 <= a <= x,
            0 <= b <= y,
    ;
    if a > 0 && b > 0 {
        assert(a * b > 0) by (nonlinear_arith)
            requires
                a > 0,
                b > 0,
        ;
    }
}

impl FFHelp {
    /// Frame rate and time base are positive rationals.
    #[verifier::type_invariant]
    pub closed spec fn wf(&self) -> bool {
        self.spec_time_base().is_positive() && self.spec_fps().is_positive()
    }

    pub closed spec fn spec_width(&self) -> u32 {
        self.w
    }

    pub closed spec fn spec_height(&self) -> u32 {
        self.h
    }

    pub closed spec fn spec_fps(&self) -> Rational {
        self.fps
    }

    pub closed spec fn spec_time_base(&self) -> Rational {
        self.time_base
    }

    pub closed spec fn spec_duration(&self) -> i64 {
        self.duration
    }

    pub closed spec fn spec_stream_index(&self) -> usize {
        self.video_stream_index
    }

    /// Opens the best video stream of a container whose duration is
    /// `duration` ticks of `TIME_UNIT`.
    pub fn open(best_video: Option<VideoStreamInfo>, duration: i64) -> (r: Result<FFHelp, MediaError>)
        ensures
            match best_video {
                None => r == Err::<FFHelp, MediaError>(MediaError::NoVideoStream),
                Some(v) => if v.time_base.is_positive() && v.frame_rate.is_positive() {
                    r matches Ok(f) && f.wf() && f.spec_stream_index() == v.index
                        && f.spec_width() == v.width && f.spec_height() == v.height
                        && f.spec_time_base() == v.time_base && f.spec_fps() == v.frame_rate
                        && f.spec_duration() == duration
                } else {
                    r == Err::<FFHelp, MediaError>(MediaError::BadTiming)
                },
            },
    {
        match best_video {
            None => Err(MediaError::NoVideoStream),
            Some(v) => {
                if v.time_base.num > 0 && v.time_base.den > 0 && v.frame_rate.num > 0
                    && v.frame_rate.den > 0 {
                    Ok(
                        FFHelp {
                            video_stream_index: v.index,
                            w: v.width,
                            h: v.height,
                            time_base: v.time_base,
                            fps: v.frame_rate,
                            duration,
                        },
                    )
                } else {
                    Err(MediaError::BadTiming)
                }
            },
        }
    }

    /// An estimate of the number of frames: `ceil(duration_seconds * fps)`.
    pub fn total_frames(&self) -> (r: usize)
        ensures
            r == frame_count(self.spec_duration() as int, self.spec_fps()),
    {
        proof {
            use_type_invariant(self);
        }
        if self.duration <= 0 {
            return 0;
        }
        let d: u128 = self.duration as u128;
        let fnum: u128 = self.fps.num as u128;
        proof {
            lemma_mul_le(d as int, fnum as int, 0x8000_0000_0000_0000, 0x8000_0000);
            lemma_mul_le(TIME_UNIT as int, self.fps.den as int, TIME_UNIT as int, 0x8000_0000);
        }
        let num: u128 = d * fnum;
        let den: u128 = (TIME_UNIT as u128) * (self.fps.den as u128);
        let c: u128 = (num + den - 1) / den;
        if c <= usize::MAX as u128 {
            c as usize
        } else {
            usize::MAX
        }
    }

    pub fn get_width_height(&self) -> (r: (u32, u32))
        ensures
            r == (self.spec_width(), self.spec_height()),
    {
        (self.w, self.h)
    }

    /// The container's duration in ticks of `TIME_UNIT`.
    pub fn duration(&self) -> (r: i64)
        ensures
            r == self.spec_duration(),
    {
        self.duration
    }

    pub fn frame_rate(&self) -> (r: Rational)
        ensures
            r == self.spec_fps(),
    {
        self.fps
    }

    pub fn time_base(&self) -> (r: Rational)
        ensures
            r == self.spec_time_base(),
    {
        self.time_base
    }

    pub fn video_stream_index(&self) -> (r: usize)
        ensures
            r == self.spec_stream_index(),
    {
        self.video_stream_index
    }

    /// The timestamp, in ticks of the stream's time base, to seek to before
    /// decoding frame `frame_index`.
    pub fn seek_timestamp(&self, frame_index: usize) -> (r: i64)
        ensures
            r == seek_ticks(frame_index as int, self.spec_fps(), self.spec_time_base()),
    {
        proof {
            use_type_invariant(self);
        }
        let i: u128 = frame_index as u128;
        proof {
            lemma_mul_le(i as int, self.fps.den as int, 0x1_0000_0000_0000_0000, 0x8000_0000);
        }
        let a: u128 = i * (self.fps.den as u128);
        proof {
            lemma_mul_le(
                a as int,
                self.time_base.den as int,
                0x8000_0000_0000_0000_0000_0000,
                0x8000_0000,
            );
            lemma_mul_le(self.fps.num as int, self.time_base.num as int, 0x8000_0000, 0x8000_0000);
        }
        let num: u128 = a * (self.time_base.den as u128);
        let den: u128 = (self.fps.num as u128) * (self.time_base.num as u128);
        let q: u128 = num / den;
        if q <= i64::MAX as u128 {
            q as i64
        } else {
            i64::MAX
        }
    }

    /// The logical index of a decoded frame with timestamp `pts`.
    pub fn frame_index_of(&self, pts: Option<i64>) -> (r: usize)
        ensures
            r == frame_at(
                match pts {
                    Some(t) => t as int,
                    None => 0,
                },
                self.spec_time_base(),
                self.spec_fps(),
            ),
    {
        proof {
            use_type_invariant(self);
        }
        let t: i64 = match pts {
            Some(t) => t,
            None => 0,
        };
        if t <= 0 {
            return 0;
        }
        let p: u128 = t as u128;
        proof {
            lemma_mul_le(2 * p as int, self.time_base.num as int, 0x1_0000_0000_0000_0000, 0x8000_0000);
        }
        let a: u128 = 2 * p * (self.time_base.num as u128);
        proof {
            lemma_mul_le(a as int, self.fps.num as int, 0x8000_0000_0000_0000_0000_0000, 0x8000_0000);
            lemma_mul_le(self.time_base.den as int, self.fps.den as int, 0x8000_0000, 0x8000_0000);
        }
        let num: u128 = a * (self.fps.num as u128);
        let den: u128 = (self.time_base.den as u128) * (self.fps.den as u128);
        let q: u128 = (num + den) / (2 * den);
        if q <= usize::MAX as u128 {
            q as usize
        } else {
            usize::MAX
        }
    }

    /// Whether a decoded frame with timestamp `pts` answers a request for
    /// frame `frame_index`: frames before it are what a seek to an earlier
    /// keyframe brings, and are skipped.
    pub fn is_requested_frame(&self, pts: Option<i64>, frame_index: usize) -> (r: bool)
        ensures
            r == (frame_at(
                match pts {
                    Some(t) => t as int,
                    None => 0,
                },
                self.spec_time_base(),
                self.spec_fps(),
            ) >= frame_index),
    {
        self.frame_index_of(pts) >= frame_index
    }

    /// The converted picture `data`, whose rows start `stride` bytes apart,
    /// packed into `width * height * BYTES_PER_PIXEL` bytes without padding.
    pub fn pack_frame(&self, data: &[u8], stride: usize) -> (r: Result<Vec<u8>, MediaError>)
        ensures
            match r {
                Ok(b) => rows_fit(
                    data@.len() as int,
                    stride as int,
                    self.spec_width() * BYTES_PER_PIXEL,
                    self.spec_height() as int,
                ) && b@ == packed_rows(
                    data@,
                    stride as int,
                    self.spec_width() * BYTES_PER_PIXEL,
                    self.spec_height() as int,
                ) && b@.len() == self.spec_width() * self.spec_height() * BYTES_PER_PIXEL,
                Err(e) => e == MediaError::DecodeError && !rows_fit(
                    data@.len() as int,
                    stride as int,
                    self.spec_width() * BYTES_PER_PIXEL,
                    self.spec_height() as int,
                ),
            },
    {
        let wide_row: u128 = (self.w as u128) * (BYTES_PER_PIXEL as u128);
        if wide_row > stride as u128 {
            return Err(MediaError::DecodeError);
        }
        let rl: usize = wide_row as usize;
        let h: usize = self.h as usize;
        if h > 0 {
            proof {
                lemma_mul_le((h - 1) as int, stride as int, 0x1_0000_0000, 0x1_0000_0000_0000_0000);
            }
            let need: u128 = ((h - 1) as u128) * (stride as u128) + (rl as u128);
            if need > data.len() as u128 {
                return Err(MediaError::DecodeError);
            }
        }
        let dlen: usize = data.len();
        let ghost len = data@.len() as int;
        let ghost sti = stride as int;
        let ghost rli = rl as int;
        let mut out: Vec<u8> = Vec::new();
        let mut y: usize = 0;
        while y < h
            invariant
                y <= h,
                h == self.h,
                rli == self.w * BYTES_PER_PIXEL,
                rows_fit(len, sti, rli, h as int),
                len == data@.len(),
                len == dlen,
                sti == stride,
                rli == rl,
                out@.len() == y * rli,
                forall|k: int| 0 <= k < out@.len() ==> #[trigger] out@[k] == data@[(k / rli) * sti + k % rli],
            decreases h - y,
        {
            proof {
                lemma_mul_le(y as int, sti, (h - 1) as int, sti);
            }
            let base: usize = y * stride;
            let mut x: usize = 0;
            while x < rl
                invariant
                    y < h,
                    x <= rl,
                    base == y * sti,
                    y * sti <= (h - 1) * sti,
                    rows_fit(len, sti, rli, h as int),
                    len == data@.len(),
                len == dlen,
                    sti == stride,
                    rli == rl,
                    out@.len() == y * rli + x,
                    forall|k: int| 0 <= k < out@.len() ==> #[trigger] out@[k] == data@[(k / rli) * sti + k % rli],
                decreases rl - x,
            {
                proof {
                    let k = y * rli + x;
                    vstd::arithmetic::div_mod::lemma_fundamental_div_mod_converse(k, rli, y as int, x as int);
                }
                out.push(data[base + x]);
                x += 1;
            }
            proof {
                assert((y + 1) * rli == y * rli + rli) by (nonlinear_arith);
            }
            y += 1;
        }
        proof {
            assert(out@ =~= packed_rows(data@, sti, rli, h as int));
            assert(out@.len() == self.w * self.h * BYTES_PER_PIXEL) by (nonlinear_arith)
                requires
                    out@.len() == h * rli,
                    rli == self.w * BYTES_PER_PIXEL,
                    h == self.h,
            ;
        }
        Ok(out)
    }
}

} // verus!
