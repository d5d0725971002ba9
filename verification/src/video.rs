//! First-frame search over a video stream, with a packet budget, a limit on
//! consecutive decode failures and a limit on blank frames, plus the
//! packing of decoded RGB24 planes into images.
//!
//! The demuxing and decoding are done by the caller; this module decides,
//! packet by packet and frame by frame, whether to go on, which frame to
//! return, or why to give up.

use crate::imaging::{image_bytes, image_is_rgb8, image_size, rgb8_image_from_raw};
use image::DynamicImage;
use vstd::prelude::*;
use vstd::string::StringSliceAdditionalSpecFns;

verus! {

/// Why no first frame could be had (lets the caller stop early on broken
/// containers).
#[derive(Debug, PartialEq, Eq)]
pub enum VideoFrameError {
    OpenFailed(String),
    NoVideoStream,
    InvalidSize,
    PacketBudgetExhausted,
    ConsecutiveDecodeFailures,
    NoFrame,
}

impl VideoFrameError {
    /// The human-readable message of the error.
    pub fn message(&self) -> (m: String)
        ensures
            m@ == match self {
                VideoFrameError::OpenFailed(reason) => "无法打开视频: "@ + reason@,
                VideoFrameError::NoVideoStream => "StreamNotFound"@,
                VideoFrameError::InvalidSize => "视频尺寸无效"@,
                VideoFrameError::PacketBudgetExhausted => "packet budget exhausted"@,
                VideoFrameError::ConsecutiveDecodeFailures => "consecutive decode failures"@,
                VideoFrameError::NoFrame => "no frame decoded"@,
            },
    {
        match self {
            VideoFrameError::OpenFailed(reason) => {
                let mut m = String::from_str("无法打开视频: ");
                m.append(reason.as_str());
                m
            },
            VideoFrameError::NoVideoStream => String::from_str("StreamNotFound"),
            VideoFrameError::InvalidSize => String::from_str("视频尺寸无效"),
            VideoFrameError::PacketBudgetExhausted => String::from_str("packet budget exhausted"),
            VideoFrameError::ConsecutiveDecodeFailures => String::from_str("consecutive decode failures"),
            VideoFrameError::NoFrame => String::from_str("no frame decoded"),
        }
    }
}

/// Video packets read at most from the start of the stream.
pub const MAX_VIDEO_PACKETS: u32 = 48;

/// Video packets read at most after a seek (waiting for a keyframe).
pub const MAX_VIDEO_PACKETS_AFTER_SEEK: u32 = 64;

/// Consecutive packets without a frame before giving up.
pub const MAX_DECODE_FAILS: u32 = 8;

/// Blank frames skipped at most from one seek point.
pub const MAX_BLANK_FRAMES: u32 = 8;

/// State of the search for the first usable frame. `T` is the caller's
/// decoded image type; a blank frame is kept as the fallback.
pub struct FrameSearch<T> {
    max_packets: u32,
    video_packets: u32,
    consecutive_fails: u32,
    blank_frames: u32,
    got_frame: bool,
    blank_fallback: Option<T>,
}

impl<T> FrameSearch<T> {
    pub closed spec fn max_packets(&self) -> u32 {
        self.max_packets
    }

    pub closed spec fn video_packets(&self) -> u32 {
        self.video_packets
    }

    pub closed spec fn consecutive_fails(&self) -> u32 {
        self.consecutive_fails
    }

    pub closed spec fn blank_frames(&self) -> u32 {
        self.blank_frames
    }

    /// Whether a frame came out of the decoder since the current packet.
    pub closed spec fn got_frame(&self) -> bool {
        self.got_frame
    }

    pub closed spec fn fallback(&self) -> Option<T> {
        self.blank_fallback
    }

    /// The counters never pass their limits.
    pub open spec fn wf(&self) -> bool {
        &&& self.max_packets() == MAX_VIDEO_PACKETS || self.max_packets() == MAX_VIDEO_PACKETS_AFTER_SEEK
        &&& self.video_packets() <= self.max_packets()
        &&& self.consecutive_fails() < MAX_DECODE_FAILS
        &&& self.blank_frames() < MAX_BLANK_FRAMES
    }

    /// A fresh search; after a seek the packet budget is larger.
    pub fn new(seeked: bool) -> (s: Self)
        ensures
            s.wf(),
            s.max_packets() == (if seeked {
                MAX_VIDEO_PACKETS_AFTER_SEEK
            } else {
                MAX_VIDEO_PACKETS
            }),
            s.video_packets() == 0,
            s.consecutive_fails() == 0,
            s.blank_frames() == 0,
            !s.got_frame(),
            s.fallback() is None,
    {
        FrameSearch {
            max_packets: if seeked {
                MAX_VIDEO_PACKETS_AFTER_SEEK
            } else {
                MAX_VIDEO_PACKETS
            },
            video_packets: 0,
            consecutive_fails: 0,
            blank_frames: 0,
            got_frame: false,
            blank_fallback: None,
        }
    }

    /// A packet of the video stream arrived: counts it against the budget,
    /// and fails once the budget is spent.
    pub fn on_video_packet(&mut self) -> (res: Result<(), VideoFrameError>)
        requires
            old(self).wf(),
        ensures
            final(self).wf(),
            final(self).max_packets() == old(self).max_packets(),
            final(self).consecutive_fails() == old(self).consecutive_fails(),
            final(self).blank_frames() == old(self).blank_frames(),
            final(self).fallback() == old(self).fallback(),
            old(self).video_packets() < old(self).max_packets() ==> {
                &&& res is Ok
                &&& final(self).video_packets() == old(self).video_packets() + 1
                &&& !final(self).got_frame()
            },
            old(self).video_packets() == old(self).max_packets() ==> {
                &&& res == Err::<(), VideoFrameError>(VideoFrameError::PacketBudgetExhausted)
                &&& final(self).video_packets() == old(self).video_packets()
                &&& final(self).got_frame() == old(self).got_frame()
            },
    {
        if self.video_packets >= self.max_packets {
            return Err(VideoFrameError::PacketBudgetExhausted);
        }
        self.video_packets = self.video_packets + 1;
        self.got_frame = false;
        Ok(())
    }

    /// The decoder refused the packet: one more consecutive failure.
    pub fn on_send_failed(&mut self) -> (res: Result<(), VideoFrameError>)
        requires
            old(self).wf(),
        ensures
            final(self).wf(),
            final(self).max_packets() == old(self).max_packets(),
            final(self).video_packets() == old(self).video_packets(),
            final(self).blank_frames() == old(self).blank_frames(),
            final(self).got_frame() == old(self).got_frame(),
            final(self).fallback() == old(self).fallback(),
            old(self).consecutive_fails() + 1 < MAX_DECODE_FAILS ==> {
                &&& res is Ok
                &&& final(self).consecutive_fails() == old(self).consecutive_fails() + 1
            },
            old(self).consecutive_fails() + 1 >= MAX_DECODE_FAILS ==> {
                &&& res == Err::<(), VideoFrameError>(VideoFrameError::ConsecutiveDecodeFailures)
                &&& final(self).consecutive_fails() == old(self).consecutive_fails()
            },
    {
        if self.consecutive_fails + 1 >= MAX_DECODE_FAILS {
            return Err(VideoFrameError::ConsecutiveDecodeFailures);
        }
        self.consecutive_fails = self.consecutive_fails + 1;
        Ok(())
    }

    /// The decoder handed out a frame: the failure streak ends.
    pub fn on_frame_received(&mut self)
        requires
            old(self).wf(),
        ensures
            final(self).wf(),
            final(self).max_packets() == old(self).max_packets(),
            final(self).video_packets() == old(self).video_packets(),
            final(self).blank_frames() == old(self).blank_frames(),
            final(self).fallback() == old(self).fallback(),
            final(self).got_frame(),
            final(self).consecutive_fails() == 0,
    {
        self.got_frame = true;
        self.consecutive_fails = 0;
    }

    /// A frame was converted to an image: a non-blank one is the answer; a
    /// blank one becomes the fallback, and is the answer itself once the
    /// blank-frame limit is reached. `None` means: keep decoding.
    pub fn on_image(&mut self, img: T, blank: bool) -> (res: Option<T>)
        requires
            old(self).wf(),
        ensures
            final(self).wf(),
            final(self).max_packets() == old(self).max_packets(),
            final(self).video_packets() == old(self).video_packets(),
            final(self).consecutive_fails() == old(self).consecutive_fails(),
            final(self).got_frame() == old(self).got_frame(),
            !blank ==> res == Some(img) && final(self).blank_frames() == old(self).blank_frames()
                && final(self).fallback() == old(self).fallback(),
            blank && old(self).blank_frames() + 1 < MAX_BLANK_FRAMES ==> res is None
                && final(self).blank_frames() == old(self).blank_frames() + 1 && final(self).fallback()
                == Some(img),
            blank && old(self).blank_frames() + 1 >= MAX_BLANK_FRAMES ==> res == Some(img)
                && final(self).blank_frames() == old(self).blank_frames() && final(self).fallback() is None,
    {
        if !blank {
            return Some(img);
        }
        if self.blank_frames + 1 < MAX_BLANK_FRAMES {
            self.blank_frames = self.blank_frames + 1;
            self.blank_fallback = Some(img);
            None
        } else {
            self.blank_fallback = None;
            Some(img)
        }
    }

    /// The decoder has no more frames for the current packet: a packet that
    /// yielded none counts as a failure.
    pub fn on_packet_drained(&mut self) -> (res: Result<(), VideoFrameError>)
        requires
            old(self).wf(),
        ensures
            final(self).wf(),
            final(self).max_packets() == old(self).max_packets(),
            final(self).video_packets() == old(self).video_packets(),
            final(self).blank_frames() == old(self).blank_frames(),
            final(self).got_frame() == old(self).got_frame(),
            final(self).fallback() == old(self).fallback(),
            old(self).got_frame() ==> res is Ok && final(self).consecutive_fails() == old(self).consecutive_fails(),
            !old(self).got_frame() && old(self).consecutive_fails() + 1 < MAX_DECODE_FAILS ==> res is Ok
                && final(self).consecutive_fails() == old(self).consecutive_fails() + 1,
            !old(self).got_frame() && old(self).consecutive_fails() + 1 >= MAX_DECODE_FAILS ==> res
                == Err::<(), VideoFrameError>(VideoFrameError::ConsecutiveDecodeFailures)
                && final(self).consecutive_fails() == old(self).consecutive_fails(),
    {
        if self.got_frame {
            return Ok(());
        }
        self.on_send_failed()
    }

    /// The stream ended: the blank fallback if there is one, else no frame.
    pub fn finish(self) -> (res: Result<T, VideoFrameError>)
        ensures
            self.fallback() matches Some(img) ==> res == Ok::<T, VideoFrameError>(img),
            self.fallback() is None ==> res == Err::<T, VideoFrameError>(VideoFrameError::NoFrame),
    {
        match self.blank_fallback {
            Some(img) => Ok(img),
            None => Err(VideoFrameError::NoFrame),
        }
    }
}

/// Every step of a search keeps its counters within their limits; in
/// particular no more than the budget of video packets is ever accepted,
/// since accepting one needs `video_packets < max_packets`.
pub proof fn lemma_budget_caps_packets<T>(s: FrameSearch<T>)
    requires
        s.wf(),
    ensures
        s.video_packets() <= MAX_VIDEO_PACKETS_AFTER_SEEK,
        s.consecutive_fails() < MAX_DECODE_FAILS,
        s.blank_frames() < MAX_BLANK_FRAMES,
{
}

// ----- RGB24 planes -----

/// The first `row_len` bytes of each of the first `rows` rows of a plane
/// whose rows start `stride` bytes apart, concatenated.
pub open spec fn packed_rows(data: Seq<u8>, stride: int, row_len: int, rows: nat) -> Seq<u8>
    decreases rows,
{
    if rows == 0 {
        Seq::empty()
    } else {
        let start = (rows - 1) * stride;
        packed_rows(data, stride, row_len, (rows - 1) as nat) + data.subrange(start, start + row_len)
    }
}

pub proof fn lemma_packed_rows_len(data: Seq<u8>, stride: int, row_len: int, rows: nat)
    requires
        row_len >= 0,
        rows == 0 || (rows - 1) * stride + row_len <= data.len(),
        stride >= 0,
    ensures
        packed_rows(data, stride, row_len, rows).len() == rows * row_len,
    decreases rows,
{
    if rows > 0 {
        if rows > 1 {
            assert((rows - 2) * stride + row_len <= (rows - 1) * stride + row_len) by (nonlinear_arith)
                requires
                    rows >= 2,
                    stride >= 0,
            ;
        }
        lemma_packed_rows_len(data, stride, row_len, (rows - 1) as nat);
        assert((rows - 1) * row_len + row_len == rows * row_len) by (nonlinear_arith);
    }
}

/// Copies the visible `3 * width` bytes of each of the `height` rows of an
/// RGB24 plane whose rows are `stride` bytes apart into one tight buffer.
pub fn pack_rgb_rows(data: &[u8], stride: usize, width: u32, height: u32) -> (pixels: Vec<u8>)
    requires
        height == 0 || (height - 1) * stride + 3 * width <= data@.len(),
    ensures
        pixels@ == packed_rows(data@, stride as int, 3 * width, height as nat),
{
    let mut pixels: Vec<u8> = Vec::new();
    if height == 0 {
        return pixels;
    }
    let n = data.len();
    let row_len: usize = 3 * (width as usize);
    let mut start: usize = 0;
    let mut row: u32 = 0;
    while row < height
        invariant
            0 < height,
            row <= height,
            row_len == 3 * width,
            n == data@.len(),
            (height - 1) * stride + row_len <= data@.len(),
            row < height ==> start == row * stride,
            pixels@ == packed_rows(data@, stride as int, row_len as int, row as nat),
        decreases height - row,
    {
        assert(row * stride <= (height - 1) * stride) by (nonlinear_arith)
            requires
                row < height,
        ;
        let ghost before = pixels@;
        let mut k: usize = 0;
        while k < row_len
            invariant
                k <= row_len,
                n == data@.len(),
                start + row_len <= data@.len(),
                pixels@ == before + data@.subrange(start as int, start + k),
            decreases row_len - k,
        {
            pixels.push(data[start + k]);
            assert(data@.subrange(start as int, start + k + 1) =~= data@.subrange(start as int, start + k).push(data@[start + k]));
            k = k + 1;
        }
        if row + 1 < height {
            assert((row + 1) * stride == row * stride + stride) by (nonlinear_arith);
            assert(row * stride + stride <= (height - 1) * stride) by (nonlinear_arith)
                requires
                    row + 1 < height,
            ;
            start = start + stride;
        }
        row = row + 1;
    }
    pixels
}

/// Packs an RGB24 plane into an image of `width` x `height` whose bytes are
/// the visible part of each row, in order.
pub fn rgb_video_to_dynamic(data: &[u8], stride: usize, width: u32, height: u32) -> (res: Option<DynamicImage>)
    requires
        height == 0 || (height - 1) * stride + 3 * width <= data@.len(),
    ensures
        res matches Some(img) && image_bytes(img) == packed_rows(data@, stride as int, 3 * width, height as nat)
            && image_size(img) == (width, height) && image_is_rgb8(img),
{
    let pixels = pack_rgb_rows(data, stride, width, height);
    proof {
        lemma_packed_rows_len(data@, stride as int, 3 * width, height as nat);
        assert(3 * width * height == height * (3 * width)) by (nonlinear_arith);
    }
    rgb8_image_from_raw(width, height, pixels)
}

/// An RGB24 image of `width` x `height` from the first `3 * width * height`
/// bytes of `buf`; `None` when `buf` is shorter than that.
pub fn frame_to_rgb8(width: u32, height: u32, buf: &[u8]) -> (res: Option<DynamicImage>)
    ensures
        res is Some <==> 3 * width * height <= buf@.len(),
        res matches Some(img) ==> image_size(img) == (width, height) && image_is_rgb8(img) && image_bytes(img)
            == buf@.subrange(0, 3 * width * height),
{
    let n = buf.len();
    let w = width as u64;
    let h = height as u64;
    assert(w * h <= 0xffff_fffe_0000_0001u64) by (nonlinear_arith)
        requires
            w <= 0xffff_ffffu64,
            h <= 0xffff_ffffu64,
    ;
    let area: u64 = w * h;
    assert(3 * width * height == 3 * (w * h)) by (nonlinear_arith)
        requires
            w == width,
            h == height,
    ;
    if area > (n as u64) / 3 {
        return None;
    }
    let expected: usize = 3 * (area as usize);
    let mut prefix: Vec<u8> = Vec::new();
    let mut k: usize = 0;
    while k < expected
        invariant
            k <= expected,
            expected <= buf@.len(),
            prefix@ == buf@.subrange(0, k as int),
        decreases expected - k,
    {
        prefix.push(buf[k]);
        assert(buf@.subrange(0, k + 1) =~= buf@.subrange(0, k as int).push(buf@[k as int]));
        k = k + 1;
    }
    rgb8_image_from_raw(width, height, prefix)
}

// ----- file type -----

pub open spec fn ascii_eq_ignore_case(b: u8, lower: u8) -> bool {
    b == lower || b + 32 == lower
}

/// The extension is `swf` ignoring ASCII case, as `str::eq_ignore_ascii_case`
/// compares it.
pub open spec fn spec_is_swf(extension: Option<Seq<u8>>) -> bool {
    match extension {
        Some(e) => e.len() == 3 && ascii_eq_ignore_case(e[0], 0x73u8) && ascii_eq_ignore_case(e[1], 0x77u8)
            && ascii_eq_ignore_case(e[2], 0x66u8),
        None => false,
    }
}

pub open spec fn opt_bytes(extension: Option<&str>) -> Option<Seq<u8>> {
    match extension {
        Some(e) => Some(e.spec_bytes()),
        None => None,
    }
}

fn eq_ignore_case(b: u8, lower: u8) -> (r: bool)
    requires
        lower >= 32,
    ensures
        r == ascii_eq_ignore_case(b, lower),
{
    b == lower || (b as u16) + 32 == lower as u16
}

/// Whether a file is Flash (SWF), given its extension as
/// `Path::extension` reads it (`None` when it has none or it is not UTF-8).
pub fn is_swf(extension: Option<&str>) -> (r: bool)
    ensures
        r == spec_is_swf(opt_bytes(extension)),
{
    match extension {
        Some(e) => {
            let b = e.as_bytes();
            b.len() == 3 && eq_ignore_case(b[0], 0x73u8) && eq_ignore_case(b[1], 0x77u8) && eq_ignore_case(
                b[2],
                0x66u8,
            )
        },
        None => false,
    }
}

} // verus!
