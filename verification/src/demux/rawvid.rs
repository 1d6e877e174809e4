use vstd::prelude::*;
use crate::error::{Failure, MuxError, fails_as, import_error, is_import_error, is_import_error_with, overflow};
use crate::sample::StagedSample;
use crate::text::{find_byte_from, find_from, lemma_find_from_found};
use crate::demux::raw_visual::{UncvPixelLayout, build_uncv_sample_entry_box, uncv_sample_entry};

verus! {

/// Pixel formats a headerless raw-video input can declare.
#[derive(Clone, Copy, Debug, PartialEq, Eq, Structural)]
pub enum MuxRawVideoPixelFormat {
    Yuv420p8,
    Yvu420p8,
    Yuv420p10,
    Yuv422p8,
    Yuv422p10,
    Yuv444p8,
    Yuv444p10,
    Yuva420p8,
    Yuvd420p8,
    Yuva444p8,
    Nv12p8,
    Nv21p8,
    Nv12p10,
    Nv21p10,
    Uyvy422p8,
    Vyuy422p8,
    Yuyv422p8,
    Yvyu422p8,
    Uyvy422p10,
    Vyuy422p10,
    Yuyv422p10,
    Yvyu422p10,
    Yuv444Packed8,
    Vyu444Packed8,
    Yuva444Packed8,
    Uyva444Packed8,
    Yuv444Packed10,
    V210,
    Grey8,
    AlphaGrey8,
    GreyAlpha8,
    Rgb332,
    Rgb444,
    Rgb555,
    Rgb565,
    Rgb24,
    Bgr24,
    Rgbx32,
    Bgrx32,
    Xrgb32,
    Xbgr32,
    Argb32,
    Rgba32,
    Bgra32,
    Abgr32,
    Rgbd32,
    Rgbds32,
}

/// The parameters a headerless raw-video input is described by.
#[derive(Clone, Copy, Debug, PartialEq, Eq)]
pub struct MuxRawVideoParams {
    pub width: u32,
    pub height: u32,
    pub fps_num: u32,
    pub fps_den: u32,
    pub pixel_format: MuxRawVideoPixelFormat,
}

impl MuxRawVideoParams {
    pub fn width(&self) -> (r: u32)
        ensures
            r == self.width,
    {
        self.width
    }

    pub fn height(&self) -> (r: u32)
        ensures
            r == self.height,
    {
        self.height
    }

    pub fn fps_num(&self) -> (r: u32)
        ensures
            r == self.fps_num,
    {
        self.fps_num
    }

    pub fn fps_den(&self) -> (r: u32)
        ensures
            r == self.fps_den,
    {
        self.fps_den
    }

    pub fn pixel_format(&self) -> (r: MuxRawVideoPixelFormat)
        ensures
            r == self.pixel_format,
    {
        self.pixel_format
    }
}

/// A raw-video track ready for staging: every frame is one sync sample.
pub struct ParsedRawVideoTrack {
    pub width: u16,
    pub height: u16,
    pub timescale: u32,
    pub sample_entry_box: Vec<u8>,
    pub samples: Vec<StagedSample>,
}

/// `ceil(x / 2)`.
pub open spec fn ceil_half(x: int) -> int {
    (x + 1) / 2
}

/// The smallest multiple of 48 that is at least `w` (the v210 line alignment).
pub open spec fn v210_padded_width(w: int) -> int {
    ((w + 47) / 48) * 48
}

/// Size in bytes of one frame of `layout` at `w` x `h`, over unbounded integers.
pub open spec fn frame_size_value(w: int, h: int, layout: UncvPixelLayout) -> int {
    match layout {
        UncvPixelLayout::Grey8 | UncvPixelLayout::Rgb332 => w * h,
        UncvPixelLayout::AlphaGrey8 | UncvPixelLayout::GreyAlpha8 | UncvPixelLayout::Rgb444
        | UncvPixelLayout::Rgb555 | UncvPixelLayout::Rgb565 | UncvPixelLayout::Uyvy422p8
        | UncvPixelLayout::Vyuy422p8 | UncvPixelLayout::Yuyv422p8
        | UncvPixelLayout::Yvyu422p8 => w * h * 2,
        UncvPixelLayout::Rgb24 | UncvPixelLayout::Bgr24 | UncvPixelLayout::Yuv444p8
        | UncvPixelLayout::Vyu444Packed8 | UncvPixelLayout::Yuv444Packed8 => w * h * 3,
        UncvPixelLayout::Yuv420p8 | UncvPixelLayout::Yvu420p8 => w * h + ceil_half(w) * ceil_half(h) * 2,
        UncvPixelLayout::Yuva420p8 | UncvPixelLayout::Yuvd420p8 => w * h * 2 + ceil_half(w) * ceil_half(h) * 2,
        UncvPixelLayout::Yuv420p10 => (w * 2) * h + w * ceil_half(h) * 2,
        UncvPixelLayout::Yuv422p8 => w * h + ceil_half(w) * h * 2,
        UncvPixelLayout::Yuv422p10 => (w * 2) * h + w * h * 2,
        UncvPixelLayout::Yuv444p10 => (w * 2) * (h * 3),
        UncvPixelLayout::Nv12p8 | UncvPixelLayout::Nv21p8 => (w * h * 3) / 2,
        UncvPixelLayout::Nv12p10 | UncvPixelLayout::Nv21p10 => ((w * 2) * h * 3) / 2,
        UncvPixelLayout::V210 => ((v210_padded_width(w) * 16) / 6) * h,
        _ => w * h * 4,
    }
}

/// Whether every intermediate of the frame-size computation fits in 64 bits.
pub open spec fn frame_size_fits(w: int, h: int, layout: UncvPixelLayout) -> bool {
    match layout {
        UncvPixelLayout::Nv12p8 | UncvPixelLayout::Nv21p8 => w * h * 3 <= u64::MAX,
        UncvPixelLayout::Nv12p10 | UncvPixelLayout::Nv21p10 => (w * 2) * h * 3 <= u64::MAX,
        _ => frame_size_value(w, h, layout) <= u64::MAX,
    }
}

/// The uncompressed-video layout a raw-video pixel format is carried as (one for one).
pub open spec fn spec_layout_from_pixel_format(pixel_format: MuxRawVideoPixelFormat) -> UncvPixelLayout {
    match pixel_format {
        MuxRawVideoPixelFormat::Yuv420p8 => UncvPixelLayout::Yuv420p8,
        MuxRawVideoPixelFormat::Yvu420p8 => UncvPixelLayout::Yvu420p8,
        MuxRawVideoPixelFormat::Yuv420p10 => UncvPixelLayout::Yuv420p10,
        MuxRawVideoPixelFormat::Yuv422p8 => UncvPixelLayout::Yuv422p8,
        MuxRawVideoPixelFormat::Yuv422p10 => UncvPixelLayout::Yuv422p10,
        MuxRawVideoPixelFormat::Yuv444p8 => UncvPixelLayout::Yuv444p8,
        MuxRawVideoPixelFormat::Yuv444p10 => UncvPixelLayout::Yuv444p10,
        MuxRawVideoPixelFormat::Yuva420p8 => UncvPixelLayout::Yuva420p8,
        MuxRawVideoPixelFormat::Yuvd420p8 => UncvPixelLayout::Yuvd420p8,
        MuxRawVideoPixelFormat::Yuva444p8 => UncvPixelLayout::Yuva444p8,
        MuxRawVideoPixelFormat::Nv12p8 => UncvPixelLayout::Nv12p8,
        MuxRawVideoPixelFormat::Nv21p8 => UncvPixelLayout::Nv21p8,
        MuxRawVideoPixelFormat::Nv12p10 => UncvPixelLayout::Nv12p10,
        MuxRawVideoPixelFormat::Nv21p10 => UncvPixelLayout::Nv21p10,
        MuxRawVideoPixelFormat::Uyvy422p8 => UncvPixelLayout::Uyvy422p8,
        MuxRawVideoPixelFormat::Vyuy422p8 => UncvPixelLayout::Vyuy422p8,
        MuxRawVideoPixelFormat::Yuyv422p8 => UncvPixelLayout::Yuyv422p8,
        MuxRawVideoPixelFormat::Yvyu422p8 => UncvPixelLayout::Yvyu422p8,
        MuxRawVideoPixelFormat::Uyvy422p10 => UncvPixelLayout::Uyvy422p10,
        MuxRawVideoPixelFormat::Vyuy422p10 => UncvPixelLayout::Vyuy422p10,
        MuxRawVideoPixelFormat::Yuyv422p10 => UncvPixelLayout::Yuyv422p10,
        MuxRawVideoPixelFormat::Yvyu422p10 => UncvPixelLayout::Yvyu422p10,
        MuxRawVideoPixelFormat::Yuv444Packed8 => UncvPixelLayout::Yuv444Packed8,
        MuxRawVideoPixelFormat::Vyu444Packed8 => UncvPixelLayout::Vyu444Packed8,
        MuxRawVideoPixelFormat::Yuva444Packed8 => UncvPixelLayout::Yuva444Packed8,
        MuxRawVideoPixelFormat::Uyva444Packed8 => UncvPixelLayout::Uyva444Packed8,
        MuxRawVideoPixelFormat::Yuv444Packed10 => UncvPixelLayout::Yuv444Packed10,
        MuxRawVideoPixelFormat::V210 => UncvPixelLayout::V210,
        MuxRawVideoPixelFormat::Grey8 => UncvPixelLayout::Grey8,
        MuxRawVideoPixelFormat::AlphaGrey8 => UncvPixelLayout::AlphaGrey8,
        MuxRawVideoPixelFormat::GreyAlpha8 => UncvPixelLayout::GreyAlpha8,
        MuxRawVideoPixelFormat::Rgb332 => UncvPixelLayout::Rgb332,
        MuxRawVideoPixelFormat::Rgb444 => UncvPixelLayout::Rgb444,
        MuxRawVideoPixelFormat::Rgb555 => UncvPixelLayout::Rgb555,
        MuxRawVideoPixelFormat::Rgb565 => UncvPixelLayout::Rgb565,
        MuxRawVideoPixelFormat::Rgb24 => UncvPixelLayout::Rgb24,
        MuxRawVideoPixelFormat::Bgr24 => UncvPixelLayout::Bgr24,
        MuxRawVideoPixelFormat::Rgbx32 => UncvPixelLayout::Rgbx32,
        MuxRawVideoPixelFormat::Bgrx32 => UncvPixelLayout::Bgrx32,
        MuxRawVideoPixelFormat::Xrgb32 => UncvPixelLayout::Xrgb32,
        MuxRawVideoPixelFormat::Xbgr32 => UncvPixelLayout::Xbgr32,
        MuxRawVideoPixelFormat::Argb32 => UncvPixelLayout::Argb32,
        MuxRawVideoPixelFormat::Rgba32 => UncvPixelLayout::Rgba32,
        MuxRawVideoPixelFormat::Bgra32 => UncvPixelLayout::Bgra32,
        MuxRawVideoPixelFormat::Abgr32 => UncvPixelLayout::Abgr32,
        MuxRawVideoPixelFormat::Rgbd32 => UncvPixelLayout::Rgbd32,
        MuxRawVideoPixelFormat::Rgbds32 => UncvPixelLayout::Rgbds32,
    }
}

/// Maps a raw-video pixel format onto its uncompressed-video layout.
pub fn layout_from_raw_video_pixel_format(pixel_format: MuxRawVideoPixelFormat) -> (r: UncvPixelLayout)
    ensures
        r == spec_layout_from_pixel_format(pixel_format),
{
    match pixel_format {
        MuxRawVideoPixelFormat::Yuv420p8 => UncvPixelLayout::Yuv420p8,
        MuxRawVideoPixelFormat::Yvu420p8 => UncvPixelLayout::Yvu420p8,
        MuxRawVideoPixelFormat::Yuv420p10 => UncvPixelLayout::Yuv420p10,
        MuxRawVideoPixelFormat::Yuv422p8 => UncvPixelLayout::Yuv422p8,
        MuxRawVideoPixelFormat::Yuv422p10 => UncvPixelLayout::Yuv422p10,
        MuxRawVideoPixelFormat::Yuv444p8 => UncvPixelLayout::Yuv444p8,
        MuxRawVideoPixelFormat::Yuv444p10 => UncvPixelLayout::Yuv444p10,
        MuxRawVideoPixelFormat::Yuva420p8 => UncvPixelLayout::Yuva420p8,
        MuxRawVideoPixelFormat::Yuvd420p8 => UncvPixelLayout::Yuvd420p8,
        MuxRawVideoPixelFormat::Yuva444p8 => UncvPixelLayout::Yuva444p8,
        MuxRawVideoPixelFormat::Nv12p8 => UncvPixelLayout::Nv12p8,
        MuxRawVideoPixelFormat::Nv21p8 => UncvPixelLayout::Nv21p8,
        MuxRawVideoPixelFormat::Nv12p10 => UncvPixelLayout::Nv12p10,
        MuxRawVideoPixelFormat::Nv21p10 => UncvPixelLayout::Nv21p10,
        MuxRawVideoPixelFormat::Uyvy422p8 => UncvPixelLayout::Uyvy422p8,
        MuxRawVideoPixelFormat::Vyuy422p8 => UncvPixelLayout::Vyuy422p8,
        MuxRawVideoPixelFormat::Yuyv422p8 => UncvPixelLayout::Yuyv422p8,
        MuxRawVideoPixelFormat::Yvyu422p8 => UncvPixelLayout::Yvyu422p8,
        MuxRawVideoPixelFormat::Uyvy422p10 => UncvPixelLayout::Uyvy422p10,
        MuxRawVideoPixelFormat::Vyuy422p10 => UncvPixelLayout::Vyuy422p10,
        MuxRawVideoPixelFormat::Yuyv422p10 => UncvPixelLayout::Yuyv422p10,
        MuxRawVideoPixelFormat::Yvyu422p10 => UncvPixelLayout::Yvyu422p10,
        MuxRawVideoPixelFormat::Yuv444Packed8 => UncvPixelLayout::Yuv444Packed8,
        MuxRawVideoPixelFormat::Vyu444Packed8 => UncvPixelLayout::Vyu444Packed8,
        MuxRawVideoPixelFormat::Yuva444Packed8 => UncvPixelLayout::Yuva444Packed8,
        MuxRawVideoPixelFormat::Uyva444Packed8 => UncvPixelLayout::Uyva444Packed8,
        MuxRawVideoPixelFormat::Yuv444Packed10 => UncvPixelLayout::Yuv444Packed10,
        MuxRawVideoPixelFormat::V210 => UncvPixelLayout::V210,
        MuxRawVideoPixelFormat::Grey8 => UncvPixelLayout::Grey8,
        MuxRawVideoPixelFormat::AlphaGrey8 => UncvPixelLayout::AlphaGrey8,
        MuxRawVideoPixelFormat::GreyAlpha8 => UncvPixelLayout::GreyAlpha8,
        MuxRawVideoPixelFormat::Rgb332 => UncvPixelLayout::Rgb332,
        MuxRawVideoPixelFormat::Rgb444 => UncvPixelLayout::Rgb444,
        MuxRawVideoPixelFormat::Rgb555 => UncvPixelLayout::Rgb555,
        MuxRawVideoPixelFormat::Rgb565 => UncvPixelLayout::Rgb565,
        MuxRawVideoPixelFormat::Rgb24 => UncvPixelLayout::Rgb24,
        MuxRawVideoPixelFormat::Bgr24 => UncvPixelLayout::Bgr24,
        MuxRawVideoPixelFormat::Rgbx32 => UncvPixelLayout::Rgbx32,
        MuxRawVideoPixelFormat::Bgrx32 => UncvPixelLayout::Bgrx32,
        MuxRawVideoPixelFormat::Xrgb32 => UncvPixelLayout::Xrgb32,
        MuxRawVideoPixelFormat::Xbgr32 => UncvPixelLayout::Xbgr32,
        MuxRawVideoPixelFormat::Argb32 => UncvPixelLayout::Argb32,
        MuxRawVideoPixelFormat::Rgba32 => UncvPixelLayout::Rgba32,
        MuxRawVideoPixelFormat::Bgra32 => UncvPixelLayout::Bgra32,
        MuxRawVideoPixelFormat::Abgr32 => UncvPixelLayout::Abgr32,
        MuxRawVideoPixelFormat::Rgbd32 => UncvPixelLayout::Rgbd32,
        MuxRawVideoPixelFormat::Rgbds32 => UncvPixelLayout::Rgbds32,
    }
}

/// Layouts for which raw-video imports also write the QuickTime-style `pasp` and `colr`
/// defaults.
pub open spec fn spec_uses_qt_yuv_defaults(layout: UncvPixelLayout) -> bool {
    match layout {
        UncvPixelLayout::Yuv420p8 | UncvPixelLayout::Uyvy422p8 | UncvPixelLayout::Yuyv422p8
        | UncvPixelLayout::Yvyu422p8 | UncvPixelLayout::Uyvy422p10 | UncvPixelLayout::Vyu444Packed8
        | UncvPixelLayout::Uyva444Packed8 | UncvPixelLayout::Yuv444Packed10
        | UncvPixelLayout::V210 => true,
        _ => false,
    }
}

/// Whether a raw-video import of `layout` writes the QuickTime-style defaults.
pub fn rawvideo_uses_qt_yuv_defaults(layout: UncvPixelLayout) -> (r: bool)
    ensures
        r == spec_uses_qt_yuv_defaults(layout),
{
    match layout {
        UncvPixelLayout::Yuv420p8 | UncvPixelLayout::Uyvy422p8 | UncvPixelLayout::Yuyv422p8
        | UncvPixelLayout::Yvyu422p8 | UncvPixelLayout::Uyvy422p10 | UncvPixelLayout::Vyu444Packed8
        | UncvPixelLayout::Uyva444Packed8 | UncvPixelLayout::Yuv444Packed10
        | UncvPixelLayout::V210 => true,
        _ => false,
    }
}

/// Y4M chroma carriage constraints: 4:2:0 needs even width and height, 4:2:2 an even width.
pub open spec fn y4m_dimensions_ok(width: u32, height: u32, layout: UncvPixelLayout) -> bool {
    match layout {
        UncvPixelLayout::Yuv420p8 => width % 2 == 0 && height % 2 == 0,
        UncvPixelLayout::Yuv422p8 => width % 2 == 0,
        _ => true,
    }
}

/// Checks the Y4M chroma carriage constraints.
pub fn validate_y4m_dimensions(spec: &str, width: u32, height: u32, layout: UncvPixelLayout) -> (r: Result<(), MuxError>)
    ensures
        r is Ok <==> y4m_dimensions_ok(width, height, layout),
        r matches Err(e) ==> is_import_error(e, spec@),
{
    match layout {
        UncvPixelLayout::Yuv420p8 => {
            if !width.is_multiple_of(2) || !height.is_multiple_of(2) {
                return Err(invalid_y4m(spec, "Y4M 4:2:0 carriage requires even width and even height"));
            }
        },
        UncvPixelLayout::Yuv422p8 => {
            if !width.is_multiple_of(2) {
                return Err(invalid_y4m(spec, "Y4M 4:2:2 carriage requires an even width"));
            }
        },
        _ => {},
    }
    Ok(())
}

/// Raw-video inputs carry no chroma carriage constraint: every dimension is accepted.
pub fn validate_raw_video_dimensions(_spec: &str, _width: u32, _height: u32, _layout: UncvPixelLayout) -> (r: Result<(), MuxError>)
    ensures
        r is Ok,
{
    Ok(())
}

/// Wraps the staged Y4M frames into a track; a stream without frames is rejected.
pub fn finalize_y4m_track(
    spec: &str,
    width: u16,
    height: u16,
    timescale: u32,
    sample_entry_box: Vec<u8>,
    samples: Vec<StagedSample>,
) -> (r: Result<ParsedRawVideoTrack, MuxError>)
    ensures
        r is Ok <==> samples@.len() > 0,
        r matches Ok(t) ==> t.width == width && t.height == height && t.timescale == timescale
            && t.sample_entry_box@ == sample_entry_box@ && t.samples@ == samples@,
        r matches Err(e) ==> is_import_error(e, spec@),
{
    if samples.len() == 0 {
        return Err(invalid_y4m(spec, "Y4M input did not carry any FRAME payloads"));
    }
    Ok(ParsedRawVideoTrack { width, height, timescale, sample_entry_box, samples })
}

/// The frames of a headerless raw-video input of `count` frames of `size` bytes.
pub open spec fn raw_video_samples(count: nat, size: u32, duration: u32) -> Seq<StagedSample> {
    Seq::new(count, |k: int| StagedSample {
        data_offset: (k * size) as u64,
        data_size: size,
        duration: duration,
        composition_time_offset: 0,
        is_sync_sample: true,
    })
}

/// How a headerless raw-video input of `file_size` bytes is imported: the frame size and the
/// dimensions, or how it fails.
pub open spec fn raw_video_outcome(file_size: u64, params: MuxRawVideoParams) -> Result<(u64, u16, u16), Failure> {
    let layout = spec_layout_from_pixel_format(params.pixel_format);
    let w = params.width as int;
    let h = params.height as int;
    let size = frame_size_value(w, h, layout);
    if !frame_size_fits(w, h, layout) {
        Err(Failure::Overflow)
    } else if size > u32::MAX {
        Err(Failure::Overflow)
    } else if params.width > u16::MAX || params.height > u16::MAX {
        Err(Failure::Rejected)
    } else if file_size == 0 {
        Err(Failure::Rejected)
    } else if size == 0 || file_size % (size as u64) != 0 {
        Err(Failure::Rejected)
    } else if file_size / (size as u64) > usize::MAX {
        Err(Failure::Overflow)
    } else {
        Ok((size as u64, params.width as u16, params.height as u16))
    }
}

/// Splits a headerless raw-video input of `file_size` bytes into frames of the declared size.
pub fn parse_raw_video_size(spec: &str, file_size: u64, params: &MuxRawVideoParams) -> (r: Result<ParsedRawVideoTrack, MuxError>)
    ensures
        match raw_video_outcome(file_size, *params) {
            Ok((frame_size, width, height)) => r matches Ok(t) && {
                let layout = spec_layout_from_pixel_format(params.pixel_format);
                let qt = spec_uses_qt_yuv_defaults(layout);
                &&& t.width == width && t.height == height
                &&& t.timescale == params.fps_num
                &&& t.sample_entry_box@ == uncv_sample_entry(width, height, layout, qt, qt)
                &&& t.samples@ == raw_video_samples((file_size / frame_size) as nat, frame_size as u32, params.fps_den)
            },
            Err(f) => r matches Err(e) && fails_as(e, f, spec@),
        },
{
    let layout = layout_from_raw_video_pixel_format(params.pixel_format());
    validate_raw_video_dimensions(spec, params.width(), params.height(), layout)?;
    let frame_size = y4m_frame_size(params.width(), params.height(), layout)?;
    if frame_size > 0xFFFF_FFFF {
        return Err(overflow("rawvideo frame size exceeds MP4 sample limits"));
    }
    let frame_size_u32 = frame_size as u32;
    if params.width() > 0xFFFF {
        return Err(invalid_raw_video(spec, "rawvideo width does not fit in an MP4 visual sample entry"));
    }
    let width_u16 = params.width() as u16;
    if params.height() > 0xFFFF {
        return Err(invalid_raw_video(spec, "rawvideo height does not fit in an MP4 visual sample entry"));
    }
    let height_u16 = params.height() as u16;
    if file_size == 0 {
        return Err(invalid_raw_video(spec, "rawvideo input did not carry any frame payload bytes"));
    }
    if !file_size.is_multiple_of(frame_size) {
        return Err(invalid_raw_video(
            spec,
            "rawvideo input length is not an exact multiple of the declared frame size",
        ));
    }
    let frame_count = file_size / frame_size;
    if frame_count > usize::MAX as u64 {
        return Err(overflow("rawvideo sample count"));
    }
    let sample_count = frame_count as usize;
    let mut samples: Vec<StagedSample> = Vec::new();
    let mut offset: u64 = 0;
    let mut k: usize = 0;
    let ghost fs = frame_size as int;
    while k < sample_count
        invariant
            k <= sample_count,
            sample_count as int == file_size as int / fs,
            fs > 0,
            fs <= u32::MAX,
            frame_size_u32 == fs,
            frame_size == fs,
            offset as int == k as int * fs,
            samples@ == raw_video_samples(k as nat, frame_size_u32, params.fps_den),
        decreases sample_count - k,
    {
        samples.push(StagedSample {
            data_offset: offset,
            data_size: frame_size_u32,
            duration: params.fps_den(),
            composition_time_offset: 0,
            is_sync_sample: true,
        });
        proof {
            assert((k as int + 1) * fs <= file_size) by (nonlinear_arith)
                requires
                    k < sample_count,
                    sample_count as int == file_size as int / fs,
                    fs > 0,
            ;
            assert((k as int + 1) * fs == k as int * fs + fs) by (nonlinear_arith);
        }
        offset = checked_add(offset, frame_size, "rawvideo sample offset")?;
        k = k + 1;
        assert(samples@ =~= raw_video_samples(k as nat, frame_size_u32, params.fps_den));
    }
    let include_qt_raw_yuv_defaults = rawvideo_uses_qt_yuv_defaults(layout);
    let sample_entry_box = match build_uncv_sample_entry_box(
        width_u16,
        height_u16,
        layout,
        include_qt_raw_yuv_defaults,
        include_qt_raw_yuv_defaults,
    ) {
        Ok(b) => b,
        Err(e) => return Err(e),
    };
    Ok(ParsedRawVideoTrack {
        width: width_u16,
        height: height_u16,
        timescale: params.fps_num(),
        sample_entry_box,
        samples,
    })
}

/// `lhs * rhs`, or an overflow error naming `label`.
pub fn checked_mul(lhs: u64, rhs: u64, label: &str) -> (r: Result<u64, MuxError>)
    ensures
        r is Ok <==> lhs * rhs <= u64::MAX,
        r matches Ok(v) ==> v == lhs * rhs,
        r matches Err(e) ==> e matches MuxError::LayoutOverflow(l) && l@ == label@,
{
    match lhs.checked_mul(rhs) {
        Some(v) => Ok(v),
        None => Err(overflow(label)),
    }
}

/// `lhs + rhs`, or an overflow error naming `label`.
pub fn checked_add(lhs: u64, rhs: u64, label: &str) -> (r: Result<u64, MuxError>)
    ensures
        r is Ok <==> lhs + rhs <= u64::MAX,
        r matches Ok(v) ==> v == lhs + rhs,
        r matches Err(e) ==> e matches MuxError::LayoutOverflow(l) && l@ == label@,
{
    match lhs.checked_add(rhs) {
        Some(v) => Ok(v),
        None => Err(overflow(label)),
    }
}

/// A Y4M import rejection.
pub fn invalid_y4m(spec: &str, message: &str) -> (e: MuxError)
    ensures
        is_import_error_with(e, spec@, message@),
{
    import_error(spec, message)
}

/// A raw-video import rejection.
pub fn invalid_raw_video(spec: &str, message: &str) -> (e: MuxError)
    ensures
        is_import_error_with(e, spec@, message@),
{
    import_error(spec, message)
}

proof fn lemma_mul_mono(a: int, b: int, c: int, d: int)
    requires
        0 <= a <= c,
        0 <= b <= d,
    ensures
        a * b <= c * d,
{
    assert(a * b <= c * d) by (nonlinear_arith)
        requires
            0 <= a <= c,
            0 <= b <= d,
    ;
}

/// Size in bytes of one frame of `layout` at `width` x `height`; fails when the size, or a
/// step of computing it, overflows 64 bits.
pub fn y4m_frame_size(width: u32, height: u32, layout: UncvPixelLayout) -> (r: Result<u64, MuxError>)
    ensures
        r is Ok <==> frame_size_fits(width as int, height as int, layout),
        r matches Ok(v) ==> v == frame_size_value(width as int, height as int, layout),
        r matches Err(e) ==> e is LayoutOverflow,
{
    let width = width as u64;
    let height = height as u64;
    let ghost w = width as int;
    let ghost h = height as int;
    assert(w * h <= u64::MAX) by (nonlinear_arith)
        requires
            0 <= w <= u32::MAX,
            0 <= h <= u32::MAX,
    ;
    let luma = checked_mul(width, height, "rawvideo luma plane size")?;
    match layout {
        UncvPixelLayout::Grey8 | UncvPixelLayout::Rgb332 => Ok(luma),
        UncvPixelLayout::AlphaGrey8 | UncvPixelLayout::GreyAlpha8 | UncvPixelLayout::Rgb444
        | UncvPixelLayout::Rgb555 | UncvPixelLayout::Rgb565 | UncvPixelLayout::Uyvy422p8
        | UncvPixelLayout::Vyuy422p8 | UncvPixelLayout::Yuyv422p8
        | UncvPixelLayout::Yvyu422p8 => checked_mul(luma, 2, "rawvideo frame size"),
        UncvPixelLayout::Rgb24 | UncvPixelLayout::Bgr24 | UncvPixelLayout::Yuv444p8
        | UncvPixelLayout::Vyu444Packed8
        | UncvPixelLayout::Yuv444Packed8 => checked_mul(luma, 3, "rawvideo frame size"),
        UncvPixelLayout::Rgbx32 | UncvPixelLayout::Bgrx32 | UncvPixelLayout::Xrgb32
        | UncvPixelLayout::Xbgr32 | UncvPixelLayout::Argb32 | UncvPixelLayout::Rgba32
        | UncvPixelLayout::Bgra32 | UncvPixelLayout::Abgr32 | UncvPixelLayout::Rgbd32
        | UncvPixelLayout::Rgbds32 | UncvPixelLayout::Yuva444p8 | UncvPixelLayout::Yuva444Packed8
        | UncvPixelLayout::Uyva444Packed8 | UncvPixelLayout::Yuv444Packed10
        | UncvPixelLayout::Uyvy422p10 | UncvPixelLayout::Vyuy422p10 | UncvPixelLayout::Yuyv422p10
        | UncvPixelLayout::Yvyu422p10 => checked_mul(luma, 4, "rawvideo frame size"),
        UncvPixelLayout::Yuv420p8 | UncvPixelLayout::Yvu420p8 => {
            let uv_height = (height + 1) / 2;
            let stride_uv = (width + 1) / 2;
            proof {
                lemma_mul_mono(stride_uv as int, uv_height as int, w, h);
            }
            let plane = checked_mul(stride_uv, uv_height, "rawvideo chroma plane size")?;
            let chroma = match checked_mul(plane, 2, "rawvideo 4:2:0 chroma size") {
                Ok(v) => v,
                Err(e) => return Err(e),
            };
            checked_add(luma, chroma, "rawvideo frame size")
        },
        UncvPixelLayout::Yuva420p8 | UncvPixelLayout::Yuvd420p8 => {
            let uv_height = (height + 1) / 2;
            let stride_uv = (width + 1) / 2;
            proof {
                lemma_mul_mono(stride_uv as int, uv_height as int, w, h);
            }
            let doubled = checked_mul(luma, 2, "rawvideo 4:2:0 alpha or depth luma size")?;
            let plane = checked_mul(stride_uv, uv_height, "rawvideo chroma plane size")?;
            let chroma = checked_mul(plane, 2, "rawvideo 4:2:0 chroma size")?;
            checked_add(doubled, chroma, "rawvideo frame size")
        },
        UncvPixelLayout::Yuv420p10 => {
            let stride = checked_mul(width, 2, "rawvideo 10-bit luma stride")?;
            let uv_height = (height + 1) / 2;
            let stride_uv = (stride + 1) / 2;
            assert(stride_uv == width);
            proof {
                lemma_mul_mono(w, uv_height as int, w, h);
                assert((w * 2) * h == w * h * 2) by (nonlinear_arith);
                assert(w * uv_height * 2 == (w * uv_height) * 2) by (nonlinear_arith);
            }
            let luma10 = checked_mul(stride, height, "rawvideo 10-bit luma size")?;
            let plane = checked_mul(stride_uv, uv_height, "rawvideo 10-bit chroma plane size")?;
            let chroma = checked_mul(plane, 2, "rawvideo 10-bit chroma size")?;
            checked_add(luma10, chroma, "rawvideo frame size")
        },
        UncvPixelLayout::Yuv422p8 => {
            let stride_uv = (width + 1) / 2;
            proof {
                lemma_mul_mono(stride_uv as int, h, w, h);
            }
            let plane = checked_mul(stride_uv, height, "rawvideo 4:2:2 chroma plane size")?;
            let chroma = checked_mul(plane, 2, "rawvideo 4:2:2 chroma size")?;
            checked_add(luma, chroma, "rawvideo frame size")
        },
        UncvPixelLayout::Yuv422p10 => {
            let stride = checked_mul(width, 2, "rawvideo 10-bit 4:2:2 luma stride")?;
            let stride_uv = (stride + 1) / 2;
            assert(stride_uv == width);
            proof {
                assert((w * 2) * h == w * h * 2) by (nonlinear_arith);
            }
            let luma10 = checked_mul(stride, height, "rawvideo 10-bit 4:2:2 luma size")?;
            let plane = checked_mul(stride_uv, height, "rawvideo 10-bit 4:2:2 chroma plane size")?;
            let chroma = checked_mul(plane, 2, "rawvideo 10-bit 4:2:2 chroma size")?;
            checked_add(luma10, chroma, "rawvideo frame size")
        },
        UncvPixelLayout::Yuv444p10 => {
            let a = checked_mul(width, 2, "rawvideo 10-bit 4:4:4 stride")?;
            let b = checked_mul(height, 3, "rawvideo 10-bit 4:4:4 plane factor")?;
            checked_mul(a, b, "rawvideo frame size")
        },
        UncvPixelLayout::Nv12p8 | UncvPixelLayout::Nv21p8 => {
            let nv_luma = checked_mul(width, height, "rawvideo NV luma size")?;
            let numerator = checked_mul(nv_luma, 3, "rawvideo NV size numerator")?;
            Ok(numerator / 2)
        },
        UncvPixelLayout::Nv12p10 | UncvPixelLayout::Nv21p10 => {
            let stride = checked_mul(width, 2, "rawvideo 10-bit NV stride")?;
            let nv_luma = checked_mul(stride, height, "rawvideo 10-bit NV luma size")?;
            let numerator = checked_mul(nv_luma, 3, "rawvideo 10-bit NV size numerator")?;
            Ok(numerator / 2)
        },
        UncvPixelLayout::V210 => {
            let mut padded_width = width;
            let ghost target = v210_padded_width(w);
            assert(w <= target && target % 48 == 0 && target - w < 48) by (nonlinear_arith)
                requires
                    target == ((w + 47) / 48) * 48,
                    w >= 0,
            ;
            while !padded_width.is_multiple_of(48)
                invariant
                    w <= padded_width <= target,
                    target == v210_padded_width(w),
                    target % 48 == 0,
                    target - w < 48,
                    w <= u32::MAX,
                decreases target - padded_width,
            {
                padded_width = padded_width + 1;
            }
            assert(padded_width == target) by (nonlinear_arith)
                requires
                    w <= padded_width <= target,
                    padded_width % 48 == 0,
                    target % 48 == 0,
                    target - w < 48,
            ;
            let numerator = checked_mul(padded_width, 16, "rawvideo v210 stride numerator")?;
            let stride = numerator / 6;
            checked_mul(stride, height, "rawvideo v210 frame size")
        },
    }
}

} // verus!

verus! {

/// The stream-level fields a Y4M header line declares, as they accumulate token by token.
#[derive(Clone, Copy)]
pub struct Y4mFields {
    pub width: Option<u32>,
    pub height: Option<u32>,
    pub fps_num: Option<u32>,
    pub fps_den: Option<u32>,
    pub layout: Option<UncvPixelLayout>,
}

/// No field declared yet.
pub open spec fn no_y4m_fields() -> Y4mFields {
    Y4mFields { width: None, height: None, fps_num: None, fps_den: None, layout: None }
}

/// The chroma-layout tokens this importer understands.
pub open spec fn y4m_chroma_layout(t: Seq<u8>) -> Option<UncvPixelLayout> {
    if t == seq![0x34u8, 0x32, 0x30, 0x6A, 0x70, 0x65, 0x67] || t == seq![0x34u8, 0x32, 0x30, 0x6D, 0x70, 0x65, 0x67, 0x32]
        || t == seq![0x34u8, 0x32, 0x30, 0x70, 0x61, 0x6C, 0x64, 0x76] || t == seq![0x34u8, 0x32, 0x30] {
        Some(UncvPixelLayout::Yuv420p8)
    } else if t == seq![0x34u8, 0x32, 0x32] {
        Some(UncvPixelLayout::Yuv422p8)
    } else if t == seq![0x34u8, 0x34, 0x34] {
        Some(UncvPixelLayout::Yuv444p8)
    } else if t == seq![0x34u8, 0x34, 0x34, 0x61, 0x6C, 0x70, 0x68, 0x61] {
        Some(UncvPixelLayout::Yuva444p8)
    } else if t == seq![0x6Du8, 0x6F, 0x6E, 0x6F] {
        Some(UncvPixelLayout::Grey8)
    } else {
        None
    }
}

/// Applies one header token; `None` when the token is malformed. Tokens shorter than two
/// bytes and unknown tags are ignored.
pub open spec fn y4m_token_step(st: Y4mFields, t: Seq<u8>) -> Option<Y4mFields> {
    if t.len() < 2 {
        Some(st)
    } else {
        let rest = t.drop_first();
        if t[0] == 0x57 {
            match crate::text::parse_unsigned(rest, u32::MAX as int) {
                Some(v) => Some(Y4mFields { width: Some(v as u32), ..st }),
                None => None,
            }
        } else if t[0] == 0x48 {
            match crate::text::parse_unsigned(rest, u32::MAX as int) {
                Some(v) => Some(Y4mFields { height: Some(v as u32), ..st }),
                None => None,
            }
        } else if t[0] == 0x46 {
            match crate::text::find_from(rest, 0x3A, 0) {
                None => None,
                Some(k) => match (
                    crate::text::parse_unsigned(rest.subrange(0, k), u32::MAX as int),
                    crate::text::parse_unsigned(rest.subrange(k + 1, rest.len() as int), u32::MAX as int),
                ) {
                    (Some(n), Some(d)) => Some(Y4mFields { fps_num: Some(n as u32), fps_den: Some(d as u32), ..st }),
                    _ => None,
                },
            }
        } else if t[0] == 0x43 {
            match y4m_chroma_layout(rest) {
                Some(l) => Some(Y4mFields { layout: Some(l), ..st }),
                None => None,
            }
        } else {
            Some(st)
        }
    }
}

/// Applies the tokens from position `i` on.
pub open spec fn y4m_fold(tokens: Seq<Seq<u8>>, i: int, st: Y4mFields) -> Option<Y4mFields>
    decreases tokens.len() - i,
{
    if i < 0 || i >= tokens.len() {
        Some(st)
    } else {
        match y4m_token_step(st, tokens[i]) {
            None => None,
            Some(next) => y4m_fold(tokens, i + 1, next),
        }
    }
}

/// The Y4M stream signature, including the separating space.
pub open spec fn y4m_signature() -> Seq<u8> {
    seq![0x59u8, 0x55, 0x56, 0x34, 0x4D, 0x50, 0x45, 0x47, 0x32, 0x20]
}

/// The stream parameters a valid Y4M header line yields.
pub struct ParsedY4mHeader {
    pub width: u16,
    pub height: u16,
    pub timescale: u32,
    pub frame_duration: u32,
    pub frame_size: u64,
    pub sample_entry_box: Vec<u8>,
}

/// What a Y4M header line declares: width, height, frame-rate numerator and denominator,
/// layout; or how it is rejected.
pub open spec fn y4m_header_outcome(header: Seq<u8>) -> Result<(u32, u32, u32, u32, UncvPixelLayout), Failure> {
    if !(y4m_signature().len() <= header.len() && header.subrange(0, 10) == y4m_signature()) {
        Err(Failure::Rejected)
    } else {
        match y4m_fold(crate::text::ascii_tokens(header), 1, no_y4m_fields()) {
            None => Err(Failure::Rejected),
            Some(f) => {
                if f.width is None || f.height is None {
                    Err(Failure::Rejected)
                } else if f.width->0 == 0 || f.height->0 == 0 {
                    Err(Failure::Rejected)
                } else if f.fps_num is None || f.fps_den is None {
                    Err(Failure::Rejected)
                } else if f.fps_num->0 == 0 || f.fps_den->0 == 0 {
                    Err(Failure::Rejected)
                } else {
                    let layout = match f.layout {
                        Some(l) => l,
                        None => UncvPixelLayout::Yuv420p8,
                    };
                    let w = f.width->0;
                    let h = f.height->0;
                    if !y4m_dimensions_ok(w, h, layout) {
                        Err(Failure::Rejected)
                    } else if !frame_size_fits(w as int, h as int, layout) {
                        Err(Failure::Overflow)
                    } else if w > u16::MAX || h > u16::MAX {
                        Err(Failure::Rejected)
                    } else {
                        Ok((w, h, f.fps_num->0, f.fps_den->0, layout))
                    }
                }
            },
        }
    }
}

/// Matches a chroma-layout token.
pub fn parse_y4m_chroma_token(t: &[u8]) -> (r: Option<UncvPixelLayout>)
    ensures
        r == y4m_chroma_layout(t@),
{
    let a: [u8; 7] = [0x34, 0x32, 0x30, 0x6A, 0x70, 0x65, 0x67];
    let b: [u8; 8] = [0x34, 0x32, 0x30, 0x6D, 0x70, 0x65, 0x67, 0x32];
    let c: [u8; 8] = [0x34, 0x32, 0x30, 0x70, 0x61, 0x6C, 0x64, 0x76];
    let d: [u8; 3] = [0x34, 0x32, 0x30];
    let e: [u8; 3] = [0x34, 0x32, 0x32];
    let f: [u8; 3] = [0x34, 0x34, 0x34];
    let g: [u8; 8] = [0x34, 0x34, 0x34, 0x61, 0x6C, 0x70, 0x68, 0x61];
    let h: [u8; 4] = [0x6D, 0x6F, 0x6E, 0x6F];
    assert(a@ =~= seq![0x34u8, 0x32, 0x30, 0x6A, 0x70, 0x65, 0x67]);
    assert(b@ =~= seq![0x34u8, 0x32, 0x30, 0x6D, 0x70, 0x65, 0x67, 0x32]);
    assert(c@ =~= seq![0x34u8, 0x32, 0x30, 0x70, 0x61, 0x6C, 0x64, 0x76]);
    assert(d@ =~= seq![0x34u8, 0x32, 0x30]);
    assert(e@ =~= seq![0x34u8, 0x32, 0x32]);
    assert(f@ =~= seq![0x34u8, 0x34, 0x34]);
    assert(g@ =~= seq![0x34u8, 0x34, 0x34, 0x61, 0x6C, 0x70, 0x68, 0x61]);
    assert(h@ =~= seq![0x6Du8, 0x6F, 0x6E, 0x6F]);
    if crate::text::bytes_eq(t, &a) || crate::text::bytes_eq(t, &b) || crate::text::bytes_eq(t, &c)
        || crate::text::bytes_eq(t, &d) {
        Some(UncvPixelLayout::Yuv420p8)
    } else if crate::text::bytes_eq(t, &e) {
        Some(UncvPixelLayout::Yuv422p8)
    } else if crate::text::bytes_eq(t, &f) {
        Some(UncvPixelLayout::Yuv444p8)
    } else if crate::text::bytes_eq(t, &g) {
        Some(UncvPixelLayout::Yuva444p8)
    } else if crate::text::bytes_eq(t, &h) {
        Some(UncvPixelLayout::Grey8)
    } else {
        None
    }
}

/// Applies one header token to the accumulated fields.
pub fn apply_y4m_token(st: Y4mFields, t: &[u8]) -> (r: Option<Y4mFields>)
    ensures
        r == y4m_token_step(st, t@),
{
    if t.len() < 2 {
        return Some(st);
    }
    let rest = crate::text::copy_range(t, 1, t.len());
    assert(rest@ =~= t@.drop_first());
    let tag = t[0];
    if tag == 0x57 {
        match crate::text::parse_unsigned_decimal(rest.as_slice(), 0xFFFF_FFFF) {
            Some(v) => {
                assert(crate::text::parse_unsigned(rest@, u32::MAX as int) == Some(v as int));
                Some(Y4mFields { width: Some(v as u32), ..st })
            },
            None => None,
        }
    } else if tag == 0x48 {
        match crate::text::parse_unsigned_decimal(rest.as_slice(), 0xFFFF_FFFF) {
            Some(v) => {
                assert(crate::text::parse_unsigned(rest@, u32::MAX as int) == Some(v as int));
                Some(Y4mFields { height: Some(v as u32), ..st })
            },
            None => None,
        }
    } else if tag == 0x46 {
        proof { crate::text::lemma_find_from_found(rest@, 0x3A, 0); }
        match crate::text::find_byte(rest.as_slice(), 0x3A) {
            None => None,
            Some(k) => {
                let num = crate::text::copy_range(rest.as_slice(), 0, k);
                let den = crate::text::copy_range(rest.as_slice(), k + 1, rest.len());
                let n = crate::text::parse_unsigned_decimal(num.as_slice(), 0xFFFF_FFFF);
                let d = crate::text::parse_unsigned_decimal(den.as_slice(), 0xFFFF_FFFF);
                match (n, d) {
                    (Some(n), Some(d)) => {
                        assert(crate::text::parse_unsigned(num@, u32::MAX as int) == Some(n as int));
                        assert(crate::text::parse_unsigned(den@, u32::MAX as int) == Some(d as int));
                        Some(Y4mFields { fps_num: Some(n as u32), fps_den: Some(d as u32), ..st })
                    },
                    _ => None,
                }
            },
        }
    } else if tag == 0x43 {
        match parse_y4m_chroma_token(rest.as_slice()) {
            Some(l) => Some(Y4mFields { layout: Some(l), ..st }),
            None => None,
        }
    } else {
        Some(st)
    }
}

/// Parses a Y4M stream header line (without its terminating newline) into the track's
/// dimensions, timing, per-frame size and `uncv` sample entry.
pub fn parse_y4m_stream_header(spec: &str, header: &[u8]) -> (r: Result<ParsedY4mHeader, MuxError>)
    ensures
        match y4m_header_outcome(header@) {
            Ok((w, h, num, den, layout)) => r matches Ok(p) && {
                &&& p.width == w && p.height == h
                &&& p.timescale == num && p.frame_duration == den
                &&& p.frame_size == frame_size_value(w as int, h as int, layout)
                &&& p.sample_entry_box@ == uncv_sample_entry(w as u16, h as u16, layout, true, layout == UncvPixelLayout::Yuv420p8)
            },
            Err(f) => r matches Err(e) && fails_as(e, f, spec@),
        },
{
    let sig: [u8; 10] = [0x59, 0x55, 0x56, 0x34, 0x4D, 0x50, 0x45, 0x47, 0x32, 0x20];
    assert(sig@ =~= y4m_signature());
    if !crate::text::starts_with(header, &sig) {
        return Err(invalid_y4m(spec, "input does not start with the YUV4MPEG2 stream signature"));
    }
    let tokens = split_ascii_tokens_of(header);
    let ghost tv = crate::text::ascii_tokens(header@);
    let mut st = Y4mFields { width: None, height: None, fps_num: None, fps_den: None, layout: None };
    let mut i: usize = 1;
    assert(header@.subrange(0, 10) == y4m_signature());
    while i < tokens.len()
        invariant
            1 <= i,
            i <= tokens@.len() || tokens@.len() == 0,
            crate::text::byte_views(tokens@) == tv,
            tv == crate::text::ascii_tokens(header@),
            10 <= header@.len(),
            header@.subrange(0, 10) == y4m_signature(),
            y4m_fold(tv, 1, no_y4m_fields()) == y4m_fold(tv, i as int, st),
        decreases tokens.len() - i,
    {
        assert(tv[i as int] == tokens@[i as int]@);
        match apply_y4m_token(st, tokens[i].as_slice()) {
            Some(next) => st = next,
            None => {
                assert(y4m_fold(tv, i as int, st) is None);
                assert(header@.subrange(0, 10) == y4m_signature());
                assert(y4m_fold(tv, 1, no_y4m_fields()) is None);
                return Err(invalid_y4m(spec, "Y4M stream header carried a malformed token"));
            },
        }
        i = i + 1;
    }
    assert(y4m_fold(tv, i as int, st) == Some(st));
    let width = match st.width {
        Some(v) => v,
        None => return Err(invalid_y4m(spec, "Y4M stream header did not declare width")),
    };
    let height = match st.height {
        Some(v) => v,
        None => return Err(invalid_y4m(spec, "Y4M stream header did not declare height")),
    };
    if width == 0 || height == 0 {
        return Err(invalid_y4m(spec, "Y4M stream header declared zero width or zero height"));
    }
    let fps_num = match st.fps_num {
        Some(v) => v,
        None => return Err(invalid_y4m(spec, "Y4M stream header did not declare frame rate")),
    };
    let fps_den = match st.fps_den {
        Some(v) => v,
        None => return Err(invalid_y4m(
            spec,
            "Y4M stream header did not declare a complete frame-rate denominator",
        )),
    };
    if fps_num == 0 || fps_den == 0 {
        return Err(invalid_y4m(
            spec,
            "Y4M stream header declared a zero frame-rate numerator or denominator",
        ));
    }
    let layout = match st.layout {
        Some(l) => l,
        None => UncvPixelLayout::Yuv420p8,
    };
    validate_y4m_dimensions(spec, width, height, layout)?;
    let frame_size = y4m_frame_size(width, height, layout)?;
    if width > 0xFFFF {
        return Err(invalid_y4m(spec, "Y4M width does not fit in an MP4 visual sample entry"));
    }
    if height > 0xFFFF {
        return Err(invalid_y4m(spec, "Y4M height does not fit in an MP4 visual sample entry"));
    }
    let width_u16 = width as u16;
    let height_u16 = height as u16;
    let is_420 = match layout {
        UncvPixelLayout::Yuv420p8 => true,
        _ => false,
    };
    let sample_entry_box = match build_uncv_sample_entry_box(width_u16, height_u16, layout, true, is_420) {
        Ok(b) => b,
        Err(e) => return Err(e),
    };
    Ok(ParsedY4mHeader {
        width: width_u16,
        height: height_u16,
        timescale: fps_num,
        frame_duration: fps_den,
        frame_size,
        sample_entry_box,
    })
}

/// Splits a header line into its whitespace-separated tokens.
fn split_ascii_tokens_of(header: &[u8]) -> (r: Vec<Vec<u8>>)
    ensures
        crate::text::byte_views(r@) == crate::text::ascii_tokens(header@),
{
    crate::text::split_ascii_tokens(header)
}

/// `FRAME` in ASCII.
pub open spec fn frame_marker() -> Seq<u8> {
    seq![0x46u8, 0x52, 0x41, 0x4D, 0x45]
}

/// The frames of a Y4M payload from physical offset `phys` on: each is a `FRAME` header line
/// followed by `frame_size` bytes, staged at its offset in the payload without the header
/// lines (`retained`).
pub open spec fn y4m_frames_from(
    f: Seq<u8>,
    phys: int,
    retained: int,
    frame_size: u64,
    duration: u32,
    samples: Seq<StagedSample>,
) -> Result<Seq<StagedSample>, Failure>
    decreases f.len() - phys,
{
    if phys < 0 || phys >= f.len() {
        Ok(samples)
    } else {
        match find_from(f, 0x0A, phys) {
            None => Err(Failure::Rejected),
            Some(nl) => {
                let line = f.subrange(phys, nl);
                if !(line.len() >= 5 && line.subrange(0, 5) == frame_marker()) {
                    Err(Failure::Rejected)
                } else if nl + 1 + frame_size > f.len() {
                    Err(Failure::Rejected)
                } else if frame_size > u32::MAX {
                    Err(Failure::Overflow)
                } else {
                    proof { lemma_find_from_found(f, 0x0A, phys); }
                    y4m_frames_from(f, nl + 1 + frame_size, retained + frame_size, frame_size, duration, samples.push(StagedSample {
                        data_offset: retained as u64,
                        data_size: frame_size as u32,
                        duration,
                        composition_time_offset: 0,
                        is_sync_sample: true,
                    }))
                }
            },
        }
    }
}

/// How a Y4M file held in memory is imported: its newline-terminated stream header, then
/// its frames; a file without frames is rejected.
pub open spec fn y4m_file_outcome(f: Seq<u8>) -> Result<(Seq<u8>, Seq<StagedSample>), Failure> {
    match find_from(f, 0x0A, 0) {
        None => Err(Failure::Rejected),
        Some(nl) => {
            let header = f.subrange(0, nl);
            match y4m_header_outcome(header) {
                Err(e) => Err(e),
                Ok((w, h, num, den, layout)) => match y4m_frames_from(f, nl + 1, 0, frame_size_value(w as int, h as int, layout) as u64, den, Seq::empty()) {
                    Err(e) => Err(e),
                    Ok(samples) => if samples.len() == 0 { Err(Failure::Rejected) } else { Ok((header, samples)) },
                },
            }
        },
    }
}

/// Reads a Y4M file held in memory into its track.
pub fn parse_y4m_bytes(spec: &str, file: &[u8]) -> (r: Result<ParsedRawVideoTrack, MuxError>)
    ensures
        match y4m_file_outcome(file@) {
            Ok((header, samples)) => r matches Ok(t) && y4m_header_outcome(header) matches Ok((w, h, num, den, layout)) && {
                &&& t.width == w && t.height == h && t.timescale == num
                &&& t.sample_entry_box@ == uncv_sample_entry(w as u16, h as u16, layout, true, layout == UncvPixelLayout::Yuv420p8)
                &&& t.samples@ == samples
            },
            Err(f) => r matches Err(e) && fails_as(e, f, spec@),
        },
{
    let n = file.len();
    let nl = match find_byte_from(file, 0x0A, 0) {
        Some(k) => k,
        None => return Err(invalid_y4m(spec, "Y4M input did not terminate its stream header line")),
    };
    let header: &[u8] = &file[0..nl];
    let parsed = parse_y4m_stream_header(spec, header)?;
    let ghost hdr = header@;
    assert(hdr == file@.subrange(0, nl as int));
    let frame_size = parsed.frame_size;
    let mut phys: usize = nl + 1;
    let mut retained: u64 = 0;
    let mut samples: Vec<StagedSample> = Vec::new();
    while phys < n
        invariant
            n == file@.len(),
            nl < n,
            nl + 1 <= phys <= n,
            retained <= phys,
            frame_size == parsed.frame_size,
            y4m_file_outcome(file@) == match y4m_frames_from(file@, phys as int, retained as int, frame_size, parsed.frame_duration, samples@) {
                Err(e) => Err(e),
                Ok(all) => if all.len() == 0 { Err(Failure::Rejected) } else { Ok((hdr, all)) },
            },
        decreases n - phys,
    {
        let end = match find_byte_from(file, 0x0A, phys) {
            Some(k) => k,
            None => return Err(invalid_y4m(spec, "Y4M frame header is truncated")),
        };
        let line: &[u8] = &file[phys..end];
        assert(line@ == file@.subrange(phys as int, end as int));
        let marker: [u8; 5] = [0x46, 0x52, 0x41, 0x4D, 0x45];
        let m: &[u8] = &marker;
        assert(m@ =~= frame_marker());
        if !crate::text::starts_with(line, m) {
            return Err(invalid_y4m(spec, "Y4M payload did not begin its frame headers with the FRAME marker"));
        }
        let body = end + 1;
        if ((n - body) as u64) < frame_size {
            return Err(invalid_y4m(spec, "Y4M frame payload overruns the input length"));
        }
        if frame_size > 0xFFFF_FFFF {
            return Err(overflow("Y4M frame size exceeds MP4 sample limits"));
        }
        samples.push(StagedSample {
            data_offset: retained,
            data_size: frame_size as u32,
            duration: parsed.frame_duration,
            composition_time_offset: 0,
            is_sync_sample: true,
        });
        retained = retained + frame_size;
        phys = body + frame_size as usize;
    }
    finalize_y4m_track(spec, parsed.width, parsed.height, parsed.timescale, parsed.sample_entry_box, samples)
}

/// The `k`-th frame of a Y4M payload of `frame_size`-byte frames lasting `duration`.
pub open spec fn y4m_frame_sample(k: int, frame_size: u64, duration: u32) -> StagedSample {
    StagedSample {
        data_offset: (k * frame_size) as u64,
        data_size: frame_size as u32,
        duration,
        composition_time_offset: 0,
        is_sync_sample: true,
    }
}

proof fn lemma_y4m_frames_contiguous(
    f: Seq<u8>,
    phys: int,
    retained: int,
    frame_size: u64,
    duration: u32,
    samples: Seq<StagedSample>,
)
    requires
        retained == samples.len() * frame_size,
        forall|k: int| 0 <= k < samples.len() ==> #[trigger] samples[k] == y4m_frame_sample(k, frame_size, duration),
    ensures
        y4m_frames_from(f, phys, retained, frame_size, duration, samples) matches Ok(all)
            ==> forall|k: int| 0 <= k < all.len() ==> #[trigger] all[k] == y4m_frame_sample(k, frame_size, duration),
    decreases f.len() - phys,
{
    if 0 <= phys < f.len() {
        if let Some(nl) = find_from(f, 0x0A, phys) {
            lemma_find_from_found(f, 0x0A, phys);
            let line = f.subrange(phys, nl);
            if line.len() >= 5 && line.subrange(0, 5) == frame_marker() && nl + 1 + frame_size <= f.len() && frame_size <= u32::MAX {
                let s2 = samples.push(StagedSample {
                    data_offset: retained as u64,
                    data_size: frame_size as u32,
                    duration,
                    composition_time_offset: 0,
                    is_sync_sample: true,
                });
                assert forall|k: int| 0 <= k < s2.len() implies #[trigger] s2[k] == y4m_frame_sample(k, frame_size, duration) by {
                    if k < samples.len() {
                        assert(s2[k] == samples[k]);
                    }
                }
                assert(retained + frame_size == s2.len() * frame_size) by (nonlinear_arith)
                    requires
                        retained == samples.len() * frame_size,
                        s2.len() == samples.len() + 1,
                {
                }
                lemma_y4m_frames_contiguous(f, nl + 1 + frame_size, retained + frame_size, frame_size, duration, s2);
            }
        }
    }
}

/// The frames of a Y4M file are staged back to back: the `k`-th starts at `k` frame sizes,
/// is one frame size long and lasts one frame duration.
pub proof fn lemma_y4m_frames_back_to_back(f: Seq<u8>, header: Seq<u8>, samples: Seq<StagedSample>)
    requires
        y4m_file_outcome(f) == Ok::<(Seq<u8>, Seq<StagedSample>), Failure>((header, samples)),
    ensures
        y4m_header_outcome(header) matches Ok((w, h, num, den, layout)) && forall|k: int| 0 <= k < samples.len()
            ==> #[trigger] samples[k] == y4m_frame_sample(k, frame_size_value(w as int, h as int, layout) as u64, den),
{
    let nl = find_from(f, 0x0A, 0).unwrap();
    let (w, h, num, den, layout) = y4m_header_outcome(f.subrange(0, nl)).unwrap();
    lemma_y4m_frames_contiguous(f, nl + 1, 0, frame_size_value(w as int, h as int, layout) as u64, den, Seq::empty());
}


/// What each Y4M chroma token declares, by the size of a `w` x `h` frame: `420`, `420jpeg`,
/// `420mpeg2` and `420paldv` have two chroma planes of half width and half height (rounded
/// up), `422` two of half width and full height, `444` two of full size, `444alpha` those
/// and an alpha plane, and `mono` the luma plane alone.
pub proof fn lemma_y4m_chroma_token_planes(w: int, h: int)
    ensures
        y4m_chroma_layout(seq![0x34u8, 0x32, 0x30]) matches Some(l) && frame_size_value(w, h, l) == w * h + 2 * (((w + 1) / 2) * ((h + 1) / 2)),
        y4m_chroma_layout(seq![0x34u8, 0x32, 0x30, 0x6A, 0x70, 0x65, 0x67]) matches Some(l)
            && frame_size_value(w, h, l) == w * h + 2 * (((w + 1) / 2) * ((h + 1) / 2)),
        y4m_chroma_layout(seq![0x34u8, 0x32, 0x30, 0x6D, 0x70, 0x65, 0x67, 0x32]) matches Some(l)
            && frame_size_value(w, h, l) == w * h + 2 * (((w + 1) / 2) * ((h + 1) / 2)),
        y4m_chroma_layout(seq![0x34u8, 0x32, 0x30, 0x70, 0x61, 0x6C, 0x64, 0x76]) matches Some(l)
            && frame_size_value(w, h, l) == w * h + 2 * (((w + 1) / 2) * ((h + 1) / 2)),
        y4m_chroma_layout(seq![0x34u8, 0x32, 0x32]) matches Some(l) && frame_size_value(w, h, l) == w * h + 2 * (((w + 1) / 2) * h),
        y4m_chroma_layout(seq![0x34u8, 0x34, 0x34]) matches Some(l) && frame_size_value(w, h, l) == 3 * (w * h),
        y4m_chroma_layout(seq![0x34u8, 0x34, 0x34, 0x61, 0x6C, 0x70, 0x68, 0x61]) matches Some(l) && frame_size_value(w, h, l) == 4 * (w * h),
        y4m_chroma_layout(seq![0x6Du8, 0x6F, 0x6E, 0x6F]) matches Some(l) && frame_size_value(w, h, l) == w * h,
        y4m_chroma_layout(seq![0x34u8, 0x32, 0x32]) == Some(UncvPixelLayout::Yuv422p8),
{
    let alpha = seq![0x34u8, 0x34, 0x34, 0x61, 0x6C, 0x70, 0x68, 0x61];
    assert(alpha[1] != seq![0x34u8, 0x32, 0x30, 0x6D, 0x70, 0x65, 0x67, 0x32][1]);
    assert(alpha[1] != seq![0x34u8, 0x32, 0x30, 0x70, 0x61, 0x6C, 0x64, 0x76][1]);
    assert(alpha.len() == 8);
    assert(alpha != seq![0x34u8, 0x32, 0x30, 0x6A, 0x70, 0x65, 0x67]);
    assert(alpha != seq![0x34u8, 0x32, 0x30, 0x6D, 0x70, 0x65, 0x67, 0x32]);
    assert(alpha != seq![0x34u8, 0x32, 0x30, 0x70, 0x61, 0x6C, 0x64, 0x76]);
    assert(alpha != seq![0x34u8, 0x32, 0x30]);
    assert(alpha != seq![0x34u8, 0x32, 0x32]);
    assert(alpha != seq![0x34u8, 0x34, 0x34]);
    assert(alpha == seq![0x34u8, 0x34, 0x34, 0x61, 0x6C, 0x70, 0x68, 0x61]);
    assert(y4m_chroma_layout(alpha) == Some(UncvPixelLayout::Yuva444p8));
    assert(w * h * 3 == 3 * (w * h) && w * h * 4 == 4 * (w * h)) by (nonlinear_arith);
    assert(((w + 1) / 2) * h * 2 == 2 * (((w + 1) / 2) * h)) by (nonlinear_arith);
    assert(((w + 1) / 2) * ((h + 1) / 2) * 2 == 2 * (((w + 1) / 2) * ((h + 1) / 2))) by (nonlinear_arith);
}
} // verus!
