use vstd::prelude::*;
use crate::error::MuxError;
use crate::mp4::{
    be16, be16_all, be32, compressor_field, compressor_name_field, concat_all, encode_raw_box,
    encode_visual_sample_entry, build_visual_sample_entry_box_with_compressor_name, four_cc,
    push_bytes, push_u16_be, push_u32_be, push_zeros, spec_box, views, visual_entry_payload, zeros,
};

verus! {

/// The uncompressed-video pixel layouts this library can describe with `uncC`/`cmpd` boxes.
#[derive(Clone, Copy, Debug, PartialEq, Eq, Structural)]
pub enum UncvPixelLayout {
    Grey8,
    AlphaGrey8,
    GreyAlpha8,
    Rgb332,
    Rgb444,
    Rgb555,
    Rgb565,
    Rgb24,
    Bgr24,
    Rgbx32,
    Bgrx32,
    Xrgb32,
    Xbgr32,
    Argb32,
    Rgba32,
    Bgra32,
    Abgr32,
    Rgbd32,
    Rgbds32,
    Yuv420p8,
    Yvu420p8,
    Yuva420p8,
    Yuvd420p8,
    Yuv420p10,
    Yuv422p8,
    Yuv422p10,
    Yuv444p8,
    Yuv444p10,
    Yuva444p8,
    Nv12p8,
    Nv21p8,
    Nv12p10,
    Nv21p10,
    Uyvy422p8,
    Vyuy422p8,
    Yuyv422p8,
    Yvyu422p8,
    Uyvy422p10,
    Vyuy422p10,
    Yuyv422p10,
    Yvyu422p10,
    Yuv444Packed8,
    Vyu444Packed8,
    Yuva444Packed8,
    Uyva444Packed8,
    Yuv444Packed10,
    V210,
}

impl UncvPixelLayout {
    /// Table of cmpd component ids per layout.
    pub open spec fn spec_cmpd_component_ids(self) -> Seq<u16> {
        match self {
            UncvPixelLayout::Grey8 => seq![0u16],
            UncvPixelLayout::AlphaGrey8 => seq![7u16, 0],
            UncvPixelLayout::GreyAlpha8 => seq![0u16, 7],
            UncvPixelLayout::Rgb332 | UncvPixelLayout::Rgb444 | UncvPixelLayout::Rgb555 | UncvPixelLayout::Rgb565 | UncvPixelLayout::Rgb24 => seq![4u16, 5, 6],
            UncvPixelLayout::Rgbd32 => seq![4u16, 5, 6, 8],
            UncvPixelLayout::Bgr24 => seq![6u16, 5, 4],
            UncvPixelLayout::Rgbds32 => seq![4u16, 5, 6, 8, 7],
            UncvPixelLayout::Rgbx32 => seq![4u16, 5, 6, 12],
            UncvPixelLayout::Bgrx32 => seq![6u16, 5, 4, 12],
            UncvPixelLayout::Xrgb32 => seq![12u16, 4, 5, 6],
            UncvPixelLayout::Xbgr32 => seq![12u16, 6, 5, 4],
            UncvPixelLayout::Argb32 => seq![7u16, 4, 5, 6],
            UncvPixelLayout::Rgba32 => seq![4u16, 5, 6, 7],
            UncvPixelLayout::Bgra32 => seq![6u16, 5, 4, 7],
            UncvPixelLayout::Abgr32 => seq![7u16, 6, 5, 4],
            UncvPixelLayout::Yuv420p8 | UncvPixelLayout::Yuv420p10 | UncvPixelLayout::Yuv422p8 | UncvPixelLayout::Yuv422p10 | UncvPixelLayout::Yuv444p8 | UncvPixelLayout::Yuv444p10 | UncvPixelLayout::Nv12p8 | UncvPixelLayout::Nv12p10 | UncvPixelLayout::Yuv444Packed8 => seq![1u16, 2, 3],
            UncvPixelLayout::Yvu420p8 | UncvPixelLayout::Nv21p8 | UncvPixelLayout::Nv21p10 => seq![1u16, 3, 2],
            UncvPixelLayout::Yuva420p8 | UncvPixelLayout::Yuva444p8 | UncvPixelLayout::Yuva444Packed8 => seq![1u16, 2, 3, 7],
            UncvPixelLayout::Yuvd420p8 => seq![1u16, 2, 3, 8],
            UncvPixelLayout::Uyvy422p8 | UncvPixelLayout::Uyvy422p10 | UncvPixelLayout::V210 => seq![2u16, 1, 3, 1],
            UncvPixelLayout::Vyuy422p8 | UncvPixelLayout::Vyuy422p10 => seq![3u16, 1, 2, 1],
            UncvPixelLayout::Yuyv422p8 | UncvPixelLayout::Yuyv422p10 => seq![1u16, 2, 1, 3],
            UncvPixelLayout::Yvyu422p8 | UncvPixelLayout::Yvyu422p10 => seq![1u16, 3, 1, 2],
            UncvPixelLayout::Vyu444Packed8 => seq![3u16, 1, 2],
            UncvPixelLayout::Uyva444Packed8 => seq![2u16, 1, 3, 7],
            UncvPixelLayout::Yuv444Packed10 => seq![2u16, 1, 3],
        }
    }

    /// Table of component bit depths per layout.
    pub open spec fn spec_component_bit_depths(self) -> Seq<u8> {
        match self {
            UncvPixelLayout::Rgb332 => seq![3u8, 3, 2],
            UncvPixelLayout::Rgb444 => seq![4u8, 4, 4],
            UncvPixelLayout::Rgb555 => seq![5u8, 5, 5],
            UncvPixelLayout::Rgb565 => seq![5u8, 6, 5],
            UncvPixelLayout::Rgbds32 => seq![8u8, 8, 8, 7, 1],
            UncvPixelLayout::Yuv420p10 | UncvPixelLayout::Yuv422p10 | UncvPixelLayout::Yuv444p10 | UncvPixelLayout::Nv12p10 | UncvPixelLayout::Nv21p10 => seq![10u8, 10, 10],
            UncvPixelLayout::Uyvy422p10 | UncvPixelLayout::Vyuy422p10 | UncvPixelLayout::Yuyv422p10 | UncvPixelLayout::Yvyu422p10 => seq![10u8, 10, 10, 10],
            UncvPixelLayout::V210 => seq![10u8, 10, 10, 8],
            UncvPixelLayout::Yuv444Packed10 => seq![10u8, 10, 10],
            UncvPixelLayout::Grey8 => seq![8u8],
            UncvPixelLayout::AlphaGrey8 | UncvPixelLayout::GreyAlpha8 => seq![8u8, 8],
            UncvPixelLayout::Rgb24 | UncvPixelLayout::Bgr24 | UncvPixelLayout::Yuv420p8 | UncvPixelLayout::Yvu420p8 | UncvPixelLayout::Yuv422p8 | UncvPixelLayout::Yuv444p8 | UncvPixelLayout::Nv12p8 | UncvPixelLayout::Nv21p8 | UncvPixelLayout::Yuv444Packed8 | UncvPixelLayout::Vyu444Packed8 => seq![8u8, 8, 8],
            UncvPixelLayout::Rgbx32 | UncvPixelLayout::Bgrx32 | UncvPixelLayout::Xrgb32 | UncvPixelLayout::Xbgr32 | UncvPixelLayout::Argb32 | UncvPixelLayout::Rgba32 | UncvPixelLayout::Bgra32 | UncvPixelLayout::Abgr32 | UncvPixelLayout::Rgbd32 | UncvPixelLayout::Yuva420p8 | UncvPixelLayout::Yuvd420p8 | UncvPixelLayout::Yuva444p8 | UncvPixelLayout::Uyvy422p8 | UncvPixelLayout::Vyuy422p8 | UncvPixelLayout::Yuyv422p8 | UncvPixelLayout::Yvyu422p8 | UncvPixelLayout::Yuva444Packed8 | UncvPixelLayout::Uyva444Packed8 => seq![8u8, 8, 8, 8],
        }
    }

    /// Component type identifiers in the order `cmpd` lists them.
    pub fn cmpd_component_ids(self) -> (r: &'static [u16])
        ensures
            r@ == self.spec_cmpd_component_ids(),
    {
        match self {
            UncvPixelLayout::Grey8 => {
                let r: &'static [u16] = &[0];
                assert(r@ =~= seq![0u16]);
                r
            },
            UncvPixelLayout::AlphaGrey8 => {
                let r: &'static [u16] = &[7, 0];
                assert(r@ =~= seq![7u16, 0]);
                r
            },
            UncvPixelLayout::GreyAlpha8 => {
                let r: &'static [u16] = &[0, 7];
                assert(r@ =~= seq![0u16, 7]);
                r
            },
            UncvPixelLayout::Rgb332 | UncvPixelLayout::Rgb444 | UncvPixelLayout::Rgb555 | UncvPixelLayout::Rgb565 | UncvPixelLayout::Rgb24 => {
                let r: &'static [u16] = &[4, 5, 6];
                assert(r@ =~= seq![4u16, 5, 6]);
                r
            },
            UncvPixelLayout::Rgbd32 => {
                let r: &'static [u16] = &[4, 5, 6, 8];
                assert(r@ =~= seq![4u16, 5, 6, 8]);
                r
            },
            UncvPixelLayout::Bgr24 => {
                let r: &'static [u16] = &[6, 5, 4];
                assert(r@ =~= seq![6u16, 5, 4]);
                r
            },
            UncvPixelLayout::Rgbds32 => {
                let r: &'static [u16] = &[4, 5, 6, 8, 7];
                assert(r@ =~= seq![4u16, 5, 6, 8, 7]);
                r
            },
            UncvPixelLayout::Rgbx32 => {
                let r: &'static [u16] = &[4, 5, 6, 12];
                assert(r@ =~= seq![4u16, 5, 6, 12]);
                r
            },
            UncvPixelLayout::Bgrx32 => {
                let r: &'static [u16] = &[6, 5, 4, 12];
                assert(r@ =~= seq![6u16, 5, 4, 12]);
                r
            },
            UncvPixelLayout::Xrgb32 => {
                let r: &'static [u16] = &[12, 4, 5, 6];
                assert(r@ =~= seq![12u16, 4, 5, 6]);
                r
            },
            UncvPixelLayout::Xbgr32 => {
                let r: &'static [u16] = &[12, 6, 5, 4];
                assert(r@ =~= seq![12u16, 6, 5, 4]);
                r
            },
            UncvPixelLayout::Argb32 => {
                let r: &'static [u16] = &[7, 4, 5, 6];
                assert(r@ =~= seq![7u16, 4, 5, 6]);
                r
            },
            UncvPixelLayout::Rgba32 => {
                let r: &'static [u16] = &[4, 5, 6, 7];
                assert(r@ =~= seq![4u16, 5, 6, 7]);
                r
            },
            UncvPixelLayout::Bgra32 => {
                let r: &'static [u16] = &[6, 5, 4, 7];
                assert(r@ =~= seq![6u16, 5, 4, 7]);
                r
            },
            UncvPixelLayout::Abgr32 => {
                let r: &'static [u16] = &[7, 6, 5, 4];
                assert(r@ =~= seq![7u16, 6, 5, 4]);
                r
            },
            UncvPixelLayout::Yuv420p8 | UncvPixelLayout::Yuv420p10 | UncvPixelLayout::Yuv422p8 | UncvPixelLayout::Yuv422p10 | UncvPixelLayout::Yuv444p8 | UncvPixelLayout::Yuv444p10 | UncvPixelLayout::Nv12p8 | UncvPixelLayout::Nv12p10 | UncvPixelLayout::Yuv444Packed8 => {
                let r: &'static [u16] = &[1, 2, 3];
                assert(r@ =~= seq![1u16, 2, 3]);
                r
            },
            UncvPixelLayout::Yvu420p8 | UncvPixelLayout::Nv21p8 | UncvPixelLayout::Nv21p10 => {
                let r: &'static [u16] = &[1, 3, 2];
                assert(r@ =~= seq![1u16, 3, 2]);
                r
            },
            UncvPixelLayout::Yuva420p8 | UncvPixelLayout::Yuva444p8 | UncvPixelLayout::Yuva444Packed8 => {
                let r: &'static [u16] = &[1, 2, 3, 7];
                assert(r@ =~= seq![1u16, 2, 3, 7]);
                r
            },
            UncvPixelLayout::Yuvd420p8 => {
                let r: &'static [u16] = &[1, 2, 3, 8];
                assert(r@ =~= seq![1u16, 2, 3, 8]);
                r
            },
            UncvPixelLayout::Uyvy422p8 | UncvPixelLayout::Uyvy422p10 | UncvPixelLayout::V210 => {
                let r: &'static [u16] = &[2, 1, 3, 1];
                assert(r@ =~= seq![2u16, 1, 3, 1]);
                r
            },
            UncvPixelLayout::Vyuy422p8 | UncvPixelLayout::Vyuy422p10 => {
                let r: &'static [u16] = &[3, 1, 2, 1];
                assert(r@ =~= seq![3u16, 1, 2, 1]);
                r
            },
            UncvPixelLayout::Yuyv422p8 | UncvPixelLayout::Yuyv422p10 => {
                let r: &'static [u16] = &[1, 2, 1, 3];
                assert(r@ =~= seq![1u16, 2, 1, 3]);
                r
            },
            UncvPixelLayout::Yvyu422p8 | UncvPixelLayout::Yvyu422p10 => {
                let r: &'static [u16] = &[1, 3, 1, 2];
                assert(r@ =~= seq![1u16, 3, 1, 2]);
                r
            },
            UncvPixelLayout::Vyu444Packed8 => {
                let r: &'static [u16] = &[3, 1, 2];
                assert(r@ =~= seq![3u16, 1, 2]);
                r
            },
            UncvPixelLayout::Uyva444Packed8 => {
                let r: &'static [u16] = &[2, 1, 3, 7];
                assert(r@ =~= seq![2u16, 1, 3, 7]);
                r
            },
            UncvPixelLayout::Yuv444Packed10 => {
                let r: &'static [u16] = &[2, 1, 3];
                assert(r@ =~= seq![2u16, 1, 3]);
                r
            },
        }
    }

    /// Bit depth of each component, in the order `uncC` lists them.
    pub fn component_bit_depths(self) -> (r: &'static [u8])
        ensures
            r@ == self.spec_component_bit_depths(),
    {
        match self {
            UncvPixelLayout::Rgb332 => {
                let r: &'static [u8] = &[3, 3, 2];
                assert(r@ =~= seq![3u8, 3, 2]);
                r
            },
            UncvPixelLayout::Rgb444 => {
                let r: &'static [u8] = &[4, 4, 4];
                assert(r@ =~= seq![4u8, 4, 4]);
                r
            },
            UncvPixelLayout::Rgb555 => {
                let r: &'static [u8] = &[5, 5, 5];
                assert(r@ =~= seq![5u8, 5, 5]);
                r
            },
            UncvPixelLayout::Rgb565 => {
                let r: &'static [u8] = &[5, 6, 5];
                assert(r@ =~= seq![5u8, 6, 5]);
                r
            },
            UncvPixelLayout::Rgbds32 => {
                let r: &'static [u8] = &[8, 8, 8, 7, 1];
                assert(r@ =~= seq![8u8, 8, 8, 7, 1]);
                r
            },
            UncvPixelLayout::Yuv420p10 | UncvPixelLayout::Yuv422p10 | UncvPixelLayout::Yuv444p10 | UncvPixelLayout::Nv12p10 | UncvPixelLayout::Nv21p10 => {
                let r: &'static [u8] = &[10, 10, 10];
                assert(r@ =~= seq![10u8, 10, 10]);
                r
            },
            UncvPixelLayout::Uyvy422p10 | UncvPixelLayout::Vyuy422p10 | UncvPixelLayout::Yuyv422p10 | UncvPixelLayout::Yvyu422p10 => {
                let r: &'static [u8] = &[10, 10, 10, 10];
                assert(r@ =~= seq![10u8, 10, 10, 10]);
                r
            },
            UncvPixelLayout::V210 => {
                let r: &'static [u8] = &[10, 10, 10, 8];
                assert(r@ =~= seq![10u8, 10, 10, 8]);
                r
            },
            UncvPixelLayout::Yuv444Packed10 => {
                let r: &'static [u8] = &[10, 10, 10];
                assert(r@ =~= seq![10u8, 10, 10]);
                r
            },
            UncvPixelLayout::Grey8 => {
                let r: &'static [u8] = &[8];
                assert(r@ =~= seq![8u8]);
                r
            },
            UncvPixelLayout::AlphaGrey8 | UncvPixelLayout::GreyAlpha8 => {
                let r: &'static [u8] = &[8, 8];
                assert(r@ =~= seq![8u8, 8]);
                r
            },
            UncvPixelLayout::Rgb24 | UncvPixelLayout::Bgr24 | UncvPixelLayout::Yuv420p8 | UncvPixelLayout::Yvu420p8 | UncvPixelLayout::Yuv422p8 | UncvPixelLayout::Yuv444p8 | UncvPixelLayout::Nv12p8 | UncvPixelLayout::Nv21p8 | UncvPixelLayout::Yuv444Packed8 | UncvPixelLayout::Vyu444Packed8 => {
                let r: &'static [u8] = &[8, 8, 8];
                assert(r@ =~= seq![8u8, 8, 8]);
                r
            },
            UncvPixelLayout::Rgbx32 | UncvPixelLayout::Bgrx32 | UncvPixelLayout::Xrgb32 | UncvPixelLayout::Xbgr32 | UncvPixelLayout::Argb32 | UncvPixelLayout::Rgba32 | UncvPixelLayout::Bgra32 | UncvPixelLayout::Abgr32 | UncvPixelLayout::Rgbd32 | UncvPixelLayout::Yuva420p8 | UncvPixelLayout::Yuvd420p8 | UncvPixelLayout::Yuva444p8 | UncvPixelLayout::Uyvy422p8 | UncvPixelLayout::Vyuy422p8 | UncvPixelLayout::Yuyv422p8 | UncvPixelLayout::Yvyu422p8 | UncvPixelLayout::Yuva444Packed8 | UncvPixelLayout::Uyva444Packed8 => {
                let r: &'static [u8] = &[8, 8, 8, 8];
                assert(r@ =~= seq![8u8, 8, 8, 8]);
                r
            },
        }
    }


    /// Sample-format code each component carries in `uncC` (0 unsigned integer, 2 for the
    /// 10-bit layouts that store their samples in 16-bit words).
    pub open spec fn spec_component_format(self) -> u8 {
        match self {
            UncvPixelLayout::Yuv420p10 | UncvPixelLayout::Yuv422p10 | UncvPixelLayout::Yuv444p10
            | UncvPixelLayout::Nv12p10 | UncvPixelLayout::Nv21p10 | UncvPixelLayout::Uyvy422p10
            | UncvPixelLayout::Vyuy422p10 | UncvPixelLayout::Yuyv422p10
            | UncvPixelLayout::Yvyu422p10 => 2,
            _ => 0,
        }
    }

    /// Chroma sampling code: 2 for 4:2:0, 1 for 4:2:2, 0 otherwise.
    pub open spec fn spec_sampling(self) -> u8 {
        match self {
            UncvPixelLayout::Yuv420p8 | UncvPixelLayout::Yvu420p8 | UncvPixelLayout::Yuva420p8
            | UncvPixelLayout::Yuvd420p8 | UncvPixelLayout::Yuv420p10 | UncvPixelLayout::Nv12p8
            | UncvPixelLayout::Nv21p8 | UncvPixelLayout::Nv12p10 | UncvPixelLayout::Nv21p10 => 2,
            UncvPixelLayout::Yuv422p8 | UncvPixelLayout::Yuv422p10 | UncvPixelLayout::Uyvy422p8
            | UncvPixelLayout::Vyuy422p8 | UncvPixelLayout::Yuyv422p8 | UncvPixelLayout::Yvyu422p8
            | UncvPixelLayout::Uyvy422p10 | UncvPixelLayout::Vyuy422p10
            | UncvPixelLayout::Yuyv422p10 | UncvPixelLayout::Yvyu422p10
            | UncvPixelLayout::V210 => 1,
            _ => 0,
        }
    }

    /// Interleave code: 0 planar, 2 semi-planar, 5 multi-Y (packed 4:2:2), 1 pixel-interleaved.
    pub open spec fn spec_interleave(self) -> u8 {
        match self {
            UncvPixelLayout::Yuv420p8 | UncvPixelLayout::Yvu420p8 | UncvPixelLayout::Yuva420p8
            | UncvPixelLayout::Yuvd420p8 | UncvPixelLayout::Yuv420p10 | UncvPixelLayout::Yuv422p8
            | UncvPixelLayout::Yuv422p10 | UncvPixelLayout::Yuv444p8 | UncvPixelLayout::Yuv444p10
            | UncvPixelLayout::Yuva444p8 => 0,
            UncvPixelLayout::Nv12p8 | UncvPixelLayout::Nv21p8 | UncvPixelLayout::Nv12p10
            | UncvPixelLayout::Nv21p10 => 2,
            UncvPixelLayout::Uyvy422p8 | UncvPixelLayout::Vyuy422p8 | UncvPixelLayout::Yuyv422p8
            | UncvPixelLayout::Yvyu422p8 | UncvPixelLayout::Uyvy422p10 | UncvPixelLayout::Vyuy422p10
            | UncvPixelLayout::Yuyv422p10 | UncvPixelLayout::Yvyu422p10 => 5,
            _ => 1,
        }
    }

    /// Layouts whose components are 10-bit samples in 16-bit containers.
    pub open spec fn spec_is_ten_bit(self) -> bool {
        self.spec_component_format() == 2
    }

    /// Block size in bytes (only the packed 10-bit layouts use blocks).
    pub open spec fn spec_block_size(self) -> u8 {
        match self {
            UncvPixelLayout::Yuv444Packed10 | UncvPixelLayout::V210 => 4,
            _ => 0,
        }
    }

    /// Block flag byte: fixed values for the packed 10-bit layouts, otherwise bit 7 marks a
    /// 10-bit layout and bit 3 marks that pixel sizes are given in blocks.
    pub open spec fn spec_block_flags(self) -> u8 {
        match self {
            UncvPixelLayout::Yuv444Packed10 => 0x78,
            UncvPixelLayout::V210 => 0x38,
            _ => if self.spec_is_ten_bit() { 0x88 } else { 0x08 },
        }
    }

    /// The `uncC` profile four-character code, where the layout has one.
    pub open spec fn spec_uncc_profile(self) -> Option<Seq<u8>> {
        match self {
            UncvPixelLayout::Rgb24 => Some(seq![0x72u8, 0x67, 0x62, 0x33]),
            UncvPixelLayout::Abgr32 => Some(seq![0x61u8, 0x62, 0x67, 0x72]),
            UncvPixelLayout::Rgba32 => Some(seq![0x72u8, 0x67, 0x62, 0x61]),
            UncvPixelLayout::Yuv420p8 => Some(seq![0x69u8, 0x34, 0x32, 0x30]),
            UncvPixelLayout::Nv12p8 => Some(seq![0x6Eu8, 0x76, 0x31, 0x32]),
            UncvPixelLayout::Nv21p8 => Some(seq![0x6Eu8, 0x76, 0x32, 0x31]),
            UncvPixelLayout::Uyvy422p8 | UncvPixelLayout::Uyvy422p10 => Some(seq![0x32u8, 0x76, 0x75, 0x79]),
            UncvPixelLayout::Vyuy422p8 | UncvPixelLayout::Vyuy422p10 => Some(seq![0x76u8, 0x79, 0x75, 0x79]),
            UncvPixelLayout::Yuyv422p8 | UncvPixelLayout::Yuyv422p10 => Some(seq![0x79u8, 0x75, 0x76, 0x32]),
            UncvPixelLayout::Yvyu422p8 | UncvPixelLayout::Yvyu422p10 => Some(seq![0x79u8, 0x76, 0x79, 0x75]),
            UncvPixelLayout::Yuv444p8 | UncvPixelLayout::Vyu444Packed8 => Some(seq![0x76u8, 0x33, 0x30, 0x38]),
            UncvPixelLayout::Uyva444Packed8 => Some(seq![0x76u8, 0x34, 0x30, 0x38]),
            UncvPixelLayout::Yuv444Packed10 => Some(seq![0x76u8, 0x34, 0x31, 0x30]),
            UncvPixelLayout::V210 => Some(seq![0x76u8, 0x32, 0x31, 0x30]),
            _ => None,
        }
    }

    /// Sample-format code each component carries in `uncC`.
    pub fn component_format(self) -> (r: u8)
        ensures
            r == self.spec_component_format(),
    {
        match self {
            UncvPixelLayout::Yuv420p10 | UncvPixelLayout::Yuv422p10 | UncvPixelLayout::Yuv444p10
            | UncvPixelLayout::Nv12p10 | UncvPixelLayout::Nv21p10 | UncvPixelLayout::Uyvy422p10
            | UncvPixelLayout::Vyuy422p10 | UncvPixelLayout::Yuyv422p10
            | UncvPixelLayout::Yvyu422p10 => 2,
            _ => 0,
        }
    }

    /// Chroma sampling code.
    pub fn sampling(self) -> (r: u8)
        ensures
            r == self.spec_sampling(),
    {
        match self {
            UncvPixelLayout::Yuv420p8 | UncvPixelLayout::Yvu420p8 | UncvPixelLayout::Yuva420p8
            | UncvPixelLayout::Yuvd420p8 | UncvPixelLayout::Yuv420p10 | UncvPixelLayout::Nv12p8
            | UncvPixelLayout::Nv21p8 | UncvPixelLayout::Nv12p10 | UncvPixelLayout::Nv21p10 => 2,
            UncvPixelLayout::Yuv422p8 | UncvPixelLayout::Yuv422p10 | UncvPixelLayout::Uyvy422p8
            | UncvPixelLayout::Vyuy422p8 | UncvPixelLayout::Yuyv422p8 | UncvPixelLayout::Yvyu422p8
            | UncvPixelLayout::Uyvy422p10 | UncvPixelLayout::Vyuy422p10
            | UncvPixelLayout::Yuyv422p10 | UncvPixelLayout::Yvyu422p10
            | UncvPixelLayout::V210 => 1,
            _ => 0,
        }
    }

    /// Interleave code.
    pub fn interleave(self) -> (r: u8)
        ensures
            r == self.spec_interleave(),
    {
        match self {
            UncvPixelLayout::Yuv420p8 | UncvPixelLayout::Yvu420p8 | UncvPixelLayout::Yuva420p8
            | UncvPixelLayout::Yuvd420p8 | UncvPixelLayout::Yuv420p10 | UncvPixelLayout::Yuv422p8
            | UncvPixelLayout::Yuv422p10 | UncvPixelLayout::Yuv444p8 | UncvPixelLayout::Yuv444p10
            | UncvPixelLayout::Yuva444p8 => 0,
            UncvPixelLayout::Nv12p8 | UncvPixelLayout::Nv21p8 | UncvPixelLayout::Nv12p10
            | UncvPixelLayout::Nv21p10 => 2,
            UncvPixelLayout::Uyvy422p8 | UncvPixelLayout::Vyuy422p8 | UncvPixelLayout::Yuyv422p8
            | UncvPixelLayout::Yvyu422p8 | UncvPixelLayout::Uyvy422p10 | UncvPixelLayout::Vyuy422p10
            | UncvPixelLayout::Yuyv422p10 | UncvPixelLayout::Yvyu422p10 => 5,
            UncvPixelLayout::Grey8 | UncvPixelLayout::AlphaGrey8 | UncvPixelLayout::GreyAlpha8
            | UncvPixelLayout::Rgb332 | UncvPixelLayout::Rgb444 | UncvPixelLayout::Rgb555
            | UncvPixelLayout::Rgb565 | UncvPixelLayout::Rgb24 | UncvPixelLayout::Bgr24
            | UncvPixelLayout::Rgbx32 | UncvPixelLayout::Bgrx32 | UncvPixelLayout::Xrgb32
            | UncvPixelLayout::Xbgr32 | UncvPixelLayout::Argb32 | UncvPixelLayout::Rgba32
            | UncvPixelLayout::Bgra32 | UncvPixelLayout::Abgr32 | UncvPixelLayout::Rgbd32
            | UncvPixelLayout::Rgbds32 | UncvPixelLayout::Yuv444Packed8
            | UncvPixelLayout::Vyu444Packed8 | UncvPixelLayout::Yuva444Packed8
            | UncvPixelLayout::Uyva444Packed8 | UncvPixelLayout::Yuv444Packed10
            | UncvPixelLayout::V210 => 1,
        }
    }

    /// Block size in bytes.
    pub fn block_size(self) -> (r: u8)
        ensures
            r == self.spec_block_size(),
    {
        match self {
            UncvPixelLayout::Yuv444Packed10 | UncvPixelLayout::V210 => 4,
            _ => 0,
        }
    }

    /// Block flag byte.
    pub fn block_flags(self) -> (r: u8)
        ensures
            r == self.spec_block_flags(),
    {
        match self {
            UncvPixelLayout::Yuv444Packed10 => return 0x78,
            UncvPixelLayout::V210 => return 0x38,
            _ => {},
        }
        let is_ten_bit = match self {
            UncvPixelLayout::Yuv420p10 | UncvPixelLayout::Yuv422p10 | UncvPixelLayout::Yuv444p10
            | UncvPixelLayout::Nv12p10 | UncvPixelLayout::Nv21p10 | UncvPixelLayout::Uyvy422p10
            | UncvPixelLayout::Vyuy422p10 | UncvPixelLayout::Yuyv422p10
            | UncvPixelLayout::Yvyu422p10 => true,
            _ => false,
        };
        let block_pad_lsb: u8 = 0;
        let block_little_endian: u8 = 0;
        let block_reversed: u8 = 0;
        let ten: u8 = if is_ten_bit { 1 } else { 0 };
        let flags = (ten << 7) | (block_pad_lsb << 6) | (block_little_endian << 5)
            | (block_reversed << 4) | 0x08;
        assert(((1u8 << 7) | (0u8 << 6) | (0u8 << 5) | (0u8 << 4) | 0x08u8) == 0x88u8) by (bit_vector);
        assert(((0u8 << 7) | (0u8 << 6) | (0u8 << 5) | (0u8 << 4) | 0x08u8) == 0x08u8) by (bit_vector);
        flags
    }

    /// The `uncC` profile four-character code, where the layout has one.
    pub fn uncc_profile(self) -> (r: Option<[u8; 4]>)
        ensures
            match r {
                Some(code) => self.spec_uncc_profile() == Some(code@),
                None => self.spec_uncc_profile() is None,
            },
    {
        match self {
            UncvPixelLayout::Rgb24 => Some(four_cc(0x72, 0x67, 0x62, 0x33)),
            UncvPixelLayout::Abgr32 => Some(four_cc(0x61, 0x62, 0x67, 0x72)),
            UncvPixelLayout::Rgba32 => Some(four_cc(0x72, 0x67, 0x62, 0x61)),
            UncvPixelLayout::Yuv420p8 => Some(four_cc(0x69, 0x34, 0x32, 0x30)),
            UncvPixelLayout::Nv12p8 => Some(four_cc(0x6E, 0x76, 0x31, 0x32)),
            UncvPixelLayout::Nv21p8 => Some(four_cc(0x6E, 0x76, 0x32, 0x31)),
            UncvPixelLayout::Uyvy422p8 | UncvPixelLayout::Uyvy422p10 => Some(four_cc(0x32, 0x76, 0x75, 0x79)),
            UncvPixelLayout::Vyuy422p8 | UncvPixelLayout::Vyuy422p10 => Some(four_cc(0x76, 0x79, 0x75, 0x79)),
            UncvPixelLayout::Yuyv422p8 | UncvPixelLayout::Yuyv422p10 => Some(four_cc(0x79, 0x75, 0x76, 0x32)),
            UncvPixelLayout::Yvyu422p8 | UncvPixelLayout::Yvyu422p10 => Some(four_cc(0x79, 0x76, 0x79, 0x75)),
            UncvPixelLayout::Yuv444p8 | UncvPixelLayout::Vyu444Packed8 => Some(four_cc(0x76, 0x33, 0x30, 0x38)),
            UncvPixelLayout::Uyva444Packed8 => Some(four_cc(0x76, 0x34, 0x30, 0x38)),
            UncvPixelLayout::Yuv444Packed10 => Some(four_cc(0x76, 0x34, 0x31, 0x30)),
            UncvPixelLayout::V210 => Some(four_cc(0x76, 0x32, 0x31, 0x30)),
            _ => None,
        }
    }
}

/// Payload of the `cmpd` box: the component count, then each component type.
pub open spec fn cmpd_payload(layout: UncvPixelLayout) -> Seq<u8> {
    count_be32(layout.spec_cmpd_component_ids().len()) + be16_all(layout.spec_cmpd_component_ids())
}

/// The per-component records of `uncC`: component index, bit depth minus one (saturating),
/// zero alignment, and the layout's component format.
pub open spec fn uncc_component_entries(bits: Seq<u8>, format: u8) -> Seq<u8>
    decreases bits.len(),
{
    if bits.len() == 0 {
        Seq::empty()
    } else {
        let depth = bits.last();
        uncc_component_entries(bits.drop_last(), format) + be16((bits.len() - 1) as u16) + seq![
            if depth > 0 { (depth - 1) as u8 } else { 0u8 },
            0u8,
            format,
        ]
    }
}

/// Payload of the `uncC` box (version 0, flags 0).
pub open spec fn uncc_payload(layout: UncvPixelLayout) -> Seq<u8> {
    let profile = match layout.spec_uncc_profile() {
        Some(p) => p,
        None => zeros(4),
    };
    be32(0) + profile + count_be32(layout.spec_cmpd_component_ids().len()) + uncc_component_entries(
        layout.spec_component_bit_depths(),
        layout.spec_component_format(),
    ) + seq![
        layout.spec_sampling(),
        layout.spec_interleave(),
        layout.spec_block_size(),
        layout.spec_block_flags(),
    ] + zeros(20)
}

/// The `pasp` box.
pub open spec fn pasp_box(h_spacing: u32, v_spacing: u32) -> Seq<u8> {
    spec_box(seq![0x70u8, 0x61, 0x73, 0x70], be32(h_spacing) + be32(v_spacing))
}

/// The `colr` box of colour type `nclx`.
pub open spec fn nclx_colr_box(primaries: u16, transfer: u16, matrix: u16, full_range: bool) -> Seq<u8> {
    spec_box(
        seq![0x63u8, 0x6F, 0x6C, 0x72],
        seq![0x6Eu8, 0x63, 0x6C, 0x78] + be16(primaries) + be16(transfer) + be16(matrix) + seq![
            if full_range { 0x80u8 } else { 0u8 },
        ],
    )
}

/// The `colr` box of colour type `nclc`.
pub open spec fn nclc_colr_box(primaries: u16, transfer: u16, matrix: u16) -> Seq<u8> {
    spec_box(
        seq![0x63u8, 0x6F, 0x6C, 0x72],
        seq![0x6Eu8, 0x63, 0x6C, 0x63] + be16(primaries) + be16(transfer) + be16(matrix),
    )
}

/// The compressor-name field written into uncompressed-video sample entries.
pub open spec fn raw_video_compressor_field() -> Seq<u8> {
    seq![8u8, 0x52, 0x61, 0x77, 0x56, 0x69, 0x64, 0x65, 0x6F] + zeros(23)
}

/// The children of an `uncv` sample entry.
pub open spec fn uncv_children(layout: UncvPixelLayout, include_pasp: bool, include_nclx_colr: bool) -> Seq<u8> {
    spec_box(seq![0x63u8, 0x6D, 0x70, 0x64], cmpd_payload(layout)) + spec_box(
        seq![0x75u8, 0x6E, 0x63, 0x43],
        uncc_payload(layout),
    ) + (if include_pasp { pasp_box(1, 1) } else { Seq::empty() }) + (if include_nclx_colr {
        nclx_colr_box(1, 1, 1, false)
    } else {
        Seq::empty()
    })
}

/// The complete `uncv` sample entry.
pub open spec fn uncv_sample_entry(
    width: u16,
    height: u16,
    layout: UncvPixelLayout,
    include_pasp: bool,
    include_nclx_colr: bool,
) -> Seq<u8> {
    spec_box(
        seq![0x75u8, 0x6E, 0x63, 0x76],
        visual_entry_payload(
            width,
            height,
            72,
            72,
            1,
            raw_video_compressor_field(),
            0x0018,
            -1i16,
            uncv_children(layout, include_pasp, include_nclx_colr),
        ),
    )
}

/// Builds the `cmpd` box listing the layout's component types.
pub fn build_uncv_cmpd_box(layout: UncvPixelLayout) -> (r: Result<Vec<u8>, MuxError>)
    ensures
        r matches Ok(bytes) && bytes@ == spec_box(seq![0x63u8, 0x6D, 0x70, 0x64], cmpd_payload(layout)),
{
    let component_ids = layout.cmpd_component_ids();
    proof { lemma_be16_all_len(component_ids@); }
    let mut payload: Vec<u8> = Vec::new();
    push_count_be32(&mut payload, component_ids.len());
    push_be16_values(&mut payload, component_ids);
    encode_raw_box(four_cc(0x63, 0x6D, 0x70, 0x64), payload.as_slice())
}

/// Builds the `uncC` box describing the layout's components, sampling, interleave and blocks.
pub fn build_uncv_uncc_box(layout: UncvPixelLayout) -> (r: Result<Vec<u8>, MuxError>)
    ensures
        r matches Ok(bytes) && bytes@ == spec_box(seq![0x75u8, 0x6E, 0x63, 0x43], uncc_payload(layout)),
{
    proof { lemma_layout_component_counts_agree(layout); }
    let component_ids = layout.cmpd_component_ids();
    let component_bits = layout.component_bit_depths();
    proof { lemma_uncc_entries_len(component_bits@, layout.spec_component_format()); }
    let format = layout.component_format();
    let mut payload: Vec<u8> = Vec::new();
    push_u32_be(&mut payload, 0);
    let profile = match layout.uncc_profile() {
        Some(code) => code,
        None => {
            let z = four_cc(0, 0, 0, 0);
            assert(z@ =~= zeros(4));
            z
        },
    };
    push_bytes(&mut payload, &profile);
    push_count_be32(&mut payload, component_ids.len());
    push_uncc_component_entries(&mut payload, component_bits, format);
    payload.push(layout.sampling());
    payload.push(layout.interleave());
    payload.push(layout.block_size());
    payload.push(layout.block_flags());
    push_zeros(&mut payload, 20);
    assert(payload@ =~= uncc_payload(layout));
    encode_raw_box(four_cc(0x75, 0x6E, 0x63, 0x43), payload.as_slice())
}

/// Big-endian 32-bit encoding of a count.
pub open spec fn count_be32(n: nat) -> Seq<u8> {
    be32(n as u32)
}

/// Appends a count as a big-endian 32-bit value.
pub fn push_count_be32(out: &mut Vec<u8>, n: usize)
    requires
        n <= u32::MAX,
    ensures
        final(out)@ == old(out)@ + count_be32(n as nat),
{
    push_u32_be(out, n as u32);
}

/// Appends each value in big-endian order.
pub fn push_be16_values(out: &mut Vec<u8>, values: &[u16])
    ensures
        final(out)@ == old(out)@ + be16_all(values@),
{
    let mut i: usize = 0;
    while i < values.len()
        invariant
            i <= values@.len(),
            out@ == old(out)@ + be16_all(values@.subrange(0, i as int)),
        decreases values.len() - i,
    {
        push_u16_be(out, values[i]);
        proof {
            assert(values@.subrange(0, i + 1).drop_last() =~= values@.subrange(0, i as int));
            assert(out@ =~= old(out)@ + be16_all(values@.subrange(0, i + 1)));
        }
        i = i + 1;
    }
    assert(values@.subrange(0, values@.len() as int) =~= values@);
}

/// Appends the per-component records of `uncC`.
pub fn push_uncc_component_entries(out: &mut Vec<u8>, bits: &[u8], format: u8)
    requires
        bits@.len() <= 5,
    ensures
        final(out)@ == old(out)@ + uncc_component_entries(bits@, format),
{
    let mut i: usize = 0;
    while i < bits.len()
        invariant
            i <= bits@.len() <= 5,
            out@ == old(out)@ + uncc_component_entries(bits@.subrange(0, i as int), format),
        decreases bits.len() - i,
    {
        push_u16_be(out, i as u16);
        let depth = bits[i];
        out.push(if depth > 0 { depth - 1 } else { 0 });
        out.push(0);
        out.push(format);
        proof {
            let s = bits@.subrange(0, i + 1);
            assert(s.drop_last() =~= bits@.subrange(0, i as int));
            assert(out@ =~= old(out)@ + uncc_component_entries(s, format));
        }
        i = i + 1;
    }
    assert(bits@.subrange(0, bits@.len() as int) =~= bits@);
}

/// Builds a pixel-aspect-ratio box.
pub fn build_pasp_box(h_spacing: u32, v_spacing: u32) -> (r: Result<Vec<u8>, MuxError>)
    ensures
        r matches Ok(bytes) && bytes@ == pasp_box(h_spacing, v_spacing),
{
    let mut payload: Vec<u8> = Vec::new();
    push_u32_be(&mut payload, h_spacing);
    push_u32_be(&mut payload, v_spacing);
    encode_raw_box(four_cc(0x70, 0x61, 0x73, 0x70), payload.as_slice())
}

/// Builds an `nclx` colour-information box.
pub fn build_nclx_colr_box(
    colour_primaries: u16,
    transfer_characteristics: u16,
    matrix_coefficients: u16,
    full_range_flag: bool,
) -> (r: Result<Vec<u8>, MuxError>)
    ensures
        r matches Ok(bytes) && bytes@ == nclx_colr_box(
            colour_primaries,
            transfer_characteristics,
            matrix_coefficients,
            full_range_flag,
        ),
{
    let mut payload: Vec<u8> = Vec::new();
    push_bytes(&mut payload, &four_cc(0x6E, 0x63, 0x6C, 0x78));
    push_u16_be(&mut payload, colour_primaries);
    push_u16_be(&mut payload, transfer_characteristics);
    push_u16_be(&mut payload, matrix_coefficients);
    payload.push(if full_range_flag { 0x80 } else { 0 });
    assert(payload@ =~= seq![0x6Eu8, 0x63, 0x6C, 0x78] + be16(colour_primaries) + be16(
        transfer_characteristics,
    ) + be16(matrix_coefficients) + seq![if full_range_flag { 0x80u8 } else { 0u8 }]);
    encode_raw_box(four_cc(0x63, 0x6F, 0x6C, 0x72), payload.as_slice())
}

/// Builds a QuickTime-style `nclc` colour-information box.
pub fn build_nclc_colr_box(
    colour_primaries: u16,
    transfer_characteristics: u16,
    matrix_coefficients: u16,
) -> (r: Result<Vec<u8>, MuxError>)
    ensures
        r matches Ok(bytes) && bytes@ == nclc_colr_box(
            colour_primaries,
            transfer_characteristics,
            matrix_coefficients,
        ),
{
    let mut payload: Vec<u8> = Vec::new();
    push_bytes(&mut payload, &four_cc(0x6E, 0x63, 0x6C, 0x63));
    push_u16_be(&mut payload, colour_primaries);
    push_u16_be(&mut payload, transfer_characteristics);
    push_u16_be(&mut payload, matrix_coefficients);
    encode_raw_box(four_cc(0x63, 0x6F, 0x6C, 0x72), payload.as_slice())
}

/// Every layout lists one bit depth per component identifier, so `uncC` and `cmpd` agree on
/// the component count.
pub proof fn lemma_layout_component_counts_agree(layout: UncvPixelLayout)
    ensures
        layout.spec_cmpd_component_ids().len() == layout.spec_component_bit_depths().len(),
        1 <= layout.spec_cmpd_component_ids().len() <= 5,
{
}


/// Builds the `uncv` sample entry for an uncompressed-video track.
pub fn build_uncv_sample_entry_box(
    width: u16,
    height: u16,
    layout: UncvPixelLayout,
    include_pasp: bool,
    include_nclx_colr: bool,
) -> (r: Result<Vec<u8>, MuxError>)
    ensures
        r matches Ok(bytes) && bytes@ == uncv_sample_entry(width, height, layout, include_pasp, include_nclx_colr),
{
    let cmpd = build_uncv_cmpd_box(layout);
    let uncc = build_uncv_uncc_box(layout);
    let (cmpd, uncc) = match (cmpd, uncc) {
        (Ok(a), Ok(b)) => (a, b),
        _ => { assert(false); return Err(crate::error::overflow("unreachable")); },
    };
    let mut children: Vec<u8> = Vec::new();
    push_bytes(&mut children, cmpd.as_slice());
    push_bytes(&mut children, uncc.as_slice());
    if include_pasp {
        match build_pasp_box(1, 1) {
            Ok(b) => push_bytes(&mut children, b.as_slice()),
            Err(e) => { assert(false); return Err(e); },
        }
    }
    if include_nclx_colr {
        match build_nclx_colr_box(1, 1, 1, false) {
            Ok(b) => push_bytes(&mut children, b.as_slice()),
            Err(e) => { assert(false); return Err(e); },
        }
    }
    assert(children@ =~= uncv_children(layout, include_pasp, include_nclx_colr));
    let mut name: Vec<u8> = Vec::new();
    name.push(8);
    push_bytes(&mut name, &four_cc(0x52, 0x61, 0x77, 0x56));
    push_bytes(&mut name, &four_cc(0x69, 0x64, 0x65, 0x6F));
    push_zeros(&mut name, 23);
    assert(name@ =~= raw_video_compressor_field());
    proof { lemma_uncv_children_small(layout, include_pasp, include_nclx_colr); }
    encode_visual_sample_entry(
        four_cc(0x75, 0x6E, 0x63, 0x76),
        width,
        height,
        72,
        72,
        1,
        name.as_slice(),
        0x0018,
        -1,
        children.as_slice(),
    )
}

/// The children of an `uncv` entry stay far below the 32-bit box-size limit.
proof fn lemma_uncv_children_small(layout: UncvPixelLayout, include_pasp: bool, include_nclx_colr: bool)
    ensures
        uncv_children(layout, include_pasp, include_nclx_colr).len() <= 200,
{
    lemma_layout_component_counts_agree(layout);
    lemma_uncc_entries_len(layout.spec_component_bit_depths(), layout.spec_component_format());
    lemma_be16_all_len(layout.spec_cmpd_component_ids());
}

proof fn lemma_uncc_entries_len(bits: Seq<u8>, format: u8)
    ensures
        uncc_component_entries(bits, format).len() == 5 * bits.len(),
    decreases bits.len(),
{
    if bits.len() > 0 {
        lemma_uncc_entries_len(bits.drop_last(), format);
    }
}

/// The big-endian encoding of a list of 16-bit values has two bytes per value.
pub proof fn lemma_be16_all_len(s: Seq<u16>)
    ensures
        be16_all(s).len() == 2 * s.len(),
    decreases s.len(),
{
    if s.len() > 0 {
        lemma_be16_all_len(s.drop_last());
    }
}

/// Builds the `mjp2` (Motion JPEG 2000) sample entry carrying a `jp2h` header box.
pub fn build_mjp2_sample_entry_box(
    width: u16,
    height: u16,
    compressor_name: &[u8],
    jp2h_payload: Option<&[u8]>,
) -> (r: Result<Vec<u8>, MuxError>)
    ensures
        ({
            let jp2h = match jp2h_payload {
                Some(p) => p@,
                None => Seq::<u8>::empty(),
            };
            &&& r is Ok <==> jp2h.len() + 8 + 86 <= u32::MAX
            &&& r matches Ok(bytes) ==> bytes@ == spec_box(
                seq![0x6Du8, 0x6A, 0x70, 0x32],
                visual_entry_payload(
                    width,
                    height,
                    0x0048_0000,
                    0x0048_0000,
                    1,
                    compressor_field(compressor_name@),
                    0x0018,
                    -1i16,
                    spec_box(seq![0x6Au8, 0x70, 0x32, 0x68], jp2h),
                ),
            )
        }),
{
    let empty: Vec<u8> = Vec::new();
    let payload: &[u8] = match jp2h_payload {
        Some(p) => p,
        None => empty.as_slice(),
    };
    let jp2h_box = encode_raw_box(four_cc(0x6A, 0x70, 0x32, 0x68), payload)?;
    let mut children: Vec<Vec<u8>> = Vec::new();
    children.push(jp2h_box);
    proof {
        let v = views(children@);
        assert(v.len() == 1);
        assert(v.drop_last() =~= Seq::<Seq<u8>>::empty());
        assert(concat_all(v.drop_last()) == Seq::<u8>::empty());
        assert(v.last() == children@[0]@);
        assert(concat_all(v) =~= children@[0]@);
    }
    build_visual_sample_entry_box_with_compressor_name(
        four_cc(0x6D, 0x6A, 0x70, 0x32),
        width,
        height,
        compressor_name,
        &children,
    )
}

/// Builds a QuickTime-style ProRes sample entry with `pasp` 1:1 and an `nclc` colour box.
pub fn build_prores_sample_entry_box(
    sample_entry_type: [u8; 4],
    width: u16,
    height: u16,
    compressor_name: &[u8],
    colour_primaries: u16,
    transfer_characteristics: u16,
    matrix_coefficients: u16,
) -> (r: Result<Vec<u8>, MuxError>)
    ensures
        r matches Ok(bytes) && bytes@ == spec_box(
            sample_entry_type@,
            visual_entry_payload(
                width,
                height,
                72,
                72,
                1,
                compressor_field(compressor_name@),
                0x0018,
                -1i16,
                pasp_box(1, 1) + nclc_colr_box(colour_primaries, transfer_characteristics, matrix_coefficients),
            ),
        ),
{
    let name = compressor_name_field(compressor_name);
    let pasp = build_pasp_box(1, 1);
    let colr = build_nclc_colr_box(colour_primaries, transfer_characteristics, matrix_coefficients);
    let (pasp, colr) = match (pasp, colr) {
        (Ok(a), Ok(b)) => (a, b),
        _ => { assert(false); return Err(crate::error::overflow("unreachable")); },
    };
    let mut children: Vec<u8> = Vec::new();
    push_bytes(&mut children, pasp.as_slice());
    push_bytes(&mut children, colr.as_slice());
    encode_visual_sample_entry(
        sample_entry_type,
        width,
        height,
        72,
        72,
        1,
        name.as_slice(),
        0x0018,
        -1,
        children.as_slice(),
    )
}

} // verus!
