use vstd::prelude::*;
use crate::error::{MuxError, import_error, is_import_error};
use crate::mp4::{build_visual_sample_entry_box_with_compressor_name, compressor_field, concat_all, four_cc, spec_box, views, visual_entry_payload};
use crate::demux::vpcc::{VpCodecConfiguration, encode_vpcc_box, lemma_vpcc_payload_of, new_vp_config, vp_config_fields, vpcc_payload, vpcc_payload_of};

verus! {

/// Bit `k` of `data`, counting from the most significant bit of the first byte.
pub open spec fn bit_at(data: Seq<u8>, k: int) -> u8 {
    (data[k / 8] >> ((7 - k % 8) as usize)) & 1u8
}

/// The `w` bits of `data` starting at bit `pos`, read most significant first.
pub open spec fn bits_value(data: Seq<u8>, pos: int, w: nat) -> nat
    decreases w,
{
    if w == 0 {
        0
    } else {
        bits_value(data, pos, (w - 1) as nat) * 2 + bit_at(data, pos + w - 1) as nat
    }
}

/// Reading `w` bits at `pos`: the value (kept to its low 32 bits) and the next position, or
/// nothing and an unmoved position when fewer than `w` bits remain.
pub open spec fn read_bits_at(data: Seq<u8>, pos: int, w: int) -> (Option<u32>, int) {
    if w < 0 || pos + w > data.len() * 8 {
        (None, pos)
    } else {
        (Some((bits_value(data, pos, w as nat) % 0x1_0000_0000) as u32), pos + w)
    }
}

/// Reading `w` bits as a byte: nothing when the bits are missing or do not fit in 8 bits.
pub open spec fn read_u8_at(data: Seq<u8>, pos: int, w: int) -> (Option<u8>, int) {
    let (v, p) = read_bits_at(data, pos, w);
    (match v {
        Some(x) => if x <= 255 { Some(x as u8) } else { None },
        None => None,
    }, p)
}

/// Reading `w` bits as a 16-bit value.
pub open spec fn read_u16_at(data: Seq<u8>, pos: int, w: int) -> (Option<u16>, int) {
    let (v, p) = read_bits_at(data, pos, w);
    (match v {
        Some(x) => if x <= 0xFFFF { Some(x as u16) } else { None },
        None => None,
    }, p)
}

/// Reading one bit; a missing bit reads as `false` (and the position stays).
pub open spec fn read_flag_at(data: Seq<u8>, pos: int) -> (bool, int) {
    let (v, p) = read_bits_at(data, pos, 1);
    (match v {
        Some(x) => x != 0,
        None => false,
    }, p)
}

/// A big-endian bit reader over a byte slice.
pub struct BitCursor<'a> {
    pub data: &'a [u8],
    pub bit_offset: usize,
}

impl<'a> BitCursor<'a> {
    /// Well-formed cursors sit inside their data, whose bit count fits in `usize`.
    pub open spec fn wf(&self) -> bool {
        &&& self.data@.len() * 8 <= usize::MAX
        &&& self.bit_offset <= self.data@.len() * 8
    }

    /// A cursor at the first bit of `data`.
    pub fn new(data: &'a [u8]) -> (r: Self)
        requires
            data@.len() * 8 <= usize::MAX,
        ensures
            r.data@ == data@,
            r.bit_offset == 0,
            r.wf(),
    {
        BitCursor { data, bit_offset: 0 }
    }

    /// Reads `width` bits; the value keeps its low 32 bits.
    pub fn read_bits_u32(&mut self, width: usize) -> (r: Option<u32>)
        requires
            old(self).wf(),
        ensures
            final(self).wf(),
            final(self).data@ == old(self).data@,
            (r, final(self).bit_offset as int) == read_bits_at(old(self).data@, old(self).bit_offset as int, width as int),
    {
        let end = match self.bit_offset.checked_add(width) {
            Some(e) => e,
            None => return None,
        };
        if end > self.data.len() * 8 {
            return None;
        }
        let ghost start = self.bit_offset as int;
        let ghost data = self.data@;
        let mut value: u32 = 0;
        let mut i: usize = 0;
        while i < width
            invariant
                self.data@ == data,
                self.wf(),
                start + width <= data.len() * 8,
                i <= width,
                self.bit_offset == start + i,
                value as int == bits_value(data, start, i as nat) % 0x1_0000_0000,
            decreases width - i,
        {
            let byte = self.data[self.bit_offset / 8];
            let shift = 7 - (self.bit_offset % 8);
            let bit = (byte >> shift) & 1;
            assert(bit == bit_at(data, start + i));
            assert(bit <= 1) by (bit_vector)
                requires
                    bit == (byte >> shift) & 1u8,
            ;
            let ghost prev = value;
            value = (value << 1) | (bit as u32);
            proof {
                let b = bit as u32;
                assert((prev << 1) | b == ((prev as int * 2 + b as int) % 0x1_0000_0000) as u32) by (bit_vector)
                    requires
                        b <= 1,
                ;
                let bv = bits_value(data, start, i as nat);
                assert(bits_value(data, start, (i + 1) as nat) == bv * 2 + bit as nat);
                assert((bv * 2 + bit as int) % 0x1_0000_0000 == ((bv % 0x1_0000_0000) * 2 + bit as int) % 0x1_0000_0000) by (nonlinear_arith);
            }
            self.bit_offset = self.bit_offset + 1;
            i = i + 1;
        }
        Some(value)
    }

    /// Reads one bit.
    pub fn read_bit(&mut self) -> (r: Option<bool>)
        requires
            old(self).wf(),
        ensures
            final(self).wf(),
            final(self).data@ == old(self).data@,
            ({
                let (v, p) = read_bits_at(old(self).data@, old(self).bit_offset as int, 1);
                &&& final(self).bit_offset == p
                &&& r == match v {
                    Some(x) => Some(x != 0),
                    None => None::<bool>,
                }
            }),
    {
        match self.read_bits_u32(1) {
            Some(value) => Some(value != 0),
            None => None,
        }
    }

    /// Reads `width` bits that must fit in a byte.
    pub fn read_bits_u8(&mut self, width: usize) -> (r: Option<u8>)
        requires
            old(self).wf(),
        ensures
            final(self).wf(),
            final(self).data@ == old(self).data@,
            (r, final(self).bit_offset as int) == read_u8_at(old(self).data@, old(self).bit_offset as int, width as int),
    {
        match self.read_bits_u32(width) {
            Some(value) => if value <= 0xFF { Some(value as u8) } else { None },
            None => None,
        }
    }

    /// Reads `width` bits that must fit in 16 bits.
    pub fn read_bits_u16(&mut self, width: usize) -> (r: Option<u16>)
        requires
            old(self).wf(),
        ensures
            final(self).wf(),
            final(self).data@ == old(self).data@,
            (r, final(self).bit_offset as int) == read_u16_at(old(self).data@, old(self).bit_offset as int, width as int),
    {
        match self.read_bits_u32(width) {
            Some(value) => if value <= 0xFFFF { Some(value as u16) } else { None },
            None => None,
        }
    }
}

} // verus!

verus! {

/// How a VP9 frame header resolves to a codec configuration.
pub enum Vp9HeaderOutcome {
    /// Too little header was present (or the frame was not a keyframe): the default record
    /// for this profile is used.
    Default(u8),
    /// A keyframe header with these fields matched the container dimensions.
    Config { profile: u8, bit_depth: u8, chroma_subsampling: u8, video_full_range_flag: u8 },
    /// The frame marker, keyframe sync code, or dimensions were wrong.
    Rejected,
}

/// Interprets the start of a VP9 frame against the container's `width` x `height`.
pub open spec fn vp9_header_outcome(d: Seq<u8>, width: u16, height: u16) -> Vp9HeaderOutcome {
    let (marker, p0) = read_u8_at(d, 0, 2);
    match marker {
        None => Vp9HeaderOutcome::Default(0),
        Some(m) => if m != 2 {
            Vp9HeaderOutcome::Rejected
        } else {
            let (lo, p1) = read_flag_at(d, p0);
            let (hi, p2) = read_flag_at(d, p1);
            let base: u8 = ((if lo { 1int } else { 0 }) + (if hi { 2int } else { 0 })) as u8;
            let (extra, p3) = if base == 3 { read_flag_at(d, p2) } else { (false, p2) };
            let profile: u8 = if base == 3 && extra { 4 } else { base };
            let (show_existing, p4) = read_flag_at(d, p3);
            if show_existing {
                Vp9HeaderOutcome::Default(profile)
            } else {
                let (frame_type, p5) = read_flag_at(d, p4);
                let (_show, p6) = read_flag_at(d, p5);
                let (_resilient, p7) = read_flag_at(d, p6);
                if frame_type {
                    Vp9HeaderOutcome::Default(profile)
                } else {
                    let (sync, p8) = read_bits_at(d, p7, 24);
                    match sync {
                        None => Vp9HeaderOutcome::Default(profile),
                        Some(s) => if s != 0x49_83_42 {
                            Vp9HeaderOutcome::Rejected
                        } else {
                            let (bit_depth, p9) = if profile >= 2 {
                                let (b, q) = read_flag_at(d, p8);
                                ((if b { 12u8 } else { 10u8 }), q)
                            } else {
                                (8u8, p8)
                            };
                            let (color_space, p10) = read_u8_at(d, p9, 3);
                            match color_space {
                                None => Vp9HeaderOutcome::Default(profile),
                                Some(cs) => {
                                    let (full, p11) = read_flag_at(d, p10);
                                    let (chroma, p12) = if cs == 7 || (profile != 1 && profile != 3) {
                                        (0u8, p11)
                                    } else {
                                        let (x, q1) = read_flag_at(d, p11);
                                        let (y, q2) = read_flag_at(d, q1);
                                        let (_z, q3) = read_flag_at(d, q2);
                                        (((if x { 2int } else { 0 }) + (if y { 1int } else { 0 }) + 1) as u8, q3)
                                    };
                                    let (pw, p13) = read_u16_at(d, p12, 16);
                                    match pw {
                                        None => Vp9HeaderOutcome::Default(profile),
                                        Some(w) => {
                                            let (ph, _p14) = read_u16_at(d, p13, 16);
                                            match ph {
                                                None => Vp9HeaderOutcome::Default(profile),
                                                Some(h) => {
                                                    let w1 = if w == 0xFFFF { w } else { (w + 1) as u16 };
                                                    let h1 = if h == 0xFFFF { h } else { (h + 1) as u16 };
                                                    if w1 != width || h1 != height {
                                                        Vp9HeaderOutcome::Rejected
                                                    } else {
                                                        Vp9HeaderOutcome::Config {
                                                            profile,
                                                            bit_depth,
                                                            chroma_subsampling: chroma,
                                                            video_full_range_flag: if full { 1 } else { 0 },
                                                        }
                                                    }
                                                },
                                            }
                                        },
                                    }
                                },
                            }
                        },
                    }
                }
            }
        },
    }
}

/// The default VP9 record: version 1, the given profile, every other field zero.
pub fn default_vp9_config(profile: u8) -> (c: VpCodecConfiguration)
    ensures
        vp_config_fields(c, profile, 0, 0, 0, 0, 0, 0, 0),
{
    new_vp_config(profile, 0, 0, 0, 0, 0, 0, 0)
}

/// Reads one flag, treating a missing bit as `false`.
fn flag(bits: &mut BitCursor) -> (r: bool)
    requires
        old(bits).wf(),
    ensures
        final(bits).wf(),
        final(bits).data@ == old(bits).data@,
        (r, final(bits).bit_offset as int) == read_flag_at(old(bits).data@, old(bits).bit_offset as int),
{
    match bits.read_bit() {
        Some(b) => b,
        None => false,
    }
}

/// Derives the `vpcC` record from the first frame of a VP9 stream, checking the keyframe
/// header against the container dimensions.
pub fn parse_vp9_config(width: u16, height: u16, sample: &[u8], spec: &str) -> (r: Result<VpCodecConfiguration, MuxError>)
    requires
        sample@.len() * 8 <= usize::MAX,
    ensures
        match vp9_header_outcome(sample@, width, height) {
            Vp9HeaderOutcome::Default(p) => r matches Ok(c) && vp_config_fields(c, p, 0, 0, 0, 0, 0, 0, 0),
            Vp9HeaderOutcome::Config { profile, bit_depth, chroma_subsampling, video_full_range_flag } =>
                r matches Ok(c) && vp_config_fields(c, profile, 0, bit_depth, chroma_subsampling, video_full_range_flag, 5, 5, 6),
            Vp9HeaderOutcome::Rejected => r matches Err(e) && is_import_error(e, spec@),
        },
{
    let mut bits = BitCursor::new(sample);
    let frame_marker = match bits.read_bits_u8(2) {
        Some(value) => value,
        None => return Ok(default_vp9_config(0)),
    };
    if frame_marker != 2 {
        return Err(import_error(spec, "VP9 frame did not start with the expected frame marker"));
    }
    let profile_low = flag(&mut bits);
    let profile_high = flag(&mut bits);
    let mut profile: u8 = (if profile_low { 1 } else { 0 }) + (if profile_high { 2 } else { 0 });
    if profile == 3 {
        profile = profile + (if flag(&mut bits) { 1 } else { 0 });
    }
    if flag(&mut bits) {
        return Ok(default_vp9_config(profile));
    }
    let frame_type = flag(&mut bits);
    let _show_frame = flag(&mut bits);
    let _error_resilient_mode = flag(&mut bits);
    if frame_type {
        return Ok(default_vp9_config(profile));
    }
    let sync_code = match bits.read_bits_u32(24) {
        Some(value) => value,
        None => return Ok(default_vp9_config(profile)),
    };
    if sync_code != 0x49_83_42 {
        return Err(import_error(spec, "VP9 keyframe did not contain the expected sync code"));
    }
    let mut bit_depth: u8 = 8;
    if profile >= 2 {
        bit_depth = if flag(&mut bits) { 12 } else { 10 };
    }
    let color_space = match bits.read_bits_u8(3) {
        Some(value) => value,
        None => return Ok(default_vp9_config(profile)),
    };
    let video_full_range_flag: u8 = if flag(&mut bits) { 1 } else { 0 };
    let chroma_subsampling: u8 = if color_space == 7 || (profile != 1 && profile != 3) {
        0
    } else {
        let subsampling_x: u8 = if flag(&mut bits) { 1 } else { 0 };
        let subsampling_y: u8 = if flag(&mut bits) { 1 } else { 0 };
        let _reserved_zero = flag(&mut bits);
        subsampling_x * 2 + subsampling_y + 1
    };
    let parsed_width = match bits.read_bits_u16(16) {
        Some(value) => value.saturating_add(1),
        None => return Ok(default_vp9_config(profile)),
    };
    let parsed_height = match bits.read_bits_u16(16) {
        Some(value) => value.saturating_add(1),
        None => return Ok(default_vp9_config(profile)),
    };
    if parsed_width != width || parsed_height != height {
        return Err(import_error(spec, "VP9 frame dimensions did not match the IVF header dimensions"));
    }
    Ok(new_vp_config(profile, 0, bit_depth, chroma_subsampling, video_full_range_flag, 5, 5, 6))
}

/// The VP-family compressor name.
pub open spec fn vpc_coding_name() -> Seq<u8> {
    seq![0x56u8, 0x50, 0x43, 0x20, 0x43, 0x6F, 0x64, 0x69, 0x6E, 0x67]
}

/// Builds the "VPC Coding" compressor name.
pub fn vpc_coding() -> (r: Vec<u8>)
    ensures
        r@ == vpc_coding_name(),
{
    let mut v: Vec<u8> = Vec::new();
    v.push(0x56); v.push(0x50); v.push(0x43); v.push(0x20); v.push(0x43);
    v.push(0x6F); v.push(0x64); v.push(0x69); v.push(0x6E); v.push(0x67);
    assert(v@ =~= vpc_coding_name());
    v
}

/// A VP-family visual sample entry of type `entry_type` carrying one `vpcC` box with the
/// given payload.
pub open spec fn vp_sample_entry(entry_type: Seq<u8>, width: u16, height: u16, vpcc: Seq<u8>) -> Seq<u8> {
    spec_box(
        entry_type,
        visual_entry_payload(
            width,
            height,
            0x0048_0000,
            0x0048_0000,
            1,
            compressor_field(vpc_coding_name()),
            0x0018,
            -1i16,
            spec_box(seq![0x76u8, 0x70, 0x63, 0x43], vpcc),
        ),
    )
}

/// Wraps a configuration record into a VP-family sample entry of the given type.
pub fn build_vp_sample_entry(entry_type: [u8; 4], width: u16, height: u16, config: &VpCodecConfiguration) -> (r: Result<Vec<u8>, MuxError>)
    requires
        config.codec_initialization_data@.len() == 0,
    ensures
        r matches Ok(bytes) && bytes@ == vp_sample_entry(entry_type@, width, height, vpcc_payload(*config)),
{
    let vpcc = encode_vpcc_box(config)?;
    let mut children: Vec<Vec<u8>> = Vec::new();
    children.push(vpcc);
    proof {
        let v = views(children@);
        assert(v.drop_last() =~= Seq::<Seq<u8>>::empty());
        assert(concat_all(v.drop_last()) == Seq::<u8>::empty());
        assert(concat_all(v) =~= children@[0]@);
    }
    let name = vpc_coding();
    build_visual_sample_entry_box_with_compressor_name(entry_type, width, height, name.as_slice(), &children)
}

/// The `vpcC` payload a VP9 header outcome yields.
pub open spec fn vp9_vpcc_payload(o: Vp9HeaderOutcome) -> Seq<u8> {
    match o {
        Vp9HeaderOutcome::Default(p) => vpcc_payload_of(p, 0, 0, 0, 0, 0, 0, 0),
        Vp9HeaderOutcome::Config { profile, bit_depth, chroma_subsampling, video_full_range_flag } =>
            vpcc_payload_of(profile, 0, bit_depth, chroma_subsampling, video_full_range_flag, 5, 5, 6),
        Vp9HeaderOutcome::Rejected => Seq::empty(),
    }
}

/// The `vp09` sample entry for the first frame of a VP9 stream.
pub fn build_vp9_sample_entry_box(width: u16, height: u16, sample: &[u8], spec: &str) -> (r: Result<Vec<u8>, MuxError>)
    requires
        sample@.len() * 8 <= usize::MAX,
    ensures
        match vp9_header_outcome(sample@, width, height) {
            Vp9HeaderOutcome::Rejected => r matches Err(e) && is_import_error(e, spec@),
            o => r matches Ok(bytes) && bytes@ == vp_sample_entry(
                seq![0x76u8, 0x70, 0x30, 0x39],
                width,
                height,
                vp9_vpcc_payload(o),
            ),
        },
{
    let config = parse_vp9_config(width, height, sample, spec)?;
    proof {
        match vp9_header_outcome(sample@, width, height) {
            Vp9HeaderOutcome::Default(p) => lemma_vpcc_payload_of(config, p, 0, 0, 0, 0, 0, 0, 0),
            Vp9HeaderOutcome::Config { profile, bit_depth, chroma_subsampling, video_full_range_flag } =>
                lemma_vpcc_payload_of(config, profile, 0, bit_depth, chroma_subsampling, video_full_range_flag, 5, 5, 6),
            Vp9HeaderOutcome::Rejected => {},
        }
    }
    build_vp_sample_entry(four_cc(0x76, 0x70, 0x30, 0x39), width, height, &config)
}

/// The rejection of an unsupported stream, naming the input.
pub fn unsupported(spec: &str, message: &str) -> (e: MuxError)
    ensures
        is_import_error(e, spec@),
{
    import_error(spec, message)
}

} // verus!

