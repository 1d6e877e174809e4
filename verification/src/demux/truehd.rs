use vstd::prelude::*;
use crate::error::{MuxError, import_error, is_import_error, overflow};
use crate::mp4::{
    audio_entry_payload, be16, be32, btrt_box, encode_audio_sample_entry, encode_btrt_box, encode_raw_box, four_cc,
    push_bytes, push_u16_be, push_u32_be, spec_box,
};
use crate::sample::StagedSample;

verus! {

/// The stream parameters a TrueHD major-sync header declares.
#[derive(Clone, Copy, Debug, PartialEq, Eq, Structural)]
pub struct TrueHdDescriptor {
    pub sample_rate: u32,
    pub channel_count: u16,
    pub format_info: u32,
    pub peak_data_rate: u16,
    pub sample_duration: u32,
}

/// One access unit of a TrueHD elementary stream.
#[derive(Clone, Copy, Debug, PartialEq, Eq)]
pub enum ParsedTrueHdUnit {
    /// An embedded AC-3 frame, skipped over.
    AuxiliaryAc3 { frame_size: u32 },
    /// A TrueHD access unit with its stream parameters.
    TrueHdFrame { descriptor: TrueHdDescriptor, frame_size: u32 },
}

/// A TrueHD track ready for staging.
pub struct ParsedTrueHdTrack {
    pub sample_rate: u32,
    pub sample_entry_box: Vec<u8>,
    pub samples: Vec<StagedSample>,
}

/// Sample rate of a TrueHD sample-rate code.
pub open spec fn spec_truehd_sample_rate(code: u8) -> Option<u32> {
    match code {
        0 => Some(48_000u32),
        1 => Some(96_000u32),
        2 => Some(192_000u32),
        8 => Some(44_100u32),
        9 => Some(88_200u32),
        10 => Some(176_400u32),
        _ => None,
    }
}

/// Maps a TrueHD sample-rate code to its rate.
pub fn truehd_sample_rate(code: u8) -> (r: Option<u32>)
    ensures
        r == spec_truehd_sample_rate(code),
{
    match code {
        0 => Some(48_000),
        1 => Some(96_000),
        2 => Some(192_000),
        8 => Some(44_100),
        9 => Some(88_200),
        10 => Some(176_400),
        _ => None,
    }
}

/// Samples per TrueHD access unit: 1/1200 s at 48 kHz-family rates, 2/2205 s at 44.1 kHz
/// rates (40 samples at 48 kHz or 44.1 kHz).
pub open spec fn spec_truehd_frame_duration(sample_rate: u32) -> Option<u32> {
    if sample_rate == 48_000 || sample_rate == 96_000 || sample_rate == 192_000 {
        Some((sample_rate / 1_200) as u32)
    } else if sample_rate == 44_100 || sample_rate == 88_200 || sample_rate == 176_400 {
        Some((sample_rate * 2 / 2_205) as u32)
    } else {
        None
    }
}

/// Samples per TrueHD access unit at `sample_rate`.
pub fn truehd_frame_duration(sample_rate: u32) -> (r: Option<u32>)
    ensures
        r == spec_truehd_frame_duration(sample_rate),
{
    if sample_rate == 48_000 || sample_rate == 96_000 || sample_rate == 192_000 {
        Some(sample_rate / 1_200)
    } else if sample_rate == 44_100 || sample_rate == 88_200 || sample_rate == 176_400 {
        Some(sample_rate * 2 / 2_205)
    } else {
        None
    }
}

/// Bit `k` of `x`, as 0 or 1.
pub open spec fn bit_of(x: u32, k: u32) -> int {
    ((x >> k) & 1u32) as int
}

/// Channels of the 6-channel presentation assignment (L/R pair, C, LFE, Ls/Rs, Lrs/Rrs).
pub open spec fn channels_6(a: u32) -> int {
    2 * bit_of(a, 0) + bit_of(a, 1) + bit_of(a, 2) + 2 * bit_of(a, 3) + 2 * bit_of(a, 4)
}

/// Channels of the 8-channel presentation assignment.
pub open spec fn channels_8(a: u32) -> int {
    2 * bit_of(a, 0) + bit_of(a, 1) + bit_of(a, 2) + 2 * bit_of(a, 3) + 2 * bit_of(a, 4) + 2 * bit_of(a, 5)
        + 2 * bit_of(a, 6) + bit_of(a, 7) + bit_of(a, 8) + 2 * bit_of(a, 9) + 2 * bit_of(a, 10) + bit_of(a, 11)
        + bit_of(a, 12)
}

/// Channel count a TrueHD format-info word declares: the 8-channel assignment when present,
/// else the 6-channel assignment when present, else mono or stereo from the 2-channel
/// modifier.
pub open spec fn spec_truehd_channels(format_info: u32) -> int {
    let ch2 = (format_info >> 22u32) & 3u32;
    let ch6 = (format_info >> 15u32) & 0x1Fu32;
    let ch8 = format_info & 0x1FFFu32;
    if ch8 != 0 {
        channels_8(ch8)
    } else if ch6 != 0 {
        channels_6(ch6)
    } else if ch2 == 1 {
        1
    } else {
        2
    }
}

/// Adds the weight of bit `k` of `a`.
fn add_bit(count: u16, a: u32, k: u32, weight: u16) -> (r: u16)
    requires
        k < 32,
        count + weight <= u16::MAX,
    ensures
        0 <= bit_of(a, k) <= 1,
        r == count + weight * bit_of(a, k),
        count <= r <= count + weight,
{
    let b: u32 = (a >> k) & 1u32;
    assert(b <= 1) by (bit_vector)
        requires
            b == (a >> k) & 1u32,
    ;
    assert(b as int == bit_of(a, k));
    if b != 0 { count + weight } else { count }
}

/// Channel count of a TrueHD format-info word; `None` when it declares no channel.
pub fn truehd_channel_count(format_info: u32) -> (r: Option<u16>)
    ensures
        spec_truehd_channels(format_info) != 0 ==> r == Some(spec_truehd_channels(format_info) as u16),
        spec_truehd_channels(format_info) == 0 ==> r is None,
        0 <= spec_truehd_channels(format_info) <= 24,
{
    let ch_2_modif = (format_info >> 22) & 0x03;
    let ch_6_assign = (format_info >> 15) & 0x1F;
    let ch_8_assign = format_info & 0x1FFF;
    let mut channel_count: u16 = if ch_2_modif == 1 { 1 } else { 2 };
    if ch_6_assign != 0 {
        channel_count = 0;
        channel_count = add_bit(channel_count, ch_6_assign, 0, 2);
        channel_count = add_bit(channel_count, ch_6_assign, 1, 1);
        channel_count = add_bit(channel_count, ch_6_assign, 2, 1);
        channel_count = add_bit(channel_count, ch_6_assign, 3, 2);
        channel_count = add_bit(channel_count, ch_6_assign, 4, 2);
    }
    if ch_8_assign != 0 {
        channel_count = 0;
        channel_count = add_bit(channel_count, ch_8_assign, 0, 2);
        channel_count = add_bit(channel_count, ch_8_assign, 1, 1);
        channel_count = add_bit(channel_count, ch_8_assign, 2, 1);
        channel_count = add_bit(channel_count, ch_8_assign, 3, 2);
        channel_count = add_bit(channel_count, ch_8_assign, 4, 2);
        channel_count = add_bit(channel_count, ch_8_assign, 5, 2);
        channel_count = add_bit(channel_count, ch_8_assign, 6, 2);
        channel_count = add_bit(channel_count, ch_8_assign, 7, 1);
        channel_count = add_bit(channel_count, ch_8_assign, 8, 1);
        channel_count = add_bit(channel_count, ch_8_assign, 9, 2);
        channel_count = add_bit(channel_count, ch_8_assign, 10, 2);
        channel_count = add_bit(channel_count, ch_8_assign, 11, 1);
        channel_count = add_bit(channel_count, ch_8_assign, 12, 1);
    }
    if channel_count != 0 { Some(channel_count) } else { None }
}

/// AC-3 frame sizes in 16-bit words at 48, 44.1 and 32 kHz for each frame-size code.
pub open spec fn spec_ac3_frame_words(code: u8) -> (u16, u16, u16) {
    match code {
        0 => (64, 69, 96),
        1 => (64, 70, 96),
        2 => (80, 87, 120),
        3 => (80, 88, 120),
        4 => (96, 104, 144),
        5 => (96, 105, 144),
        6 => (112, 121, 168),
        7 => (112, 122, 168),
        8 => (128, 139, 192),
        9 => (128, 140, 192),
        10 => (160, 174, 240),
        11 => (160, 175, 240),
        12 => (192, 208, 288),
        13 => (192, 209, 288),
        14 => (224, 243, 336),
        15 => (224, 244, 336),
        16 => (256, 278, 384),
        17 => (256, 279, 384),
        18 => (320, 348, 480),
        19 => (320, 349, 480),
        20 => (384, 417, 576),
        21 => (384, 418, 576),
        22 => (448, 487, 672),
        23 => (448, 488, 672),
        24 => (512, 557, 768),
        25 => (512, 558, 768),
        26 => (640, 696, 960),
        27 => (640, 697, 960),
        28 => (768, 835, 1152),
        29 => (768, 836, 1152),
        30 => (896, 975, 1344),
        31 => (896, 976, 1344),
        32 => (1024, 1114, 1536),
        33 => (1024, 1115, 1536),
        34 => (1152, 1253, 1728),
        35 => (1152, 1254, 1728),
        36 => (1280, 1393, 1920),
        37 => (1280, 1394, 1920),
        _ => (0, 0, 0),
    }
}

/// Looks up the frame-size row of an AC-3 frame-size code.
fn ac3_frame_words(code: u8) -> (r: (u16, u16, u16))
    requires
        code <= 37,
    ensures
        r == spec_ac3_frame_words(code),
{
    match code {
        0 => (64, 69, 96),
        1 => (64, 70, 96),
        2 => (80, 87, 120),
        3 => (80, 88, 120),
        4 => (96, 104, 144),
        5 => (96, 105, 144),
        6 => (112, 121, 168),
        7 => (112, 122, 168),
        8 => (128, 139, 192),
        9 => (128, 140, 192),
        10 => (160, 174, 240),
        11 => (160, 175, 240),
        12 => (192, 208, 288),
        13 => (192, 209, 288),
        14 => (224, 243, 336),
        15 => (224, 244, 336),
        16 => (256, 278, 384),
        17 => (256, 279, 384),
        18 => (320, 348, 480),
        19 => (320, 349, 480),
        20 => (384, 417, 576),
        21 => (384, 418, 576),
        22 => (448, 487, 672),
        23 => (448, 488, 672),
        24 => (512, 557, 768),
        25 => (512, 558, 768),
        26 => (640, 696, 960),
        27 => (640, 697, 960),
        28 => (768, 835, 1152),
        29 => (768, 836, 1152),
        30 => (896, 975, 1344),
        31 => (896, 976, 1344),
        32 => (1024, 1114, 1536),
        33 => (1024, 1115, 1536),
        34 => (1152, 1253, 1728),
        35 => (1152, 1254, 1728),
        36 => (1280, 1393, 1920),
        37 => (1280, 1394, 1920),
        _ => (0, 0, 0),
    }
}

/// Size in bytes of an AC-3 frame, where the sample-rate and frame-size codes are valid.
pub open spec fn spec_ac3_frame_size_bytes(fscod: u8, frmsizecod: u8) -> Option<u32> {
    if frmsizecod > 37 || fscod > 2 {
        None
    } else {
        let (a, b, c) = spec_ac3_frame_words(frmsizecod);
        Some((2 * (if fscod == 0 { a } else if fscod == 1 { b } else { c })) as u32)
    }
}

/// Size in bytes of an AC-3 frame.
pub fn ac3_frame_size_bytes(fscod: u8, frmsizecod: u8) -> (r: Option<u32>)
    ensures
        r == spec_ac3_frame_size_bytes(fscod, frmsizecod),
{
    if frmsizecod > 37 {
        return None;
    }
    let (a, b, c) = ac3_frame_words(frmsizecod);
    let words = match fscod {
        0 => a,
        1 => b,
        2 => c,
        _ => return None,
    };
    Some(words as u32 * 2)
}

/// How an embedded AC-3 frame header resolves: its size, or a rejection.
pub open spec fn spec_aux_ac3_frame_size(h: Seq<u8>) -> Option<u32> {
    if h.len() < 8 || h[0] != 0x0B || h[1] != 0x77 || h[4] / 64 == 3 {
        None
    } else {
        match spec_ac3_frame_size_bytes(h[4] / 64, h[4] % 64) {
            None => None,
            Some(size) => if (h[5] / 8) % 32 > 10 { None } else { Some(size) },
        }
    }
}

/// Size of an embedded AC-3 frame in a TrueHD stream; E-AC-3 (bitstream id above 10) is
/// rejected.
pub fn parse_auxiliary_ac3_frame_size(header: &[u8], offset: u64, spec: &str) -> (r: Result<u32, MuxError>)
    ensures
        match spec_aux_ac3_frame_size(header@) {
            Some(size) => r == Ok::<u32, MuxError>(size),
            None => r matches Err(e) && is_import_error(e, spec@),
        },
{
    if header.len() < 8 {
        return Err(import_error(spec, "truncated auxiliary AC-3 frame header"));
    }
    if header[0] != 0x0B || header[1] != 0x77 {
        return Err(import_error(spec, "missing auxiliary AC-3 sync word"));
    }
    let fscod = header[4] / 64;
    if fscod == 3 {
        return Err(import_error(spec, "reserved auxiliary AC-3 sample-rate code"));
    }
    let frmsizecod = header[4] % 64;
    let frame_size = match ac3_frame_size_bytes(fscod, frmsizecod) {
        Some(size) => size,
        None => return Err(import_error(spec, "unsupported auxiliary AC-3 frame-size code")),
    };
    let bsid = (header[5] / 8) % 32;
    if bsid > 10 {
        return Err(import_error(spec, "embedded E-AC-3 frames are not currently supported in TrueHD input"));
    }
    Ok(frame_size)
}

/// The access-unit length (12 bits, in 16-bit words) of a TrueHD unit, in bytes.
pub open spec fn spec_truehd_frame_size(h: Seq<u8>) -> u32 {
    (((h[0] as int * 256 + h[1] as int) % 0x1000) * 2) as u32
}

/// Size of a TrueHD access unit; units shorter than the 20-byte major-sync header are rejected.
pub fn parse_truehd_frame_size(header: &[u8], offset: u64, spec: &str) -> (r: Result<u32, MuxError>)
    requires
        header@.len() >= 2,
    ensures
        spec_truehd_frame_size(header@) >= 20 ==> r == Ok::<u32, MuxError>(spec_truehd_frame_size(header@)),
        spec_truehd_frame_size(header@) < 20 ==> (r matches Err(e) && is_import_error(e, spec@)),
{
    let packed = header[0] as u32 * 256 + header[1] as u32;
    let frame_size = (packed % 0x1000) * 2;
    if frame_size < 20 {
        return Err(import_error(spec, "invalid TrueHD frame size"));
    }
    Ok(frame_size)
}

/// Big-endian 32-bit word at `i`.
pub open spec fn be32_at(h: Seq<u8>, i: int) -> u32 {
    (h[i] as int * 0x1000000 + h[i + 1] as int * 0x10000 + h[i + 2] as int * 0x100 + h[i + 3] as int) as u32
}

/// Big-endian 16-bit word at `i`.
pub open spec fn be16_at(h: Seq<u8>, i: int) -> u16 {
    (h[i] as int * 0x100 + h[i + 1] as int) as u16
}

/// Reads a big-endian 32-bit word.
pub fn read_be32(h: &[u8], i: usize) -> (r: u32)
    requires
        i + 4 <= h@.len(),
    ensures
        r == be32_at(h@, i as int),
{
    h[i] as u32 * 0x1000000 + h[i + 1] as u32 * 0x10000 + h[i + 2] as u32 * 0x100 + h[i + 3] as u32
}

/// Reads a big-endian 16-bit word.
pub fn read_be16(h: &[u8], i: usize) -> (r: u16)
    requires
        i + 2 <= h@.len(),
    ensures
        r == be16_at(h@, i as int),
{
    h[i] as u16 * 0x100 + h[i + 1] as u16
}

/// The stream parameters of a TrueHD major-sync header, or `None` when it is rejected.
pub open spec fn spec_truehd_descriptor(h: Seq<u8>) -> Option<TrueHdDescriptor> {
    let format_info = be32_at(h, 8);
    if be32_at(h, 4) != 0xF872_6FBA {
        None
    } else {
        match spec_truehd_sample_rate(((format_info >> 28u32) & 0x0Fu32) as u8) {
            None => None,
            Some(rate) => if be16_at(h, 12) != 0xB752 {
                None
            } else {
                match spec_truehd_frame_duration(rate) {
                    None => None,
                    Some(duration) => {
                        let channels = spec_truehd_channels(format_info);
                        if channels == 0 {
                            None
                        } else {
                            Some(TrueHdDescriptor {
                                sample_rate: rate,
                                channel_count: channels as u16,
                                format_info,
                                peak_data_rate: (be16_at(h, 2) / 2) % 0x8000,
                                sample_duration: duration,
                            })
                        }
                    },
                }
            },
        }
    }
}

/// Reads the stream parameters of a TrueHD major-sync header.
pub fn parse_truehd_descriptor(header: &[u8], offset: u64, spec: &str) -> (r: Result<TrueHdDescriptor, MuxError>)
    requires
        header@.len() >= 14,
    ensures
        match spec_truehd_descriptor(header@) {
            Some(d) => r == Ok::<TrueHdDescriptor, MuxError>(d),
            None => r matches Err(e) && is_import_error(e, spec@),
        },
{
    let sync = read_be32(header, 4);
    if sync != 0xF872_6FBA {
        return Err(import_error(spec, "missing TrueHD sync marker"));
    }
    let format_info = read_be32(header, 8);
    let rate_code = (format_info >> 28) & 0x0F;
    assert(rate_code <= 15) by (bit_vector)
        requires
            rate_code == (format_info >> 28u32) & 0x0Fu32,
    ;
    let sample_rate = match truehd_sample_rate(rate_code as u8) {
        Some(rate) => rate,
        None => return Err(import_error(spec, "unsupported TrueHD sample-rate code")),
    };
    let signature = read_be16(header, 12);
    if signature != 0xB752 {
        return Err(import_error(spec, "missing TrueHD format signature"));
    }
    let sample_duration = match truehd_frame_duration(sample_rate) {
        Some(d) => d,
        None => return Err(import_error(spec, "unsupported TrueHD sample rate")),
    };
    let channel_count = match truehd_channel_count(format_info) {
        Some(c) => c,
        None => return Err(import_error(spec, "unsupported TrueHD channel layout")),
    };
    let peak_data_rate = (read_be16(header, 2) / 2) % 0x8000;
    Ok(TrueHdDescriptor { sample_rate, channel_count, format_info, peak_data_rate, sample_duration })
}

/// How one unit header resolves, given the bytes that remain in the stream.
pub open spec fn spec_truehd_unit(h: Seq<u8>, remaining: u64) -> Option<ParsedTrueHdUnit> {
    if h.len() >= 2 && h[0] == 0x0B && h[1] == 0x77 {
        match spec_aux_ac3_frame_size(h) {
            None => None,
            Some(size) => if size > remaining { None } else { Some(ParsedTrueHdUnit::AuxiliaryAc3 { frame_size: size }) },
        }
    } else if h.len() < 20 {
        None
    } else {
        let size = spec_truehd_frame_size(h);
        if size < 20 || size > remaining {
            None
        } else {
            match spec_truehd_descriptor(h) {
                None => None,
                Some(d) => Some(ParsedTrueHdUnit::TrueHdFrame { descriptor: d, frame_size: size }),
            }
        }
    }
}

/// Classifies the unit whose first bytes are `header`: an embedded AC-3 frame (starting with
/// the AC-3 sync word) or a TrueHD access unit; units overrunning `remaining` are rejected.
pub fn parse_truehd_unit_header(header: &[u8], remaining: u64, offset: u64, spec: &str) -> (r: Result<ParsedTrueHdUnit, MuxError>)
    ensures
        match spec_truehd_unit(header@, remaining) {
            Some(u) => r == Ok::<ParsedTrueHdUnit, MuxError>(u),
            None => r matches Err(e) && is_import_error(e, spec@),
        },
{
    if header.len() >= 2 && header[0] == 0x0B && header[1] == 0x77 {
        let frame_size = parse_auxiliary_ac3_frame_size(header, offset, spec)?;
        if frame_size as u64 > remaining {
            return Err(import_error(spec, "truncated auxiliary AC-3 frame"));
        }
        return Ok(ParsedTrueHdUnit::AuxiliaryAc3 { frame_size });
    }
    if header.len() < 20 {
        return Err(import_error(spec, "truncated TrueHD frame header"));
    }
    let frame_size = parse_truehd_frame_size(header, offset, spec)?;
    if frame_size as u64 > remaining {
        return Err(import_error(spec, "truncated TrueHD frame"));
    }
    let descriptor = parse_truehd_descriptor(header, offset, spec)?;
    Ok(ParsedTrueHdUnit::TrueHdFrame { descriptor, frame_size })
}

/// The `dmlp` box of a TrueHD sample entry.
pub open spec fn dmlp_box(format_info: u32, peak_data_rate: u16) -> Seq<u8> {
    spec_box(
        seq![0x64u8, 0x6D, 0x6C, 0x70],
        be32(format_info) + be16(((peak_data_rate as int * 2) % 0x10000) as u16) + be32(0),
    )
}

/// The `mlpa` sample entry a descriptor yields (nominal bit rate is rate x channels x 4).
pub open spec fn truehd_sample_entry(d: TrueHdDescriptor) -> Seq<u8> {
    let nominal = (d.sample_rate * d.channel_count * 4) as u32;
    spec_box(
        seq![0x6Du8, 0x6C, 0x70, 0x61],
        audio_entry_payload(
            seq![0u8, 0, 0, 0],
            d.channel_count,
            16,
            d.sample_rate,
            dmlp_box(d.format_info, d.peak_data_rate) + btrt_box(d.sample_duration, nominal, nominal),
        ),
    )
}

/// Builds the `mlpa` sample entry with its `dmlp` and `btrt` children.
pub fn build_truehd_sample_entry_box(descriptor: TrueHdDescriptor) -> (r: Result<Vec<u8>, MuxError>)
    ensures
        r is Ok <==> descriptor.sample_rate * descriptor.channel_count * 4 <= u32::MAX,
        r matches Ok(bytes) ==> bytes@ == truehd_sample_entry(descriptor),
        r matches Err(e) ==> e is LayoutOverflow,
{
    let mut dmlp_payload: Vec<u8> = Vec::new();
    push_u32_be(&mut dmlp_payload, descriptor.format_info);
    push_u16_be(&mut dmlp_payload, ((descriptor.peak_data_rate as u32 * 2) % 0x10000) as u16);
    push_u32_be(&mut dmlp_payload, 0);
    let dmlp = encode_raw_box(four_cc(0x64, 0x6D, 0x6C, 0x70), dmlp_payload.as_slice())?;
    let nominal_bitrate = match descriptor.sample_rate.checked_mul(descriptor.channel_count as u32) {
        Some(v) => match v.checked_mul(4) {
            Some(w) => w,
            None => return Err(overflow("TrueHD nominal bitrate")),
        },
        None => {
            assert(descriptor.sample_rate * descriptor.channel_count * 4 > u32::MAX) by (nonlinear_arith)
                requires
                    descriptor.sample_rate * descriptor.channel_count > u32::MAX,
            ;
            return Err(overflow("TrueHD nominal bitrate"));
        },
    };
    let btrt = encode_btrt_box(descriptor.sample_duration, nominal_bitrate, nominal_bitrate);
    let mut children: Vec<u8> = Vec::new();
    push_bytes(&mut children, dmlp.as_slice());
    push_bytes(&mut children, btrt.as_slice());
    let z = four_cc(0, 0, 0, 0);
    encode_audio_sample_entry(
        four_cc(0x6D, 0x6C, 0x70, 0x61),
        z,
        descriptor.channel_count,
        16,
        descriptor.sample_rate,
        children.as_slice(),
    )
}

/// Finishes a TrueHD track; a stream without any TrueHD access unit is rejected.
pub fn finalize_truehd_track(spec: &str, descriptor: Option<TrueHdDescriptor>, samples: Vec<StagedSample>) -> (r: Result<ParsedTrueHdTrack, MuxError>)
    ensures
        match descriptor {
            None => r matches Err(e) && is_import_error(e, spec@),
            Some(d) => if d.sample_rate * d.channel_count * 4 <= u32::MAX {
                r matches Ok(t) && t.sample_rate == d.sample_rate && t.sample_entry_box@ == truehd_sample_entry(d)
                    && t.samples@ == samples@
            } else {
                r matches Err(e) && e is LayoutOverflow
            },
        },
{
    let descriptor = match descriptor {
        Some(d) => d,
        None => return Err(import_error(spec, "TrueHD input contained no TrueHD frames")),
    };
    let sample_entry_box = build_truehd_sample_entry_box(descriptor)?;
    Ok(ParsedTrueHdTrack { sample_rate: descriptor.sample_rate, sample_entry_box, samples })
}

/// The unit at `off` of a stream held in memory: at least eight bytes must remain, and up to
/// twenty of them are the header.
pub open spec fn truehd_unit_at(f: Seq<u8>, off: int) -> Option<ParsedTrueHdUnit> {
    let remaining = f.len() - off;
    if remaining < 8 {
        None
    } else {
        let header = f.subrange(off, off + if remaining < 20 { remaining } else { 20 });
        spec_truehd_unit(header, remaining as u64)
    }
}

/// The stream parameters and samples after reading units from `off` on: auxiliary AC-3
/// frames are skipped, every TrueHD access unit becomes a sync sample lasting its frame
/// duration, and all of them must declare the same parameters.
pub open spec fn truehd_stream_from(
    f: Seq<u8>,
    off: int,
    desc: Option<TrueHdDescriptor>,
    samples: Seq<StagedSample>,
) -> Result<(Option<TrueHdDescriptor>, Seq<StagedSample>), ()>
    decreases f.len() - off,
{
    if off < 0 || off >= f.len() {
        Ok((desc, samples))
    } else {
        match truehd_unit_at(f, off) {
            None => Err(()),
            Some(ParsedTrueHdUnit::AuxiliaryAc3 { frame_size }) => {
                proof { lemma_unit_size_positive(f, off); }
                truehd_stream_from(f, off + frame_size, desc, samples)
            },
            Some(ParsedTrueHdUnit::TrueHdFrame { descriptor, frame_size }) => {
                proof { lemma_unit_size_positive(f, off); }
                if desc matches Some(d) && d != descriptor {
                    Err(())
                } else {
                    truehd_stream_from(f, off + frame_size, Some(descriptor), samples.push(StagedSample {
                        data_offset: off as u64,
                        data_size: frame_size,
                        duration: descriptor.sample_duration,
                        composition_time_offset: 0,
                        is_sync_sample: true,
                    }))
                }
            },
        }
    }
}

/// Every AC-3 frame size of the rate tables is positive.
pub proof fn lemma_ac3_words_positive(code: u8)
    requires
        code <= 37,
    ensures
        spec_ac3_frame_words(code).0 > 0 && spec_ac3_frame_words(code).1 > 0 && spec_ac3_frame_words(code).2 > 0,
{
}

/// Every unit a stream can hold is at least one byte long.
pub proof fn lemma_unit_size_positive(f: Seq<u8>, off: int)
    ensures
        truehd_unit_at(f, off) matches Some(ParsedTrueHdUnit::AuxiliaryAc3 { frame_size }) ==> frame_size > 0,
        truehd_unit_at(f, off) matches Some(ParsedTrueHdUnit::TrueHdFrame { frame_size, .. }) ==> frame_size > 0,
{
    let remaining = f.len() - off;
    if remaining >= 8 {
        let h = f.subrange(off, off + if remaining < 20 { remaining } else { 20 });
        if h.len() >= 8 && h[4] % 64 <= 37 {
            lemma_ac3_words_positive(h[4] % 64);
        }
    }
}

/// Reads the unit at `offset`.
fn read_truehd_unit(file: &[u8], offset: usize, spec: &str) -> (r: Result<ParsedTrueHdUnit, MuxError>)
    requires
        offset < file@.len(),
    ensures
        match truehd_unit_at(file@, offset as int) {
            Some(u) => r == Ok::<ParsedTrueHdUnit, MuxError>(u),
            None => r matches Err(e) && is_import_error(e, spec@),
        },
        r matches Ok(ParsedTrueHdUnit::AuxiliaryAc3 { frame_size }) ==> frame_size <= file@.len() - offset,
        r matches Ok(ParsedTrueHdUnit::TrueHdFrame { frame_size, .. }) ==> frame_size <= file@.len() - offset,
{
    let n = file.len();
    let remaining = n - offset;
    if remaining < 8 {
        return Err(import_error(spec, "truncated TrueHD frame header"));
    }
    let take = if remaining < 20 { remaining } else { 20 };
    let header: &[u8] = &file[offset..offset + take];
    assert(header@ == file@.subrange(offset as int, offset + take));
    parse_truehd_unit_header(header, remaining as u64, offset as u64, spec)
}

/// Reads a TrueHD elementary stream held in memory into its track.
pub fn parse_truehd_stream_bytes(file: &[u8], spec: &str) -> (r: Result<ParsedTrueHdTrack, MuxError>)
    ensures
        match truehd_stream_from(file@, 0, None, Seq::empty()) {
            Err(()) => r matches Err(e) && is_import_error(e, spec@),
            Ok((None, _)) => r matches Err(e) && is_import_error(e, spec@),
            Ok((Some(d), samples)) => if d.sample_rate * d.channel_count * 4 <= u32::MAX {
                r matches Ok(t) && t.sample_rate == d.sample_rate && t.sample_entry_box@ == truehd_sample_entry(d)
                    && t.samples@ == samples
            } else {
                r matches Err(e) && e is LayoutOverflow
            },
        },
{
    let n = file.len();
    let mut offset: usize = 0;
    let mut descriptor: Option<TrueHdDescriptor> = None;
    let mut samples: Vec<StagedSample> = Vec::new();
    while offset < n
        invariant
            n == file@.len(),
            offset <= n,
            truehd_stream_from(file@, 0, None, Seq::empty()) == truehd_stream_from(file@, offset as int, descriptor, samples@),
        decreases n - offset,
    {
        match read_truehd_unit(file, offset, spec)? {
            ParsedTrueHdUnit::AuxiliaryAc3 { frame_size } => {
                proof { lemma_unit_size_positive(file@, offset as int); }
                offset = offset + frame_size as usize;
            },
            ParsedTrueHdUnit::TrueHdFrame { descriptor: parsed, frame_size } => {
                proof { lemma_unit_size_positive(file@, offset as int); }
                match descriptor {
                    Some(current) => {
                        if current != parsed {
                            return Err(import_error(spec, "TrueHD frames changed decoder configuration mid-stream"));
                        }
                    },
                    None => {
                        descriptor = Some(parsed);
                    },
                }
                samples.push(StagedSample {
                    data_offset: offset as u64,
                    data_size: frame_size,
                    duration: parsed.sample_duration,
                    composition_time_offset: 0,
                    is_sync_sample: true,
                });
                offset = offset + frame_size as usize;
            },
        }
    }
    finalize_truehd_track(spec, descriptor, samples)
}

/// The samples lie in file order without overlapping, all before `end`, and all last the
/// frame duration of `desc` (there are none without it).
pub open spec fn frames_in_order(samples: Seq<StagedSample>, end: int, desc: Option<TrueHdDescriptor>) -> bool {
    &&& forall|i: int| 0 <= i < samples.len() - 1 ==> #[trigger] samples[i].data_offset + samples[i].data_size <= samples[i + 1].data_offset
    &&& samples.len() > 0 ==> samples.last().data_offset + samples.last().data_size <= end
    &&& desc is None ==> samples.len() == 0
    &&& desc matches Some(d) ==> forall|i: int| 0 <= i < samples.len() ==> (#[trigger] samples[i]).duration == d.sample_duration
}

proof fn lemma_truehd_frames_in_order(f: Seq<u8>, off: int, desc: Option<TrueHdDescriptor>, samples: Seq<StagedSample>)
    requires
        0 <= off,
        f.len() <= u64::MAX,
        frames_in_order(samples, off, desc),
    ensures
        truehd_stream_from(f, off, desc, samples) matches Ok((d2, s2)) ==> frames_in_order(s2, if off < f.len() { f.len() as int } else { off }, d2),
    decreases f.len() - off,
{
    if off < f.len() {
        lemma_unit_size_positive(f, off);
        match truehd_unit_at(f, off) {
            None => {},
            Some(ParsedTrueHdUnit::AuxiliaryAc3 { frame_size }) => {
                lemma_truehd_frames_in_order(f, off + frame_size, desc, samples);
            },
            Some(ParsedTrueHdUnit::TrueHdFrame { descriptor, frame_size }) => {
                if !(desc matches Some(d) && d != descriptor) {
                    let s2 = samples.push(StagedSample {
                        data_offset: off as u64,
                        data_size: frame_size,
                        duration: descriptor.sample_duration,
                        composition_time_offset: 0,
                        is_sync_sample: true,
                    });
                    assert(frames_in_order(s2, off + frame_size, Some(descriptor))) by {
                        assert forall|i: int| 0 <= i < s2.len() - 1 implies #[trigger] s2[i].data_offset + s2[i].data_size <= s2[i + 1].data_offset by {
                            if i < samples.len() - 1 {
                                assert(s2[i] == samples[i] && s2[i + 1] == samples[i + 1]);
                            } else {
                                assert(s2[i] == samples.last());
                            }
                        }
                        assert forall|i: int| 0 <= i < s2.len() implies (#[trigger] s2[i]).duration == descriptor.sample_duration by {
                            if i < samples.len() {
                                assert(s2[i] == samples[i]);
                            }
                        }
                    }
                    lemma_truehd_frames_in_order(f, off + frame_size, Some(descriptor), s2);
                }
            },
        }
    }
}

/// The access units taken from a TrueHD stream (of a size a 64-bit offset reaches) lie in file
/// order without overlapping, inside the file, and all last the frame duration of the
/// stream's parameters.
pub proof fn lemma_truehd_samples_in_file_order(f: Seq<u8>, desc: Option<TrueHdDescriptor>, samples: Seq<StagedSample>)
    requires
        f.len() <= u64::MAX,
        truehd_stream_from(f, 0, None, Seq::empty()) == Ok::<(Option<TrueHdDescriptor>, Seq<StagedSample>), ()>((desc, samples)),
    ensures
        frames_in_order(samples, f.len() as int, desc),
{
    lemma_truehd_frames_in_order(f, 0, None, Seq::empty());
}


/// Which assignment of a major-sync format-info word gives the channel count: the 8-channel
/// assignment (bits 12-0) whenever it is non-zero, whatever the 6-channel assignment holds;
/// else the 6-channel assignment (bits 19-15) when non-zero; else one channel when the
/// 2-channel modifier (bits 23-22) is 1 and two otherwise.
pub proof fn lemma_truehd_channel_assignment_precedence(format_info: u32)
    ensures
        format_info & 0x1FFFu32 != 0 ==> spec_truehd_channels(format_info) == channels_8(format_info & 0x1FFFu32),
        format_info & 0x1FFFu32 == 0 && (format_info >> 15u32) & 0x1Fu32 != 0
            ==> spec_truehd_channels(format_info) == channels_6((format_info >> 15u32) & 0x1Fu32),
        format_info & 0x1FFFu32 == 0 && (format_info >> 15u32) & 0x1Fu32 == 0
            ==> spec_truehd_channels(format_info) == (if (format_info >> 22u32) & 3u32 == 1 { 1int } else { 2int }),
{
}

/// Bit `j` of the union of two words with no bit in common is the sum of their bits `j`.
proof fn lemma_bit_of_disjoint_union(a: u32, b: u32, j: u32)
    requires
        a & b == 0,
        j < 32,
    ensures
        bit_of(a | b, j) == bit_of(a, j) + bit_of(b, j),
{
    assert(((a | b) >> j) & 1u32 == ((a >> j) & 1u32) + ((b >> j) & 1u32)) by (bit_vector)
        requires
            a & b == 0,
            j < 32;
}

/// Bit `j` of a word with only bit `k` set.
proof fn lemma_bit_of_single(k: u32, j: u32)
    requires
        k < 32,
        j < 32,
    ensures
        bit_of(1u32 << k, j) == (if k == j { 1int } else { 0int }),
{
    assert(((1u32 << k) >> j) & 1u32 == (if k == j { 1u32 } else { 0u32 })) by (bit_vector)
        requires
            k < 32,
            j < 32;
}

/// The channel count of a presentation assignment adds up over its speaker positions:
/// assignments with no position in common count the channels of both.
pub proof fn lemma_truehd_assignments_add_up(a: u32, b: u32)
    requires
        a & b == 0,
    ensures
        channels_8(a | b) == channels_8(a) + channels_8(b),
        channels_6(a | b) == channels_6(a) + channels_6(b),
{
    lemma_bit_of_disjoint_union(a, b, 0);
    lemma_bit_of_disjoint_union(a, b, 1);
    lemma_bit_of_disjoint_union(a, b, 2);
    lemma_bit_of_disjoint_union(a, b, 3);
    lemma_bit_of_disjoint_union(a, b, 4);
    lemma_bit_of_disjoint_union(a, b, 5);
    lemma_bit_of_disjoint_union(a, b, 6);
    lemma_bit_of_disjoint_union(a, b, 7);
    lemma_bit_of_disjoint_union(a, b, 8);
    lemma_bit_of_disjoint_union(a, b, 9);
    lemma_bit_of_disjoint_union(a, b, 10);
    lemma_bit_of_disjoint_union(a, b, 11);
    lemma_bit_of_disjoint_union(a, b, 12);
}

/// Each speaker position of a presentation assignment carries its channels: in the 8-channel
/// assignment the left/right pair (bit 0), the left/right surround, top-front, centre-surround,
/// rear, surround-direct and wide pairs (bits 3, 4, 5, 6, 9, 10) count two, and the centre,
/// LFE, centre-surround, top, top-front-centre and second LFE (bits 1, 2, 7, 8, 11, 12) one;
/// in the 6-channel assignment the left/right, surround and rear pairs (bits 0, 3, 4) count
/// two and the centre and LFE (bits 1, 2) one.
pub proof fn lemma_truehd_speaker_weights(k: u32)
    requires
        k < 13,
    ensures
        channels_8(1u32 << k) == seq![2int, 1, 1, 2, 2, 2, 2, 1, 1, 2, 2, 1, 1][k as int],
        k < 5 ==> channels_6(1u32 << k) == seq![2int, 1, 1, 2, 2][k as int],
{
    lemma_bit_of_single(k, 0);
    lemma_bit_of_single(k, 1);
    lemma_bit_of_single(k, 2);
    lemma_bit_of_single(k, 3);
    lemma_bit_of_single(k, 4);
    lemma_bit_of_single(k, 5);
    lemma_bit_of_single(k, 6);
    lemma_bit_of_single(k, 7);
    lemma_bit_of_single(k, 8);
    lemma_bit_of_single(k, 9);
    lemma_bit_of_single(k, 10);
    lemma_bit_of_single(k, 11);
    lemma_bit_of_single(k, 12);
}
} // verus!
