use vstd::prelude::*;
use crate::error::{MuxError, import_error, is_import_error};
use crate::mp4::four_cc;
use crate::demux::vpcc::{VpCodecConfiguration, lemma_vpcc_payload_of, new_vp_config, vp_config_fields, vpcc_payload_of};
use crate::demux::vp9::{build_vp_sample_entry, vp_sample_entry};

verus! {

/// Whether the first bytes of a VP8 frame form a keyframe whose dimensions match the container.
pub open spec fn vp8_keyframe_ok(s: Seq<u8>, width: u16, height: u16) -> bool {
    &&& s.len() >= 10
    &&& s[0] % 2 == 0
    &&& s[3] == 0x9D && s[4] == 0x01 && s[5] == 0x2A
    &&& (s[6] + s[7] * 256) % 0x4000 != 0
    &&& (s[8] + s[9] * 256) % 0x4000 != 0
    &&& (s[6] + s[7] * 256) % 0x4000 == width
    &&& (s[8] + s[9] * 256) % 0x4000 == height
}

/// Checks the first VP8 frame and yields the fixed VP8 `vpcC` record (profile 1, level 10,
/// 8-bit).
pub fn parse_vp8_config(width: u16, height: u16, sample: &[u8], spec: &str) -> (r: Result<VpCodecConfiguration, MuxError>)
    ensures
        r is Ok <==> vp8_keyframe_ok(sample@, width, height),
        r matches Ok(c) ==> vp_config_fields(c, 1, 10, 8, 0, 0, 0, 0, 0),
        r matches Err(e) ==> is_import_error(e, spec@),
{
    if sample.len() < 10 {
        return Err(import_error(spec, "VP8 keyframe payload is truncated before the frame header"));
    }
    let frame_type = sample[0] % 2;
    if frame_type != 0 {
        return Err(import_error(
            spec,
            "VP8 direct input must start with one keyframe so container dimensions can be validated",
        ));
    }
    if sample[3] != 0x9D || sample[4] != 0x01 || sample[5] != 0x2A {
        return Err(import_error(spec, "VP8 keyframe payload did not contain the expected sync code"));
    }
    let parsed_width = ((sample[6] as u32 + sample[7] as u32 * 256) % 0x4000) as u16;
    let parsed_height = ((sample[8] as u32 + sample[9] as u32 * 256) % 0x4000) as u16;
    if parsed_width == 0 || parsed_height == 0 {
        return Err(import_error(spec, "VP8 keyframe declared zero width or height"));
    }
    if parsed_width != width || parsed_height != height {
        return Err(import_error(spec, "VP8 keyframe dimensions did not match the IVF header dimensions"));
    }
    Ok(new_vp_config(1, 10, 8, 0, 0, 0, 0, 0))
}

/// The `vp08` sample entry for the first frame of a VP8 stream.
pub fn build_vp8_sample_entry_box(width: u16, height: u16, sample: &[u8], spec: &str) -> (r: Result<Vec<u8>, MuxError>)
    ensures
        r is Ok <==> vp8_keyframe_ok(sample@, width, height),
        r matches Ok(bytes) ==> bytes@ == vp_sample_entry(
            seq![0x76u8, 0x70, 0x30, 0x38],
            width,
            height,
            vpcc_payload_of(1, 10, 8, 0, 0, 0, 0, 0),
        ),
        r matches Err(e) ==> is_import_error(e, spec@),
{
    let config = parse_vp8_config(width, height, sample, spec)?;
    proof { lemma_vpcc_payload_of(config, 1, 10, 8, 0, 0, 0, 0, 0); }
    build_vp_sample_entry(four_cc(0x76, 0x70, 0x30, 0x38), width, height, &config)
}

/// The rejection of an unsupported stream, naming the input.
pub fn unsupported(spec: &str, message: &str) -> (e: MuxError)
    ensures
        is_import_error(e, spec@),
{
    import_error(spec, message)
}

} // verus!

