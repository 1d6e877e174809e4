use vstd::prelude::*;
use crate::error::MuxError;
use crate::mp4::{be16, encode_raw_box, four_cc, push_bytes, push_u16_be, spec_box};

verus! {

/// The VP codec configuration record carried in a `vpcC` box.
pub struct VpCodecConfiguration {
    pub version: u8,
    pub profile: u8,
    pub level: u8,
    pub bit_depth: u8,
    pub chroma_subsampling: u8,
    pub video_full_range_flag: u8,
    pub colour_primaries: u8,
    pub transfer_characteristics: u8,
    pub matrix_coefficients: u8,
    pub codec_initialization_data_size: u16,
    pub codec_initialization_data: Vec<u8>,
}

/// A version-1 configuration with the given fields and no initialization data.
pub open spec fn vp_config_fields(
    c: VpCodecConfiguration,
    profile: u8,
    level: u8,
    bit_depth: u8,
    chroma_subsampling: u8,
    video_full_range_flag: u8,
    colour_primaries: u8,
    transfer_characteristics: u8,
    matrix_coefficients: u8,
) -> bool {
    &&& c.version == 1
    &&& c.profile == profile
    &&& c.level == level
    &&& c.bit_depth == bit_depth
    &&& c.chroma_subsampling == chroma_subsampling
    &&& c.video_full_range_flag == video_full_range_flag
    &&& c.colour_primaries == colour_primaries
    &&& c.transfer_characteristics == transfer_characteristics
    &&& c.matrix_coefficients == matrix_coefficients
    &&& c.codec_initialization_data_size == 0
    &&& c.codec_initialization_data@.len() == 0
}

/// Builds a version-1 configuration with no initialization data.
pub fn new_vp_config(
    profile: u8,
    level: u8,
    bit_depth: u8,
    chroma_subsampling: u8,
    video_full_range_flag: u8,
    colour_primaries: u8,
    transfer_characteristics: u8,
    matrix_coefficients: u8,
) -> (c: VpCodecConfiguration)
    ensures
        vp_config_fields(
            c,
            profile,
            level,
            bit_depth,
            chroma_subsampling,
            video_full_range_flag,
            colour_primaries,
            transfer_characteristics,
            matrix_coefficients,
        ),
{
    VpCodecConfiguration {
        version: 1,
        profile,
        level,
        bit_depth,
        chroma_subsampling,
        video_full_range_flag,
        colour_primaries,
        transfer_characteristics,
        matrix_coefficients,
        codec_initialization_data_size: 0,
        codec_initialization_data: Vec::new(),
    }
}

/// Payload of the `vpcC` full box: version, zero flags, then the packed record.
pub open spec fn vpcc_payload(c: VpCodecConfiguration) -> Seq<u8> {
    seq![
        c.version,
        0u8,
        0u8,
        0u8,
        c.profile,
        c.level,
        ((c.bit_depth % 16) * 16 + (c.chroma_subsampling % 8) * 2 + (c.video_full_range_flag % 2)) as u8,
        c.colour_primaries,
        c.transfer_characteristics,
        c.matrix_coefficients,
    ] + be16(c.codec_initialization_data_size) + c.codec_initialization_data@
}

/// The `vpcC` payload of a version-1 record with the given fields and no initialization data.
pub open spec fn vpcc_payload_of(
    profile: u8,
    level: u8,
    bit_depth: u8,
    chroma_subsampling: u8,
    video_full_range_flag: u8,
    colour_primaries: u8,
    transfer_characteristics: u8,
    matrix_coefficients: u8,
) -> Seq<u8> {
    seq![
        1u8,
        0u8,
        0u8,
        0u8,
        profile,
        level,
        ((bit_depth % 16) * 16 + (chroma_subsampling % 8) * 2 + (video_full_range_flag % 2)) as u8,
        colour_primaries,
        transfer_characteristics,
        matrix_coefficients,
        0u8,
        0u8,
    ]
}

/// A record built from fields encodes to the payload of those fields.
pub proof fn lemma_vpcc_payload_of(
    c: VpCodecConfiguration,
    profile: u8,
    level: u8,
    bit_depth: u8,
    chroma_subsampling: u8,
    video_full_range_flag: u8,
    colour_primaries: u8,
    transfer_characteristics: u8,
    matrix_coefficients: u8,
)
    requires
        vp_config_fields(
            c,
            profile,
            level,
            bit_depth,
            chroma_subsampling,
            video_full_range_flag,
            colour_primaries,
            transfer_characteristics,
            matrix_coefficients,
        ),
    ensures
        vpcc_payload(c) == vpcc_payload_of(
            profile,
            level,
            bit_depth,
            chroma_subsampling,
            video_full_range_flag,
            colour_primaries,
            transfer_characteristics,
            matrix_coefficients,
        ),
{
    assert(vpcc_payload(c) =~= vpcc_payload_of(
        profile,
        level,
        bit_depth,
        chroma_subsampling,
        video_full_range_flag,
        colour_primaries,
        transfer_characteristics,
        matrix_coefficients,
    ));
}

/// Encodes a `vpcC` box.
pub fn encode_vpcc_box(c: &VpCodecConfiguration) -> (r: Result<Vec<u8>, MuxError>)
    ensures
        r is Ok <==> c.codec_initialization_data@.len() + 12 + 8 <= u32::MAX,
        r matches Ok(bytes) ==> bytes@ == spec_box(seq![0x76u8, 0x70, 0x63, 0x43], vpcc_payload(*c)),
{
    let mut payload: Vec<u8> = Vec::new();
    payload.push(c.version);
    payload.push(0);
    payload.push(0);
    payload.push(0);
    payload.push(c.profile);
    payload.push(c.level);
    payload.push(((c.bit_depth % 16) * 16 + (c.chroma_subsampling % 8) * 2 + (c.video_full_range_flag % 2)) as u8);
    payload.push(c.colour_primaries);
    payload.push(c.transfer_characteristics);
    payload.push(c.matrix_coefficients);
    push_u16_be(&mut payload, c.codec_initialization_data_size);
    push_bytes(&mut payload, c.codec_initialization_data.as_slice());
    assert(payload@ =~= vpcc_payload(*c));
    encode_raw_box(four_cc(0x76, 0x70, 0x63, 0x43), payload.as_slice())
}

} // verus!
