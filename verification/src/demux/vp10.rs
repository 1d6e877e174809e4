use vstd::prelude::*;
use crate::error::{MuxError, import_error, is_import_error};
use crate::mp4::four_cc;
use crate::demux::vpcc::{VpCodecConfiguration, lemma_vpcc_payload_of, new_vp_config, vp_config_fields, vpcc_payload_of};
use crate::demux::vp9::{build_vp_sample_entry, vp_sample_entry};

verus! {

/// The fixed VP10 record: version 1, profile 1, level 10, 8-bit, everything else zero.
pub fn default_vp10_config() -> (c: VpCodecConfiguration)
    ensures
        vp_config_fields(c, 1, 10, 8, 0, 0, 0, 0, 0),
{
    new_vp_config(1, 10, 8, 0, 0, 0, 0, 0)
}

/// The `vp10` sample entry; the stream must carry at least one frame payload.
pub fn build_vp10_sample_entry_box(width: u16, height: u16, sample: &[u8], spec: &str) -> (r: Result<Vec<u8>, MuxError>)
    ensures
        r is Ok <==> sample@.len() > 0,
        r matches Ok(bytes) ==> bytes@ == vp_sample_entry(
            seq![0x76u8, 0x70, 0x31, 0x30],
            width,
            height,
            vpcc_payload_of(1, 10, 8, 0, 0, 0, 0, 0),
        ),
        r matches Err(e) ==> is_import_error(e, spec@),
{
    if sample.len() == 0 {
        return Err(import_error(spec, "VP10 direct input must include at least one IVF frame payload"));
    }
    let config = default_vp10_config();
    proof { lemma_vpcc_payload_of(config, 1, 10, 8, 0, 0, 0, 0, 0); }
    build_vp_sample_entry(four_cc(0x76, 0x70, 0x31, 0x30), width, height, &config)
}

/// The rejection of an unsupported stream, naming the input.
pub fn unsupported(spec: &str, message: &str) -> (e: MuxError)
    ensures
        is_import_error(e, spec@),
{
    import_error(spec, message)
}

} // verus!

