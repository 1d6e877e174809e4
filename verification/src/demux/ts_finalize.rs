use vstd::prelude::*;
use crate::error::{Failure, MuxError, fails_as, import_error, is_import_error};
use crate::mp4::{be16, encode_generic_sample_entry, encode_raw_box, four_cc, generic_entry_payload, push_u16_be, spec_box};
use crate::sample::{CandidateSample, UNBOUND_SOURCE_INDEX};
use crate::demux::ts_psi::DvbSubtitleConfig;
use crate::demux::ts_tracks::{FileRangeSegment, TransportTrackBuilder};

verus! {

/// A finished transport-stream track: its identity, timing, sample entry, samples, and the
/// file ranges that hold its payload.
pub struct TransportTrackCandidate {
    pub track_id: u32,
    pub timescale: u32,
    pub language: [u8; 3],
    pub sample_entry_box: Vec<u8>,
    pub source_edit_media_time: Option<u64>,
    pub samples: Vec<CandidateSample>,
    pub segments: Vec<FileRangeSegment>,
    pub total_size: u64,
}

/// A finished track, with the flat chunk plan that AC-3 carriage asks for.
pub struct FinalizedTransportTrack {
    pub composite_track: TransportTrackCandidate,
    pub flat_chunk_sample_counts: Option<Vec<u32>>,
}

impl FinalizedTransportTrack {
    /// A finished track with no flat chunk plan.
    pub fn without_flat_chunk_sample_counts(composite_track: TransportTrackCandidate) -> (r: Self)
        ensures
            r.composite_track == composite_track,
            r.flat_chunk_sample_counts is None,
    {
        FinalizedTransportTrack { composite_track, flat_chunk_sample_counts: None }
    }
}

/// One subtitle or teletext sample per PES packet: each runs to the next packet's boundary
/// (the last to the end of the payload), lasts one second of the millisecond clock, and is a
/// sync sample.
pub open spec fn full_au_sample(offsets: Seq<u64>, total_size: u64, i: int) -> Result<CandidateSample, Failure> {
    let next = if i + 1 < offsets.len() { offsets[i + 1] } else { total_size };
    if next <= offsets[i] {
        Err(Failure::Rejected)
    } else if next - offsets[i] > u32::MAX {
        Err(Failure::Overflow)
    } else {
        Ok(CandidateSample {
            source_index: usize::MAX,
            data_offset: offsets[i],
            data_size: (next - offsets[i]) as u32,
            duration: 1_000,
            composition_time_offset: 0,
            is_sync_sample: true,
        })
    }
}

/// The samples of a one-sample-per-PES track, or the first failure; a track without any PES
/// packet is rejected.
pub open spec fn full_au_samples(offsets: Seq<u64>, total_size: u64) -> Result<Seq<CandidateSample>, Failure> {
    if offsets.len() == 0 {
        Err(Failure::Rejected)
    } else {
        crate::sample::convert_all(
            crate::demux::ts_anchored::indices(offsets.len() as int),
            |i: int| full_au_sample(offsets, total_size, i),
        )
    }
}

/// Builds the samples of a DVB subtitle or teletext track, one per PES packet.
pub fn build_transport_full_au_samples(spec: &str, builder: &TransportTrackBuilder) -> (r: Result<Vec<CandidateSample>, MuxError>)
    ensures
        match full_au_samples(builder.sample_offsets@, builder.total_size) {
            Ok(v) => r matches Ok(out) && out@ == v,
            Err(f) => r matches Err(e) && fails_as(e, f, spec@),
        },
{
    let offsets = &builder.sample_offsets;
    if offsets.len() == 0 {
        return Err(import_error(spec, "transport stream input did not contain any subtitle or teletext PES payload units"));
    }
    let ghost xs = crate::demux::ts_anchored::indices(offsets@.len() as int);
    let ghost f = |i: int| full_au_sample(offsets@, builder.total_size, i);
    let mut out: Vec<CandidateSample> = Vec::new();
    let mut i: usize = 0;
    while i < offsets.len()
        invariant
            i <= offsets@.len(),
            offsets@.len() > 0,
            offsets@ == builder.sample_offsets@,
            xs == crate::demux::ts_anchored::indices(offsets@.len() as int),
            f == (|i: int| full_au_sample(offsets@, builder.total_size, i)),
            crate::sample::convert_prefix(xs, f, i as int) == Ok::<Seq<CandidateSample>, Failure>(out@),
        decreases offsets.len() - i,
    {
        assert(xs[i as int] == i);
        let next = if i < offsets.len() - 1 { offsets[i + 1] } else { builder.total_size };
        if next <= offsets[i] {
            proof {
                assert(crate::sample::convert_prefix(xs, f, i + 1) is Err);
                crate::sample::lemma_convert_failure_persists(xs, f, i + 1, xs.len() as int);
            }
            return Err(import_error(spec, "transport stream carried subtitle or teletext samples must advance monotonically"));
        }
        if next - offsets[i] > 0xFFFF_FFFF {
            proof {
                assert(crate::sample::convert_prefix(xs, f, i + 1) is Err);
                crate::sample::lemma_convert_failure_persists(xs, f, i + 1, xs.len() as int);
            }
            return Err(crate::error::overflow("transport-stream carried subtitle sample size"));
        }
        out.push(CandidateSample {
            source_index: UNBOUND_SOURCE_INDEX,
            data_offset: offsets[i],
            data_size: (next - offsets[i]) as u32,
            duration: 1_000,
            composition_time_offset: 0,
            is_sync_sample: true,
        });
        i = i + 1;
    }
    Ok(out)
}

/// The DVB subtitling configuration box: composition page, ancillary page, subtitling type.
pub open spec fn dvsc_box(config: DvbSubtitleConfig) -> Seq<u8> {
    spec_box(seq![0x64u8, 0x76, 0x73, 0x43], be16(config.composition_page_id) + be16(config.ancillary_page_id) + seq![config.subtitle_type])
}

/// The "dvbs" sample entry holding the DVB subtitling configuration.
pub open spec fn dvb_subtitle_entry(config: DvbSubtitleConfig) -> Seq<u8> {
    spec_box(seq![0x64u8, 0x76, 0x62, 0x73], generic_entry_payload(dvsc_box(config)))
}

/// Builds the DVB subtitle sample entry from the builder's descriptor configuration.
pub fn build_dvb_subtitle_sample_entry_box(spec: &str, builder: &TransportTrackBuilder) -> (r: Result<Vec<u8>, MuxError>)
    ensures
        match builder.dvb_subtitle {
            None => r matches Err(e) && is_import_error(e, spec@),
            Some(config) => r matches Ok(bytes) && bytes@ == dvb_subtitle_entry(config),
        },
{
    let config = match builder.dvb_subtitle {
        Some(c) => c,
        None => return Err(import_error(spec, "transport-stream DVB subtitle builder is missing its descriptor configuration")),
    };
    let mut payload: Vec<u8> = Vec::new();
    push_u16_be(&mut payload, config.composition_page_id);
    push_u16_be(&mut payload, config.ancillary_page_id);
    payload.push(config.subtitle_type);
    let child = match encode_raw_box(four_cc(0x64, 0x76, 0x73, 0x43), payload.as_slice()) {
        Ok(b) => b,
        Err(e) => return Err(e),
    };
    assert(payload@ =~= be16(config.composition_page_id) + be16(config.ancillary_page_id) + seq![config.subtitle_type]);
    encode_generic_sample_entry(four_cc(0x64, 0x76, 0x62, 0x73), child.as_slice())
}

/// The "dvbt" sample entry, with no children.
pub open spec fn dvb_teletext_entry() -> Seq<u8> {
    spec_box(seq![0x64u8, 0x76, 0x62, 0x74], generic_entry_payload(Seq::empty()))
}

/// Builds the DVB teletext sample entry.
pub fn build_dvb_teletext_sample_entry_box() -> (r: Result<Vec<u8>, MuxError>)
    ensures
        r matches Ok(bytes) && bytes@ == dvb_teletext_entry(),
{
    let empty: Vec<u8> = Vec::new();
    encode_generic_sample_entry(four_cc(0x64, 0x76, 0x62, 0x74), empty.as_slice())
}

/// Copies the builder's payload layout into a candidate.
fn copy_segments(builder: &TransportTrackBuilder) -> (r: Vec<FileRangeSegment>)
    ensures
        r@ == builder.segments@,
{
    let mut out: Vec<FileRangeSegment> = Vec::new();
    let mut i: usize = 0;
    while i < builder.segments.len()
        invariant
            i <= builder.segments@.len(),
            out@ == builder.segments@.take(i as int),
        decreases builder.segments.len() - i,
    {
        out.push(builder.segments[i]);
        assert(builder.segments@.take(i + 1) == builder.segments@.take(i as int).push(builder.segments@[i as int]));
        i = i + 1;
    }
    assert(builder.segments@.take(builder.segments@.len() as int) == builder.segments@);
    out
}

/// Finishes a DVB subtitle track: the descriptor's language, the "dvbs" sample entry, and one
/// sample per PES packet on a millisecond clock.
pub fn finalize_transport_dvb_subtitle_track_sync(spec: &str, builder: TransportTrackBuilder) -> (r: Result<TransportTrackCandidate, MuxError>)
    ensures
        match (builder.dvb_subtitle, full_au_samples(builder.sample_offsets@, builder.total_size)) {
            (None, _) => r matches Err(e) && is_import_error(e, spec@),
            (Some(config), Err(f)) => r matches Err(e) && fails_as(e, f, spec@),
            (Some(config), Ok(samples)) => r matches Ok(t) && t.track_id == builder.pid && t.timescale == 1_000
                && t.language == config.language && t.sample_entry_box@ == dvb_subtitle_entry(config)
                && t.samples@ == samples && t.source_edit_media_time is None && t.segments@ == builder.segments@
                && t.total_size == builder.total_size,
        },
{
    let language = match builder.dvb_subtitle {
        Some(c) => c.language,
        None => builder.language,
    };
    let sample_entry_box = match build_dvb_subtitle_sample_entry_box(spec, &builder) {
        Ok(b) => b,
        Err(e) => return Err(e),
    };
    let samples = match build_transport_full_au_samples(spec, &builder) {
        Ok(s) => s,
        Err(e) => return Err(e),
    };
    Ok(TransportTrackCandidate {
        track_id: builder.pid as u32,
        timescale: 1_000,
        language,
        sample_entry_box,
        source_edit_media_time: None,
        samples,
        segments: copy_segments(&builder),
        total_size: builder.total_size,
    })
}

/// Finishes a DVB teletext track: the stream's language, the "dvbt" sample entry, and one
/// sample per PES packet on a millisecond clock.
pub fn finalize_transport_dvb_teletext_track_sync(spec: &str, builder: TransportTrackBuilder) -> (r: Result<TransportTrackCandidate, MuxError>)
    ensures
        match full_au_samples(builder.sample_offsets@, builder.total_size) {
            Err(f) => r matches Err(e) && fails_as(e, f, spec@),
            Ok(samples) => r matches Ok(t) && t.track_id == builder.pid && t.timescale == 1_000
                && t.language == builder.language && t.sample_entry_box@ == dvb_teletext_entry()
                && t.samples@ == samples && t.source_edit_media_time is None && t.segments@ == builder.segments@
                && t.total_size == builder.total_size,
        },
{
    let sample_entry_box = match build_dvb_teletext_sample_entry_box() {
        Ok(b) => b,
        Err(e) => return Err(e),
    };
    let samples = match build_transport_full_au_samples(spec, &builder) {
        Ok(s) => s,
        Err(e) => return Err(e),
    };
    Ok(TransportTrackCandidate {
        track_id: builder.pid as u32,
        timescale: 1_000,
        language: builder.language,
        sample_entry_box,
        source_edit_media_time: None,
        samples,
        segments: copy_segments(&builder),
        total_size: builder.total_size,
    })
}


/// Whether an H.264 sample entry already carries a `colr` box among its children.
pub fn transport_h264_sample_entry_has_colr(sample_entry_box: &[u8]) -> (r: Result<bool, MuxError>)
    ensures
        match crate::mp4::visual_entry_children(sample_entry_box@) {
            Some(children) => r == Ok::<bool, MuxError>(exists|k: int| 0 <= k < children.len()
                && #[trigger] children[k].subrange(4, 8) == seq![0x63u8, 0x6F, 0x6C, 0x72]),
            None => r matches Err(e) && e is LayoutOverflow,
        },
{
    crate::mp4::visual_entry_has_child(sample_entry_box, four_cc(0x63, 0x6F, 0x6C, 0x72))
}

} // verus!
