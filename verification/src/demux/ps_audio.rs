use vstd::prelude::*;
use crate::error::{Failure, MuxError, fails_as, import_error, is_import_error, overflow};
use crate::sample::{CandidateSample, StagedSample, UNBOUND_SOURCE_INDEX};
use crate::demux::ts_tracks::FileRangeSegment;

verus! {

/// The track a program-stream PES stream id is imported as: 0x100 plus the stream id.
pub open spec fn ps_track_id(stream_id: u8) -> u32 {
    (0x100 + stream_id as int) as u32
}

/// The track ID of a program-stream elementary stream.
pub fn program_stream_track_id(stream_id: u8) -> (r: u32)
    ensures
        r == ps_track_id(stream_id),
{
    0x100 + stream_id as u32
}

/// The elementary streams a program stream carries.
#[derive(Clone, Copy, Debug, PartialEq, Eq, Structural)]
pub enum ProgramStreamTrackKind {
    Mp3,
    Ac3,
    Lpcm,
    Video,
    Subpicture,
}

/// The audio format a DVD LPCM private header declares.
#[derive(Clone, Copy, Debug, PartialEq, Eq, Structural)]
pub struct ProgramStreamLpcmFormat {
    pub sample_rate: u32,
    pub channel_count: u16,
    pub bits_per_sample: u16,
    pub block_align: u16,
}

/// A private_stream_1 PES packet once its substream header is read.
#[derive(Clone, Copy, Debug, PartialEq, Eq)]
pub struct ParsedPrivateStream1PesPacket {
    pub substream_id: u8,
    pub kind: ProgramStreamTrackKind,
    pub lpcm_format: Option<ProgramStreamLpcmFormat>,
    pub payload_offset: u64,
    pub payload_size: u32,
    pub packet_end: u64,
    pub presentation_time: Option<u64>,
}

/// The payload of one program-stream elementary stream as its packets deliver it.
pub struct ProgramStreamTrackBuilder {
    pub stream_id: u8,
    pub kind: ProgramStreamTrackKind,
    pub lpcm_format: Option<ProgramStreamLpcmFormat>,
    pub segments: Vec<FileRangeSegment>,
    pub total_size: u64,
    pub sample_offsets: Vec<u64>,
    pub sample_pts: Vec<u64>,
    pub sample_dts: Vec<u64>,
}

/// The LPCM format of a DVD LPCM format byte: sample size from the top two bits (16, 20 or 24;
/// 20-bit and the reserved code are rejected), sample rate from the next two, channel count
/// from the low three bits plus one.
pub open spec fn lpcm_format(format_byte: u8) -> Result<ProgramStreamLpcmFormat, Failure> {
    let size_code = format_byte / 64;
    if size_code == 3 || size_code == 1 {
        Err(Failure::Rejected)
    } else {
        let bits: u16 = if size_code == 0 { 16 } else { 24 };
        let rate_code = format_byte / 16 % 4;
        let sample_rate: u32 = if rate_code == 0 { 48_000 } else if rate_code == 1 { 96_000 } else if rate_code == 2 { 44_100 } else { 32_000 };
        let channels = (format_byte % 8 + 1) as u16;
        Ok(ProgramStreamLpcmFormat {
            sample_rate,
            channel_count: channels,
            bits_per_sample: bits,
            block_align: (channels * (bits / 8)) as u16,
        })
    }
}

/// Reads the LPCM format from the three private-header bytes after the substream id.
pub fn parse_program_stream_lpcm_format(spec: &str, substream_id: u8, private_header_bytes: [u8; 3]) -> (r: Result<ProgramStreamLpcmFormat, MuxError>)
    ensures
        match lpcm_format(private_header_bytes@[2]) {
            Ok(f) => r == Ok::<ProgramStreamLpcmFormat, MuxError>(f),
            Err(f) => r matches Err(e) && fails_as(e, f, spec@),
        },
{
    let format_byte = private_header_bytes[2];
    let size_code = format_byte / 64;
    let bits_per_sample: u16 = if size_code == 0 {
        16
    } else if size_code == 1 {
        20
    } else if size_code == 2 {
        24
    } else {
        return Err(import_error(spec, "program stream LPCM substream used an unsupported sample-size code"));
    };
    if bits_per_sample % 8 != 0 {
        return Err(import_error(spec, "program stream LPCM substream used unsupported non-byte-aligned samples"));
    }
    let rate_code = format_byte / 16 % 4;
    let sample_rate: u32 = if rate_code == 0 { 48_000 } else if rate_code == 1 { 96_000 } else if rate_code == 2 { 44_100 } else { 32_000 };
    let channel_count = (format_byte % 8) as u16 + 1;
    let block_align = channel_count * (bits_per_sample / 8);
    Ok(ProgramStreamLpcmFormat { sample_rate, channel_count, bits_per_sample, block_align })
}

/// What a private_stream_1 substream id carries: AC-3 (0x80-0x8F), LPCM (0xA0-0xAF, with its
/// format), subpictures (0x20-0x3F), or nothing supported.
pub open spec fn private_stream_1_packet(
    header: Seq<u8>,
    presentation_time: Option<u64>,
    payload_offset: u64,
    payload_size: u32,
    packet_end: u64,
) -> Result<ParsedPrivateStream1PesPacket, Failure> {
    let id = header[0];
    let kind: Result<(ProgramStreamTrackKind, Option<ProgramStreamLpcmFormat>), Failure> = if 0x80 <= id <= 0x8F {
        Ok((ProgramStreamTrackKind::Ac3, None))
    } else if 0xA0 <= id <= 0xAF {
        match lpcm_format(header[3]) {
            Err(f) => Err(f),
            Ok(format) => Ok((ProgramStreamTrackKind::Lpcm, Some(format))),
        }
    } else if 0x20 <= id <= 0x3F {
        Ok((ProgramStreamTrackKind::Subpicture, None))
    } else {
        Err(Failure::Rejected)
    };
    match kind {
        Err(f) => Err(f),
        Ok((k, format)) => Ok(ParsedPrivateStream1PesPacket {
            substream_id: id,
            kind: k,
            lpcm_format: format,
            presentation_time,
            payload_offset: (payload_offset + 4) as u64,
            payload_size: (payload_size - 4) as u32,
            packet_end,
        }),
    }
}

/// Classifies a private_stream_1 PES packet by its substream header and moves its payload
/// past the four-byte private header.
pub fn finalize_private_stream_1_pes_packet(
    spec: &str,
    private_header: [u8; 4],
    presentation_time: Option<u64>,
    payload_offset: u64,
    payload_size: u32,
    packet_end: u64,
) -> (r: Result<ParsedPrivateStream1PesPacket, MuxError>)
    requires
        payload_size >= 4,
        payload_offset <= u64::MAX - 4,
    ensures
        match private_stream_1_packet(private_header@, presentation_time, payload_offset, payload_size, packet_end) {
            Ok(p) => r == Ok::<ParsedPrivateStream1PesPacket, MuxError>(p),
            Err(f) => r matches Err(e) && fails_as(e, f, spec@),
        },
{
    let id = private_header[0];
    let (kind, lpcm) = if 0x80 <= id && id <= 0x8F {
        (ProgramStreamTrackKind::Ac3, None)
    } else if 0xA0 <= id && id <= 0xAF {
        match parse_program_stream_lpcm_format(spec, id, [private_header[1], private_header[2], private_header[3]]) {
            Err(e) => return Err(e),
            Ok(format) => (ProgramStreamTrackKind::Lpcm, Some(format)),
        }
    } else if 0x20 <= id && id <= 0x3F {
        (ProgramStreamTrackKind::Subpicture, None)
    } else {
        return Err(import_error(spec, "program stream private_stream_1 substream is not supported on the native direct-ingest path yet"));
    };
    Ok(ParsedPrivateStream1PesPacket {
        substream_id: id,
        kind,
        lpcm_format: lpcm,
        presentation_time,
        payload_offset: payload_offset + 4,
        payload_size: payload_size - 4,
        packet_end,
    })
}

/// The start-code ids that begin a program-stream packet this importer recognizes.
pub open spec fn supported_packet_id(id: u8) -> bool {
    (0xB9 <= id <= 0xBF) || (0xC0 <= id <= 0xDF) || (0xE0 <= id <= 0xEF)
}

/// Whether a start-code id begins a recognized program-stream packet.
pub fn is_supported_program_stream_packet_id(packet_id: u8) -> (r: bool)
    ensures
        r == supported_packet_id(packet_id),
{
    (0xB9 <= packet_id && packet_id <= 0xBF) || (0xC0 <= packet_id && packet_id <= 0xDF) || (0xE0 <= packet_id && packet_id <= 0xEF)
}

/// A recognized packet start code `00 00 01 id` begins at `i`.
pub open spec fn packet_start_at(bytes: Seq<u8>, i: int) -> bool {
    0 <= i && i + 4 <= bytes.len() && bytes[i] == 0 && bytes[i + 1] == 0 && bytes[i + 2] == 1
        && supported_packet_id(bytes[i + 3])
}

/// Finds the first recognized program-stream packet start code in `bytes`.
pub fn find_program_stream_packet_start_in_bytes(bytes: &[u8]) -> (r: Option<usize>)
    ensures
        match r {
            Some(i) => packet_start_at(bytes@, i as int) && forall|j: int| 0 <= j < i ==> !packet_start_at(bytes@, j),
            None => forall|j: int| 0 <= j < bytes@.len() ==> !packet_start_at(bytes@, j),
        },
{
    if bytes.len() < 4 {
        return None;
    }
    let mut i: usize = 0;
    while i <= bytes.len() - 4
        invariant
            bytes@.len() >= 4,
            i <= bytes@.len() - 3,
            forall|j: int| 0 <= j < i ==> !packet_start_at(bytes@, j),
        decreases bytes.len() - i,
    {
        if bytes[i] == 0 && bytes[i + 1] == 0 && bytes[i + 2] == 1 && is_supported_program_stream_packet_id(bytes[i + 3]) {
            return Some(i);
        }
        i = i + 1;
    }
    None
}

/// The 33-bit timestamp of a program-stream PTS/DTS field, when its prefix nibble is 1, 2 or
/// 3 and its marker bits are set.
pub open spec fn ps_timestamp(b: Seq<u8>) -> Option<u64> {
    let prefix = b[0] as int / 16;
    if (prefix == 1 || prefix == 2 || prefix == 3) && b[0] % 2 == 1 && b[2] % 2 == 1 && b[4] % 2 == 1 {
        Some(((b[0] as int / 2 % 8) * 0x4000_0000 + (b[1] as int) * 0x40_0000 + (b[2] as int / 2) * 0x8000
            + (b[3] as int) * 0x80 + (b[4] as int / 2)) as u64)
    } else {
        None
    }
}

/// Reads a program-stream PES PTS/DTS field.
pub fn parse_program_stream_pes_timestamp_bytes(pts: &[u8; 5], spec: &str) -> (r: Result<u64, MuxError>)
    ensures
        match ps_timestamp(pts@) {
            Some(v) => r == Ok::<u64, MuxError>(v),
            None => r matches Err(e) && is_import_error(e, spec@),
        },
{
    let prefix = pts[0] / 16;
    if !((prefix == 1 || prefix == 2 || prefix == 3) && pts[0] % 2 == 1) || pts[2] % 2 != 1 || pts[4] % 2 != 1 {
        return Err(import_error(spec, "program stream PES timestamp markers are malformed"));
    }
    Ok(((pts[0] / 2 % 8) as u64) * 0x4000_0000 + (pts[1] as u64) * 0x40_0000 + ((pts[2] / 2) as u64) * 0x8000
        + (pts[3] as u64) * 0x80 + ((pts[4] / 2) as u64))
}

/// One LPCM sample per PES payload: it runs to the next payload (the last to the end), must be
/// a whole number of frames, and lasts that many frames.
pub open spec fn lpcm_sample(offsets: Seq<u64>, total_size: u64, block_align: u16, i: int) -> Result<CandidateSample, Failure> {
    let next = if i + 1 < offsets.len() { offsets[i + 1] } else { total_size };
    if next <= offsets[i] {
        Err(Failure::Rejected)
    } else if next - offsets[i] > u32::MAX {
        Err(Failure::Overflow)
    } else if (next - offsets[i]) % (block_align as int) != 0 || (next - offsets[i]) / (block_align as int) == 0 {
        Err(Failure::Rejected)
    } else {
        Ok(CandidateSample {
            source_index: usize::MAX,
            data_offset: offsets[i],
            data_size: (next - offsets[i]) as u32,
            duration: ((next - offsets[i]) / (block_align as int)) as u32,
            composition_time_offset: 0,
            is_sync_sample: true,
        })
    }
}

/// The LPCM samples of a program-stream track, or the first failure; a track without any PES
/// payload is rejected.
pub open spec fn lpcm_samples(offsets: Seq<u64>, total_size: u64, block_align: u16) -> Result<Seq<CandidateSample>, Failure> {
    if offsets.len() == 0 {
        Err(Failure::Rejected)
    } else {
        crate::sample::convert_all(
            crate::demux::ts_anchored::indices(offsets.len() as int),
            |i: int| lpcm_sample(offsets, total_size, block_align, i),
        )
    }
}

/// Builds the LPCM samples of a program-stream track.
pub fn build_program_stream_lpcm_samples(spec: &str, builder: &ProgramStreamTrackBuilder, format: ProgramStreamLpcmFormat) -> (r: Result<Vec<CandidateSample>, MuxError>)
    requires
        format.block_align != 0,
    ensures
        match lpcm_samples(builder.sample_offsets@, builder.total_size, format.block_align) {
            Ok(v) => r matches Ok(out) && out@ == v,
            Err(f) => r matches Err(e) && fails_as(e, f, spec@),
        },
{
    let offsets = &builder.sample_offsets;
    if offsets.len() == 0 {
        return Err(import_error(spec, "program stream input did not contain any complete LPCM PES payloads"));
    }
    let ghost xs = crate::demux::ts_anchored::indices(offsets@.len() as int);
    let ghost f = |i: int| lpcm_sample(offsets@, builder.total_size, format.block_align, i);
    let mut out: Vec<CandidateSample> = Vec::new();
    let mut i: usize = 0;
    while i < offsets.len()
        invariant
            i <= offsets@.len(),
            offsets@.len() > 0,
            offsets@ == builder.sample_offsets@,
            format.block_align != 0,
            xs == crate::demux::ts_anchored::indices(offsets@.len() as int),
            f == (|i: int| lpcm_sample(offsets@, builder.total_size, format.block_align, i)),
            crate::sample::convert_prefix(xs, f, i as int) == Ok::<Seq<CandidateSample>, Failure>(out@),
        decreases offsets.len() - i,
    {
        assert(xs[i as int] == i);
        let next = if i < offsets.len() - 1 { offsets[i + 1] } else { builder.total_size };
        let failure = if next <= offsets[i] {
            Some(import_error(spec, "program stream LPCM samples must advance monotonically"))
        } else if next - offsets[i] > 0xFFFF_FFFF {
            Some(overflow("program stream LPCM sample size"))
        } else if (next - offsets[i]) % (format.block_align as u64) != 0 {
            Some(import_error(spec, "program stream LPCM sample size is not aligned to the declared frame size"))
        } else if (next - offsets[i]) / (format.block_align as u64) == 0 {
            Some(import_error(spec, "program stream LPCM sample duration underflowed to zero"))
        } else {
            None
        };
        match failure {
            Some(e) => {
                proof {
                    assert(crate::sample::convert_prefix(xs, f, i + 1) is Err);
                    crate::sample::lemma_convert_failure_persists(xs, f, i + 1, xs.len() as int);
                }
                return Err(e);
            },
            None => {},
        }
        let size = next - offsets[i];
        out.push(CandidateSample {
            source_index: UNBOUND_SOURCE_INDEX,
            data_offset: offsets[i],
            data_size: size as u32,
            duration: (size / (format.block_align as u64)) as u32,
            composition_time_offset: 0,
            is_sync_sample: true,
        });
        i = i + 1;
    }
    Ok(out)
}

/// The first `n` audio durations rescaled onto the 90 kHz clock, carrying the division
/// remainder from one sample to the next so no time is lost, with the final remainder; each
/// must fit 32 bits and, when `nonzero`, be non-zero.
pub open spec fn carried_durations(durations: Seq<u32>, sample_rate: u32, nonzero: bool, n: int) -> Result<(Seq<u32>, int), Failure>
    decreases n,
{
    if n <= 0 {
        Ok((Seq::empty(), 0))
    } else {
        match carried_durations(durations, sample_rate, nonzero, n - 1) {
            Err(f) => Err(f),
            Ok((prev, remainder)) => {
                let scaled = (durations[n - 1] as int) * 90_000 + remainder;
                let d = scaled / (sample_rate as int);
                if d > u32::MAX {
                    Err(Failure::Overflow)
                } else if nonzero && d == 0 {
                    Err(Failure::Rejected)
                } else {
                    Ok((prev.push(d as u32), scaled % (sample_rate as int)))
                }
            },
        }
    }
}

/// Once the carried rescale fails, it fails the same way for more samples.
proof fn lemma_carried_failure_persists(durations: Seq<u32>, sample_rate: u32, nonzero: bool, n: int, m: int)
    requires
        0 <= n <= m,
        carried_durations(durations, sample_rate, nonzero, n) is Err,
    ensures
        carried_durations(durations, sample_rate, nonzero, m) == carried_durations(durations, sample_rate, nonzero, n),
    decreases m - n,
{
    if m > n {
        lemma_carried_failure_persists(durations, sample_rate, nonzero, n, m - 1);
    }
}

/// Rescales durations with a carried remainder.
fn carry_durations(durations: &Vec<u32>, sample_rate: u32, nonzero: bool, spec: &str, subject: &str, label: &str) -> (r: Result<Vec<u32>, MuxError>)
    requires
        sample_rate != 0,
    ensures
        match carried_durations(durations@, sample_rate, nonzero, durations@.len() as int) {
            Ok((v, _)) => r matches Ok(out) && out@ == v,
            Err(f) => r matches Err(e) && fails_as(e, f, spec@),
        },
{
    let mut out: Vec<u32> = Vec::new();
    let mut remainder: u64 = 0;
    let mut i: usize = 0;
    while i < durations.len()
        invariant
            i <= durations@.len(),
            sample_rate != 0,
            remainder < sample_rate,
            carried_durations(durations@, sample_rate, nonzero, i as int) == Ok::<(Seq<u32>, int), Failure>((out@, remainder as int)),
        decreases durations.len() - i,
    {
        let scaled = (durations[i] as u64) * 90_000 + remainder;
        let d = scaled / (sample_rate as u64);
        if d > 0xFFFF_FFFF {
            proof { lemma_carried_failure_persists(durations@, sample_rate, nonzero, i + 1, durations@.len() as int); }
            return Err(overflow(label));
        }
        if nonzero && d == 0 {
            proof { lemma_carried_failure_persists(durations@, sample_rate, nonzero, i + 1, durations@.len() as int); }
            let message = String::from_str("program stream ").concat(subject).concat(" frame duration underflowed after media-timescale normalization");
            return Err(MuxError::UnsupportedTrackImport { spec: spec.to_owned(), message });
        }
        out.push(d as u32);
        remainder = scaled % (sample_rate as u64);
        i = i + 1;
    }
    Ok(out)
}

/// A successful carried rescale has one duration per sample.
proof fn lemma_carried_len(durations: Seq<u32>, sample_rate: u32, nonzero: bool, n: int)
    requires
        0 <= n,
        carried_durations(durations, sample_rate, nonzero, n) is Ok,
    ensures
        carried_durations(durations, sample_rate, nonzero, n)->Ok_0.0.len() == n,
    decreases n,
{
    if n > 0 {
        lemma_carried_len(durations, sample_rate, nonzero, n - 1);
    }
}

/// How program-stream AC-3 samples are timed: each duration carried onto the 90 kHz clock,
/// non-zero; a zero sample rate is rejected.
pub open spec fn ps_ac3_outcome(samples: Seq<StagedSample>, sample_rate: u32) -> Result<Seq<CandidateSample>, Failure> {
    if sample_rate == 0 {
        Err(Failure::Rejected)
    } else {
        match carried_durations(samples.map_values(|s: StagedSample| s.duration), sample_rate, true, samples.len() as int) {
            Err(f) => Err(f),
            Ok((d, _)) => Ok(Seq::new(samples.len(), |i: int| CandidateSample {
                source_index: usize::MAX,
                data_offset: samples[i].data_offset,
                data_size: samples[i].data_size,
                duration: d[i],
                composition_time_offset: samples[i].composition_time_offset,
                is_sync_sample: samples[i].is_sync_sample,
            })),
        }
    }
}

/// How program-stream MPEG audio samples are timed: each duration carried onto the 90 kHz
/// clock; a zero sample rate is rejected.
pub open spec fn ps_mp3_outcome(samples: Seq<CandidateSample>, sample_rate: u32) -> Result<Seq<CandidateSample>, Failure> {
    if sample_rate == 0 {
        Err(Failure::Rejected)
    } else {
        match carried_durations(samples.map_values(|s: CandidateSample| s.duration), sample_rate, false, samples.len() as int) {
            Err(f) => Err(f),
            Ok((d, _)) => Ok(Seq::new(samples.len(), |i: int| CandidateSample { duration: d[i], ..samples[i] })),
        }
    }
}

/// Rescales program-stream AC-3 frame durations onto the 90 kHz clock.
pub fn normalize_program_stream_ac3_samples(spec: &str, sample_rate: u32, samples: Vec<StagedSample>) -> (r: Result<Vec<CandidateSample>, MuxError>)
    ensures
        match ps_ac3_outcome(samples@, sample_rate) {
            Ok(v) => r matches Ok(out) && out@ == v,
            Err(f) => r matches Err(e) && fails_as(e, f, spec@),
        },
{
    if sample_rate == 0 {
        return Err(import_error(spec, "program stream AC-3 input reported a zero sample rate"));
    }
    let mut durations: Vec<u32> = Vec::new();
    let mut i: usize = 0;
    while i < samples.len()
        invariant
            i <= samples@.len(),
            durations@ == samples@.take(i as int).map_values(|s: StagedSample| s.duration),
        decreases samples.len() - i,
    {
        durations.push(samples[i].duration);
        assert(samples@.take(i + 1) == samples@.take(i as int).push(samples@[i as int]));
        i = i + 1;
    }
    assert(samples@.take(samples@.len() as int) == samples@);
    let scaled = match carry_durations(&durations, sample_rate, true, spec, "AC-3", "program stream AC-3 duration") {
        Ok(d) => d,
        Err(e) => return Err(e),
    };
    proof { lemma_carried_len(durations@, sample_rate, true, durations@.len() as int); }
    let mut out: Vec<CandidateSample> = Vec::new();
    let mut k: usize = 0;
    while k < samples.len()
        invariant
            k <= samples@.len(),
            scaled@.len() == samples@.len(),
            out@ == Seq::new(k as nat, |q: int| CandidateSample {
                source_index: usize::MAX,
                data_offset: samples@[q].data_offset,
                data_size: samples@[q].data_size,
                duration: scaled@[q],
                composition_time_offset: samples@[q].composition_time_offset,
                is_sync_sample: samples@[q].is_sync_sample,
            }),
        decreases samples.len() - k,
    {
        let s = samples[k];
        out.push(CandidateSample {
            source_index: UNBOUND_SOURCE_INDEX,
            data_offset: s.data_offset,
            data_size: s.data_size,
            duration: scaled[k],
            composition_time_offset: s.composition_time_offset,
            is_sync_sample: s.is_sync_sample,
        });
        k = k + 1;
    }
    Ok(out)
}

/// Rescales program-stream MPEG audio frame durations onto the 90 kHz clock.
pub fn normalize_program_stream_mp3_samples(spec: &str, sample_rate: u32, samples: Vec<CandidateSample>) -> (r: Result<Vec<CandidateSample>, MuxError>)
    ensures
        match ps_mp3_outcome(samples@, sample_rate) {
            Ok(v) => r matches Ok(out) && out@ == v,
            Err(f) => r matches Err(e) && fails_as(e, f, spec@),
        },
{
    if sample_rate == 0 {
        return Err(import_error(spec, "program stream MPEG audio reported a zero sample rate"));
    }
    let mut durations: Vec<u32> = Vec::new();
    let mut i: usize = 0;
    while i < samples.len()
        invariant
            i <= samples@.len(),
            durations@ == samples@.take(i as int).map_values(|s: CandidateSample| s.duration),
        decreases samples.len() - i,
    {
        durations.push(samples[i].duration);
        assert(samples@.take(i + 1) == samples@.take(i as int).push(samples@[i as int]));
        i = i + 1;
    }
    assert(samples@.take(samples@.len() as int) == samples@);
    let scaled = match carry_durations(&durations, sample_rate, false, spec, "MPEG audio", "program stream MPEG audio duration") {
        Ok(d) => d,
        Err(e) => return Err(e),
    };
    proof { lemma_carried_len(durations@, sample_rate, false, durations@.len() as int); }
    let mut out: Vec<CandidateSample> = Vec::new();
    let mut k: usize = 0;
    while k < samples.len()
        invariant
            k <= samples@.len(),
            scaled@.len() == samples@.len(),
            out@ == Seq::new(k as nat, |q: int| CandidateSample { duration: scaled@[q], ..samples@[q] }),
        decreases samples.len() - k,
    {
        let s = samples[k];
        out.push(CandidateSample { duration: scaled[k], ..s });
        k = k + 1;
    }
    Ok(out)
}


/// The DVD LPCM format byte, field by field: the sample size from bits 7-6 (16 bits for 0,
/// 24 for 2; 20-bit and the reserved code are refused), the sample rate from bits 5-4 as
/// 48, 96, 44.1 or 32 kHz, and the channel count from bits 2-0 plus one; a sample frame holds
/// one sample per channel.
pub proof fn lemma_lpcm_format_byte(b: u8)
    ensures
        lpcm_format(b) is Ok <==> (b >> 6u8 == 0 || b >> 6u8 == 2),
        lpcm_format(b) matches Ok(f) ==> f.sample_rate == seq![48_000u32, 96_000, 44_100, 32_000][((b >> 4u8) & 3u8) as int],
        lpcm_format(b) matches Ok(f) ==> f.channel_count == (b & 7u8) + 1,
        lpcm_format(b) matches Ok(f) ==> f.bits_per_sample == (if b >> 6u8 == 0 { 16int } else { 24int }),
        lpcm_format(b) matches Ok(f) ==> f.block_align == f.channel_count * f.bits_per_sample / 8,
{
    assert(b >> 6u8 == b / 64 && (b >> 4u8) & 3u8 == b / 16 % 4 && b & 7u8 == b % 8) by (bit_vector);
    if let Ok(f) = lpcm_format(b) {
        let r = (b >> 4u8) & 3u8;
        assert(r < 4);
        let table = seq![48_000u32, 96_000, 44_100, 32_000];
        assert(table[0] == 48_000 && table[1] == 96_000 && table[2] == 44_100 && table[3] == 32_000);
        let c = f.channel_count as int;
        let bits = f.bits_per_sample as int;
        assert(c * (bits / 8) == c * bits / 8 && 0 <= c * (bits / 8) <= 24) by (nonlinear_arith)
            requires
                1 <= c <= 8,
                bits == 16 || bits == 24;
        assert(f.block_align as int == c * (bits / 8));
    }
}
} // verus!
