use vstd::prelude::*;
use crate::error::{Failure, MuxError, fails_as, import_error, overflow};
use crate::mp4::{be16, be32, concat_all, encode_raw_box, four_cc, push_bytes, push_u16_be, push_u32_be, push_zeros, spec_box, views, zeros};
use crate::sample::{SourceSegment, StagedSample};
use crate::demux::ogg::{CompletedOggPacket, OggSpan, append_packet_spans, span_segments, spans_total};
use crate::demux::ogg_pages::{
    OggPacketBuilder, completed_views, lace_from, lace_page, lacing_sum, lacing_total, lemma_lace_from_overflow_only,
    ogg_page_at, pending_of, read_ogg_page_header, read_spans, span_bytes,
};

verus! {

/// What the Speex identification header tells the muxer.
#[derive(Clone, Copy, Debug, PartialEq, Eq)]
pub struct SpeexConfig {
    pub sample_rate: u32,
}

/// The little-endian 32-bit value at `i`.
pub open spec fn le32_at(p: Seq<u8>, i: int) -> int {
    p[i] + 256 * p[i + 1] + 65536 * p[i + 2] + 16777216 * p[i + 3]
}

fn read_le32(p: &[u8], i: usize) -> (r: u32)
    requires
        i + 4 <= p@.len(),
    ensures
        r as int == le32_at(p@, i as int),
{
    p[i] as u32 + 256 * p[i + 1] as u32 + 65536 * p[i + 2] as u32 + 16777216 * p[i + 3] as u32
}

/// The sample rate of a Speex identification header: at least 80 bytes starting with `Speex`,
/// a header size of at least 80, and non-zero rate, channel count, frame size and frames per
/// packet.
pub open spec fn speex_header(b: Seq<u8>) -> Option<SpeexConfig> {
    if b.len() < 80 || b.subrange(0, 5) != seq![0x53u8, 0x70, 0x65, 0x65, 0x78] || le32_at(b, 32) < 80
        || le32_at(b, 36) == 0 || le32_at(b, 48) == 0 || le32_at(b, 56) == 0 || le32_at(b, 64) == 0 {
        None
    } else {
        Some(SpeexConfig { sample_rate: le32_at(b, 36) as u32 })
    }
}

/// Parses the Speex identification header packet.
pub fn parse_speex_header(bytes: &[u8], spec: &str) -> (r: Result<SpeexConfig, MuxError>)
    ensures
        match speex_header(bytes@) {
            Some(c) => r == Ok::<SpeexConfig, MuxError>(c),
            None => r matches Err(e) && fails_as(e, Failure::Rejected, spec@),
        },
{
    if bytes.len() < 80 {
        return Err(import_error(spec, "Ogg Speex header is truncated before the fixed 80-byte header"));
    }
    let signature: [u8; 5] = [0x53, 0x70, 0x65, 0x65, 0x78];
    let sig: &[u8] = &signature;
    assert(sig@ =~= seq![0x53u8, 0x70, 0x65, 0x65, 0x78]);
    if !crate::text::starts_with(bytes, sig) {
        return Err(import_error(spec, "Ogg Speex header did not start with the `Speex` signature"));
    }
    let header_size = read_le32(bytes, 32);
    if header_size < 80 {
        return Err(import_error(spec, "Ogg Speex header declared an unsupported header size"));
    }
    let sample_rate = read_le32(bytes, 36);
    let channel_count = read_le32(bytes, 48);
    let frame_size = read_le32(bytes, 56);
    let frames_per_packet = read_le32(bytes, 64);
    if sample_rate == 0 || channel_count == 0 || frame_size == 0 || frames_per_packet == 0 {
        return Err(import_error(spec, "Ogg Speex header carried zero-valued core audio fields"));
    }
    Ok(SpeexConfig { sample_rate })
}

/// The `spex` audio sample entry: vendor `mp4f`, zero channel count, 16-bit samples, the rate
/// in the 16.16 field (its high bits dropped), then the child boxes.
pub open spec fn speex_entry(sample_rate: u32, children: Seq<u8>) -> Seq<u8> {
    spec_box(
        seq![0x73u8, 0x70, 0x65, 0x78],
        zeros(6) + be16(1) + be16(0) + be16(0) + seq![0x6Du8, 0x70, 0x34, 0x66] + be16(0) + be16(16) + be16(0) + be16(0)
            + be32(((sample_rate * 65536) % 0x1_0000_0000) as u32) + children,
    )
}

/// Builds the `spex` sample entry around the given child boxes.
pub fn build_speex_audio_sample_entry_box(sample_rate: u32, child_boxes: &[Vec<u8>]) -> (r: Result<Vec<u8>, MuxError>)
    ensures
        r is Ok <==> concat_all(views(child_boxes@)).len() + 36 <= u32::MAX,
        r matches Ok(b) ==> b@ == speex_entry(sample_rate, concat_all(views(child_boxes@))),
        r matches Err(e) ==> e is LayoutOverflow,
{
    let children = crate::mp4::concat_boxes(child_boxes);
    let mut payload: Vec<u8> = Vec::new();
    push_zeros(&mut payload, 6);
    push_u16_be(&mut payload, 1);
    push_u16_be(&mut payload, 0);
    push_u16_be(&mut payload, 0);
    let vendor: [u8; 4] = [0x6D, 0x70, 0x34, 0x66];
    push_bytes(&mut payload, &vendor);
    push_u16_be(&mut payload, 0);
    push_u16_be(&mut payload, 16);
    push_u16_be(&mut payload, 0);
    push_u16_be(&mut payload, 0);
    let field: u32 = ((sample_rate as u64 * 65536) % 0x1_0000_0000) as u32;
    push_u32_be(&mut payload, field);
    if children.len() > 0xFFFF_FFFF - 36 {
        return Err(overflow("Speex sample entry size"));
    }
    push_bytes(&mut payload, children.as_slice());
    assert(payload@ =~= zeros(6) + be16(1) + be16(0) + be16(0) + seq![0x6Du8, 0x70, 0x34, 0x66] + be16(0) + be16(16) + be16(0) + be16(0)
        + be32(((sample_rate * 65536) % 0x1_0000_0000) as u32) + children@);
    encode_raw_box(four_cc(0x73, 0x70, 0x65, 0x78), payload.as_slice())
}

/// A completed packet as values: its spans and total size.
pub open spec fn packet_views(v: Seq<CompletedOggPacket>) -> Seq<(Seq<OggSpan>, u32)> {
    v.map_values(|p: CompletedOggPacket| (p.spans@, p.total_size))
}

/// Appends the audio packets of one page from packet `i` on: each becomes a sample of
/// duration 1 (0 for the last packet of the final page) laid out after the payload so far.
pub open spec fn speex_append_from(
    decoded: int,
    logical: int,
    segs: Seq<SourceSegment>,
    samples: Seq<StagedSample>,
    packets: Seq<(Seq<OggSpan>, u32)>,
    eos: bool,
    i: int,
) -> Option<(int, int, Seq<SourceSegment>, Seq<StagedSample>)>
    decreases packets.len() - i,
{
    if i < 0 || i >= packets.len() {
        Some((decoded, logical, segs, samples))
    } else {
        let p = packets[i];
        let d: int = if eos && i == packets.len() - 1 { 0 } else { 1 };
        if logical + spans_total(p.0) > u64::MAX || decoded + d > u64::MAX {
            None
        } else {
            speex_append_from(
                decoded + d,
                logical + spans_total(p.0),
                segs + span_segments(p.0, logical),
                samples.push(StagedSample { data_offset: logical as u64, data_size: p.1, duration: d as u32, composition_time_offset: 0, is_sync_sample: true }),
                packets,
                eos,
                i + 1,
            )
        }
    }
}

/// Lays out the audio packets of one page as samples and file-range segments.
pub fn append_speex_audio_packets(
    decoded_samples: &mut u64,
    logical_size: &mut u64,
    transformed_segments: &mut Vec<SourceSegment>,
    samples: &mut Vec<StagedSample>,
    audio_packets: Vec<CompletedOggPacket>,
    eos: bool,
) -> (r: Result<(), MuxError>)
    ensures
        match speex_append_from(*old(decoded_samples) as int, *old(logical_size) as int, old(transformed_segments)@, old(samples)@,
            packet_views(audio_packets@), eos, 0) {
            Some((d, l, g, s)) => r is Ok && *final(decoded_samples) == d && *final(logical_size) == l
                && final(transformed_segments)@ == g && final(samples)@ == s,
            None => r matches Err(e) && e is LayoutOverflow,
        },
{
    let ghost packets = packet_views(audio_packets@);
    let ghost target = speex_append_from(*decoded_samples as int, *logical_size as int, transformed_segments@, samples@, packets, eos, 0);
    let n = audio_packets.len();
    let mut i: usize = 0;
    while i < n
        invariant
            n == audio_packets@.len(),
            packets == packet_views(audio_packets@),
            i <= n,
            target == speex_append_from(*decoded_samples as int, *logical_size as int, transformed_segments@, samples@, packets, eos, i as int),
            target == speex_append_from(*old(decoded_samples) as int, *old(logical_size) as int, old(transformed_segments)@, old(samples)@,
                packet_views(audio_packets@), eos, 0),
        decreases n - i,
    {
        let packet = &audio_packets[i];
        assert(packets[i as int] == (packet.spans@, packet.total_size));
        let duration: u64 = if eos && i == n - 1 { 0 } else { 1 };
        let data_offset = *logical_size;
        append_packet_spans(logical_size, transformed_segments, packet.spans.as_slice())?;
        if *decoded_samples > u64::MAX - duration {
            return Err(overflow("Ogg Speex decoded sample count"));
        }
        samples.push(StagedSample {
            data_offset,
            data_size: packet.total_size,
            duration: duration as u32,
            composition_time_offset: 0,
            is_sync_sample: true,
        });
        *decoded_samples = *decoded_samples + duration;
        i = i + 1;
    }
    Ok(())
}

/// Checks that a Speex stream ended cleanly with a header and audio: the packet being
/// assembled must be complete, the header present and at least one sample staged.
pub fn finalize_speex_track(spec: &str, packet_pending: bool, config: Option<SpeexConfig>, samples: &[StagedSample]) -> (r: Result<SpeexConfig, MuxError>)
    ensures
        match (packet_pending, config) {
            (false, Some(c)) => if samples@.len() > 0 { r == Ok::<SpeexConfig, MuxError>(c) } else { r matches Err(e) && fails_as(e, Failure::Rejected, spec@) },
            _ => r matches Err(e) && fails_as(e, Failure::Rejected, spec@),
        },
{
    if packet_pending {
        return Err(import_error(spec, "Ogg Speex input ended in the middle of a packet"));
    }
    let config = match config {
        Some(c) => c,
        None => return Err(import_error(spec, "Ogg Speex input did not contain a Speex header packet")),
    };
    if samples.len() == 0 {
        return Err(import_error(spec, "Ogg Speex input did not contain any audio packets after headers"));
    }
    Ok(config)
}

// ---------------------------------------------------------------------------------------------
// Scanning an Ogg Speex stream
// ---------------------------------------------------------------------------------------------

/// `SpeexTags` in ASCII.
pub open spec fn speex_tags_marker() -> Seq<u8> {
    seq![0x53u8, 0x70, 0x65, 0x65, 0x78, 0x54, 0x61, 0x67, 0x73]
}

/// The state of a Speex stream being read: its header, whether the comment packet was
/// passed, the decoded sample count, the logical payload size, its segments and samples.
pub struct SpeexScanView {
    pub config: Option<SpeexConfig>,
    pub saw_tags: bool,
    pub decoded: int,
    pub logical: int,
    pub segments: Seq<SourceSegment>,
    pub samples: Seq<StagedSample>,
}

/// Sorts a page's completed packets from `i` on: the first packet of the stream is the
/// header, the first later one starting with `SpeexTags` is the comment packet, and every
/// other is audio. Gives the header, whether the comment was passed, and the audio packets.
pub open spec fn speex_classify(
    f: Seq<u8>,
    config: Option<SpeexConfig>,
    tags: bool,
    packets: Seq<(Seq<OggSpan>, u32)>,
    i: int,
    audio: Seq<(Seq<OggSpan>, u32)>,
) -> Result<(Option<SpeexConfig>, bool, Seq<(Seq<OggSpan>, u32)>), Failure>
    decreases packets.len() - i,
{
    if i < 0 || i >= packets.len() {
        Ok((config, tags, audio))
    } else {
        match span_bytes(f, packets[i].0) {
            None => Err(Failure::Rejected),
            Some(b) => if config is None {
                match speex_header(b) {
                    None => Err(Failure::Rejected),
                    Some(c) => speex_classify(f, Some(c), tags, packets, i + 1, audio),
                }
            } else if !tags && b.len() >= 9 && b.subrange(0, 9) == speex_tags_marker() {
                speex_classify(f, config, true, packets, i + 1, audio)
            } else {
                speex_classify(f, config, true, packets, i + 1, audio.push(packets[i]))
            },
        }
    }
}

/// The stream state after a page's completed packets.
pub open spec fn speex_page(f: Seq<u8>, st: SpeexScanView, packets: Seq<(Seq<OggSpan>, u32)>, eos: bool) -> Result<SpeexScanView, Failure> {
    match speex_classify(f, st.config, st.saw_tags, packets, 0, Seq::empty()) {
        Err(e) => Err(e),
        Ok((c, t, audio)) => if audio.len() == 0 {
            Ok(SpeexScanView { config: c, saw_tags: t, ..st })
        } else {
            match speex_append_from(st.decoded, st.logical, st.segments, st.samples, audio, eos, 0) {
                None => Err(Failure::Overflow),
                Some((d, l, g, smp)) => Ok(SpeexScanView { config: c, saw_tags: t, decoded: d, logical: l, segments: g, samples: smp }),
            }
        },
    }
}

/// The pages from `off` on: a stream may not open on a continued packet; each page's lacing
/// completes packets, which update the stream state. Gives the packet left under way and the
/// final state.
pub open spec fn speex_scan_from(
    f: Seq<u8>,
    off: int,
    pending: (Seq<OggSpan>, u32),
    st: SpeexScanView,
) -> Result<((Seq<OggSpan>, u32), SpeexScanView), Failure>
    decreases if off < f.len() { f.len() - off } else { 0 },
{
    if off < 0 || off >= f.len() {
        Ok((pending, st))
    } else {
        match ogg_page_at(f, off) {
            Err(e) => Err(e),
            Ok((header_type, _, _, po, lacing)) => {
                let end = po + lacing_total(lacing);
                if pending.0.len() == 0 && pending.1 == 0 && header_type % 2 == 1 {
                    Err(Failure::Rejected)
                } else if end > u64::MAX {
                    Err(Failure::Overflow)
                } else {
                    match lace_from(pending, po, lacing, 0, Seq::empty()) {
                        Err(e) => Err(e),
                        Ok((p2, done)) => {
                            proof { crate::demux::ogg_pages::lemma_lacing_total_nonneg(lacing); }
                            if done.len() == 0 {
                                speex_scan_from(f, end, p2, st)
                            } else {
                                match speex_page(f, st, done, (header_type / 4) % 2 == 1) {
                                    Err(e) => Err(e),
                                    Ok(st2) => speex_scan_from(f, end, p2, st2),
                                }
                            }
                        },
                    }
                }
            },
        }
    }
}

/// What reading a whole Ogg Speex stream held in memory yields: the header and the staged
/// payload and samples, or how it fails.
pub open spec fn speex_stream(f: Seq<u8>) -> Result<(SpeexConfig, int, Seq<SourceSegment>, Seq<StagedSample>), Failure> {
    let start = SpeexScanView { config: None, saw_tags: false, decoded: 0, logical: 0, segments: Seq::empty(), samples: Seq::empty() };
    match speex_scan_from(f, 0, (Seq::empty(), 0), start) {
        Err(e) => Err(e),
        Ok((pending, st)) => if pending.0.len() != 0 || pending.1 != 0 {
            Err(Failure::Rejected)
        } else {
            match st.config {
                None => Err(Failure::Rejected),
                Some(c) => if st.samples.len() == 0 { Err(Failure::Rejected) } else { Ok((c, st.logical, st.segments, st.samples)) },
            }
        },
    }
}

/// An Ogg Speex stream staged for muxing: its header, the logical payload its audio packets
/// form, and one sample per packet.
pub struct ParsedOggSpeexTrack {
    pub config: SpeexConfig,
    pub logical_size: u64,
    pub segments: Vec<SourceSegment>,
    pub samples: Vec<StagedSample>,
}

/// Sorts and stages one page's completed packets.
#[verifier::rlimit(40)]
fn process_speex_completed_page(
    file: &[u8],
    spec: &str,
    config: &mut Option<SpeexConfig>,
    saw_tags: &mut bool,
    decoded: &mut u64,
    logical: &mut u64,
    segments: &mut Vec<SourceSegment>,
    samples: &mut Vec<StagedSample>,
    packets: Vec<CompletedOggPacket>,
    eos: bool,
) -> (r: Result<(), MuxError>)
    ensures
        match speex_page(file@, SpeexScanView {
            config: *old(config), saw_tags: *old(saw_tags), decoded: *old(decoded) as int, logical: *old(logical) as int,
            segments: old(segments)@, samples: old(samples)@,
        }, completed_views(packets@), eos) {
            Ok(st) => r is Ok && *final(config) == st.config && *final(saw_tags) == st.saw_tags && *final(decoded) == st.decoded
                && *final(logical) == st.logical && final(segments)@ == st.segments && final(samples)@ == st.samples,
            Err(x) => r matches Err(e) && fails_as(e, x, spec@),
        },
{
    let ghost views = completed_views(packets@);
    let ghost target = speex_classify(file@, *config, *saw_tags, views, 0, Seq::empty());
    let mut audio: Vec<CompletedOggPacket> = Vec::new();
    let n = packets.len();
    let mut rest = packets;
    let mut i: usize = 0;
    assert(packet_views(audio@) =~= Seq::<(Seq<OggSpan>, u32)>::empty());
    while i < n
        invariant
            n == views.len(),
            views == completed_views(packets@),
            i <= n,
            rest@.len() == n - i,
            forall|j: int| 0 <= j < rest@.len() ==> (#[trigger] rest@[j].spans@, rest@[j].total_size) == views[i + j],
            target == speex_classify(file@, *old(config), *old(saw_tags), views, 0, Seq::empty()),
            target == speex_classify(file@, *config, *saw_tags, views, i as int, packet_views(audio@)),
            *decoded == *old(decoded),
            *logical == *old(logical),
            segments@ == old(segments)@,
            samples@ == old(samples)@,
        decreases n - i,
    {
        let ghost before_rest = rest@;
        let packet = rest.remove(0);
        assert((packet.spans@, packet.total_size) == views[i as int]);
        let bytes = read_spans(file, &packet.spans, spec)?;
        if config.is_none() {
            let c = parse_speex_header(bytes.as_slice(), spec)?;
            *config = Some(c);
        } else {
            let tags: [u8; 9] = [0x53, 0x70, 0x65, 0x65, 0x78, 0x54, 0x61, 0x67, 0x73];
            let marker: &[u8] = &tags;
            assert(marker@ =~= speex_tags_marker());
            if !*saw_tags && crate::text::starts_with(bytes.as_slice(), marker) {
                *saw_tags = true;
            } else {
                *saw_tags = true;
                let ghost before = audio@;
                audio.push(packet);
                assert(packet_views(audio@) =~= packet_views(before).push(views[i as int]));
            }
        }
        proof {
            assert forall|j: int| 0 <= j < rest@.len() implies (#[trigger] rest@[j].spans@, rest@[j].total_size) == views[i + 1 + j] by {
                assert(rest@[j] == before_rest[j + 1]);
            }
        }
        i = i + 1;
    }
    if audio.len() == 0 {
        return Ok(());
    }
    append_speex_audio_packets(decoded, logical, segments, samples, audio, eos)
}

/// Reads an Ogg Speex stream held in memory into its header, staged payload and samples.
#[verifier::spinoff_prover]
#[verifier::rlimit(60)]
pub fn parse_ogg_speex_bytes(file: &[u8], spec: &str) -> (r: Result<ParsedOggSpeexTrack, MuxError>)
    ensures
        match speex_stream(file@) {
            Ok((c, l, g, smp)) => r matches Ok(t) && t.config == c && t.logical_size == l && t.segments@ == g && t.samples@ == smp,
            Err(x) => r matches Err(e) && fails_as(e, x, spec@),
        },
{
    let n = file.len();
    let mut offset: usize = 0;
    let mut builder = OggPacketBuilder::new();
    let mut config: Option<SpeexConfig> = None;
    let mut saw_tags = false;
    let mut decoded: u64 = 0;
    let mut logical: u64 = 0;
    let mut segments: Vec<SourceSegment> = Vec::new();
    let mut samples: Vec<StagedSample> = Vec::new();
    let ghost start = SpeexScanView { config: None, saw_tags: false, decoded: 0, logical: 0, segments: Seq::empty(), samples: Seq::empty() };
    assert(pending_of(builder) =~= (Seq::<OggSpan>::empty(), 0u32));
    while offset < n
        invariant
            n == file@.len(),
            offset <= n,
            start == (SpeexScanView { config: None, saw_tags: false, decoded: 0, logical: 0, segments: Seq::empty(), samples: Seq::empty() }),
            speex_scan_from(file@, 0, (Seq::empty(), 0), start) == speex_scan_from(file@, offset as int, pending_of(builder),
                SpeexScanView { config, saw_tags, decoded: decoded as int, logical: logical as int, segments: segments@, samples: samples@ }),
        decreases n - offset,
    {
        let ghost off0 = offset as int;
        let ghost pend0 = pending_of(builder);
        let ghost st0 = SpeexScanView { config, saw_tags, decoded: decoded as int, logical: logical as int, segments: segments@, samples: samples@ };
        let page = read_ogg_page_header(file, offset, spec)?;
        if builder.is_empty() && page.header_type % 2 == 1 {
            return Err(import_error(spec, "Ogg Speex input started in the middle of a continued packet"));
        }
        let total = lacing_sum(page.lacing_values.as_slice());
        if page.payload_offset > u64::MAX - total {
            return Err(overflow("Ogg page range"));
        }
        let end = page.payload_offset + total;
        proof { lemma_lace_from_overflow_only(pending_of(builder), page.payload_offset as int, page.lacing_values@, 0, Seq::empty()); }
        let completed = lace_page(&mut builder, page.payload_offset, page.lacing_values.as_slice())?;
        if completed.len() > 0 {
            process_speex_completed_page(file, spec, &mut config, &mut saw_tags, &mut decoded, &mut logical, &mut segments,
                &mut samples, completed, page.header_type / 4 % 2 == 1)?;
        }
        proof { crate::demux::ogg_pages::lemma_lacing_total_nonneg(page.lacing_values@); }
        let ghost st1 = SpeexScanView { config, saw_tags, decoded: decoded as int, logical: logical as int, segments: segments@, samples: samples@ };
        assert(speex_scan_from(file@, off0, pend0, st0) == speex_scan_from(file@, end as int, pending_of(builder), st1));
        if end >= n as u64 {
            offset = n;
        } else {
            offset = end as usize;
        }
        assert(speex_scan_from(file@, end as int, pending_of(builder), st1) == speex_scan_from(file@, offset as int, pending_of(builder), st1));
    }
    let pending = !builder.is_empty();
    let c = finalize_speex_track(spec, pending, config, samples.as_slice())?;
    Ok(ParsedOggSpeexTrack { config: c, logical_size: logical, segments, samples })
}

} // verus!
