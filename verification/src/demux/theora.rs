use vstd::prelude::*;
use crate::error::{Failure, MuxError, fails_as, import_error, overflow};
use crate::sample::{SourceSegment, StagedSample};
use crate::demux::ogg::{CompletedOggPacket, OggSpan, append_packet_spans, build_header_dsi, header_dsi, packet_bytes_views, span_segments, spans_total};
use crate::demux::ogg_pages::{
    OggPacketBuilder, completed_views, lace_from, lace_page, lacing_sum, lacing_total, lemma_lace_from_overflow_only,
    lemma_lacing_total_nonneg, ogg_page_at, pending_of, read_ogg_page_header, read_spans, span_bytes,
};

verus! {

/// What the Theora identification header tells the muxer.
#[derive(Clone, Copy, Debug, PartialEq, Eq)]
pub struct TheoraConfig {
    pub width: u16,
    pub height: u16,
    pub timescale: u32,
    pub frame_duration: u32,
    pub sar_num: u32,
    pub sar_den: u32,
}

/// A Theora header packet of the given type: the type byte, then `theora`.
pub open spec fn theora_header_ok(p: Seq<u8>, expected_type: u8) -> bool {
    p.len() >= 7 && p[0] == expected_type && p.subrange(1, 7) == seq![0x74u8, 0x68, 0x65, 0x6F, 0x72, 0x61]
}

/// Checks the type byte and `theora` signature of a header packet.
pub fn validate_theora_header_packet(packet: &[u8], expected_type: u8, spec: &str) -> (r: Result<(), MuxError>)
    ensures
        r is Ok <==> theora_header_ok(packet@, expected_type),
        r matches Err(e) ==> fails_as(e, Failure::Rejected, spec@),
{
    if packet.len() < 7 || packet[0] != expected_type {
        return Err(import_error(spec, "Ogg Theora header was missing the expected Theora signature"));
    }
    let ok = packet[1] == 0x74 && packet[2] == 0x68 && packet[3] == 0x65 && packet[4] == 0x6F && packet[5] == 0x72 && packet[6] == 0x61;
    proof {
        let t = packet@.subrange(1, 7);
        if ok {
            assert(t =~= seq![0x74u8, 0x68, 0x65, 0x6F, 0x72, 0x61]);
        } else if t == seq![0x74u8, 0x68, 0x65, 0x6F, 0x72, 0x61] {
            assert(t[0] == packet@[1] && t[1] == packet@[2] && t[2] == packet@[3] && t[3] == packet@[4] && t[4] == packet@[5] && t[5] == packet@[6]);
        }
    }
    if !ok {
        return Err(import_error(spec, "Ogg Theora header was missing the expected Theora signature"));
    }
    Ok(())
}

/// The big-endian value of `n` bytes at `i`.
pub open spec fn be_at(p: Seq<u8>, i: int, n: nat) -> int
    decreases n,
{
    if n == 0 { 0 } else { be_at(p, i, (n - 1) as nat) * 256 + p[i + n - 1] }
}

/// The configuration an identification header gives: frame size in macroblocks (times 16,
/// kept to 16 bits), frame rate as timescale and frame duration, and pixel aspect ratio.
pub open spec fn theora_identification(b: Seq<u8>) -> Option<TheoraConfig> {
    if !theora_header_ok(b, 0x80) || b.len() < 42 {
        None
    } else {
        let width = ((be_at(b, 10, 2) * 16) % 0x10000) as u16;
        let height = ((be_at(b, 12, 2) * 16) % 0x10000) as u16;
        let timescale = be_at(b, 22, 4) as u32;
        let frame_duration = be_at(b, 26, 4) as u32;
        if width == 0 || height == 0 || timescale == 0 || frame_duration == 0 {
            None
        } else {
            Some(TheoraConfig {
                width,
                height,
                timescale,
                frame_duration,
                sar_num: be_at(b, 30, 3) as u32,
                sar_den: be_at(b, 33, 3) as u32,
            })
        }
    }
}

/// Parses a Theora identification header packet.
pub fn parse_theora_identification_header(bytes: &[u8], spec: &str) -> (r: Result<TheoraConfig, MuxError>)
    ensures
        match theora_identification(bytes@) {
            Some(c) => r == Ok::<TheoraConfig, MuxError>(c),
            None => r matches Err(e) && fails_as(e, Failure::Rejected, spec@),
        },
{
    validate_theora_header_packet(bytes, 0x80, spec)?;
    if bytes.len() < 42 {
        return Err(import_error(spec, "Ogg Theora identification header is truncated"));
    }
    proof { reveal_with_fuel(be_at, 5); }
    let width = ((bytes[10] as u32 * 256 + bytes[11] as u32) * 16 % 0x10000) as u16;
    let height = ((bytes[12] as u32 * 256 + bytes[13] as u32) * 16 % 0x10000) as u16;
    let timescale = ((bytes[22] as u64 * 256 + bytes[23] as u64) * 256 + bytes[24] as u64) * 256 + bytes[25] as u64;
    let frame_duration = ((bytes[26] as u64 * 256 + bytes[27] as u64) * 256 + bytes[28] as u64) * 256 + bytes[29] as u64;
    let sar_num = (bytes[30] as u32 * 256 + bytes[31] as u32) * 256 + bytes[32] as u32;
    let sar_den = (bytes[33] as u32 * 256 + bytes[34] as u32) * 256 + bytes[35] as u32;
    if width == 0 || height == 0 || timescale == 0 || frame_duration == 0 {
        return Err(import_error(spec, "Ogg Theora identification header carried zero-valued core fields"));
    }
    Ok(TheoraConfig { width, height, timescale: timescale as u32, frame_duration: frame_duration as u32, sar_num, sar_den })
}

/// The checks a finished Theora stream must pass, in order: no packet left half-assembled,
/// an identification header, all three headers with the setup header seen, and at least one
/// frame; then the header packets' decoder-specific information.
pub open spec fn theora_finish(packet_pending: bool, config: Option<TheoraConfig>, headers: Seq<Seq<u8>>, setup_seen: bool, sample_count: nat) -> Result<(TheoraConfig, Seq<u8>), Failure> {
    if packet_pending {
        Err(Failure::Rejected)
    } else {
        match config {
            None => Err(Failure::Rejected),
            Some(c) => if !setup_seen || headers.len() != 3 || sample_count == 0 {
                Err(Failure::Rejected)
            } else {
                match header_dsi(headers) {
                    None => Err(Failure::Overflow),
                    Some(d) => Ok((c, d)),
                }
            },
        }
    }
}

/// Checks a finished Theora stream and builds its decoder-specific information.
pub fn finalize_theora_track(
    spec: &str,
    packet_pending: bool,
    config: Option<TheoraConfig>,
    header_packets: &[Vec<u8>],
    setup_seen: bool,
    samples: &[StagedSample],
) -> (r: Result<(TheoraConfig, Vec<u8>), MuxError>)
    ensures
        match theora_finish(packet_pending, config, packet_bytes_views(header_packets@), setup_seen, samples@.len()) {
            Ok((c, d)) => r matches Ok((rc, rd)) && rc == c && rd@ == d,
            Err(f) => r matches Err(e) && fails_as(e, f, spec@),
        },
{
    if packet_pending {
        return Err(import_error(spec, "Ogg Theora input ended in the middle of a packet"));
    }
    let config = match config {
        Some(c) => c,
        None => return Err(import_error(spec, "Ogg Theora input did not contain an identification header")),
    };
    if !setup_seen || header_packets.len() != 3 {
        return Err(import_error(spec, "Ogg Theora input did not contain the full three-header setup"));
    }
    if samples.len() == 0 {
        return Err(import_error(spec, "Ogg Theora input did not contain any frame packets after headers"));
    }
    let dsi = build_header_dsi(header_packets)?;
    Ok((config, dsi))
}


// ---------------------------------------------------------------------------------------------
// Scanning an Ogg Theora stream
// ---------------------------------------------------------------------------------------------

/// A packet under way in each logical stream, by serial number.
pub type SerialPending = Seq<(u32, (Seq<OggSpan>, u32))>;

/// The first entry at or after `i` for serial number `s`.
pub open spec fn serial_slot(v: SerialPending, s: u32, i: int) -> Option<int>
    decreases v.len() - i,
{
    if i < 0 || i >= v.len() {
        None
    } else if v[i].0 == s {
        Some(i)
    } else {
        serial_slot(v, s, i + 1)
    }
}

/// The packet under way in stream `s` (none when the stream has no entry).
pub open spec fn pending_for(v: SerialPending, s: u32) -> (Seq<OggSpan>, u32) {
    match serial_slot(v, s, 0) {
        Some(j) => v[j].1,
        None => (Seq::empty(), 0),
    }
}

/// The entries after stream `s`'s packet under way becomes `p`.
pub open spec fn with_pending(v: SerialPending, s: u32, p: (Seq<OggSpan>, u32)) -> SerialPending {
    match serial_slot(v, s, 0) {
        Some(j) => v.update(j, (s, p)),
        None => v.push((s, p)),
    }
}

/// The state of a Theora stream being read: the logical stream chosen (the first whose
/// packet is a valid identification header), the packet under way in each stream, the
/// configuration, the header packets, whether the comment and setup headers were passed, and
/// the logical payload with its segments and samples.
pub struct TheoraScanView {
    pub target: Option<u32>,
    pub pending: SerialPending,
    pub config: Option<TheoraConfig>,
    pub headers: Seq<Seq<u8>>,
    pub comment_seen: bool,
    pub setup_seen: bool,
    pub logical: int,
    pub segments: Seq<SourceSegment>,
    pub samples: Seq<StagedSample>,
}

/// One completed packet of stream `serial`, with bytes `b`: before a stream is chosen a
/// packet that is a valid identification header chooses its stream and anything else is
/// passed over; then the comment and setup headers must follow; later packets with the top
/// bit of their first byte clear are frames, laid out at the end of the payload, a key frame
/// when the next bit is clear too (other packets, and an empty one, are passed over).
pub open spec fn theora_packet_step(st: TheoraScanView, serial: u32, spans: Seq<OggSpan>, size: u32, b: Seq<u8>) -> Result<TheoraScanView, Failure> {
    if st.target is None {
        match theora_identification(b) {
            None => Ok(st),
            Some(c) => Ok(TheoraScanView { config: Some(c), target: Some(serial), headers: st.headers.push(b), ..st }),
        }
    } else if !st.comment_seen {
        if theora_header_ok(b, 0x81) {
            Ok(TheoraScanView { comment_seen: true, headers: st.headers.push(b), ..st })
        } else {
            Err(Failure::Rejected)
        }
    } else if !st.setup_seen {
        if theora_header_ok(b, 0x82) {
            Ok(TheoraScanView { setup_seen: true, headers: st.headers.push(b), ..st })
        } else {
            Err(Failure::Rejected)
        }
    } else if b.len() == 0 || b[0] >= 0x80 {
        Ok(st)
    } else if st.logical + spans_total(spans) > u64::MAX {
        Err(Failure::Overflow)
    } else {
        Ok(TheoraScanView {
            logical: st.logical + spans_total(spans),
            segments: st.segments + span_segments(spans, st.logical),
            samples: st.samples.push(StagedSample {
                data_offset: st.logical as u64,
                data_size: size,
                duration: match st.config { Some(c) => c.frame_duration, None => 0 },
                composition_time_offset: 0,
                is_sync_sample: (b[0] / 64) % 2 == 0,
            }),
            ..st
        })
    }
}

/// A page's completed packets from `i` on, in order; a packet must lie inside the file.
pub open spec fn theora_packets(f: Seq<u8>, st: TheoraScanView, serial: u32, packets: Seq<(Seq<OggSpan>, u32)>, i: int) -> Result<TheoraScanView, Failure>
    decreases packets.len() - i,
{
    if i < 0 || i >= packets.len() {
        Ok(st)
    } else {
        match span_bytes(f, packets[i].0) {
            None => Err(Failure::Rejected),
            Some(b) => match theora_packet_step(st, serial, packets[i].0, packets[i].1, b) {
                Err(e) => Err(e),
                Ok(st2) => theora_packets(f, st2, serial, packets, i + 1),
            },
        }
    }
}

/// The pages from `off` on. Once a stream is chosen, pages of other streams are passed over.
/// A page continuing a packet its stream does not have under way is passed over, unless it
/// belongs to the chosen stream. Each page's lacing completes its stream's packets, which
/// update the state.
pub open spec fn theora_scan_from(f: Seq<u8>, off: int, st: TheoraScanView) -> Result<TheoraScanView, Failure>
    decreases if off < f.len() { f.len() - off } else { 0 },
{
    if off < 0 || off >= f.len() {
        Ok(st)
    } else {
        match ogg_page_at(f, off) {
            Err(e) => Err(e),
            Ok((header_type, _, serial, po, lacing)) => {
                let end = po + lacing_total(lacing);
                proof { lemma_lacing_total_nonneg(lacing); }
                if end > u64::MAX {
                    Err(Failure::Overflow)
                } else if st.target matches Some(t) && t != serial {
                    theora_scan_from(f, end, st)
                } else {
                    let pending = pending_for(st.pending, serial);
                    if pending.0.len() == 0 && pending.1 == 0 && header_type % 2 == 1 {
                        if st.target == Some(serial) { Err(Failure::Rejected) } else { theora_scan_from(f, end, st) }
                    } else {
                        match lace_from(pending, po, lacing, 0, Seq::empty()) {
                            Err(e) => Err(e),
                            Ok((p2, done)) => match theora_packets(f, TheoraScanView { pending: with_pending(st.pending, serial, p2), ..st },
                                serial, done, 0) {
                                Err(e) => Err(e),
                                Ok(st2) => theora_scan_from(f, end, st2),
                            },
                        }
                    }
                }
            },
        }
    }
}

/// The state before the first page.
pub open spec fn theora_scan_start() -> TheoraScanView {
    TheoraScanView {
        target: None,
        pending: Seq::empty(),
        config: None,
        headers: Seq::empty(),
        comment_seen: false,
        setup_seen: false,
        logical: 0,
        segments: Seq::empty(),
        samples: Seq::empty(),
    }
}

/// What reading a whole Ogg Theora stream held in memory yields: the configuration, the
/// headers' decoder-specific information, and the staged payload and samples; or how it
/// fails.
pub open spec fn theora_stream(f: Seq<u8>) -> Result<(TheoraConfig, Seq<u8>, int, Seq<SourceSegment>, Seq<StagedSample>), Failure> {
    match theora_scan_from(f, 0, theora_scan_start()) {
        Err(e) => Err(e),
        Ok(st) => {
            let left = match st.target { Some(t) => pending_for(st.pending, t), None => (Seq::empty(), 0) };
            match theora_finish(left.0.len() != 0 || left.1 != 0, st.config, st.headers, st.setup_seen, st.samples.len()) {
                Err(e) => Err(e),
                Ok((c, d)) => Ok((c, d, st.logical, st.segments, st.samples)),
            }
        },
    }
}

/// An Ogg Theora stream staged for muxing: its configuration, the decoder-specific
/// information its three headers form, the logical payload its frames form, and one sample
/// per frame.
pub struct ParsedOggTheoraTrack {
    pub config: TheoraConfig,
    pub decoder_specific_info: Vec<u8>,
    pub logical_size: u64,
    pub segments: Vec<SourceSegment>,
    pub samples: Vec<StagedSample>,
}

/// The packets under way, as values.
pub open spec fn pending_views(v: Seq<(u32, OggPacketBuilder)>) -> SerialPending {
    v.map_values(|e: (u32, OggPacketBuilder)| (e.0, pending_of(e.1)))
}

/// The state the reading loop holds, as a view.
pub open spec fn theora_state(
    target: Option<u32>,
    builders: Seq<(u32, OggPacketBuilder)>,
    config: Option<TheoraConfig>,
    headers: Seq<Vec<u8>>,
    comment_seen: bool,
    setup_seen: bool,
    logical: u64,
    segments: Seq<SourceSegment>,
    samples: Seq<StagedSample>,
) -> TheoraScanView {
    TheoraScanView {
        target,
        pending: pending_views(builders),
        config,
        headers: packet_bytes_views(headers),
        comment_seen,
        setup_seen,
        logical: logical as int,
        segments,
        samples,
    }
}

/// The entry `serial_slot` finds is one for `s`, at or after `i`.
proof fn lemma_serial_slot(v: SerialPending, s: u32, i: int)
    ensures
        serial_slot(v, s, i) matches Some(j) ==> i <= j < v.len() && v[j].0 == s,
    decreases v.len() - i,
{
    if 0 <= i < v.len() && v[i].0 != s {
        lemma_serial_slot(v, s, i + 1);
    }
}

/// The entry for serial number `s`.
fn find_serial(builders: &Vec<(u32, OggPacketBuilder)>, s: u32) -> (r: Option<usize>)
    ensures
        match serial_slot(pending_views(builders@), s, 0) {
            Some(j) => r matches Some(i) && i as int == j,
            None => r is None,
        },
        r matches Some(i) ==> i < builders@.len() && builders@[i as int].0 == s,
{
    let ghost v = pending_views(builders@);
    proof { lemma_serial_slot(v, s, 0); }
    let mut i: usize = 0;
    while i < builders.len()
        invariant
            i <= builders@.len(),
            v == pending_views(builders@),
            serial_slot(v, s, 0) == serial_slot(v, s, i as int),
        decreases builders.len() - i,
    {
        if builders[i].0 == s {
            return Some(i);
        }
        i = i + 1;
    }
    None
}

/// Reads one page's completed packets of stream `serial`.
#[verifier::rlimit(60)]
fn process_theora_completed_page(
    file: &[u8],
    spec: &str,
    serial: u32,
    target: &mut Option<u32>,
    config: &mut Option<TheoraConfig>,
    header_packets: &mut Vec<Vec<u8>>,
    comment_seen: &mut bool,
    setup_seen: &mut bool,
    logical: &mut u64,
    segments: &mut Vec<SourceSegment>,
    samples: &mut Vec<StagedSample>,
    packets: Vec<CompletedOggPacket>,
    Ghost(pending): Ghost<SerialPending>,
) -> (r: Result<(), MuxError>)
    ensures
        match theora_packets(file@, TheoraScanView {
            target: *old(target), pending, config: *old(config), headers: packet_bytes_views(old(header_packets)@),
            comment_seen: *old(comment_seen), setup_seen: *old(setup_seen), logical: *old(logical) as int,
            segments: old(segments)@, samples: old(samples)@,
        }, serial, completed_views(packets@), 0) {
            Ok(st) => r is Ok && st == (TheoraScanView {
                target: *final(target), pending, config: *final(config), headers: packet_bytes_views(final(header_packets)@),
                comment_seen: *final(comment_seen), setup_seen: *final(setup_seen), logical: *final(logical) as int,
                segments: final(segments)@, samples: final(samples)@,
            }),
            Err(x) => r matches Err(e) && fails_as(e, x, spec@),
        },
{
    let ghost views = completed_views(packets@);
    let n = packets.len();
    let mut rest = packets;
    let mut i: usize = 0;
    while i < n
        invariant
            n == views.len(),
            views == completed_views(packets@),
            i <= n,
            rest@.len() == n - i,
            forall|j: int| 0 <= j < rest@.len() ==> (#[trigger] rest@[j].spans@, rest@[j].total_size) == views[i + j],
            theora_packets(file@, TheoraScanView {
                target: *old(target), pending, config: *old(config), headers: packet_bytes_views(old(header_packets)@),
                comment_seen: *old(comment_seen), setup_seen: *old(setup_seen), logical: *old(logical) as int,
                segments: old(segments)@, samples: old(samples)@,
            }, serial, views, 0) == theora_packets(file@, TheoraScanView {
                target: *target, pending, config: *config, headers: packet_bytes_views(header_packets@),
                comment_seen: *comment_seen, setup_seen: *setup_seen, logical: *logical as int,
                segments: segments@, samples: samples@,
            }, serial, views, i as int),
        decreases n - i,
    {
        let ghost before_rest = rest@;
        let ghost headers_before = header_packets@;
        let packet = rest.remove(0);
        assert((packet.spans@, packet.total_size) == views[i as int]);
        let bytes = read_spans(file, &packet.spans, spec)?;
        if target.is_none() {
            match parse_theora_identification_header(bytes.as_slice(), spec) {
                Ok(c) => {
                    *config = Some(c);
                    *target = Some(serial);
                    let ghost b = bytes@;
                    header_packets.push(bytes);
                    assert(packet_bytes_views(header_packets@) =~= packet_bytes_views(headers_before).push(b));
                },
                Err(_) => {},
            }
        } else if !*comment_seen {
            validate_theora_header_packet(bytes.as_slice(), 0x81, spec)?;
            *comment_seen = true;
            let ghost b = bytes@;
            header_packets.push(bytes);
            assert(packet_bytes_views(header_packets@) =~= packet_bytes_views(headers_before).push(b));
        } else if !*setup_seen {
            validate_theora_header_packet(bytes.as_slice(), 0x82, spec)?;
            *setup_seen = true;
            let ghost b = bytes@;
            header_packets.push(bytes);
            assert(packet_bytes_views(header_packets@) =~= packet_bytes_views(headers_before).push(b));
        } else if bytes.len() > 0 && bytes[0] < 0x80 {
            let is_sync_sample = (bytes[0] / 64) % 2 == 0;
            let data_offset = *logical;
            let duration = match config {
                Some(c) => c.frame_duration,
                None => 0,
            };
            append_packet_spans(logical, segments, packet.spans.as_slice())?;
            samples.push(StagedSample {
                data_offset,
                data_size: packet.total_size,
                duration,
                composition_time_offset: 0,
                is_sync_sample,
            });
        }
        proof {
            assert forall|j: int| 0 <= j < rest@.len() implies (#[trigger] rest@[j].spans@, rest@[j].total_size) == views[i + 1 + j] by {
                assert(rest@[j] == before_rest[j + 1]);
            }
        }
        i = i + 1;
    }
    Ok(())
}

/// Reads an Ogg Theora stream held in memory: the first logical stream whose packet is a
/// Theora identification header, its comment and setup headers, then its frames as staged
/// samples.
#[verifier::spinoff_prover]
#[verifier::rlimit(80)]
pub fn parse_ogg_theora_bytes(file: &[u8], spec: &str) -> (r: Result<ParsedOggTheoraTrack, MuxError>)
    ensures
        match theora_stream(file@) {
            Ok((c, d, l, g, smp)) => r matches Ok(t) && t.config == c && t.decoder_specific_info@ == d
                && t.logical_size == l && t.segments@ == g && t.samples@ == smp,
            Err(x) => r matches Err(e) && fails_as(e, x, spec@),
        },
{
    let n = file.len();
    let mut offset: usize = 0;
    let mut builders: Vec<(u32, OggPacketBuilder)> = Vec::new();
    let mut target: Option<u32> = None;
    let mut config: Option<TheoraConfig> = None;
    let mut header_packets: Vec<Vec<u8>> = Vec::new();
    let mut comment_seen = false;
    let mut setup_seen = false;
    let mut logical: u64 = 0;
    let mut segments: Vec<SourceSegment> = Vec::new();
    let mut samples: Vec<StagedSample> = Vec::new();
    assert(pending_views(builders@) =~= Seq::<(u32, (Seq<OggSpan>, u32))>::empty());
    assert(packet_bytes_views(header_packets@) =~= Seq::<Seq<u8>>::empty());
    assert(theora_state(target, builders@, config, header_packets@, comment_seen, setup_seen, logical, segments@, samples@)
        == theora_scan_start());
    while offset < n
        invariant
            n == file@.len(),
            offset <= n,
            theora_scan_from(file@, 0, theora_scan_start()) == theora_scan_from(file@, offset as int,
                theora_state(target, builders@, config, header_packets@, comment_seen, setup_seen, logical, segments@, samples@)),
        decreases n - offset,
    {
        let ghost st = theora_state(target, builders@, config, header_packets@, comment_seen, setup_seen, logical, segments@, samples@);
        let page = read_ogg_page_header(file, offset, spec)?;
        let total = lacing_sum(page.lacing_values.as_slice());
        if page.payload_offset > u64::MAX - total {
            return Err(overflow("Ogg page range"));
        }
        let end = page.payload_offset + total;
        proof { lemma_lacing_total_nonneg(page.lacing_values@); }
        let next = if end >= n as u64 { n } else { end as usize };
        let skip = match target {
            Some(t) => t != page.serial_no,
            None => false,
        };
        if !skip {
            let slot = find_serial(&builders, page.serial_no);
            let ghost before = builders@;
            proof { lemma_serial_slot(st.pending, page.serial_no, 0); }
            let mut builder = match slot {
                Some(i) => builders.remove(i).1,
                None => OggPacketBuilder::new(),
            };
            let ghost pend = pending_of(builder);
            proof {
                if let Some(i) = slot {
                    assert(pending_views(before)[i as int] == (page.serial_no, pending_of(before[i as int].1)));
                }
            }
            assert(pend == pending_for(st.pending, page.serial_no));
            if builder.is_empty() && page.header_type % 2 == 1 {
                if target == Some(page.serial_no) {
                    return Err(import_error(spec, "Ogg Theora input started in the middle of a continued packet"));
                }
                match slot {
                    Some(i) => { builders.insert(i, (page.serial_no, builder)); },
                    None => {},
                }
                assert(pending_views(builders@) =~= st.pending);
            } else {
                proof { lemma_lace_from_overflow_only(pend, page.payload_offset as int, page.lacing_values@, 0, Seq::empty()); }
                let completed = lace_page(&mut builder, page.payload_offset, page.lacing_values.as_slice())?;
                let ghost p2 = pending_of(builder);
                match slot {
                    Some(i) => { builders.insert(i, (page.serial_no, builder)); },
                    None => { builders.push((page.serial_no, builder)); },
                }
                assert(pending_views(builders@) =~= with_pending(st.pending, page.serial_no, p2));
                process_theora_completed_page(file, spec, page.serial_no, &mut target, &mut config, &mut header_packets,
                    &mut comment_seen, &mut setup_seen, &mut logical, &mut segments, &mut samples, completed,
                    Ghost(pending_views(builders@)))?;
            }
        }
        offset = next;
    }
    let ghost st = theora_state(target, builders@, config, header_packets@, comment_seen, setup_seen, logical, segments@, samples@);
    let pending = match target {
        Some(t) => match find_serial(&builders, t) {
            Some(i) => !builders[i].1.is_empty(),
            None => false,
        },
        None => false,
    };
    let (c, dsi) = finalize_theora_track(spec, pending, config, header_packets.as_slice(), setup_seen, samples.as_slice())?;
    Ok(ParsedOggTheoraTrack { config: c, decoder_specific_info: dsi, logical_size: logical, segments, samples })
}

} // verus!
