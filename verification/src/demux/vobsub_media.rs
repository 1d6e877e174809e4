use vstd::prelude::*;
use crate::error::{Failure, MuxError, fails_as, import_error, overflow};
use crate::sample::{CandidateSample, SegmentData, SourceSegment, UNBOUND_SOURCE_INDEX};
use crate::demux::vobsub::{
    VobSubPosition, VobSubTrack, VobSubSectorHeader, effective_vobsub_duration, packet_display_duration,
    parse_vobsub_duration, parse_vobsub_sector_header_at, sector_header, vobsub_duration,
};

verus! {

/// The sector at `off` of a subtitle file, when a whole one is there.
pub open spec fn sector_at(f: Seq<u8>, off: int, expected: u8) -> Option<VobSubSectorHeader> {
    if off < 0 || off + 2048 > f.len() { None } else { sector_header(f.subrange(off, off + 2048), expected) }
}

/// The first sector at or after `search`, stepping by whole sectors, that carries substream
/// `expected`; running out of whole sectors first is a truncated continuation.
pub open spec fn next_sector_at(f: Seq<u8>, search: int, expected: u8) -> Result<int, Failure>
    decreases f.len() - search,
{
    if search < 0 || search + 2048 > f.len() {
        Err(Failure::Rejected)
    } else if sector_at(f, search, expected) is Some {
        Ok(search)
    } else {
        next_sector_at(f, search + 2048, expected)
    }
}

/// A continuation sector lies at or after where the search began.
pub proof fn lemma_next_sector_after(f: Seq<u8>, search: int, expected: u8)
    ensures
        next_sector_at(f, search, expected) matches Ok(k) ==> search <= k && k + 2048 <= f.len()
            && sector_at(f, k, expected) is Some,
    decreases f.len() - search,
{
    if !(search < 0 || search + 2048 > f.len()) && sector_at(f, search, expected) is None {
        lemma_next_sector_after(f, search + 2048, expected);
    }
}

/// Finds the next sector carrying `expected_substream_id`.
fn find_next_vobsub_sector(file: &[u8], search_offset: usize, expected_substream_id: u8, spec: &str) -> (r: Result<usize, MuxError>)
    ensures
        match next_sector_at(file@, search_offset as int, expected_substream_id) {
            Ok(k) => r == Ok::<usize, MuxError>(k as usize),
            Err(f) => r matches Err(e) && fails_as(e, f, spec@),
        },
{
    let n = file.len();
    let mut search = search_offset;
    while search <= n && n - search >= 2048
        invariant
            n == file@.len(),
            search_offset <= search,
            next_sector_at(file@, search_offset as int, expected_substream_id) == next_sector_at(file@, search as int, expected_substream_id),
        decreases n - search,
    {
        match parse_vobsub_sector_header_at(file, search, spec, expected_substream_id) {
            Ok(_) => return Ok(search),
            Err(_) => {
                search = search + 2048;
            },
        }
    }
    Err(import_error(spec, "truncated VobSub packet continuation"))
}

/// The payload bytes of a subtitle packet collected from the sector at `off` on: the first
/// sector gives the packet size and control offset, each sector adds what fits of the
/// remainder, and continuation sectors are the next ones carrying the same substream. Gives
/// the sizing, the bytes and the file spans they came from.
pub open spec fn packet_from(
    f: Seq<u8>,
    off: int,
    expected: u8,
    sizing: Option<(u32, u32)>,
    bytes: Seq<u8>,
    spans: Seq<(u64, u32)>,
) -> Result<(u32, u32, Seq<u8>, Seq<(u64, u32)>), Failure>
    decreases f.len() - off,
{
    match sector_at(f, off, expected) {
        None => Err(Failure::Rejected),
        Some(h) => {
            let (size, control) = match sizing {
                Some(z) => z,
                None => (h.packet_size, h.control_offset),
            };
            let remaining = size - bytes.len();
            let avail = 2048 - h.payload_offset;
            let chunk = if remaining < avail { remaining } else { avail };
            let start = off + h.payload_offset;
            let bytes2 = bytes + f.subrange(start, start + chunk);
            let spans2 = spans.push((start as u64, chunk as u32));
            if bytes2.len() == size {
                Ok((size, control, bytes2, spans2))
            } else {
                match next_sector_at(f, off + 2048, expected) {
                    Err(e) => Err(e),
                    Ok(next) => {
                        proof { lemma_next_sector_after(f, off + 2048, expected); }
                        packet_from(f, next, expected, Some((size, control)), bytes2, spans2)
                    },
                }
            }
        },
    }
}

/// A subtitle packet read from the subtitle file: its bytes, display duration and where its
/// bytes lie in the file.
pub struct CollectedPacket {
    pub packet_bytes: Vec<u8>,
    pub duration: u32,
    pub spans: Vec<(u64, u32)>,
}

/// What collecting the packet of `position` in track `track_index` yields: its bytes, the
/// duration its control sequences give, and its spans.
pub open spec fn collected_packet(f: Seq<u8>, position: VobSubPosition, track_index: u8) -> Result<(Seq<u8>, u32, Seq<(u64, u32)>), Failure> {
    match packet_from(f, position.filepos as int, (0x20 + track_index) as u8, None, Seq::empty(), Seq::empty()) {
        Err(e) => Err(e),
        Ok((size, control, bytes, spans)) => match packet_display_duration(bytes, size, control) {
            None => Err(Failure::Rejected),
            Some(d) => Ok((bytes, d, spans)),
        },
    }
}

/// Collects the subtitle packet a track position points at.
#[verifier::rlimit(40)]
pub fn collect_vobsub_packet(file: &[u8], position: VobSubPosition, track_index: u8, spec: &str) -> (r: Result<CollectedPacket, MuxError>)
    requires
        track_index < 32,
    ensures
        match collected_packet(file@, position, track_index) {
            Ok((bytes, d, spans)) => r matches Ok(p) && p.packet_bytes@ == bytes && p.duration == d && p.spans@ == spans,
            Err(f) => r matches Err(e) && fails_as(e, f, spec@),
        },
        r matches Ok(p) ==> p.packet_bytes@.len() <= u32::MAX,
{
    let n = file.len();
    let expected: u8 = 0x20 + track_index;
    if position.filepos > n as u64 || (n as u64) - position.filepos < 2048 {
        return Err(import_error(spec, "truncated VobSub sector"));
    }
    let mut sector_offset: usize = position.filepos as usize;
    let first = parse_vobsub_sector_header_at(file, sector_offset, spec, expected)?;
    let packet_size = first.packet_size;
    let control_offset = first.control_offset;
    let mut packet_bytes: Vec<u8> = Vec::new();
    let mut spans: Vec<(u64, u32)> = Vec::new();
    let mut header = first;
    loop
        invariant_except_break
            packet_bytes@.len() < packet_size,
            packet_from(file@, position.filepos as int, expected, None, Seq::empty(), Seq::empty())
                == packet_from(file@, sector_offset as int, expected,
                    if packet_bytes@.len() == 0 { None } else { Some((packet_size, control_offset)) }, packet_bytes@, spans@),
        invariant
            n == file@.len(),
            expected == (0x20 + track_index) as u8,
            sector_offset + 2048 <= n,
            sector_at(file@, sector_offset as int, expected) == Some(header),
            24 <= header.payload_offset <= 279,
            packet_bytes@.len() == 0 ==> header.packet_size == packet_size && header.control_offset == control_offset,
        ensures
            packet_from(file@, position.filepos as int, expected, None, Seq::empty(), Seq::empty())
                == Ok::<(u32, u32, Seq<u8>, Seq<(u64, u32)>), Failure>((packet_size, control_offset, packet_bytes@, spans@)),
        decreases n - sector_offset,
    {
        let remaining = packet_size as usize - packet_bytes.len();
        let avail = 2048 - header.payload_offset;
        let chunk = if remaining < avail { remaining } else { avail };
        let start = sector_offset + header.payload_offset;
        let ghost before = packet_bytes@;
        let ghost spans_before = spans@;
        let ghost sizing = if before.len() == 0 { None } else { Some((packet_size, control_offset)) };
        let mut k: usize = 0;
        while k < chunk
            invariant
                start + chunk <= n,
                n == file@.len(),
                k <= chunk,
                packet_bytes@ == before + file@.subrange(start as int, start + k),
            decreases chunk - k,
        {
            packet_bytes.push(file[start + k]);
            assert(packet_bytes@ =~= before + file@.subrange(start as int, start + k + 1));
            k = k + 1;
        }
        spans.push((start as u64, chunk as u32));
        assert(packet_bytes@ == before + file@.subrange(start as int, start + chunk));
        if packet_bytes.len() == packet_size as usize {
            break;
        }
        proof {
            assert(packet_from(file@, sector_offset as int, expected, sizing, before, spans_before)
                == match next_sector_at(file@, sector_offset + 2048, expected) {
                    Err(x) => Err(x),
                    Ok(nx) => packet_from(file@, nx, expected, Some((packet_size, control_offset)), packet_bytes@, spans@),
                });
        }
        let next = find_next_vobsub_sector(file, sector_offset + 2048, expected, spec)?;
        proof { lemma_next_sector_after(file@, sector_offset + 2048, expected); }
        sector_offset = next;
        header = parse_vobsub_sector_header_at(file, sector_offset, spec, expected)?;
    }
    let duration = parse_vobsub_duration(packet_bytes.as_slice(), packet_size, control_offset, spec)?;
    Ok(CollectedPacket { packet_bytes, duration, spans })
}

/// The blank subpicture a track starts with when its first subtitle starts after zero.
pub open spec fn null_subpicture() -> Seq<u8> {
    seq![0x00u8, 0x09, 0x00, 0x04, 0x00, 0x00, 0x00, 0x04, 0xFF]
}

/// File spans laid out back to back from logical offset `total`: the (logical offset, file
/// offset, size) of each, and where they end.
pub open spec fn spans_layout(spans: Seq<(u64, u32)>, total: int) -> (Seq<(u64, u64, u32)>, int)
    decreases spans.len(),
{
    if spans.len() == 0 {
        (Seq::empty(), total)
    } else {
        let (ranges, end) = spans_layout(spans.drop_last(), total);
        (ranges.push((end as u64, spans.last().0, spans.last().1)), end + spans.last().1)
    }
}

/// The staged payload of a track's subtitles from position `i` on: each packet's spans are
/// laid out after what came before, and its sample lasts the packet's own duration or the gap
/// to the next subtitle. Gives the ranges laid out, the logical size and the samples.
pub open spec fn track_payload_from(
    f: Seq<u8>,
    positions: Seq<VobSubPosition>,
    track_index: u8,
    i: int,
    ranges: Seq<(u64, u64, u32)>,
    total: int,
    samples: Seq<CandidateSample>,
) -> Result<(Seq<(u64, u64, u32)>, int, Seq<CandidateSample>), Failure>
    decreases positions.len() - i,
{
    if i < 0 || i >= positions.len() {
        Ok((ranges, total, samples))
    } else {
        match collected_packet(f, positions[i], track_index) {
            Err(e) => Err(e),
            Ok((bytes, d, spans)) => {
                let (laid, end) = spans_layout(spans, total);
                let next = if i + 1 < positions.len() { Some(positions[i + 1].start_pts) } else { None };
                if end > u64::MAX {
                    Err(Failure::Overflow)
                } else {
                    match vobsub_duration(d, positions[i].start_pts, next) {
                        None => Err(Failure::Overflow),
                        Some(duration) => track_payload_from(f, positions, track_index, i + 1, ranges + laid, end, samples.push(CandidateSample {
                            source_index: UNBOUND_SOURCE_INDEX,
                            data_offset: total as u64,
                            data_size: bytes.len() as u32,
                            duration,
                            composition_time_offset: 0,
                            is_sync_sample: true,
                        })),
                    }
                }
            },
        }
    }
}

/// Whether a track starts with the blank subpicture: its first subtitle starts after zero.
pub open spec fn leads_with_blank(positions: Seq<VobSubPosition>) -> bool {
    positions.len() > 0 && positions[0].start_pts > 0
}

/// The staged payload of a whole track: the blank lead-in, when there is one, lasting until
/// the first subtitle, then every subtitle.
pub open spec fn track_payload(f: Seq<u8>, positions: Seq<VobSubPosition>, track_index: u8) -> Result<(Seq<(u64, u64, u32)>, int, Seq<CandidateSample>), Failure> {
    if leads_with_blank(positions) {
        if positions[0].start_pts > u32::MAX {
            Err(Failure::Overflow)
        } else {
            track_payload_from(f, positions, track_index, 0, Seq::empty(), 9, seq![CandidateSample {
                source_index: UNBOUND_SOURCE_INDEX,
                data_offset: 0,
                data_size: 9,
                duration: positions[0].start_pts as u32,
                composition_time_offset: 0,
                is_sync_sample: true,
            }])
        }
    } else {
        track_payload_from(f, positions, track_index, 0, Seq::empty(), 0, Seq::empty())
    }
}

/// The segments are the blank lead-in (when `lead`) followed by the file ranges.
pub open spec fn segments_match(segments: Seq<SourceSegment>, lead: bool, ranges: Seq<(u64, u64, u32)>) -> bool {
    let k: int = if lead { 1 } else { 0 };
    &&& segments.len() == k + ranges.len()
    &&& lead ==> (segments[0] matches SourceSegment { logical_offset, data: SegmentData::Bytes(b) } && logical_offset == 0 && b@ == null_subpicture())
    &&& forall|j: int| 0 <= j < ranges.len() ==> #[trigger] segments[k + j] == (SourceSegment {
        logical_offset: ranges[j].0,
        data: SegmentData::FileRange { source_offset: ranges[j].1, size: ranges[j].2 },
    })
}

/// A VobSub track's payload as the muxer stages it: its segments in logical order, their
/// total size, and one sample per subtitle (after the blank lead-in, if any).
pub struct VobSubTrackPayload {
    pub segments: Vec<SourceSegment>,
    pub total_size: u64,
    pub samples: Vec<CandidateSample>,
}

/// Lays a packet's spans out as file-range segments after the payload so far.
fn append_spans(segments: &mut Vec<SourceSegment>, total: &mut u64, spans: &Vec<(u64, u32)>) -> (r: Result<(), MuxError>)
    ensures
        spans_layout(spans@, *old(total) as int).1 > u64::MAX ==> (r matches Err(e) && e is LayoutOverflow),
        spans_layout(spans@, *old(total) as int).1 <= u64::MAX ==> r is Ok
            && *final(total) as int == spans_layout(spans@, *old(total) as int).1
            && final(segments)@.len() == old(segments)@.len() + spans_layout(spans@, *old(total) as int).0.len()
            && (forall|j: int| 0 <= j < old(segments)@.len() ==> #[trigger] final(segments)@[j] == old(segments)@[j])
            && (forall|j: int| 0 <= j < spans_layout(spans@, *old(total) as int).0.len() ==>
                #[trigger] final(segments)@[old(segments)@.len() + j] == (SourceSegment {
                    logical_offset: spans_layout(spans@, *old(total) as int).0[j].0,
                    data: SegmentData::FileRange {
                        source_offset: spans_layout(spans@, *old(total) as int).0[j].1,
                        size: spans_layout(spans@, *old(total) as int).0[j].2,
                    },
                })),
{
    let ghost start = *total as int;
    let ghost base = segments@.len();
    let mut i: usize = 0;
    while i < spans.len()
        invariant
            i <= spans@.len(),
            start == *old(total),
            base == old(segments)@.len(),
            *total as int == spans_layout(spans@.subrange(0, i as int), start).1,
            segments@.len() == base + spans_layout(spans@.subrange(0, i as int), start).0.len(),
            forall|j: int| 0 <= j < base ==> #[trigger] segments@[j] == old(segments)@[j],
            forall|j: int| 0 <= j < spans_layout(spans@.subrange(0, i as int), start).0.len() ==>
                #[trigger] segments@[base + j] == (SourceSegment {
                    logical_offset: spans_layout(spans@.subrange(0, i as int), start).0[j].0,
                    data: SegmentData::FileRange {
                        source_offset: spans_layout(spans@.subrange(0, i as int), start).0[j].1,
                        size: spans_layout(spans@.subrange(0, i as int), start).0[j].2,
                    },
                }),
        decreases spans.len() - i,
    {
        let (source_offset, size) = spans[i];
        proof {
            assert(spans@.subrange(0, i + 1).drop_last() =~= spans@.subrange(0, i as int));
            lemma_spans_layout_grows(spans@, start, i + 1);
        }
        if *total > 0xFFFF_FFFF_FFFF_FFFF - size as u64 {
            return Err(overflow("VobSub logical payload size"));
        }
        let ghost before = segments@;
        segments.push(SourceSegment {
            logical_offset: *total,
            data: SegmentData::FileRange { source_offset, size },
        });
        *total = *total + size as u64;
        i = i + 1;
        proof {
            let lay = spans_layout(spans@.subrange(0, i as int), start).0;
            let prev = spans_layout(spans@.subrange(0, i - 1), start).0;
            assert(lay =~= prev.push(lay.last()));
            assert forall|j: int| 0 <= j < lay.len() implies #[trigger] segments@[base + j] == (SourceSegment {
                logical_offset: lay[j].0,
                data: SegmentData::FileRange { source_offset: lay[j].1, size: lay[j].2 },
            }) by {
                if j < prev.len() {
                    assert(segments@[base + j] == before[base + j]);
                }
            }
        }
    }
    assert(spans@.subrange(0, spans@.len() as int) =~= spans@);
    Ok(())
}

/// Laying out more spans never ends earlier.
proof fn lemma_spans_layout_grows(spans: Seq<(u64, u32)>, total: int, k: int)
    requires
        0 <= k <= spans.len(),
    ensures
        spans_layout(spans.subrange(0, k), total).1 <= spans_layout(spans, total).1,
        spans_layout(spans.subrange(0, k), total).1 >= total,
    decreases spans.len() - k,
{
    lemma_spans_layout_start(spans.subrange(0, k), total);
    if k < spans.len() {
        lemma_spans_layout_grows(spans, total, k + 1);
        assert(spans.subrange(0, k + 1).drop_last() =~= spans.subrange(0, k));
    } else {
        assert(spans.subrange(0, k) =~= spans);
        lemma_spans_layout_start(spans, total);
    }
}

proof fn lemma_spans_layout_start(spans: Seq<(u64, u32)>, total: int)
    ensures
        spans_layout(spans, total).1 >= total,
        spans_layout(spans, total).0.len() == spans.len(),
    decreases spans.len(),
{
    if spans.len() > 0 {
        lemma_spans_layout_start(spans.drop_last(), total);
    }
}

/// Stages a VobSub track's subtitles from the subtitle file held in memory: the blank
/// lead-in when the first subtitle starts after zero, then each subtitle's packet, timed by
/// its control sequences or by the gap to the next subtitle.
#[verifier::rlimit(40)]
pub fn build_vobsub_track_payload(file: &[u8], track: &VobSubTrack, spec: &str) -> (r: Result<VobSubTrackPayload, MuxError>)
    requires
        track.index < 32,
    ensures
        match track_payload(file@, track.positions@, track.index) {
            Ok((ranges, total, samples)) => r matches Ok(p) && segments_match(p.segments@, leads_with_blank(track.positions@), ranges)
                && p.total_size == total && p.samples@ == samples,
            Err(f) => r matches Err(e) && fails_as(e, f, spec@),
        },
{
    let positions = &track.positions;
    let n = positions.len();
    let mut segments: Vec<SourceSegment> = Vec::new();
    let mut total: u64 = 0;
    let mut samples: Vec<CandidateSample> = Vec::new();
    let lead = n > 0 && positions[0].start_pts > 0;
    if lead {
        if positions[0].start_pts > 0xFFFF_FFFF {
            return Err(overflow("VobSub blank duration"));
        }
        let mut blank: Vec<u8> = Vec::new();
        blank.push(0x00); blank.push(0x09); blank.push(0x00); blank.push(0x04); blank.push(0x00);
        blank.push(0x00); blank.push(0x00); blank.push(0x04); blank.push(0xFF);
        assert(blank@ =~= null_subpicture());
        segments.push(SourceSegment { logical_offset: 0, data: SegmentData::Bytes(blank) });
        total = 9;
        samples.push(CandidateSample {
            source_index: UNBOUND_SOURCE_INDEX,
            data_offset: 0,
            data_size: 9,
            duration: positions[0].start_pts as u32,
            composition_time_offset: 0,
            is_sync_sample: true,
        });
    }
    let ghost k: int = if lead { 1 } else { 0 };
    let ghost mut ranges: Seq<(u64, u64, u32)> = Seq::empty();
    let mut i: usize = 0;
    while i < n
        invariant
            n == track.positions@.len(),
            positions == &track.positions,
            track.index < 32,
            i <= n,
            k == (if leads_with_blank(track.positions@) { 1int } else { 0int }),
            track_payload(file@, track.positions@, track.index)
                == track_payload_from(file@, track.positions@, track.index, i as int, ranges, total as int, samples@),
            segments@.len() == k + ranges.len(),
            k == 1 ==> (segments@[0] matches SourceSegment { logical_offset, data: SegmentData::Bytes(b) }
                && logical_offset == 0 && b@ == null_subpicture()),
            forall|j: int| 0 <= j < ranges.len() ==> #[trigger] segments@[k + j] == (SourceSegment {
                logical_offset: ranges[j].0,
                data: SegmentData::FileRange { source_offset: ranges[j].1, size: ranges[j].2 },
            }),
        decreases n - i,
    {
        let position = positions[i];
        let next = if i + 1 < n { Some(positions[i + 1].start_pts) } else { None };
        let packet = collect_vobsub_packet(file, position, track.index, spec)?;
        let sample_offset = total;
        let ghost before = segments@;
        append_spans(&mut segments, &mut total, &packet.spans)?;
        let ghost laid = spans_layout(packet.spans@, sample_offset as int).0;
        proof {
            assert forall|j: int| 0 <= j < ranges.len() + laid.len() implies #[trigger] segments@[k + j] == (SourceSegment {
                logical_offset: (ranges + laid)[j].0,
                data: SegmentData::FileRange { source_offset: (ranges + laid)[j].1, size: (ranges + laid)[j].2 },
            }) by {
                if j < ranges.len() {
                    assert(segments@[k + j] == before[k + j]);
                } else {
                    assert(segments@[before.len() + (j - ranges.len())] == segments@[k + j]);
                }
            }
            if k == 1 {
                assert(segments@[0] == before[0]);
            }
            ranges = ranges + laid;
        }
        let duration = effective_vobsub_duration(packet.duration, position.start_pts, next)?;
        samples.push(CandidateSample {
            source_index: UNBOUND_SOURCE_INDEX,
            data_offset: sample_offset,
            data_size: packet.packet_bytes.len() as u32,
            duration,
            composition_time_offset: 0,
            is_sync_sample: true,
        });
        i = i + 1;
    }
    Ok(VobSubTrackPayload { segments, total_size: total, samples })
}

// ---------------------------------------------------------------------------------------------
// How a track's samples cover its payload
// ---------------------------------------------------------------------------------------------

/// The bytes of file spans.
pub open spec fn spans_sum(spans: Seq<(u64, u32)>) -> int
    decreases spans.len(),
{
    if spans.len() == 0 { 0 } else { spans_sum(spans.drop_last()) + spans.last().1 }
}

proof fn lemma_spans_layout_end(spans: Seq<(u64, u32)>, total: int)
    ensures
        spans_layout(spans, total).1 == total + spans_sum(spans),
    decreases spans.len(),
{
    if spans.len() > 0 {
        lemma_spans_layout_end(spans.drop_last(), total);
    }
}

proof fn lemma_packet_bytes_are_spans(
    f: Seq<u8>,
    off: int,
    expected: u8,
    sizing: Option<(u32, u32)>,
    bytes: Seq<u8>,
    spans: Seq<(u64, u32)>,
)
    requires
        bytes.len() == spans_sum(spans),
        sizing matches Some((z, _)) ==> bytes.len() < z,
        sizing is None ==> bytes.len() == 0,
    ensures
        packet_from(f, off, expected, sizing, bytes, spans) matches Ok((z, _, b, sp)) ==> b.len() == z && b.len() == spans_sum(sp),
    decreases f.len() - off,
{
    if let Some(h) = sector_at(f, off, expected) {
        let (size, control) = match sizing {
            Some(z) => z,
            None => (h.packet_size, h.control_offset),
        };
        let remaining = size - bytes.len();
        let avail = 2048 - h.payload_offset;
        let chunk = if remaining < avail { remaining } else { avail };
        let start = off + h.payload_offset;
        assert(24 <= h.payload_offset <= 279);
        assert(h.packet_size >= 4);
        let bytes2 = bytes + f.subrange(start, start + chunk);
        let spans2 = spans.push((start as u64, chunk as u32));
        assert(spans2.drop_last() =~= spans);
        assert(bytes2.len() == bytes.len() + chunk);
        if bytes2.len() != size {
            if let Ok(next) = next_sector_at(f, off + 2048, expected) {
                lemma_next_sector_after(f, off + 2048, expected);
                lemma_packet_bytes_are_spans(f, next, expected, Some((size, control)), bytes2, spans2);
            }
        }
    }
}

/// The samples lie back to back from offset 0, the last ending at `total` (which is 0 when
/// there is none).
pub open spec fn samples_tile(samples: Seq<CandidateSample>, total: int) -> bool {
    &&& samples.len() == 0 ==> total == 0
    &&& samples.len() > 0 ==> samples[0].data_offset == 0 && samples.last().data_offset + samples.last().data_size == total
    &&& forall|i: int| 0 <= i < samples.len() - 1 ==> #[trigger] samples[i].data_offset + samples[i].data_size == samples[i + 1].data_offset
}

proof fn lemma_track_payload_from_tiles(
    f: Seq<u8>,
    positions: Seq<VobSubPosition>,
    track_index: u8,
    i: int,
    ranges: Seq<(u64, u64, u32)>,
    total: int,
    samples: Seq<CandidateSample>,
)
    requires
        0 <= i,
        samples_tile(samples, total),
    ensures
        track_payload_from(f, positions, track_index, i, ranges, total, samples) matches Ok((_, t, s)) ==> samples_tile(s, t)
            && s.len() == samples.len() + if i < positions.len() { positions.len() - i } else { 0 },
    decreases positions.len() - i,
{
    if i < positions.len() {
        if let Ok((bytes, d, spans)) = collected_packet(f, positions[i], track_index) {
            let expected = (0x20 + track_index) as u8;
            lemma_packet_bytes_are_spans(f, positions[i].filepos as int, expected, None, Seq::empty(), Seq::empty());
            let (laid, end) = spans_layout(spans, total);
            lemma_spans_layout_end(spans, total);
            let next = if i + 1 < positions.len() { Some(positions[i + 1].start_pts) } else { None };
            if end <= u64::MAX {
                if let Some(duration) = vobsub_duration(d, positions[i].start_pts, next) {
                    let sample = CandidateSample {
                        source_index: UNBOUND_SOURCE_INDEX,
                        data_offset: total as u64,
                        data_size: bytes.len() as u32,
                        duration,
                        composition_time_offset: 0,
                        is_sync_sample: true,
                    };
                    let s2 = samples.push(sample);
                    assert(samples_tile(s2, end)) by {
                        assert forall|k: int| 0 <= k < s2.len() - 1 implies #[trigger] s2[k].data_offset + s2[k].data_size == s2[k + 1].data_offset by {
                            if k < samples.len() - 1 {
                                assert(s2[k] == samples[k] && s2[k + 1] == samples[k + 1]);
                            } else {
                                assert(s2[k] == samples.last());
                            }
                        }
                    }
                    lemma_track_payload_from_tiles(f, positions, track_index, i + 1, ranges + laid, end, s2);
                }
            }
        }
    }
}

/// A staged VobSub track's samples cover its payload exactly: they lie back to back from
/// offset 0 and the last ends at the payload's size; there is one per subtitle, plus the
/// blank lead-in when the first subtitle starts after zero.
pub proof fn lemma_vobsub_samples_tile_payload(
    f: Seq<u8>,
    positions: Seq<VobSubPosition>,
    track_index: u8,
    ranges: Seq<(u64, u64, u32)>,
    total: int,
    samples: Seq<CandidateSample>,
)
    requires
        track_payload(f, positions, track_index) == Ok::<(Seq<(u64, u64, u32)>, int, Seq<CandidateSample>), Failure>((ranges, total, samples)),
    ensures
        samples_tile(samples, total),
        samples.len() == positions.len() + if leads_with_blank(positions) { 1int } else { 0int },
{
    if leads_with_blank(positions) {
        let lead = seq![CandidateSample {
            source_index: UNBOUND_SOURCE_INDEX,
            data_offset: 0,
            data_size: 9,
            duration: positions[0].start_pts as u32,
            composition_time_offset: 0,
            is_sync_sample: true,
        }];
        lemma_track_payload_from_tiles(f, positions, track_index, 0, Seq::empty(), 9, lead);
    } else {
        lemma_track_payload_from_tiles(f, positions, track_index, 0, Seq::empty(), 0, Seq::empty());
    }
}

} // verus!
