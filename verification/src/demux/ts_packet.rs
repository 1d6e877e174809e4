use vstd::prelude::*;
use crate::error::{Failure, MuxError, fails_as, import_error, overflow};
use crate::demux::ts_samples::TransportTimestampAnchor;
use crate::demux::ts_psi::{
    parse_pat_section, parse_transport_packet_pcr, parse_ts_pes_header, pat_outcome, pcr_outcome,
    pes_header_outcome, pes_timestamp_value,
};
use crate::demux::ts_clock::{
    TransportProgramClockState, clock_after_pcr, clock_values_in_range, max_pcr_27m, translate_transport_timestamp_90k,
    translated_timestamp, update_transport_program_clock,
};
use crate::demux::ts_tracks::{
    FileRangeSegment, TransportTrackBuilder, TransportTrackView, insert_tracks, parse_pmt_section, pid_position,
    pids_increasing, pmt_outcome, track_views, transport_track_uses_full_au,
    transport_track_uses_program_clock_translation, uses_full_au, uses_program_clock,
};

verus! {

/// The builder with `size` more payload bytes read from `file_offset` (nothing when empty).
pub open spec fn appended(t: TransportTrackView, file_offset: u64, size: int) -> Result<TransportTrackView, Failure> {
    if size == 0 {
        Ok(t)
    } else if t.total_size + size > u64::MAX {
        Err(Failure::Overflow)
    } else {
        Ok(TransportTrackView {
            segments: t.segments.push(FileRangeSegment { file_offset, size: size as u32 }),
            total_size: (t.total_size + size) as u64,
            ..t
        })
    }
}

/// The builder after a payload-unit start: the PES timestamp (translated onto the program
/// clock for audio) anchors the current logical offset, one-sample-per-PES streams record a
/// sample boundary there, and the PES payload is appended.
pub open spec fn after_unit_start(
    t: TransportTrackView,
    payload: Seq<u8>,
    file_offset: u64,
    clock: TransportProgramClockState,
) -> Result<TransportTrackView, Failure> {
    match pes_header_outcome(payload, t.kind) {
        Err(f) => Err(f),
        Ok(header) => {
            let anchored: Result<TransportTrackView, Failure> = match header.pts_90k {
                None => Ok(t),
                Some(pts) => {
                    let value = if uses_program_clock(t.kind) { translated_timestamp(clock, pts) } else { pts as int };
                    if value < 0 {
                        Err(Failure::Untranslatable)
                    } else if value > u64::MAX {
                        Err(Failure::Overflow)
                    } else {
                        Ok(TransportTrackView {
                            pts_anchors: t.pts_anchors.push(TransportTimestampAnchor { sample_offset: t.total_size, pts_90k: value as u64 }),
                            ..t
                        })
                    }
                },
            };
            match anchored {
                Err(f) => Err(f),
                Ok(a) => {
                    let marked = if uses_full_au(a.kind) {
                        TransportTrackView { sample_offsets: a.sample_offsets.push(a.total_size), ..a }
                    } else {
                        a
                    };
                    appended(marked, (file_offset + header.payload_offset) as u64, payload.len() - header.payload_offset)
                },
            }
        },
    }
}

/// The importer state after one 188-byte packet read at `offset`: the PMT PID, the builders
/// in PID order, and the program clock; or a rejection.
pub open spec fn packet_outcome(
    p: Seq<u8>,
    offset: u64,
    pmt_pid: Option<u16>,
    tracks: Seq<TransportTrackView>,
    clock: TransportProgramClockState,
) -> Result<(Option<u16>, Seq<TransportTrackView>, TransportProgramClockState), Failure> {
    let unit_start = p[1] as int / 64 % 2 == 1;
    let pid = ((p[1] as int % 32) * 256 + p[2] as int) as u16;
    let control = p[3] / 16 % 4;
    if p[0] != 0x47 || p[1] >= 128 || p[3] >= 64 || control == 0 {
        Err(Failure::Rejected)
    } else {
        let clocked: Result<TransportProgramClockState, Failure> = if control == 2 || control == 3 {
            match pcr_outcome(p) {
                Err(f) => Err(f),
                Ok(None) => Ok(clock),
                Ok(Some((discontinuity, pcr))) => Ok(clock_after_pcr(clock, pid, control, p[3] % 16, discontinuity, pcr)),
            }
        } else {
            Ok(clock)
        };
        match clocked {
            Err(f) => Err(f),
            Ok(clock) => {
                let payload_offset = if control == 3 { 5 + p[4] as int } else { 4 };
                if control == 3 && payload_offset > 188 {
                    Err(Failure::Rejected)
                } else if control == 2 || payload_offset >= 188 {
                    Ok((pmt_pid, tracks, clock))
                } else {
                    payload_routing(p.subrange(payload_offset, 188), unit_start, pid, (offset + payload_offset) as u64, pmt_pid, tracks, clock)
                }
            },
        }
    }
}

/// Where a packet's payload goes: a PAT payload-unit start names the PMT PID, a PMT
/// payload-unit start declares builders and the PCR PID, and an elementary stream's payload
/// goes to its builder; anything else is skipped.
pub open spec fn payload_routing(
    payload: Seq<u8>,
    unit_start: bool,
    pid: u16,
    file_offset: u64,
    pmt_pid: Option<u16>,
    tracks: Seq<TransportTrackView>,
    clock: TransportProgramClockState,
) -> Result<(Option<u16>, Seq<TransportTrackView>, TransportProgramClockState), Failure> {
    if pid == 0 {
        if !unit_start {
            Ok((pmt_pid, tracks, clock))
        } else {
            match pat_outcome(payload) {
                Err(f) => Err(f),
                Ok(Some(found)) => Ok((Some(found), tracks, clock)),
                Ok(None) => Ok((pmt_pid, tracks, clock)),
            }
        }
    } else if pmt_pid == Some(pid) {
        if !unit_start {
            Ok((pmt_pid, tracks, clock))
        } else {
            match pmt_outcome(payload) {
                Err(f) => Err(f),
                Ok(None) => Ok((pmt_pid, tracks, clock)),
                Ok(Some((pcr_pid, declared))) => Ok((
                    pmt_pid,
                    insert_tracks(tracks, declared),
                    TransportProgramClockState { pcr_pid: Some(pcr_pid), ..clock },
                )),
            }
        }
    } else {
        let index = pid_position(tracks, pid, 0);
        if index >= tracks.len() || tracks[index].pid != pid {
            Ok((pmt_pid, tracks, clock))
        } else {
            let updated = if unit_start {
                after_unit_start(tracks[index], payload, file_offset, clock)
            } else {
                appended(tracks[index], file_offset, payload.len() as int)
            };
            match updated {
                Err(f) => Err(f),
                Ok(t) => Ok((pmt_pid, tracks.update(index, t), clock)),
            }
        }
    }
}

/// Appends payload bytes to a builder.
fn append_payload(builder: &mut TransportTrackBuilder, file_offset: u64, size: usize, label: &str) -> (r: Result<(), MuxError>)
    requires
        size <= 188,
    ensures
        match appended(old(builder)@, file_offset, size as int) {
            Ok(t) => r is Ok && final(builder)@ == t,
            Err(f) => r matches Err(e) && fails_as(e, f, ""@),
        },
        final(builder).pid == old(builder).pid,
{
    if size == 0 {
        return Ok(());
    }
    if builder.total_size > 0xFFFF_FFFF_FFFF_FFFF - size as u64 {
        return Err(overflow(label));
    }
    builder.segments.push(FileRangeSegment { file_offset, size: size as u32 });
    builder.total_size = builder.total_size + size as u64;
    Ok(())
}

/// Feeds a payload-unit start to a builder.
fn start_unit(
    spec: &str,
    builder: &mut TransportTrackBuilder,
    payload: &[u8],
    file_offset: u64,
    clock: &TransportProgramClockState,
) -> (r: Result<(), MuxError>)
    requires
        payload@.len() <= 184,
        file_offset + payload@.len() <= u64::MAX,
    ensures
        match after_unit_start(old(builder)@, payload@, file_offset, *clock) {
            Ok(t) => r is Ok && final(builder)@ == t,
            Err(f) => r matches Err(e) && fails_as(e, f, spec@),
        },
        final(builder).pid == old(builder).pid,
{
    let header = match parse_ts_pes_header(spec, payload, builder.kind) {
        Err(e) => return Err(e),
        Ok(h) => h,
    };
    match header.pts_90k {
        None => {},
        Some(pts) => {
            proof {
                assert(pes_timestamp_value(payload@.subrange(9, 14)) < 0x2_0000_0000);
            }
            let value = if transport_track_uses_program_clock_translation(builder.kind) {
                match translate_transport_timestamp_90k(clock, pts) {
                    Err(e) => return Err(e),
                    Ok(v) => v,
                }
            } else {
                pts
            };
            builder.pts_anchors.push(TransportTimestampAnchor { sample_offset: builder.total_size, pts_90k: value });
        },
    }
    if transport_track_uses_full_au(builder.kind) {
        builder.sample_offsets.push(builder.total_size);
    }
    append_payload(builder, file_offset + header.payload_offset as u64, payload.len() - header.payload_offset, "transport-stream PES payload")
}

/// Where the builder for `pid` sits, if there is one.
fn find_track(builders: &Vec<TransportTrackBuilder>, pid: u16) -> (r: Option<usize>)
    ensures
        match r {
            Some(i) => i == pid_position(track_views(builders@), pid, 0) && i < builders@.len() && builders@[i as int].pid == pid,
            None => pid_position(track_views(builders@), pid, 0) >= builders@.len()
                || track_views(builders@)[pid_position(track_views(builders@), pid, 0)].pid != pid,
        },
{
    let ghost s = track_views(builders@);
    let mut i: usize = 0;
    while i < builders.len() && builders[i].pid < pid
        invariant
            i <= builders@.len(),
            s == track_views(builders@),
            pid_position(s, pid, 0) == pid_position(s, pid, i as int),
        decreases builders.len() - i,
    {
        i = i + 1;
    }
    if i < builders.len() && builders[i].pid == pid {
        Some(i)
    } else {
        None
    }
}

/// Consumes one 188-byte transport-stream packet read at `packet_offset`: follows the PAT to
/// the PMT, the PMT to the elementary streams, the PCR into the program clock, and appends
/// each elementary stream's payload, with its PES timestamps, to its builder.
#[verifier::rlimit(40)]
pub fn parse_transport_packet_sync(
    spec: &str,
    packet: &[u8; 188],
    packet_offset: u64,
    pmt_pid: &mut Option<u16>,
    builders: &mut Vec<TransportTrackBuilder>,
    program_clock: &mut TransportProgramClockState,
) -> (r: Result<(), MuxError>)
    requires
        packet_offset <= u64::MAX - 188,
        pids_increasing(track_views(old(builders)@)),
        clock_values_in_range(*old(program_clock)),
    ensures
        pids_increasing(track_views(final(builders)@)),
        clock_values_in_range(*final(program_clock)),
        match packet_outcome(packet@, packet_offset, *old(pmt_pid), track_views(old(builders)@), *old(program_clock)) {
            Ok((pmt, tracks, clock)) => r is Ok && *final(pmt_pid) == pmt && track_views(final(builders)@) == tracks
                && *final(program_clock) == clock,
            Err(f) => r matches Err(e) && fails_as(e, f, spec@),
        },
{
    if packet[0] != 0x47 {
        return Err(import_error(spec, "missing transport-stream sync byte"));
    }
    if packet[1] >= 128 {
        return Err(import_error(spec, "transport-stream packets with transport errors are not supported"));
    }
    if packet[3] >= 64 {
        return Err(import_error(spec, "scrambled transport-stream packets are not supported"));
    }
    let unit_start = packet[1] / 64 % 2 == 1;
    let pid = (packet[1] % 32) as u16 * 256 + packet[2] as u16;
    let control = packet[3] / 16 % 4;
    if control == 0 {
        return Err(import_error(spec, "transport-stream packets with reserved adaptation-control state are not supported"));
    }
    if control == 2 || control == 3 {
        match parse_transport_packet_pcr(spec, packet) {
            Err(e) => return Err(e),
            Ok(None) => {},
            Ok(Some((discontinuity, pcr))) => {
                proof {
                    assert(pcr <= max_pcr_27m());
                }
                update_transport_program_clock(program_clock, pid, control, packet[3] % 16, discontinuity, pcr);
            },
        }
    }
    if control == 2 {
        return Ok(());
    }
    let payload_offset: usize = if control == 3 { 5 + packet[4] as usize } else { 4 };
    if control == 3 && payload_offset > 188 {
        return Err(import_error(spec, "transport-stream adaptation field overflowed the packet payload"));
    }
    if payload_offset >= 188 {
        return Ok(());
    }
    route_payload(spec, &packet[payload_offset..188], unit_start, pid, packet_offset + payload_offset as u64, pmt_pid, builders, program_clock)
}

/// Routes a packet's payload to the PAT, the PMT, or its elementary stream's builder.
fn route_payload(
    spec: &str,
    payload: &[u8],
    unit_start: bool,
    pid: u16,
    file_offset: u64,
    pmt_pid: &mut Option<u16>,
    builders: &mut Vec<TransportTrackBuilder>,
    program_clock: &mut TransportProgramClockState,
) -> (r: Result<(), MuxError>)
    requires
        payload@.len() <= 184,
        file_offset + payload@.len() <= u64::MAX,
        pids_increasing(track_views(old(builders)@)),
        clock_values_in_range(*old(program_clock)),
    ensures
        pids_increasing(track_views(final(builders)@)),
        clock_values_in_range(*final(program_clock)),
        match payload_routing(payload@, unit_start, pid, file_offset, *old(pmt_pid), track_views(old(builders)@), *old(program_clock)) {
            Ok((pmt, tracks, clock)) => r is Ok && *final(pmt_pid) == pmt && track_views(final(builders)@) == tracks
                && *final(program_clock) == clock,
            Err(f) => r matches Err(e) && fails_as(e, f, spec@),
        },
{
    if pid == 0 {
        if unit_start {
            match parse_pat_section(spec, payload) {
                Err(e) => return Err(e),
                Ok(Some(found)) => {
                    *pmt_pid = Some(found);
                },
                Ok(None) => {},
            }
        }
        return Ok(());
    }
    if *pmt_pid == Some(pid) {
        if unit_start {
            return parse_pmt_section(spec, payload, builders, program_clock);
        }
        return Ok(());
    }
    let index = match find_track(builders, pid) {
        None => return Ok(()),
        Some(i) => i,
    };
    let ghost before = track_views(builders@);
    let mut builder = builders.remove(index);
    let result = if unit_start {
        start_unit(spec, &mut builder, payload, file_offset, program_clock)
    } else {
        append_payload(&mut builder, file_offset, payload.len(), "transport-stream packet payload")
    };
    let ghost t = builder@;
    builders.insert(index, builder);
    proof {
        assert(track_views(builders@) =~= before.update(index as int, t));
        assert(t.pid == before[index as int].pid);
        assert forall|i: int, j: int| 0 <= i < j < builders@.len() implies track_views(builders@)[i].pid < track_views(builders@)[j].pid by {
            if i == index {
                assert(track_views(builders@)[i].pid == before[i].pid);
            }
            if j == index {
                assert(track_views(builders@)[j].pid == before[j].pid);
            }
        }
    }
    result
}

/// Whether a transport stream opens with two packets' worth of bytes, each packet starting
/// with the sync byte.
pub open spec fn transport_prefix_ok(data: Seq<u8>) -> bool {
    data.len() >= 376 && data[0] == 0x47 && data[188] == 0x47
}

/// Checks that an input looks like a transport stream: at least two packets, both starting
/// with the sync byte.
pub fn validate_transport_stream_bytes(data: &[u8], spec: &str) -> (r: Result<(), MuxError>)
    ensures
        transport_prefix_ok(data@) ==> r is Ok,
        !transport_prefix_ok(data@) ==> (r matches Err(e) && fails_as(e, Failure::Rejected, spec@)),
{
    if data.len() < 376 {
        return Err(import_error(spec, "transport stream input is too short to validate packet sync"));
    }
    if data[0] != 0x47 || data[188] != 0x47 {
        return Err(import_error(spec, "input does not carry MPEG transport stream packet sync bytes"));
    }
    Ok(())
}

/// The program clock before any packet.
pub open spec fn initial_program_clock() -> TransportProgramClockState {
    TransportProgramClockState {
        pcr_pid: None,
        before_last_pcr_value: None,
        last_pcr_value: None,
        pcr_base_offset_27m: 0,
        last_continuity_counter: None,
    }
}

/// The PMT PID, builders and program clock after the whole packets from byte `i` on (a
/// trailing partial packet is ignored), or the first packet's rejection.
pub open spec fn scan_packets(
    data: Seq<u8>,
    i: int,
    pmt_pid: Option<u16>,
    tracks: Seq<TransportTrackView>,
    clock: TransportProgramClockState,
) -> Result<(Option<u16>, Seq<TransportTrackView>, TransportProgramClockState), Failure>
    decreases data.len() - i,
{
    if i < 0 || i + 188 > data.len() {
        Ok((pmt_pid, tracks, clock))
    } else {
        match packet_outcome(data.subrange(i, i + 188), i as u64, pmt_pid, tracks, clock) {
            Err(f) => Err(f),
            Ok((p, t, c)) => scan_packets(data, i + 188, p, t, c),
        }
    }
}

/// What a transport stream's packets build: the outcome of its whole packets in order, from
/// no PMT PID, no builders and a fresh program clock.
pub open spec fn transport_scan(data: Seq<u8>) -> Result<(Option<u16>, Seq<TransportTrackView>, TransportProgramClockState), Failure> {
    if transport_prefix_ok(data) {
        scan_packets(data, 0, None, Seq::empty(), initial_program_clock())
    } else {
        Err(Failure::Rejected)
    }
}

/// Scans a whole transport stream held in memory: checks its first two packets, then consumes
/// every whole packet in turn, and returns the track builders and the program clock.
pub fn scan_transport_stream_bytes(data: &[u8], spec: &str) -> (r: Result<(Vec<TransportTrackBuilder>, TransportProgramClockState), MuxError>)
    ensures
        match transport_scan(data@) {
            Ok((_, tracks, clock)) => r matches Ok((builders, c)) && track_views(builders@) == tracks && c == clock,
            Err(f) => r matches Err(e) && fails_as(e, f, spec@),
        },
        r matches Ok((builders, c)) ==> pids_increasing(track_views(builders@)) && clock_values_in_range(c),
{
    validate_transport_stream_bytes(data, spec)?;
    let n = data.len();
    let mut pmt_pid: Option<u16> = None;
    let mut builders: Vec<TransportTrackBuilder> = Vec::new();
    let mut program_clock = TransportProgramClockState {
        pcr_pid: None,
        before_last_pcr_value: None,
        last_pcr_value: None,
        pcr_base_offset_27m: 0,
        last_continuity_counter: None,
    };
    assert(track_views(builders@) =~= Seq::<TransportTrackView>::empty());
    let mut i: usize = 0;
    while i <= n && n - i >= 188
        invariant
            n == data@.len(),
            transport_prefix_ok(data@),
            pids_increasing(track_views(builders@)),
            clock_values_in_range(program_clock),
            transport_scan(data@) == scan_packets(data@, i as int, pmt_pid, track_views(builders@), program_clock),
        decreases n - i,
    {
        let mut packet = [0u8; 188];
        let mut j: usize = 0;
        while j < 188
            invariant
                j <= 188,
                i + 188 <= n,
                n == data@.len(),
                forall|k: int| 0 <= k < j ==> packet@[k] == data@[i + k],
            decreases 188 - j,
        {
            packet[j] = data[i + j];
            j = j + 1;
        }
        assert(packet@ =~= data@.subrange(i as int, i + 188));
        parse_transport_packet_sync(spec, &packet, i as u64, &mut pmt_pid, &mut builders, &mut program_clock)?;
        i = i + 188;
    }
    Ok((builders, program_clock))
}

} // verus!
