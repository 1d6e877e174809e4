use vstd::prelude::*;
use crate::error::{Failure, MuxError, fails_as, import_error, overflow};
use crate::demux::ps_audio::{
    ParsedPrivateStream1PesPacket, ProgramStreamLpcmFormat, ProgramStreamTrackBuilder, ProgramStreamTrackKind,
    finalize_private_stream_1_pes_packet, find_program_stream_packet_start_in_bytes, packet_start_at,
    parse_program_stream_pes_timestamp_bytes, private_stream_1_packet, ps_timestamp,
};
use crate::demux::ts_tracks::{FileRangeSegment, hex_byte};

verus! {

// ---------------------------------------------------------------------------------------------
// Packet framing
// ---------------------------------------------------------------------------------------------

/// A program stream starts with a pack start code `00 00 01 BA` and holds at least a
/// minimal pack header.
pub open spec fn ps_header_ok(f: Seq<u8>) -> bool {
    f.len() >= 14 && f[0] == 0 && f[1] == 0 && f[2] == 1 && f[3] == 0xBA
}

/// Checks the pack start code at the beginning of an in-memory program stream.
pub fn validate_program_stream_header(file: &[u8], spec: &str) -> (r: Result<(), MuxError>)
    ensures
        r is Ok <==> ps_header_ok(file@),
        r matches Err(e) ==> fails_as(e, Failure::Rejected, spec@),
{
    if file.len() < 14 {
        return Err(import_error(spec, "program stream input is truncated before the pack header"));
    }
    if !(file[0] == 0 && file[1] == 0 && file[2] == 1 && file[3] == 0xBA) {
        return Err(import_error(spec, "input is not an MPEG program stream pack header"));
    }
    Ok(())
}

/// The stream id of the start code at `off`: four bytes `00 00 01 id` must be there.
pub open spec fn start_code_at(f: Seq<u8>, off: int) -> Result<u8, Failure> {
    if f.len() - off < 4 {
        Err(Failure::Rejected)
    } else if !(f[off] == 0 && f[off + 1] == 0 && f[off + 2] == 1) {
        Err(Failure::Rejected)
    } else {
        Ok(f[off + 3])
    }
}

/// Reads the start code of the packet at `offset`.
pub fn read_program_stream_start_code(file: &[u8], offset: usize, spec: &str) -> (r: Result<u8, MuxError>)
    requires
        offset <= file@.len(),
    ensures
        match start_code_at(file@, offset as int) {
            Ok(id) => r == Ok::<u8, MuxError>(id),
            Err(f) => r matches Err(e) && fails_as(e, f, spec@),
        },
{
    if file.len() - offset < 4 {
        return Err(import_error(spec, "truncated MPEG program stream start code"));
    }
    if !(file[offset] == 0 && file[offset + 1] == 0 && file[offset + 2] == 1) {
        return Err(import_error(spec, "invalid MPEG program stream start code"));
    }
    Ok(file[offset + 3])
}

/// The end of the pack header at `off`: twelve bytes for an MPEG-1 pack (`0010` marker),
/// otherwise an MPEG-2 pack of fourteen bytes plus its stuffing length.
pub open spec fn pack_header_end(f: Seq<u8>, off: int) -> Result<int, Failure> {
    if f.len() - off < 12 {
        Err(Failure::Rejected)
    } else if f[off + 4] / 16 == 2 {
        Ok(off + 12)
    } else if f.len() - off < 14 {
        Err(Failure::Rejected)
    } else if f[off + 4] / 64 != 1 {
        Err(Failure::Rejected)
    } else {
        let end = off + 14 + f[off + 13] % 8;
        if end > f.len() { Err(Failure::Rejected) } else { Ok(end) }
    }
}

/// Skips the pack header at `offset`.
pub fn parse_pack_header(file: &[u8], offset: usize, spec: &str) -> (r: Result<usize, MuxError>)
    requires
        offset <= file@.len(),
    ensures
        match pack_header_end(file@, offset as int) {
            Ok(end) => r == Ok::<usize, MuxError>(end as usize),
            Err(f) => r matches Err(e) && fails_as(e, f, spec@),
        },
{
    if file.len() - offset < 12 {
        return Err(import_error(spec, "truncated program stream pack header"));
    }
    if file[offset + 4] / 16 == 2 {
        return Ok(offset + 12);
    }
    if file.len() - offset < 14 {
        return Err(import_error(spec, "truncated program stream pack header"));
    }
    if file[offset + 4] / 64 != 1 {
        return Err(import_error(spec, "unsupported program stream pack-header layout"));
    }
    let size = 14 + (file[offset + 13] % 8) as usize;
    if file.len() - offset < size {
        return Err(import_error(spec, "truncated program stream pack stuffing bytes"));
    }
    Ok(offset + size)
}

/// The end of a packet carrying a 16-bit length after its start code.
pub open spec fn length_delimited_end(f: Seq<u8>, off: int) -> Result<int, Failure> {
    if f.len() - off < 6 {
        Err(Failure::Rejected)
    } else {
        let end = off + 6 + f[off + 4] * 256 + f[off + 5];
        if end > f.len() { Err(Failure::Rejected) } else { Ok(end) }
    }
}

/// Skips a system header, program stream map, padding or private_stream_2 packet.
pub fn skip_length_delimited_ps_packet(file: &[u8], offset: usize, spec: &str, packet_id: u8) -> (r: Result<usize, MuxError>)
    requires
        offset <= file@.len(),
    ensures
        match length_delimited_end(file@, offset as int) {
            Ok(end) => r == Ok::<usize, MuxError>(end as usize),
            Err(f) => r matches Err(e) && fails_as(e, f, spec@),
        },
{
    if file.len() - offset < 6 {
        let message = String::from_str("truncated program stream packet header for start code 0x").concat(hex_byte(packet_id).as_str());
        return Err(MuxError::UnsupportedTrackImport { spec: spec.to_owned(), message });
    }
    let size = 6 + file[offset + 4] as usize * 256 + file[offset + 5] as usize;
    if file.len() - offset < size {
        let message = String::from_str("truncated program stream packet body for start code 0x").concat(hex_byte(packet_id).as_str());
        return Err(MuxError::UnsupportedTrackImport { spec: spec.to_owned(), message });
    }
    Ok(offset + size)
}

// ---------------------------------------------------------------------------------------------
// PES packets
// ---------------------------------------------------------------------------------------------

/// Where a PES packet's payload lies and the timestamps its header carries.
#[derive(Clone, Copy, Debug, PartialEq, Eq)]
pub struct ParsedProgramStreamPesPacket {
    pub payload_offset: u64,
    pub payload_size: u32,
    pub packet_end: u64,
    pub presentation_time: Option<u64>,
    pub decode_time: Option<u64>,
}

/// The five-byte PTS/DTS field at `c`.
pub open spec fn timestamp_at(f: Seq<u8>, c: int) -> Result<u64, Failure> {
    if f.len() - c < 5 {
        Err(Failure::Rejected)
    } else {
        match ps_timestamp(f.subrange(c, c + 5)) {
            Some(v) => Ok(v),
            None => Err(Failure::Rejected),
        }
    }
}

/// Reads the PTS/DTS field at `offset`.
fn read_timestamp_at(file: &[u8], offset: usize, spec: &str) -> (r: Result<u64, MuxError>)
    requires
        offset <= file@.len(),
    ensures
        match timestamp_at(file@, offset as int) {
            Ok(v) => r == Ok::<u64, MuxError>(v),
            Err(f) => r matches Err(e) && fails_as(e, f, spec@),
        },
{
    if file.len() - offset < 5 {
        return Err(import_error(spec, "truncated program stream PES timestamp"));
    }
    let field: [u8; 5] = [file[offset], file[offset + 1], file[offset + 2], file[offset + 3], file[offset + 4]];
    assert(field@ =~= file@.subrange(offset as int, offset + 5));
    parse_program_stream_pes_timestamp_bytes(&field, spec)
}

/// The first byte at or after `c` that is not MPEG-1 stuffing (`FF`).
pub open spec fn stuffing_end(f: Seq<u8>, c: int) -> Result<int, Failure>
    decreases f.len() - c,
{
    if c < 0 || c >= f.len() {
        Err(Failure::Rejected)
    } else if f[c] == 0xFF {
        stuffing_end(f, c + 1)
    } else {
        Ok(c)
    }
}

/// An MPEG-1 PES header after the packet length: stuffing, an optional two-byte buffer size,
/// then a PTS, a PTS and DTS, or the `0F` no-timestamp marker. Gives the payload offset and
/// the presentation and decode times.
pub open spec fn mpeg1_pes_header(f: Seq<u8>, off: int) -> Result<(int, Option<u64>, Option<u64>), Failure> {
    match stuffing_end(f, off + 6) {
        Err(e) => Err(e),
        Ok(c) => {
            let c1 = if f[c] / 64 == 1 { c + 2 } else { c };
            if c1 >= f.len() {
                Err(Failure::Rejected)
            } else if f[c1] / 16 == 2 {
                match timestamp_at(f, c1) {
                    Err(e) => Err(e),
                    Ok(p) => Ok((c1 + 5, Some(p), Some(p))),
                }
            } else if f[c1] / 16 == 3 {
                match timestamp_at(f, c1) {
                    Err(e) => Err(e),
                    Ok(p) => match timestamp_at(f, c1 + 5) {
                        Err(e) => Err(e),
                        Ok(d) => Ok((c1 + 10, Some(p), Some(d))),
                    },
                }
            } else if f[c1] == 0x0F {
                Ok((c1 + 1, None, None))
            } else {
                Err(Failure::Rejected)
            }
        },
    }
}

/// Reads an MPEG-1 PES header.
fn parse_mpeg1_pes_header(file: &[u8], offset: usize, spec: &str) -> (r: Result<(usize, Option<u64>, Option<u64>), MuxError>)
    requires
        offset + 9 <= file@.len(),
    ensures
        match mpeg1_pes_header(file@, offset as int) {
            Ok((c, p, d)) => r matches Ok((rc, rp, rd)) && rc == c && rp == p && rd == d,
            Err(f) => r matches Err(e) && fails_as(e, f, spec@),
        },
        r matches Ok((c, _, _)) ==> offset < c <= file@.len(),
{
    let n = file.len();
    let mut cursor = offset + 6;
    while cursor < n && file[cursor] == 0xFF
        invariant
            n == file@.len(),
            offset + 6 <= cursor <= n,
            stuffing_end(file@, offset + 6) == stuffing_end(file@, cursor as int),
        decreases n - cursor,
    {
        cursor = cursor + 1;
    }
    if cursor >= n {
        return Err(import_error(spec, "truncated program stream PES header"));
    }
    if file[cursor] / 64 == 1 {
        if n - cursor <= 2 {
            return Err(import_error(spec, "truncated program stream PES header"));
        }
        cursor = cursor + 2;
    }
    let next = file[cursor];
    if next / 16 == 2 {
        let p = read_timestamp_at(file, cursor, spec)?;
        return Ok((cursor + 5, Some(p), Some(p)));
    }
    if next / 16 == 3 {
        let p = read_timestamp_at(file, cursor, spec)?;
        if cursor + 5 > n {
            return Err(import_error(spec, "truncated program stream PES timestamp"));
        }
        let d = read_timestamp_at(file, cursor + 5, spec)?;
        return Ok((cursor + 10, Some(p), Some(d)));
    }
    if next == 0x0F {
        return Ok((cursor + 1, None, None));
    }
    Err(import_error(spec, "unsupported PES header flags on the native direct-ingest program-stream path"))
}

/// The first recognized packet start code at or after `j`, or the end of the file.
pub open spec fn next_packet_start(f: Seq<u8>, j: int) -> int
    decreases f.len() - j,
{
    if j < 0 || j >= f.len() {
        f.len() as int
    } else if packet_start_at(f, j) {
        j
    } else {
        next_packet_start(f, j + 1)
    }
}

proof fn lemma_next_packet_start(f: Seq<u8>, from: int, j: int)
    requires
        0 <= from <= j <= f.len(),
        forall|k: int| from <= k < j ==> !packet_start_at(f, k),
    ensures
        next_packet_start(f, from) == next_packet_start(f, j),
    decreases j - from,
{
    if from < j {
        lemma_next_packet_start(f, from + 1, j);
    }
}

/// Finds the next recognized packet start code at or after `from` (the end of the file when
/// there is none), where an open-ended video packet stops.
fn find_next_program_stream_packet_start(file: &[u8], from: usize) -> (r: usize)
    requires
        from <= file@.len(),
    ensures
        r as int == next_packet_start(file@, from as int),
        from <= r <= file@.len(),
{
    let n = file.len();
    if from >= n {
        return n;
    }
    let tail: &[u8] = &file[from..n];
    assert(tail@ =~= file@.subrange(from as int, n as int));
    proof {
        assert forall|k: int| from <= k < n implies #[trigger] packet_start_at(file@, k) == packet_start_at(tail@, k - from) by {
            if k + 4 <= n {
                assert(tail@[k - from] == file@[k] && tail@[k - from + 1] == file@[k + 1]);
                assert(tail@[k - from + 2] == file@[k + 2] && tail@[k - from + 3] == file@[k + 3]);
            }
        }
    }
    match find_program_stream_packet_start_in_bytes(tail) {
        Some(i) => {
            proof {
                assert forall|k: int| from <= k < from + i implies !packet_start_at(file@, k) by {
                    assert(!packet_start_at(tail@, k - from));
                }
                lemma_next_packet_start(file@, from as int, from + i);
                assert(packet_start_at(file@, from + i)) by {
                    assert(packet_start_at(tail@, i as int));
                }
            }
            from + i
        },
        None => {
            proof {
                assert forall|k: int| from <= k < n implies !packet_start_at(file@, k) by {
                    assert(!packet_start_at(tail@, k - from));
                }
                lemma_next_packet_start(file@, from as int, n as int);
            }
            n
        },
    }
}

/// The PES packet at `off` for `stream_id`: an MPEG-2 header (`10` marker) gives the payload
/// offset and optional PTS and DTS (DTS defaulting to PTS), otherwise the MPEG-1 layout
/// applies; a zero packet length (video only) runs the packet to the next packet start.
pub open spec fn pes_packet(f: Seq<u8>, off: int, stream_id: u8) -> Result<ParsedProgramStreamPesPacket, Failure> {
    if f.len() - off < 9 {
        Err(Failure::Rejected)
    } else {
        let length = f[off + 4] * 256 + f[off + 5];
        let head: Result<(int, Option<u64>, Option<u64>), Failure> = if f[off + 6] / 64 == 2 {
            let po = off + 9 + f[off + 8];
            if po > f.len() {
                Err(Failure::Rejected)
            } else {
                let pts: Result<Option<u64>, Failure> = if f[off + 7] >= 0x80 {
                    match timestamp_at(f, off + 9) {
                        Ok(v) => Ok(Some(v)),
                        Err(e) => Err(e),
                    }
                } else {
                    Ok(None)
                };
                match pts {
                    Err(e) => Err(e),
                    Ok(p) => if (f[off + 7] / 64) % 2 == 1 {
                        match timestamp_at(f, off + 14) {
                            Ok(d) => Ok((po, p, Some(d))),
                            Err(e) => Err(e),
                        }
                    } else {
                        Ok((po, p, p))
                    },
                }
            }
        } else {
            mpeg1_pes_header(f, off)
        };
        match head {
            Err(e) => Err(e),
            Ok((po, p, d)) => {
                let end: Result<int, Failure> = if length == 0 {
                    if 0xE0 <= stream_id <= 0xEF { Ok(next_packet_start(f, po)) } else { Err(Failure::Rejected) }
                } else {
                    Ok(off + 6 + length)
                };
                match end {
                    Err(e) => Err(e),
                    Ok(e) => if po > e || e > f.len() {
                        Err(Failure::Rejected)
                    } else if e - po > u32::MAX {
                        Err(Failure::Overflow)
                    } else {
                        Ok(ParsedProgramStreamPesPacket {
                            payload_offset: po as u64,
                            payload_size: (e - po) as u32,
                            packet_end: e as u64,
                            presentation_time: p,
                            decode_time: d,
                        })
                    },
                }
            },
        }
    }
}

/// Reads the PES packet at `offset`.
pub fn parse_pes_packet(file: &[u8], offset: usize, spec: &str, stream_id: u8) -> (r: Result<ParsedProgramStreamPesPacket, MuxError>)
    requires
        offset <= file@.len(),
    ensures
        match pes_packet(file@, offset as int, stream_id) {
            Ok(p) => r == Ok::<ParsedProgramStreamPesPacket, MuxError>(p),
            Err(f) => r matches Err(e) && fails_as(e, f, spec@),
        },
        r matches Ok(p) ==> offset < p.payload_offset <= p.packet_end <= file@.len()
            && p.packet_end - p.payload_offset == p.payload_size,
{
    let n = file.len();
    if n - offset < 9 {
        let message = String::from_str("truncated PES header for program stream id 0x").concat(hex_byte(stream_id).as_str());
        return Err(MuxError::UnsupportedTrackImport { spec: spec.to_owned(), message });
    }
    let length = file[offset + 4] as usize * 256 + file[offset + 5] as usize;
    let (payload_offset, presentation_time, decode_time) = if file[offset + 6] / 64 == 2 {
        let header_data_length = file[offset + 8] as usize;
        if n - offset - 9 < header_data_length {
            return Err(import_error(spec, "truncated program stream PES payload"));
        }
        let po = offset + 9 + header_data_length;
        let flags = file[offset + 7];
        let p = if flags >= 0x80 {
            Some(read_timestamp_at(file, offset + 9, spec)?)
        } else {
            None
        };
        let d = if (flags / 64) % 2 == 1 {
            if n - offset < 14 {
                return Err(import_error(spec, "truncated program stream PES timestamp"));
            }
            Some(read_timestamp_at(file, offset + 14, spec)?)
        } else {
            p
        };
        (po, p, d)
    } else {
        parse_mpeg1_pes_header(file, offset, spec)?
    };
    assert(payload_offset <= n);
    let packet_end = if length == 0 {
        if !(0xE0 <= stream_id && stream_id <= 0xEF) {
            return Err(import_error(spec, "open-ended PES packets are only supported for program-stream video carriage on the native direct-ingest path"));
        }
        find_next_program_stream_packet_start(file, payload_offset)
    } else {
        if n - offset - 6 < length {
            return Err(import_error(spec, "truncated program stream PES payload"));
        }
        offset + 6 + length
    };
    if payload_offset > packet_end {
        return Err(import_error(spec, "truncated program stream PES payload"));
    }
    if packet_end - payload_offset > 0xFFFF_FFFF {
        return Err(overflow("program stream PES payload"));
    }
    Ok(ParsedProgramStreamPesPacket {
        payload_offset: payload_offset as u64,
        payload_size: (packet_end - payload_offset) as u32,
        packet_end: packet_end as u64,
        presentation_time,
        decode_time,
    })
}

/// The private_stream_1 PES packet at `off`: a PES packet whose payload starts with the
/// four-byte substream header.
pub open spec fn private_pes_packet(f: Seq<u8>, off: int, stream_id: u8) -> Result<ParsedPrivateStream1PesPacket, Failure> {
    match pes_packet(f, off, stream_id) {
        Err(e) => Err(e),
        Ok(p) => if p.payload_size < 4 {
            Err(Failure::Rejected)
        } else {
            private_stream_1_packet(
                f.subrange(p.payload_offset as int, p.payload_offset + 4),
                p.presentation_time,
                p.payload_offset,
                p.payload_size,
                p.packet_end,
            )
        },
    }
}

/// Reads the private_stream_1 PES packet at `offset` and classifies its substream.
pub fn parse_private_stream_1_pes_packet(file: &[u8], offset: usize, spec: &str, stream_id: u8) -> (r: Result<ParsedPrivateStream1PesPacket, MuxError>)
    requires
        offset <= file@.len(),
    ensures
        match private_pes_packet(file@, offset as int, stream_id) {
            Ok(p) => r == Ok::<ParsedPrivateStream1PesPacket, MuxError>(p),
            Err(f) => r matches Err(e) && fails_as(e, f, spec@),
        },
        r matches Ok(p) ==> offset < p.packet_end <= file@.len(),
{
    let parsed = parse_pes_packet(file, offset, spec, stream_id)?;
    if parsed.payload_size < 4 {
        return Err(import_error(spec, "program stream private_stream_1 payload is truncated before the 4-byte private header"));
    }
    let po = parsed.payload_offset as usize;
    let header: [u8; 4] = [file[po], file[po + 1], file[po + 2], file[po + 3]];
    assert(header@ =~= file@.subrange(po as int, po + 4));
    finalize_private_stream_1_pes_packet(
        spec,
        header,
        parsed.presentation_time,
        parsed.payload_offset,
        parsed.payload_size,
        parsed.packet_end,
    )
}

// ---------------------------------------------------------------------------------------------
// Track builders
// ---------------------------------------------------------------------------------------------

/// The contents of a [`ProgramStreamTrackBuilder`].
pub struct PsBuilderView {
    pub stream_id: u8,
    pub kind: ProgramStreamTrackKind,
    pub lpcm_format: Option<ProgramStreamLpcmFormat>,
    pub segments: Seq<FileRangeSegment>,
    pub total_size: u64,
    pub sample_offsets: Seq<u64>,
    pub sample_pts: Seq<u64>,
    pub sample_dts: Seq<u64>,
}

impl View for ProgramStreamTrackBuilder {
    type V = PsBuilderView;

    open spec fn view(&self) -> PsBuilderView {
        PsBuilderView {
            stream_id: self.stream_id,
            kind: self.kind,
            lpcm_format: self.lpcm_format,
            segments: self.segments@,
            total_size: self.total_size,
            sample_offsets: self.sample_offsets@,
            sample_pts: self.sample_pts@,
            sample_dts: self.sample_dts@,
        }
    }
}

/// The views of builders.
pub open spec fn ps_views(v: Seq<ProgramStreamTrackBuilder>) -> Seq<PsBuilderView> {
    v.map_values(|b: ProgramStreamTrackBuilder| b@)
}

/// The builders are in strictly increasing stream-id order.
pub open spec fn ids_increasing(s: Seq<PsBuilderView>) -> bool {
    forall|i: int, j: int| 0 <= i < j < s.len() ==> s[i].stream_id < s[j].stream_id
}

/// The first position from `i` on whose builder's stream id is at least `id`.
pub open spec fn id_position(s: Seq<PsBuilderView>, id: u8, i: int) -> int
    decreases s.len() - i,
{
    if i < 0 || i >= s.len() {
        s.len() as int
    } else if s[i].stream_id >= id {
        i
    } else {
        id_position(s, id, i + 1)
    }
}

proof fn lemma_id_position(s: Seq<PsBuilderView>, id: u8, i: int)
    requires
        0 <= i <= s.len(),
        forall|k: int| 0 <= k < i ==> s[k].stream_id < id,
    ensures
        i <= id_position(s, id, i) <= s.len(),
        forall|k: int| 0 <= k < id_position(s, id, i) ==> s[k].stream_id < id,
        id_position(s, id, i) < s.len() ==> s[id_position(s, id, i)].stream_id >= id,
        id_position(s, id, i) == id_position(s, id, 0),
    decreases s.len() - i,
{
    if i < s.len() && s[i].stream_id < id {
        lemma_id_position(s, id, i + 1);
    }
    if i > 0 {
        lemma_id_position_prefix(s, id, i);
    }
}

proof fn lemma_id_position_prefix(s: Seq<PsBuilderView>, id: u8, i: int)
    requires
        0 <= i <= s.len(),
        forall|k: int| 0 <= k < i ==> s[k].stream_id < id,
    ensures
        id_position(s, id, i) == id_position(s, id, 0),
    decreases i,
{
    if i > 0 {
        lemma_id_position_prefix(s, id, i - 1);
    }
}

/// A builder for a stream nothing was read from yet.
pub open spec fn fresh_builder(id: u8, kind: ProgramStreamTrackKind, lpcm: Option<ProgramStreamLpcmFormat>) -> PsBuilderView {
    PsBuilderView {
        stream_id: id,
        kind,
        lpcm_format: lpcm,
        segments: Seq::empty(),
        total_size: 0,
        sample_offsets: Seq::empty(),
        sample_pts: Seq::empty(),
        sample_dts: Seq::empty(),
    }
}

/// The builders with one for `id`, a fresh one put in stream-id order when there was none,
/// and its position.
pub open spec fn with_builder(s: Seq<PsBuilderView>, id: u8, kind: ProgramStreamTrackKind, lpcm: Option<ProgramStreamLpcmFormat>) -> (Seq<PsBuilderView>, int) {
    let p = id_position(s, id, 0);
    if p < s.len() && s[p].stream_id == id { (s, p) } else { (s.insert(p, fresh_builder(id, kind, lpcm)), p) }
}

/// The builder with a payload run of `size` bytes at `offset` appended.
pub open spec fn ps_appended(b: PsBuilderView, offset: u64, size: u32) -> Result<PsBuilderView, Failure> {
    if b.total_size + size > u64::MAX {
        Err(Failure::Overflow)
    } else {
        Ok(PsBuilderView {
            segments: b.segments.push(FileRangeSegment { file_offset: offset, size }),
            total_size: (b.total_size + size) as u64,
            ..b
        })
    }
}

/// Finds the builder for `id`, adding a fresh one in order when there is none.
fn builder_for(builders: &mut Vec<ProgramStreamTrackBuilder>, id: u8, kind: ProgramStreamTrackKind, lpcm: Option<ProgramStreamLpcmFormat>) -> (r: usize)
    requires
        ids_increasing(ps_views(old(builders)@)),
    ensures
        (ps_views(final(builders)@), r as int) == with_builder(ps_views(old(builders)@), id, kind, lpcm),
        ids_increasing(ps_views(final(builders)@)),
        r < final(builders)@.len(),
{
    let ghost before = ps_views(builders@);
    let mut p: usize = 0;
    while p < builders.len() && builders[p].stream_id < id
        invariant
            p <= builders@.len(),
            before == ps_views(builders@),
            forall|k: int| 0 <= k < p ==> before[k].stream_id < id,
        decreases builders.len() - p,
    {
        p = p + 1;
    }
    proof { lemma_id_position(before, id, p as int); }
    if p < builders.len() && builders[p].stream_id == id {
        return p;
    }
    let fresh = ProgramStreamTrackBuilder {
        stream_id: id,
        kind,
        lpcm_format: lpcm,
        segments: Vec::new(),
        total_size: 0,
        sample_offsets: Vec::new(),
        sample_pts: Vec::new(),
        sample_dts: Vec::new(),
    };
    let ghost t = fresh@;
    assert(t == fresh_builder(id, kind, lpcm));
    builders.insert(p, fresh);
    proof {
        assert(ps_views(builders@) =~= before.insert(p as int, t));
        assert forall|i: int, j: int| 0 <= i < j < builders@.len() implies ps_views(builders@)[i].stream_id < ps_views(builders@)[j].stream_id by {
            let s = ps_views(builders@);
            if j < p {
                assert(s[i] == before[i] && s[j] == before[j]);
            } else if j == p {
                assert(s[i] == before[i]);
            } else if i < p {
                assert(s[i] == before[i] && s[j] == before[j - 1]);
            } else if i == p {
                assert(s[j] == before[j - 1]);
                assert(before[j - 1].stream_id >= id);
            } else {
                assert(s[i] == before[i - 1] && s[j] == before[j - 1]);
            }
        }
    }
    p
}

/// Appends a payload run to a builder.
fn append_payload(b: &mut ProgramStreamTrackBuilder, offset: u64, size: u32) -> (r: Result<(), MuxError>)
    ensures
        match ps_appended(old(b)@, offset, size) {
            Ok(v) => r is Ok && final(b)@ == v,
            Err(f) => r matches Err(e) && fails_as(e, f, ""@),
        },
{
    if b.total_size > 0xFFFF_FFFF_FFFF_FFFF - size as u64 {
        return Err(overflow("program stream logical payload size"));
    }
    b.segments.push(FileRangeSegment { file_offset: offset, size });
    b.total_size = b.total_size + size as u64;
    Ok(())
}

/// The builders after a private_stream_1 packet: its substream's builder (created with the
/// packet's kind and format) must keep the same kind and LPCM format; LPCM and subpicture
/// streams start a sample at each packet, subpicture packets must carry a PTS, and the
/// payload is appended.
pub open spec fn record_private(s: Seq<PsBuilderView>, p: ParsedPrivateStream1PesPacket) -> Result<Seq<PsBuilderView>, Failure> {
    let (s2, i) = with_builder(s, p.substream_id, p.kind, p.lpcm_format);
    let b = s2[i];
    if b.kind != p.kind {
        Err(Failure::Rejected)
    } else {
        let format: Result<Option<ProgramStreamLpcmFormat>, Failure> = match p.lpcm_format {
            None => Ok(b.lpcm_format),
            Some(pf) => match b.lpcm_format {
                Some(ef) => if ef != pf { Err(Failure::Rejected) } else { Ok(Some(ef)) },
                None => Ok(Some(pf)),
            },
        };
        match format {
            Err(e) => Err(e),
            Ok(l) => {
                let b1 = PsBuilderView { lpcm_format: l, ..b };
                let b2 = if b.kind == ProgramStreamTrackKind::Lpcm || b.kind == ProgramStreamTrackKind::Subpicture {
                    PsBuilderView { sample_offsets: b1.sample_offsets.push(b1.total_size), ..b1 }
                } else {
                    b1
                };
                let b3: Result<PsBuilderView, Failure> = if b.kind == ProgramStreamTrackKind::Subpicture {
                    match p.presentation_time {
                        None => Err(Failure::Rejected),
                        Some(t) => Ok(PsBuilderView { sample_pts: b2.sample_pts.push(t), ..b2 }),
                    }
                } else {
                    Ok(b2)
                };
                match b3 {
                    Err(e) => Err(e),
                    Ok(b3) => match ps_appended(b3, p.payload_offset, p.payload_size) {
                        Err(e) => Err(e),
                        Ok(b4) => Ok(s2.update(i, b4)),
                    },
                }
            },
        }
    }
}

/// Files a private_stream_1 packet with its substream's builder.
pub fn record_private_stream_1_packet(builders: &mut Vec<ProgramStreamTrackBuilder>, spec: &str, parsed: ParsedPrivateStream1PesPacket) -> (r: Result<(), MuxError>)
    requires
        ids_increasing(ps_views(old(builders)@)),
    ensures
        match record_private(ps_views(old(builders)@), parsed) {
            Ok(s) => r is Ok && ps_views(final(builders)@) == s,
            Err(f) => r matches Err(e) && fails_as(e, f, spec@),
        },
        r is Ok ==> ids_increasing(ps_views(final(builders)@)),
{
    let i = builder_for(builders, parsed.substream_id, parsed.kind, parsed.lpcm_format);
    let ghost s2 = ps_views(builders@);
    let mut b = builders.remove(i);
    assert(b@ == s2[i as int]);
    if b.kind != parsed.kind {
        let message = String::from_str("program stream private_stream_1 substream 0x")
            .concat(hex_byte(parsed.substream_id).as_str())
            .concat(" changed carried media kind mid-stream");
        return Err(MuxError::UnsupportedTrackImport { spec: spec.to_owned(), message });
    }
    match parsed.lpcm_format {
        None => {},
        Some(pf) => match b.lpcm_format {
            Some(ef) => {
                if ef != pf {
                    let message = String::from_str("program stream LPCM substream 0x")
                        .concat(hex_byte(parsed.substream_id).as_str())
                        .concat(" changed audio format mid-stream");
                    return Err(MuxError::UnsupportedTrackImport { spec: spec.to_owned(), message });
                }
            },
            None => {
                b.lpcm_format = Some(pf);
            },
        },
    }
    if b.kind == ProgramStreamTrackKind::Lpcm || b.kind == ProgramStreamTrackKind::Subpicture {
        let at = b.total_size;
        b.sample_offsets.push(at);
    }
    if b.kind == ProgramStreamTrackKind::Subpicture {
        match parsed.presentation_time {
            None => return Err(import_error(spec, "program stream subpicture PES packets must carry presentation timestamps")),
            Some(t) => {
                b.sample_pts.push(t);
            },
        }
    }
    append_payload(&mut b, parsed.payload_offset, parsed.payload_size)?;
    let ghost nb = b@;
    builders.insert(i, b);
    proof {
        assert(ps_views(builders@) =~= s2.update(i as int, nb));
        assert forall|x: int, y: int| 0 <= x < y < builders@.len() implies ps_views(builders@)[x].stream_id < ps_views(builders@)[y].stream_id by {
            assert(ps_views(builders@)[x].stream_id == s2[x].stream_id);
            assert(ps_views(builders@)[y].stream_id == s2[y].stream_id);
        }
    }
    Ok(())
}

/// The builders after an MPEG audio (`C0`-`DF`) or video (`E0`-`EF`) PES packet: video packets
/// with a PTS start a sample there, with the DTS (or the PTS) as its decode time; the payload
/// is appended.
pub open spec fn record_pes(s: Seq<PsBuilderView>, id: u8, p: ParsedProgramStreamPesPacket) -> Result<Seq<PsBuilderView>, Failure> {
    let video = 0xE0 <= id;
    let kind = if video { ProgramStreamTrackKind::Video } else { ProgramStreamTrackKind::Mp3 };
    let (s2, i) = with_builder(s, id, kind, None);
    let b = s2[i];
    let b2 = match p.presentation_time {
        Some(t) => if video {
            PsBuilderView {
                sample_offsets: b.sample_offsets.push(b.total_size),
                sample_pts: b.sample_pts.push(t),
                sample_dts: b.sample_dts.push(match p.decode_time { Some(d) => d, None => t }),
                ..b
            }
        } else {
            b
        },
        None => b,
    };
    match ps_appended(b2, p.payload_offset, p.payload_size) {
        Err(e) => Err(e),
        Ok(b3) => Ok(s2.update(i, b3)),
    }
}

/// Files an MPEG audio or video PES packet with its stream's builder.
pub fn record_pes_packet(builders: &mut Vec<ProgramStreamTrackBuilder>, stream_id: u8, parsed: ParsedProgramStreamPesPacket) -> (r: Result<(), MuxError>)
    requires
        ids_increasing(ps_views(old(builders)@)),
    ensures
        match record_pes(ps_views(old(builders)@), stream_id, parsed) {
            Ok(s) => r is Ok && ps_views(final(builders)@) == s,
            Err(f) => r matches Err(e) && f == Failure::Overflow && e is LayoutOverflow,
        },
        r is Ok ==> ids_increasing(ps_views(final(builders)@)),
{
    let video = 0xE0 <= stream_id;
    let kind = if video { ProgramStreamTrackKind::Video } else { ProgramStreamTrackKind::Mp3 };
    let i = builder_for(builders, stream_id, kind, None);
    let ghost s2 = ps_views(builders@);
    let mut b = builders.remove(i);
    assert(b@ == s2[i as int]);
    if video {
        match parsed.presentation_time {
            Some(t) => {
                let at = b.total_size;
                b.sample_offsets.push(at);
                b.sample_pts.push(t);
                b.sample_dts.push(match parsed.decode_time { Some(d) => d, None => t });
            },
            None => {},
        }
    }
    append_payload(&mut b, parsed.payload_offset, parsed.payload_size)?;
    let ghost nb = b@;
    builders.insert(i, b);
    proof {
        assert(ps_views(builders@) =~= s2.update(i as int, nb));
        assert forall|x: int, y: int| 0 <= x < y < builders@.len() implies ps_views(builders@)[x].stream_id < ps_views(builders@)[y].stream_id by {
            assert(ps_views(builders@)[x].stream_id == s2[x].stream_id);
            assert(ps_views(builders@)[y].stream_id == s2[y].stream_id);
        }
    }
    Ok(())
}

// ---------------------------------------------------------------------------------------------
// The packet scan
// ---------------------------------------------------------------------------------------------

/// One packet of the scan at `off`: where the next packet starts and the builders after this
/// one, nothing at the program end code (`B9`), or the refusal of an unknown start code.
pub open spec fn ps_scan_step(f: Seq<u8>, off: int, s: Seq<PsBuilderView>) -> Result<Option<(int, Seq<PsBuilderView>)>, Failure> {
    match start_code_at(f, off) {
        Err(e) => Err(e),
        Ok(code) => if code == 0xBA {
            match pack_header_end(f, off) {
                Err(e) => Err(e),
                Ok(end) => Ok(Some((end, s))),
            }
        } else if code == 0xBB || code == 0xBC || code == 0xBE || code == 0xBF {
            match length_delimited_end(f, off) {
                Err(e) => Err(e),
                Ok(end) => Ok(Some((end, s))),
            }
        } else if code == 0xBD {
            match private_pes_packet(f, off, code) {
                Err(e) => Err(e),
                Ok(p) => match record_private(s, p) {
                    Err(e) => Err(e),
                    Ok(s2) => Ok(Some((p.packet_end as int, s2))),
                },
            }
        } else if 0xC0 <= code <= 0xEF {
            match pes_packet(f, off, code) {
                Err(e) => Err(e),
                Ok(p) => match record_pes(s, code, p) {
                    Err(e) => Err(e),
                    Ok(s2) => Ok(Some((p.packet_end as int, s2))),
                },
            }
        } else if code == 0xB9 {
            Ok(None)
        } else {
            Err(Failure::Rejected)
        },
    }
}

/// The builders after scanning packets from `off` to the end of the file or the program end
/// code. (Every packet ends after it starts, so the guard on `next` never applies.)
pub open spec fn ps_scan_from(f: Seq<u8>, off: int, s: Seq<PsBuilderView>) -> Result<Seq<PsBuilderView>, Failure>
    decreases f.len() - off,
{
    if off < 0 || off >= f.len() {
        Ok(s)
    } else {
        match ps_scan_step(f, off, s) {
            Err(e) => Err(e),
            Ok(None) => Ok(s),
            Ok(Some((next, s2))) => if next <= off { Err(Failure::Rejected) } else { ps_scan_from(f, next, s2) },
        }
    }
}

/// The elementary streams of a program stream held in memory, in stream-id order; a stream
/// with no supported payload is refused.
pub open spec fn ps_scan(f: Seq<u8>) -> Result<Seq<PsBuilderView>, Failure> {
    if !ps_header_ok(f) {
        Err(Failure::Rejected)
    } else {
        match ps_scan_from(f, 0, Seq::empty()) {
            Err(e) => Err(e),
            Ok(s) => if s.len() == 0 { Err(Failure::Rejected) } else { Ok(s) },
        }
    }
}

/// Reads the packet at `offset` and files what it carries.
#[verifier::rlimit(30)]
fn scan_packet(file: &[u8], offset: usize, builders: &mut Vec<ProgramStreamTrackBuilder>, spec: &str) -> (r: Result<Option<usize>, MuxError>)
    requires
        offset < file@.len(),
        ids_increasing(ps_views(old(builders)@)),
    ensures
        match ps_scan_step(file@, offset as int, ps_views(old(builders)@)) {
            Err(f) => r matches Err(e) && fails_as(e, f, spec@),
            Ok(None) => r matches Ok(None) && ps_views(final(builders)@) == ps_views(old(builders)@),
            Ok(Some((next, s2))) => r matches Ok(Some(k)) && k == next && ps_views(final(builders)@) == s2,
        },
        r matches Ok(Some(k)) ==> offset < k <= file@.len(),
        r is Ok ==> ids_increasing(ps_views(final(builders)@)),
{
    let n = file.len();
    let code = read_program_stream_start_code(file, offset, spec)?;
    if code == 0xBA {
        let end = parse_pack_header(file, offset, spec)?;
        Ok(Some(end))
    } else if code == 0xBB || code == 0xBC || code == 0xBE || code == 0xBF {
        let end = skip_length_delimited_ps_packet(file, offset, spec, code)?;
        Ok(Some(end))
    } else if code == 0xBD {
        let parsed = parse_private_stream_1_pes_packet(file, offset, spec, code)?;
        match record_private_stream_1_packet(builders, spec, parsed) {
            Ok(()) => Ok(Some(parsed.packet_end as usize)),
            Err(e) => Err(e),
        }
    } else if 0xC0 <= code && code <= 0xEF {
        let parsed = parse_pes_packet(file, offset, spec, code)?;
        match record_pes_packet(builders, code, parsed) {
            Ok(()) => Ok(Some(parsed.packet_end as usize)),
            Err(e) => Err(e),
        }
    } else if code == 0xB9 {
        Ok(None)
    } else {
        let message = String::from_str("unsupported MPEG program stream start code 0x")
            .concat(hex_byte(code).as_str())
            .concat(" on the native direct-ingest path");
        Err(MuxError::UnsupportedTrackImport { spec: spec.to_owned(), message })
    }
}

/// Scans a program stream held in memory: walks its packets, files each elementary stream's
/// payload runs and sample boundaries with its builder, and returns the builders in
/// stream-id order.
pub fn scan_program_stream_bytes(file: &[u8], spec: &str) -> (r: Result<Vec<ProgramStreamTrackBuilder>, MuxError>)
    ensures
        match ps_scan(file@) {
            Ok(s) => r matches Ok(v) && ps_views(v@) == s,
            Err(f) => r matches Err(e) && fails_as(e, f, spec@),
        },
        r matches Ok(v) ==> ids_increasing(ps_views(v@)),
{
    validate_program_stream_header(file, spec)?;
    let n = file.len();
    let mut builders: Vec<ProgramStreamTrackBuilder> = Vec::new();
    let mut offset: usize = 0;
    assert(ps_views(builders@) =~= Seq::<PsBuilderView>::empty());
    while offset < n
        invariant_except_break
            offset <= n,
            ps_scan_from(file@, 0, Seq::empty()) == ps_scan_from(file@, offset as int, ps_views(builders@)),
        invariant
            n == file@.len(),
            ps_header_ok(file@),
            ids_increasing(ps_views(builders@)),
        ensures
            ps_scan_from(file@, 0, Seq::empty()) == Ok::<Seq<PsBuilderView>, Failure>(ps_views(builders@)),
        decreases n - offset,
    {
        let ghost before = ps_views(builders@);
        match scan_packet(file, offset, &mut builders, spec) {
            Err(e) => {
                assert(ps_scan_step(file@, offset as int, before) is Err);
                assert(ps_scan_from(file@, offset as int, before) == match ps_scan_step(file@, offset as int, before) {
                    Err(x) => Err::<Seq<PsBuilderView>, Failure>(x),
                    _ => Ok(before),
                });
                assert(ps_scan(file@) == ps_scan_from(file@, offset as int, before));
                return Err(e);
            },
            Ok(None) => break,
            Ok(Some(next)) => {
                offset = next;
            },
        }
    }
    if builders.len() == 0 {
        return Err(import_error(spec, "program stream input did not contain any supported MPEG audio, AC-3, LPCM, VobSub-style subpicture, or MPEG-2/MPEG-4 Part 2/H.264/H.265/VVC video payloads"));
    }
    Ok(builders)
}

// ---------------------------------------------------------------------------------------------
// What every builder keeps
// ---------------------------------------------------------------------------------------------

/// The bytes of payload runs.
pub open spec fn segments_total(segs: Seq<FileRangeSegment>) -> int
    decreases segs.len(),
{
    if segs.len() == 0 { 0 } else { segments_total(segs.drop_last()) + segs.last().size }
}

/// A builder's size is the sum of its payload runs, its sample boundaries lie inside its
/// payload in order, and every boundary of a video or subpicture stream has its presentation
/// time (and, for video, its decode time).
pub open spec fn builder_consistent(b: PsBuilderView) -> bool {
    &&& b.total_size == segments_total(b.segments)
    &&& forall|i: int, j: int| 0 <= i <= j < b.sample_offsets.len() ==> b.sample_offsets[i] <= b.sample_offsets[j]
    &&& forall|i: int| 0 <= i < b.sample_offsets.len() ==> b.sample_offsets[i] <= b.total_size
    &&& b.kind == ProgramStreamTrackKind::Video ==> b.sample_pts.len() == b.sample_offsets.len() && b.sample_dts.len() == b.sample_offsets.len()
    &&& b.kind == ProgramStreamTrackKind::Subpicture ==> b.sample_pts.len() == b.sample_offsets.len()
}

/// Every builder is consistent.
pub open spec fn builders_consistent(s: Seq<PsBuilderView>) -> bool {
    forall|i: int| 0 <= i < s.len() ==> builder_consistent(#[trigger] s[i])
}

proof fn lemma_with_builder_consistent(s: Seq<PsBuilderView>, id: u8, kind: ProgramStreamTrackKind, lpcm: Option<ProgramStreamLpcmFormat>)
    requires
        builders_consistent(s),
    ensures
        builders_consistent(with_builder(s, id, kind, lpcm).0),
        0 <= with_builder(s, id, kind, lpcm).1 < with_builder(s, id, kind, lpcm).0.len(),
{
    lemma_id_position(s, id, 0);
    let p = id_position(s, id, 0);
    if !(p < s.len() && s[p].stream_id == id) {
        let t = fresh_builder(id, kind, lpcm);
        assert(segments_total(t.segments) == 0);
        let s2 = s.insert(p, t);
        assert forall|i: int| 0 <= i < s2.len() implies builder_consistent(#[trigger] s2[i]) by {
            if i < p {
                assert(s2[i] == s[i]);
            } else if i > p {
                assert(s2[i] == s[i - 1]);
            }
        }
    }
}

proof fn lemma_appended_consistent(b: PsBuilderView, offset: u64, size: u32)
    requires
        builder_consistent(b),
    ensures
        ps_appended(b, offset, size) matches Ok(b2) ==> builder_consistent(b2),
{
    if let Ok(b2) = ps_appended(b, offset, size) {
        assert(b2.segments.drop_last() =~= b.segments);
    }
}

proof fn lemma_record_private_consistent(s: Seq<PsBuilderView>, p: ParsedPrivateStream1PesPacket)
    requires
        builders_consistent(s),
    ensures
        record_private(s, p) matches Ok(s3) ==> builders_consistent(s3),
{
    lemma_with_builder_consistent(s, p.substream_id, p.kind, p.lpcm_format);
    let (s2, i) = with_builder(s, p.substream_id, p.kind, p.lpcm_format);
    let b = s2[i];
    assert(builder_consistent(b));
    if let Ok(s3) = record_private(s, p) {
        let l = match p.lpcm_format {
            None => b.lpcm_format,
            Some(pf) => match b.lpcm_format { Some(ef) => Some(ef), None => Some(pf) },
        };
        let b1 = PsBuilderView { lpcm_format: l, ..b };
        let b2 = if b.kind == ProgramStreamTrackKind::Lpcm || b.kind == ProgramStreamTrackKind::Subpicture {
            PsBuilderView { sample_offsets: b1.sample_offsets.push(b1.total_size), ..b1 }
        } else {
            b1
        };
        let b3 = if b.kind == ProgramStreamTrackKind::Subpicture {
            PsBuilderView { sample_pts: b2.sample_pts.push(p.presentation_time.unwrap()), ..b2 }
        } else {
            b2
        };
        assert(builder_consistent(b3));
        lemma_appended_consistent(b3, p.payload_offset, p.payload_size);
        let b4 = ps_appended(b3, p.payload_offset, p.payload_size).unwrap();
        assert(s3 == s2.update(i, b4));
        assert forall|k: int| 0 <= k < s3.len() implies builder_consistent(#[trigger] s3[k]) by {
            if k != i {
                assert(s3[k] == s2[k]);
            }
        }
    }
}

proof fn lemma_record_pes_consistent(s: Seq<PsBuilderView>, id: u8, p: ParsedProgramStreamPesPacket)
    requires
        builders_consistent(s),
    ensures
        record_pes(s, id, p) matches Ok(s3) ==> builders_consistent(s3),
{
    let video = 0xE0 <= id;
    let kind = if video { ProgramStreamTrackKind::Video } else { ProgramStreamTrackKind::Mp3 };
    lemma_with_builder_consistent(s, id, kind, None);
    let (s2, i) = with_builder(s, id, kind, None);
    let b = s2[i];
    assert(builder_consistent(b));
    if let Ok(s3) = record_pes(s, id, p) {
        let b2 = match p.presentation_time {
            Some(t) => if video {
                PsBuilderView {
                    sample_offsets: b.sample_offsets.push(b.total_size),
                    sample_pts: b.sample_pts.push(t),
                    sample_dts: b.sample_dts.push(match p.decode_time { Some(d) => d, None => t }),
                    ..b
                }
            } else {
                b
            },
            None => b,
        };
        assert(builder_consistent(b2));
        lemma_appended_consistent(b2, p.payload_offset, p.payload_size);
        let b3 = ps_appended(b2, p.payload_offset, p.payload_size).unwrap();
        assert(s3 == s2.update(i, b3));
        assert forall|k: int| 0 <= k < s3.len() implies builder_consistent(#[trigger] s3[k]) by {
            if k != i {
                assert(s3[k] == s2[k]);
            }
        }
    }
}

proof fn lemma_scan_from_consistent(f: Seq<u8>, off: int, s: Seq<PsBuilderView>)
    requires
        builders_consistent(s),
    ensures
        ps_scan_from(f, off, s) matches Ok(s2) ==> builders_consistent(s2),
    decreases f.len() - off,
{
    if 0 <= off < f.len() {
        match start_code_at(f, off) {
            Err(_) => {},
            Ok(code) => {
                if code == 0xBD {
                    if let Ok(p) = private_pes_packet(f, off, code) {
                        lemma_record_private_consistent(s, p);
                    }
                } else if 0xC0 <= code <= 0xEF {
                    if let Ok(p) = pes_packet(f, off, code) {
                        lemma_record_pes_consistent(s, code, p);
                    }
                }
            },
        }
        if let Ok(Some((next, s2))) = ps_scan_step(f, off, s) {
            if next > off {
                lemma_scan_from_consistent(f, next, s2);
            }
        }
    }
}

/// Whatever a program stream holds, each elementary stream gathered from it is consistent:
/// its size is the sum of its payload runs, its sample boundaries lie inside its payload in
/// order, and each video or subpicture boundary carries its timestamps.
pub proof fn lemma_program_stream_builders_consistent(f: Seq<u8>, builders: Seq<PsBuilderView>)
    requires
        ps_scan(f) == Ok::<Seq<PsBuilderView>, Failure>(builders),
    ensures
        builders_consistent(builders),
{
    lemma_scan_from_consistent(f, 0, Seq::empty());
}

} // verus!
