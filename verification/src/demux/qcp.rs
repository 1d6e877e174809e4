use vstd::prelude::*;
use crate::error::{Failure, MuxError, fails_as, import_error, overflow};
use crate::mp4::{audio_entry_payload, encode_audio_sample_entry, encode_raw_box, four_cc, spec_box, zeros};
use crate::sample::StagedSample;

verus! {

/// The speech codecs a QCP file can carry.
#[derive(Clone, Copy, Debug, PartialEq, Eq, Structural)]
pub enum QcpCodecKind {
    Qcelp,
    Evrc,
    Smv,
}

/// The sample entry type of each codec: `sqcp`, `sevc`, `ssmv`.
pub open spec fn qcp_entry_type(kind: QcpCodecKind) -> Seq<u8> {
    match kind {
        QcpCodecKind::Qcelp => seq![0x73u8, 0x71u8, 0x63u8, 0x70u8],
        QcpCodecKind::Evrc => seq![0x73u8, 0x65u8, 0x76u8, 0x63u8],
        QcpCodecKind::Smv => seq![0x73u8, 0x73u8, 0x6Du8, 0x76u8],
    }
}

/// The configuration box type of each codec: `dqcp`, `devc`, `dsmv`.
pub open spec fn qcp_config_type(kind: QcpCodecKind) -> Seq<u8> {
    match kind {
        QcpCodecKind::Qcelp => seq![0x64u8, 0x71u8, 0x63u8, 0x70u8],
        QcpCodecKind::Evrc => seq![0x64u8, 0x65u8, 0x76u8, 0x63u8],
        QcpCodecKind::Smv => seq![0x64u8, 0x73u8, 0x6Du8, 0x76u8],
    }
}

impl QcpCodecKind {
    /// The handler label of the codec.
    pub fn handler_label(self) -> (r: &'static str)
        ensures
            self == QcpCodecKind::Qcelp ==> r@ == "qcelp"@,
            self == QcpCodecKind::Evrc ==> r@ == "evrc"@,
            self == QcpCodecKind::Smv ==> r@ == "smv"@,
    {
        match self {
            QcpCodecKind::Qcelp => "qcelp",
            QcpCodecKind::Evrc => "evrc",
            QcpCodecKind::Smv => "smv",
        }
    }

    /// The sample entry type of the codec.
    pub fn sample_entry_type(self) -> (r: [u8; 4])
        ensures
            r@ == qcp_entry_type(self),
    {
        match self {
            QcpCodecKind::Qcelp => four_cc(0x73, 0x71, 0x63, 0x70),
            QcpCodecKind::Evrc => four_cc(0x73, 0x65, 0x76, 0x63),
            QcpCodecKind::Smv => four_cc(0x73, 0x73, 0x6D, 0x76),
        }
    }
}

/// One rate-table entry: a variable-rate index and the payload size it announces.
#[derive(Clone, Copy, Debug, PartialEq, Eq)]
pub struct QcpRateEntry {
    pub packet_size: u8,
    pub rate_index: u8,
}

/// The format of a QCP file: codec, rates, packetization and where the packets are.
#[derive(Clone, Copy, Debug)]
pub struct ParsedQcpFormat {
    pub codec_kind: QcpCodecKind,
    pub sample_rate: u32,
    pub block_size: u32,
    pub packet_size: u32,
    pub vrat_rate_flag: u32,
    pub rate_table_count: usize,
    pub rate_table: [QcpRateEntry; 8],
    pub data_offset: u64,
    pub data_size: u32,
}

/// The fields of a [`ParsedQcpFormat`] as values.
pub struct QcpFormatView {
    pub codec_kind: QcpCodecKind,
    pub sample_rate: u32,
    pub block_size: u32,
    pub packet_size: u32,
    pub vrat_rate_flag: u32,
    pub rate_table_count: nat,
    pub rate_table: Seq<QcpRateEntry>,
    pub data_offset: u64,
    pub data_size: u32,
}

impl View for ParsedQcpFormat {
    type V = QcpFormatView;

    open spec fn view(&self) -> QcpFormatView {
        QcpFormatView {
            codec_kind: self.codec_kind,
            sample_rate: self.sample_rate,
            block_size: self.block_size,
            packet_size: self.packet_size,
            vrat_rate_flag: self.vrat_rate_flag,
            rate_table_count: self.rate_table_count as nat,
            rate_table: self.rate_table@,
            data_offset: self.data_offset,
            data_size: self.data_size,
        }
    }
}

/// An import rejection naming the QCP input.
pub fn qcp_error(spec: &str, message: &str) -> (e: MuxError)
    ensures
        fails_as(e, Failure::Rejected, spec@),
{
    import_error(spec, message)
}

/// The codec a format GUID names.
pub open spec fn guid_kind(g: Seq<u8>) -> Option<QcpCodecKind> {
    let tail = seq![0x15u8, 0xB1, 0xD0, 0x11, 0xBA, 0x91, 0x00, 0x80, 0x5F, 0xB4, 0xB9, 0x7E];
    if g == seq![0x41u8, 0x6D, 0x7F, 0x5E] + tail || g == seq![0x42u8, 0x6D, 0x7F, 0x5E] + tail {
        Some(QcpCodecKind::Qcelp)
    } else if g == seq![0x8Du8, 0xD4, 0x89, 0xE6, 0x76, 0x90, 0xB5, 0x46, 0x91, 0xEF, 0x73, 0x6A, 0x51, 0x00, 0xCE, 0xB4] {
        Some(QcpCodecKind::Evrc)
    } else if g == seq![0x75u8, 0x2B, 0x7C, 0x8D, 0x97, 0xA7, 0x46, 0xED, 0x98, 0x5E, 0xD5, 0x3C, 0x8C, 0xC7, 0x5F, 0x84] {
        Some(QcpCodecKind::Smv)
    } else {
        None
    }
}

/// Recognizes the codec GUID of a `fmt ` chunk.
pub fn parse_qcp_codec_kind(guid: [u8; 16], spec: &str) -> (r: Result<QcpCodecKind, MuxError>)
    ensures
        match guid_kind(guid@) {
            Some(k) => r == Ok::<QcpCodecKind, MuxError>(k),
            None => r matches Err(e) && fails_as(e, Failure::Rejected, spec@),
        },
{
    let qcelp1: [u8; 16] = [0x41, 0x6D, 0x7F, 0x5E, 0x15, 0xB1, 0xD0, 0x11, 0xBA, 0x91, 0x00, 0x80, 0x5F, 0xB4, 0xB9, 0x7E];
    let qcelp2: [u8; 16] = [0x42, 0x6D, 0x7F, 0x5E, 0x15, 0xB1, 0xD0, 0x11, 0xBA, 0x91, 0x00, 0x80, 0x5F, 0xB4, 0xB9, 0x7E];
    let evrc: [u8; 16] = [0x8D, 0xD4, 0x89, 0xE6, 0x76, 0x90, 0xB5, 0x46, 0x91, 0xEF, 0x73, 0x6A, 0x51, 0x00, 0xCE, 0xB4];
    let smv: [u8; 16] = [0x75, 0x2B, 0x7C, 0x8D, 0x97, 0xA7, 0x46, 0xED, 0x98, 0x5E, 0xD5, 0x3C, 0x8C, 0xC7, 0x5F, 0x84];
    let ghost tail = seq![0x15u8, 0xB1, 0xD0, 0x11, 0xBA, 0x91, 0x00, 0x80, 0x5F, 0xB4, 0xB9, 0x7E];
    assert(qcelp1@ =~= seq![0x41u8, 0x6D, 0x7F, 0x5E] + tail);
    assert(qcelp2@ =~= seq![0x42u8, 0x6D, 0x7F, 0x5E] + tail);
    if crate::text::bytes_eq(&guid, &qcelp1) || crate::text::bytes_eq(&guid, &qcelp2) {
        Ok(QcpCodecKind::Qcelp)
    } else if crate::text::bytes_eq(&guid, &evrc) {
        Ok(QcpCodecKind::Evrc)
    } else if crate::text::bytes_eq(&guid, &smv) {
        Ok(QcpCodecKind::Smv)
    } else {
        Err(qcp_error(spec, "QCP input carried an unsupported codec GUID"))
    }
}

/// The little-endian 16-bit value at `i`.
pub open spec fn le16(p: Seq<u8>, i: int) -> int {
    p[i] + 256 * p[i + 1]
}

/// The little-endian 32-bit value at `i`.
pub open spec fn le32(p: Seq<u8>, i: int) -> int {
    p[i] + 256 * p[i + 1] + 65536 * p[i + 2] + 16777216 * p[i + 3]
}

/// The format a `fmt ` chunk payload declares.
pub open spec fn format_of(p: Seq<u8>) -> Result<QcpFormatView, Failure> {
    if p.len() < 150 {
        Err(Failure::Rejected)
    } else {
        match guid_kind(p.subrange(2, 18)) {
            None => Err(Failure::Rejected),
            Some(kind) => if le16(p, 104) == 0 || le16(p, 106) == 0 || le32(p, 110) > 8 {
                Err(Failure::Rejected)
            } else {
                Ok(QcpFormatView {
                    codec_kind: kind,
                    sample_rate: le16(p, 106) as u32,
                    block_size: le16(p, 104) as u32,
                    packet_size: le16(p, 102) as u32,
                    vrat_rate_flag: 0,
                    rate_table_count: le32(p, 110) as nat,
                    rate_table: Seq::new(8, |i: int| QcpRateEntry { packet_size: p[114 + 2 * i], rate_index: p[115 + 2 * i] }),
                    data_offset: 0,
                    data_size: 0,
                })
            },
        }
    }
}

/// Parses the payload of a `fmt ` chunk.
pub fn parse_qcp_format_payload(payload: &[u8], spec: &str) -> (r: Result<ParsedQcpFormat, MuxError>)
    ensures
        match format_of(payload@) {
            Ok(f) => r matches Ok(g) && g@ == f,
            Err(x) => r matches Err(e) && fails_as(e, x, spec@),
        },
        r matches Ok(g) ==> g.rate_table_count <= 8 && g.sample_rate <= 0xFFFF,
{
    if payload.len() < 150 {
        return Err(qcp_error(spec, "QCP fmt chunk was smaller than the required 150 bytes"));
    }
    let mut guid: [u8; 16] = [0u8; 16];
    let mut i: usize = 0;
    while i < 16
        invariant
            payload@.len() >= 150,
            i <= 16,
            forall|j: int| 0 <= j < i ==> guid@[j] == payload@[2 + j],
        decreases 16 - i,
    {
        guid[i] = payload[2 + i];
        i = i + 1;
    }
    assert(guid@ =~= payload@.subrange(2, 18));
    let codec_kind = parse_qcp_codec_kind(guid, spec)?;
    let packet_size = payload[102] as u32 + 256 * payload[103] as u32;
    let block_size = payload[104] as u32 + 256 * payload[105] as u32;
    let sample_rate = payload[106] as u32 + 256 * payload[107] as u32;
    if block_size == 0 {
        return Err(qcp_error(spec, "QCP fmt chunk declared a zero samples-per-packet block size"));
    }
    if sample_rate == 0 {
        return Err(qcp_error(spec, "QCP fmt chunk declared a zero sample rate"));
    }
    let count = payload[110] as u64 + 256 * payload[111] as u64 + 65536 * payload[112] as u64 + 16777216 * payload[113] as u64;
    if count > 8 {
        return Err(qcp_error(spec, "QCP fmt chunk declared more than eight rate-table entries"));
    }
    let mut rate_table: [QcpRateEntry; 8] = [QcpRateEntry { packet_size: 0, rate_index: 0 }; 8];
    let mut k: usize = 0;
    while k < 8
        invariant
            payload@.len() >= 150,
            k <= 8,
            forall|j: int| 0 <= j < k ==> rate_table@[j] == (QcpRateEntry { packet_size: payload@[114 + 2 * j], rate_index: payload@[115 + 2 * j] }),
        decreases 8 - k,
    {
        rate_table[k] = QcpRateEntry { packet_size: payload[114 + k * 2], rate_index: payload[115 + k * 2] };
        k = k + 1;
    }
    let f = ParsedQcpFormat {
        codec_kind,
        sample_rate,
        block_size,
        packet_size,
        vrat_rate_flag: 0,
        rate_table_count: count as usize,
        rate_table,
        data_offset: 0,
        data_size: 0,
    };
    assert(f@.rate_table =~= format_of(payload@).unwrap().rate_table);
    Ok(f)
}

/// What the chunks found give: the format with its rate flag and data chunk, when all three
/// are present and consistent.
pub open spec fn qcp_finalize(fmt: Option<QcpFormatView>, vrat: Option<u32>, data: Option<(u64, u32)>) -> Result<QcpFormatView, Failure> {
    match (fmt, vrat, data) {
        (Some(f), Some(v), Some((off, size))) => if size == 0 || (v != 0 && f.rate_table_count == 0) || (v == 0 && f.packet_size == 0) {
            Err(Failure::Rejected)
        } else {
            Ok(QcpFormatView { vrat_rate_flag: v, data_offset: off, data_size: size, ..f })
        },
        _ => Err(Failure::Rejected),
    }
}

/// Completes the format with the rate flag and data chunk found.
pub fn finalize_qcp_format(spec: &str, format: Option<ParsedQcpFormat>, vrat_rate_flag: Option<u32>, data_chunk: Option<(u64, u32)>) -> (r: Result<ParsedQcpFormat, MuxError>)
    ensures
        match qcp_finalize(match format { Some(f) => Some(f@), None => None }, vrat_rate_flag, data_chunk) {
            Ok(f) => r matches Ok(g) && g@ == f,
            Err(x) => r matches Err(e) && fails_as(e, x, spec@),
        },
        r matches Ok(g) ==> (format matches Some(f) && g.rate_table_count == f.rate_table_count && g.sample_rate == f.sample_rate),
{
    let mut format = match format {
        Some(f) => f,
        None => return Err(qcp_error(spec, "QCP input did not carry a fmt chunk")),
    };
    let vrat = match vrat_rate_flag {
        Some(v) => v,
        None => return Err(qcp_error(spec, "QCP input did not carry a vrat chunk")),
    };
    let (data_offset, data_size) = match data_chunk {
        Some(d) => d,
        None => return Err(qcp_error(spec, "QCP input did not carry a data chunk")),
    };
    if data_size == 0 {
        return Err(qcp_error(spec, "QCP data chunk did not contain any codec packets"));
    }
    if vrat != 0 && format.rate_table_count == 0 {
        return Err(qcp_error(spec, "QCP input marked variable-rate packets but did not carry any usable rate-table entries"));
    }
    if vrat == 0 && format.packet_size == 0 {
        return Err(qcp_error(spec, "QCP input marked constant-rate packets but declared a zero packet size"));
    }
    format.vrat_rate_flag = vrat;
    format.data_offset = data_offset;
    format.data_size = data_size;
    Ok(format)
}

/// The first rate-table entry among the first `count` with this rate index.
pub open spec fn rate_entry_from(table: Seq<QcpRateEntry>, count: int, rate_index: u8, i: int) -> Option<QcpRateEntry>
    decreases count - i,
{
    if i < 0 || i >= count || i >= table.len() {
        None
    } else if table[i].rate_index == rate_index {
        Some(table[i])
    } else {
        rate_entry_from(table, count, rate_index, i + 1)
    }
}

/// The size of a variable-rate packet: its rate byte plus the payload size its rate index
/// announces.
pub open spec fn variable_packet_size(f: QcpFormatView, rate_index: u8) -> Option<u32> {
    match rate_entry_from(f.rate_table, f.rate_table_count as int, rate_index, 0) {
        None => None,
        Some(e) => if e.packet_size == 0 { None } else { Some((e.packet_size + 1) as u32) },
    }
}

/// Looks up the size of a variable-rate packet from its rate index.
pub fn resolve_qcp_variable_packet_size(format: ParsedQcpFormat, rate_index: u8, spec: &str) -> (r: Result<u32, MuxError>)
    requires
        format.rate_table_count <= 8,
    ensures
        match variable_packet_size(format@, rate_index) {
            Some(s) => r == Ok::<u32, MuxError>(s),
            None => r matches Err(e) && fails_as(e, Failure::Rejected, spec@),
        },
{
    let mut i: usize = 0;
    while i < format.rate_table_count
        invariant
            format.rate_table_count <= 8,
            i <= format.rate_table_count,
            rate_entry_from(format@.rate_table, format.rate_table_count as int, rate_index, 0)
                == rate_entry_from(format@.rate_table, format.rate_table_count as int, rate_index, i as int),
        decreases format.rate_table_count - i,
    {
        let entry = format.rate_table[i];
        if entry.rate_index == rate_index {
            if entry.packet_size == 0 {
                return Err(qcp_error(spec, "QCP input used a variable-rate index whose table entry declared a zero payload size"));
            }
            return Ok(entry.packet_size as u32 + 1);
        }
        i = i + 1;
    }
    Err(qcp_error(spec, "QCP input used an unknown variable-rate index"))
}

/// A `RIFF` header of form `QLCM` whose declared size fits the file.
pub open spec fn qcp_header_ok(h: Seq<u8>, file_size: u64) -> bool {
    h.subrange(0, 4) == seq![0x52u8, 0x49, 0x46, 0x46] && h.subrange(8, 12) == seq![0x51u8, 0x4C, 0x43, 0x4D]
        && le32(h, 4) + 8 <= file_size
}

/// Checks the 12-byte RIFF/QLCM file header against the file size.
pub fn validate_qcp_file_header_bytes(header: &[u8; 12], file_size: u64, spec: &str) -> (r: Result<(), MuxError>)
    ensures
        r is Ok <==> qcp_header_ok(header@, file_size),
        r matches Err(e) ==> fails_as(e, Failure::Rejected, spec@),
{
    if !(header[0] == 0x52 && header[1] == 0x49 && header[2] == 0x46 && header[3] == 0x46
        && header[8] == 0x51 && header[9] == 0x4C && header[10] == 0x43 && header[11] == 0x4D) {
        assert(!(header@.subrange(0, 4) == seq![0x52u8, 0x49, 0x46, 0x46] && header@.subrange(8, 12) == seq![0x51u8, 0x4C, 0x43, 0x4D])) by {
            if header@.subrange(0, 4) == seq![0x52u8, 0x49, 0x46, 0x46] && header@.subrange(8, 12) == seq![0x51u8, 0x4C, 0x43, 0x4D] {
                assert(header@.subrange(0, 4)[0] == header@[0]);
                assert(header@.subrange(0, 4)[1] == header@[1]);
                assert(header@.subrange(0, 4)[2] == header@[2]);
                assert(header@.subrange(0, 4)[3] == header@[3]);
                assert(header@.subrange(8, 12)[0] == header@[8]);
                assert(header@.subrange(8, 12)[1] == header@[9]);
                assert(header@.subrange(8, 12)[2] == header@[10]);
                assert(header@.subrange(8, 12)[3] == header@[11]);
            }
        }
        return Err(qcp_error(spec, "QCP input did not start with a RIFF or QLCM header"));
    }
    assert(header@.subrange(0, 4) =~= seq![0x52u8, 0x49, 0x46, 0x46]);
    assert(header@.subrange(8, 12) =~= seq![0x51u8, 0x4C, 0x43, 0x4D]);
    let declared = header[4] as u64 + 256 * header[5] as u64 + 65536 * header[6] as u64 + 16777216 * header[7] as u64;
    if declared + 8 > file_size {
        return Err(qcp_error(spec, "QCP input declared a RIFF payload size larger than the file itself"));
    }
    Ok(())
}

/// The codec configuration box: zero vendor, decoder version 0, one frame per sample.
pub open spec fn qcp_config_box(kind: QcpCodecKind) -> Seq<u8> {
    spec_box(qcp_config_type(kind), zeros(4) + seq![0u8, 1u8])
}

/// The QCP audio sample entry: one 16-bit channel at the format's rate.
pub open spec fn qcp_sample_entry(f: QcpFormatView) -> Seq<u8> {
    spec_box(qcp_entry_type(f.codec_kind), audio_entry_payload(zeros(4), 1, 16, (f.sample_rate * 65536) as u32, qcp_config_box(f.codec_kind)))
}

/// Builds the codec's audio sample entry with its configuration box.
pub fn build_qcp_sample_entry_box(format: ParsedQcpFormat) -> (r: Vec<u8>)
    requires
        format.sample_rate <= 0xFFFF,
    ensures
        r@ == qcp_sample_entry(format@),
{
    let config_type = match format.codec_kind {
        QcpCodecKind::Qcelp => four_cc(0x64, 0x71, 0x63, 0x70),
        QcpCodecKind::Evrc => four_cc(0x64, 0x65, 0x76, 0x63),
        QcpCodecKind::Smv => four_cc(0x64, 0x73, 0x6D, 0x76),
    };
    let payload: [u8; 6] = [0, 0, 0, 0, 0, 1];
    assert(payload@ =~= zeros(4) + seq![0u8, 1u8]);
    let config = match encode_raw_box(config_type, &payload) {
        Ok(b) => b,
        Err(_) => {
            assert(false);
            Vec::new()
        },
    };
    match encode_audio_sample_entry(format.codec_kind.sample_entry_type(), four_cc(0, 0, 0, 0), 1, 16, format.sample_rate * 65536, config.as_slice()) {
        Ok(b) => {
            assert(seq![0u8, 0u8, 0u8, 0u8] =~= zeros(4));
            b
        },
        Err(_) => {
            assert(false);
            Vec::new()
        },
    }
}


/// The chunks of a QCP file from `off` on, collecting the `fmt ` format, the `vrat` rate flag
/// and the `data` chunk; a chunk must fit inside the file and each of the three may appear once.
pub open spec fn qcp_chunks_from(f: Seq<u8>, off: int, fmt: Option<QcpFormatView>, vrat: Option<u32>, data: Option<(u64, u32)>) -> Result<QcpFormatView, Failure>
    decreases f.len() - off,
{
    if off < 0 || off >= f.len() {
        qcp_finalize(fmt, vrat, data)
    } else if f.len() - off < 8 {
        Err(Failure::Rejected)
    } else {
        let size = le32(f, off + 4);
        let start = off + 8;
        let end = start + size + size % 2;
        let tag = f.subrange(off, off + 4);
        if end > u64::MAX {
            Err(Failure::Overflow)
        } else if end > f.len() {
            Err(Failure::Rejected)
        } else if tag == seq![0x66u8, 0x6D, 0x74, 0x20] {
            if fmt is Some {
                Err(Failure::Rejected)
            } else {
                match format_of(f.subrange(start, start + size)) {
                    Err(x) => Err(x),
                    Ok(v) => qcp_chunks_from(f, end, Some(v), vrat, data),
                }
            }
        } else if tag == seq![0x76u8, 0x72, 0x61, 0x74] {
            if vrat is Some || size < 8 { Err(Failure::Rejected) } else { qcp_chunks_from(f, end, fmt, Some(le32(f, start) as u32), data) }
        } else if tag == seq![0x64u8, 0x61, 0x74, 0x61] {
            if data is Some { Err(Failure::Rejected) } else { qcp_chunks_from(f, end, fmt, vrat, Some((start as u64, size as u32))) }
        } else {
            qcp_chunks_from(f, end, fmt, vrat, data)
        }
    }
}

/// The format of a whole QCP file.
pub open spec fn qcp_container(f: Seq<u8>) -> Result<QcpFormatView, Failure> {
    if f.len() < 12 || !qcp_header_ok(f.subrange(0, 12), f.len() as u64) {
        Err(Failure::Rejected)
    } else {
        qcp_chunks_from(f, 12, None, None, None)
    }
}

/// The four bytes at `i` equal `a b c d`.
fn tag_is(f: &[u8], i: usize, a: u8, b: u8, c: u8, d: u8) -> (r: bool)
    requires
        i + 4 <= f@.len(),
    ensures
        r == (f@.subrange(i as int, i + 4) == seq![a, b, c, d]),
{
    let r = f[i] == a && f[i + 1] == b && f[i + 2] == c && f[i + 3] == d;
    proof {
        let t = f@.subrange(i as int, i + 4);
        if r {
            assert(t =~= seq![a, b, c, d]);
        } else if t == seq![a, b, c, d] {
            assert(t[0] == f@[i as int] && t[1] == f@[i + 1] && t[2] == f@[i + 2] && t[3] == f@[i + 3]);
        }
    }
    r
}

/// Parses the header and chunks of a QCP file held in memory.
pub fn parse_qcp_container(file: &[u8], spec: &str) -> (r: Result<ParsedQcpFormat, MuxError>)
    ensures
        match qcp_container(file@) {
            Ok(v) => r matches Ok(g) && g@ == v,
            Err(x) => r matches Err(e) && fails_as(e, x, spec@),
        },
        r matches Ok(g) ==> g.rate_table_count <= 8 && g.sample_rate <= 0xFFFF,
{
    let n = file.len();
    if n < 12 {
        return Err(qcp_error(spec, "QCP input is truncated before the RIFF or QLCM header"));
    }
    let mut header: [u8; 12] = [0u8; 12];
    let mut i: usize = 0;
    while i < 12
        invariant
            file@.len() >= 12,
            i <= 12,
            forall|j: int| 0 <= j < i ==> header@[j] == file@[j],
        decreases 12 - i,
    {
        header[i] = file[i];
        i = i + 1;
    }
    assert(header@ =~= file@.subrange(0, 12));
    validate_qcp_file_header_bytes(&header, n as u64, spec)?;
    let mut off: usize = 12;
    let mut fmt: Option<ParsedQcpFormat> = None;
    let mut vrat: Option<u32> = None;
    let mut data: Option<(u64, u32)> = None;
    while off < n
        invariant
            n == file@.len(),
            12 <= off,
            qcp_container(file@) == qcp_chunks_from(file@, off as int, match fmt { Some(x) => Some(x@), None => None }, vrat, data),
            fmt matches Some(x) ==> x.rate_table_count <= 8 && x.sample_rate <= 0xFFFF,
        decreases n - off,
    {
        if n - off < 8 {
            return Err(qcp_error(spec, "QCP input is truncated before a complete chunk header"));
        }
        let size = file[off + 4] as u64 + 256 * file[off + 5] as u64 + 65536 * file[off + 6] as u64 + 16777216 * file[off + 7] as u64;
        let start = off + 8;
        let padded = size + size % 2;
        if start as u64 > u64::MAX - padded {
            return Err(overflow("QCP chunk end"));
        }
        if padded > (n - start) as u64 {
            return Err(qcp_error(spec, "QCP chunk payload extends past the end of the file"));
        }
        let end = start + padded as usize;
        if tag_is(file, off, 0x66, 0x6D, 0x74, 0x20) {
            if fmt.is_some() {
                return Err(qcp_error(spec, "QCP input carried more than one fmt chunk"));
            }
            let payload: &[u8] = &file[start..start + size as usize];
            let parsed = parse_qcp_format_payload(payload, spec)?;
            fmt = Some(parsed);
        } else if tag_is(file, off, 0x76, 0x72, 0x61, 0x74) {
            if vrat.is_some() {
                return Err(qcp_error(spec, "QCP input carried more than one vrat chunk"));
            }
            if size < 8 {
                return Err(qcp_error(spec, "QCP vrat chunk was smaller than eight bytes"));
            }
            vrat = Some((file[start] as u64 + 256 * file[start + 1] as u64 + 65536 * file[start + 2] as u64 + 16777216 * file[start + 3] as u64) as u32);
        } else if tag_is(file, off, 0x64, 0x61, 0x74, 0x61) {
            if data.is_some() {
                return Err(qcp_error(spec, "QCP input carried more than one data chunk"));
            }
            data = Some((start as u64, size as u32));
        }
        off = end;
    }
    finalize_qcp_format(spec, fmt, vrat, data)
}

/// The packets of the data chunk from `off` with `remaining` bytes left, appended to `acc`:
/// each is one constant-size packet, or for variable-rate data the size its first (rate)
/// byte announces.
pub open spec fn qcp_packets_from(fmt: QcpFormatView, f: Seq<u8>, off: int, remaining: int, acc: Seq<StagedSample>) -> Result<Seq<StagedSample>, Failure>
    decreases remaining,
{
    if remaining <= 0 {
        if acc.len() == 0 { Err(Failure::Rejected) } else { Ok(acc) }
    } else {
        let size: Option<u32> = if fmt.vrat_rate_flag != 0 {
            if off < 0 || off >= f.len() { None } else { variable_packet_size(fmt, f[off]) }
        } else {
            Some(fmt.packet_size)
        };
        match size {
            None => Err(Failure::Rejected),
            Some(s) => if s == 0 || s > remaining {
                Err(Failure::Rejected)
            } else if off + s > u64::MAX {
                Err(Failure::Overflow)
            } else {
                qcp_packets_from(fmt, f, off + s, remaining - s, acc.push(StagedSample {
                    data_offset: off as u64,
                    data_size: s,
                    duration: fmt.block_size,
                    composition_time_offset: 0,
                    is_sync_sample: true,
                }))
            },
        }
    }
}

/// The packets `v` lie back to back, the first at `start` and the last ending at `end`.
pub open spec fn packets_tile(v: Seq<StagedSample>, start: int, end: int) -> bool {
    &&& v.len() > 0
    &&& v[0].data_offset == start
    &&& forall|i: int| 0 <= i < v.len() - 1 ==> #[trigger] v[i].data_offset + v[i].data_size == v[i + 1].data_offset
    &&& v.last().data_offset + v.last().data_size == end
}

proof fn lemma_qcp_packets_tile(fmt: QcpFormatView, f: Seq<u8>, start: int, off: int, remaining: int, acc: Seq<StagedSample>)
    requires
        (acc.len() == 0 && off == start) || packets_tile(acc, start, off),
        0 <= off,
    ensures
        qcp_packets_from(fmt, f, off, remaining, acc) matches Ok(v) ==> packets_tile(v, start, off + if remaining > 0 { remaining } else { 0 })
            && forall|i: int| 0 <= i < v.len() ==> #[trigger] v[i].duration == fmt.block_size || i < acc.len(),
        qcp_packets_from(fmt, f, off, remaining, acc) matches Ok(v) ==> v.len() >= acc.len() && v.subrange(0, acc.len() as int) == acc,
    decreases remaining,
{
    if remaining <= 0 {
        assert(acc.subrange(0, acc.len() as int) =~= acc);
    } else {
        let size: Option<u32> = if fmt.vrat_rate_flag != 0 {
            if off < 0 || off >= f.len() { None } else { variable_packet_size(fmt, f[off]) }
        } else {
            Some(fmt.packet_size)
        };
        match size {
            None => {},
            Some(s) => if s == 0 || s > remaining || off + s > u64::MAX {
            } else {
                let next = acc.push(StagedSample {
                    data_offset: off as u64,
                    data_size: s,
                    duration: fmt.block_size,
                    composition_time_offset: 0,
                    is_sync_sample: true,
                });
                assert(packets_tile(next, start, off + s)) by {
                    if acc.len() > 0 {
                        assert forall|i: int| 0 <= i < next.len() - 1 implies #[trigger] next[i].data_offset + next[i].data_size == next[i + 1].data_offset by {
                            if i < acc.len() - 1 {
                                assert(next[i] == acc[i] && next[i + 1] == acc[i + 1]);
                            } else {
                                assert(next[i] == acc.last());
                            }
                        }
                    }
                }
                lemma_qcp_packets_tile(fmt, f, start, off + s, remaining - s, next);
                match qcp_packets_from(fmt, f, off, remaining, acc) {
                    Ok(v) => {
                        assert(v.subrange(0, next.len() as int) == next);
                        assert(v.subrange(0, acc.len() as int) =~= next.subrange(0, acc.len() as int));
                        assert(next.subrange(0, acc.len() as int) =~= acc);
                        assert forall|i: int| 0 <= i < v.len() implies #[trigger] v[i].duration == fmt.block_size || i < acc.len() by {
                            if i == acc.len() {
                                assert(v[i] == v.subrange(0, next.len() as int)[i]);
                            }
                        }
                    },
                    Err(_) => {},
                }
            },
        }
    }
}

/// The packets split off a data chunk cover it exactly: the first starts at the chunk's
/// payload, each starts where the one before it ends, the last ends at the chunk's end, and
/// each lasts one codec block.
pub proof fn lemma_qcp_packets_cover_data_chunk(fmt: QcpFormatView, f: Seq<u8>, packets: Seq<StagedSample>)
    requires
        qcp_packets_from(fmt, f, fmt.data_offset as int, fmt.data_size as int, Seq::empty()) == Ok::<Seq<StagedSample>, Failure>(packets),
    ensures
        packets_tile(packets, fmt.data_offset as int, fmt.data_offset + fmt.data_size),
        forall|i: int| 0 <= i < packets.len() ==> (#[trigger] packets[i]).duration == fmt.block_size,
{
    lemma_qcp_packets_tile(fmt, f, fmt.data_offset as int, fmt.data_offset as int, fmt.data_size as int, Seq::empty());
}

/// Splits the data chunk of a QCP file held in memory into codec packets.
pub fn parse_qcp_samples(format: ParsedQcpFormat, file: &[u8], spec: &str) -> (r: Result<Vec<StagedSample>, MuxError>)
    requires
        format.rate_table_count <= 8,
    ensures
        match qcp_packets_from(format@, file@, format.data_offset as int, format.data_size as int, Seq::empty()) {
            Ok(v) => r matches Ok(s) && s@ == v,
            Err(x) => r matches Err(e) && fails_as(e, x, spec@),
        },
{
    let mut samples: Vec<StagedSample> = Vec::new();
    let mut offset: u64 = format.data_offset;
    let mut remaining: u64 = format.data_size as u64;
    while remaining > 0
        invariant
            format.rate_table_count <= 8,
            qcp_packets_from(format@, file@, format.data_offset as int, format.data_size as int, Seq::empty())
                == qcp_packets_from(format@, file@, offset as int, remaining as int, samples@),
        decreases remaining,
    {
        let packet_size = if format.vrat_rate_flag != 0 {
            if offset >= file.len() as u64 {
                return Err(qcp_error(spec, "truncated QCP variable-rate packet header"));
            }
            resolve_qcp_variable_packet_size(format, file[offset as usize], spec)?
        } else {
            format.packet_size
        };
        if packet_size == 0 {
            return Err(qcp_error(spec, "QCP packet parser produced a zero packet size"));
        }
        if packet_size as u64 > remaining {
            return Err(qcp_error(spec, "QCP data chunk ended in the middle of a codec packet"));
        }
        samples.push(StagedSample {
            data_offset: offset,
            data_size: packet_size,
            duration: format.block_size,
            composition_time_offset: 0,
            is_sync_sample: true,
        });
        if offset > u64::MAX - packet_size as u64 {
            return Err(overflow("QCP packet offset"));
        }
        offset = offset + packet_size as u64;
        remaining = remaining - packet_size as u64;
    }
    if samples.len() == 0 {
        return Err(qcp_error(spec, "QCP data chunk did not contain any codec packets"));
    }
    Ok(samples)
}


/// A QCP file as one audio track.
pub struct ParsedQcpTrack {
    pub sample_rate: u32,
    pub sample_entry_box: Vec<u8>,
    pub samples: Vec<StagedSample>,
    pub handler_label: &'static str,
}

/// Parses a QCP file held in memory into its track: format, packets and sample entry.
pub fn parse_qcp_track(file: &[u8], spec: &str) -> (r: Result<ParsedQcpTrack, MuxError>)
    ensures
        match qcp_container(file@) {
            Err(x) => r matches Err(e) && fails_as(e, x, spec@),
            Ok(f) => match qcp_packets_from(f, file@, f.data_offset as int, f.data_size as int, Seq::empty()) {
                Err(x) => r matches Err(e) && fails_as(e, x, spec@),
                Ok(s) => r matches Ok(t) && t.sample_rate == f.sample_rate && t.sample_entry_box@ == qcp_sample_entry(f)
                    && t.samples@ == s,
            },
        },
{
    let format = parse_qcp_container(file, spec)?;
    let samples = parse_qcp_samples(format, file, spec)?;
    Ok(ParsedQcpTrack {
        sample_rate: format.sample_rate,
        sample_entry_box: build_qcp_sample_entry_box(format),
        samples,
        handler_label: format.codec_kind.handler_label(),
    })
}

} // verus!
