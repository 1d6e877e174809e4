use vstd::prelude::*;
use crate::error::{Failure, MuxError, fails_as, import_error, is_import_error, overflow};

verus! {

/// The elementary streams that the transport-stream importer carries.
#[derive(Clone, Copy, Debug, PartialEq, Eq, Structural)]
pub enum TransportTrackKind {
    Mp3,
    Aac,
    Latm,
    Mhas,
    Ac3,
    Truehd,
    Eac3,
    Ac4,
    Dts,
    Mpeg2v,
    Av1,
    Avs3,
    Mp4v,
    H264,
    H265,
    Vvc,
    DvbSubtitle,
    DvbTeletext,
}

/// The first DVB subtitling service declared for a stream.
#[derive(Clone, Copy, Debug, PartialEq, Eq)]
pub struct DvbSubtitleConfig {
    pub language: [u8; 3],
    pub composition_page_id: u16,
    pub ancillary_page_id: u16,
    pub subtitle_type: u8,
}

/// A private-data stream that a PMT descriptor identified.
#[derive(Clone, Copy, Debug, PartialEq, Eq)]
pub struct TransportPrivateDataTrack {
    pub kind: TransportTrackKind,
    pub language: [u8; 3],
    pub dvb_subtitle: Option<DvbSubtitleConfig>,
}

/// Where a PES packet's payload starts and the PTS it carries, if any.
#[derive(Clone, Copy, Debug, PartialEq, Eq)]
pub struct ParsedTransportPesHeader {
    pub payload_offset: usize,
    pub pts_90k: Option<u64>,
}

/// Whether a PES stream id is one the track kind is carried under.
pub open spec fn stream_id_accepted(kind: TransportTrackKind, id: u8) -> bool {
    match kind {
        TransportTrackKind::Mp3 | TransportTrackKind::Aac | TransportTrackKind::Latm | TransportTrackKind::Mhas => 0xC0 <= id <= 0xDF,
        TransportTrackKind::Ac3 | TransportTrackKind::Truehd | TransportTrackKind::Eac3 | TransportTrackKind::Ac4
        | TransportTrackKind::Dts => id == 0xBD,
        TransportTrackKind::DvbSubtitle | TransportTrackKind::DvbTeletext => id == 0xBD,
        _ => 0xE0 <= id <= 0xEF,
    }
}

/// The 33-bit timestamp of a five-byte PES PTS/DTS field.
pub open spec fn pes_timestamp_value(b: Seq<u8>) -> u64 {
    ((b[0] as int / 2 % 8) * 0x4000_0000 + (b[1] as int) * 0x40_0000 + (b[2] as int / 2) * 0x8000
        + (b[3] as int) * 0x80 + (b[4] as int / 2)) as u64
}

/// The three marker bits of a PES timestamp field are set.
pub open spec fn pes_timestamp_markers(b: Seq<u8>) -> bool {
    b[0] % 2 == 1 && b[2] % 2 == 1 && b[4] % 2 == 1
}

/// Reads a PES PTS/DTS field.
pub fn parse_ts_pes_timestamp(spec: &str, encoded: &[u8]) -> (r: Result<u64, MuxError>)
    ensures
        encoded@.len() >= 5 && pes_timestamp_markers(encoded@) ==> r == Ok::<u64, MuxError>(pes_timestamp_value(encoded@)),
        !(encoded@.len() >= 5 && pes_timestamp_markers(encoded@)) ==> (r matches Err(e) && is_import_error(e, spec@)),
{
    if encoded.len() < 5 {
        return Err(import_error(spec, "transport-stream PES timestamp is truncated"));
    }
    if encoded[0] % 2 == 0 || encoded[2] % 2 == 0 || encoded[4] % 2 == 0 {
        return Err(import_error(spec, "transport-stream PES timestamp marker bits were invalid"));
    }
    Ok(((encoded[0] / 2 % 8) as u64) * 0x4000_0000 + (encoded[1] as u64) * 0x40_0000 + ((encoded[2] / 2) as u64) * 0x8000
        + (encoded[3] as u64) * 0x80 + ((encoded[4] / 2) as u64))
}

/// The parsed PES header of a payload-unit start for a track of `kind`, or a rejection.
pub open spec fn pes_header_outcome(payload: Seq<u8>, kind: TransportTrackKind) -> Result<ParsedTransportPesHeader, Failure> {
    if payload.len() < 9 {
        Err(Failure::Rejected)
    } else if !(payload[0] == 0 && payload[1] == 0 && payload[2] == 1) {
        Err(Failure::Rejected)
    } else if !stream_id_accepted(kind, payload[3]) {
        Err(Failure::Rejected)
    } else if payload[6] / 64 != 2 {
        Err(Failure::Rejected)
    } else {
        let flags = payload[7] / 64;
        let header_length = payload[8] as int;
        let payload_offset = 9 + header_length;
        if payload_offset > payload.len() {
            Err(Failure::Rejected)
        } else if flags == 0 {
            Ok(ParsedTransportPesHeader { payload_offset: payload_offset as usize, pts_90k: None })
        } else if flags == 1 {
            Err(Failure::Rejected)
        } else if header_length < 5 || !pes_timestamp_markers(payload.subrange(9, 14)) {
            Err(Failure::Rejected)
        } else {
            Ok(ParsedTransportPesHeader {
                payload_offset: payload_offset as usize,
                pts_90k: Some(pes_timestamp_value(payload.subrange(9, 14))),
            })
        }
    }
}

/// Parses the PES header at a payload-unit start.
pub fn parse_ts_pes_header(spec: &str, payload: &[u8], kind: TransportTrackKind) -> (r: Result<ParsedTransportPesHeader, MuxError>)
    ensures
        match pes_header_outcome(payload@, kind) {
            Ok(h) => r == Ok::<ParsedTransportPesHeader, MuxError>(h),
            Err(f) => r matches Err(e) && fails_as(e, f, spec@),
        },
{
    if payload.len() < 9 {
        return Err(import_error(spec, "truncated transport-stream PES header"));
    }
    if !(payload[0] == 0 && payload[1] == 0 && payload[2] == 1) {
        return Err(import_error(spec, "transport-stream payload-unit start did not begin with a PES start code"));
    }
    let id = payload[3];
    match kind {
        TransportTrackKind::Mp3 | TransportTrackKind::Aac | TransportTrackKind::Latm | TransportTrackKind::Mhas => {
            if !(0xC0 <= id && id <= 0xDF) {
                return Err(import_error(spec, "transport-stream PES stream id is not a supported MPEG audio stream"));
            }
        },
        TransportTrackKind::Ac3 | TransportTrackKind::Truehd | TransportTrackKind::Eac3 | TransportTrackKind::Ac4
        | TransportTrackKind::Dts => {
            if id != 0xBD {
                return Err(import_error(spec, "transport-stream PES stream id is not a supported private audio stream"));
            }
        },
        TransportTrackKind::Mpeg2v | TransportTrackKind::Av1 | TransportTrackKind::Avs3 | TransportTrackKind::Mp4v => {
            if !(0xE0 <= id && id <= 0xEF) {
                return Err(import_error(spec, "transport-stream PES stream id is not a supported MPEG video stream"));
            }
        },
        TransportTrackKind::H264 | TransportTrackKind::H265 | TransportTrackKind::Vvc => {
            if !(0xE0 <= id && id <= 0xEF) {
                return Err(import_error(spec, "transport-stream PES stream id is not a supported video stream"));
            }
        },
        TransportTrackKind::DvbSubtitle | TransportTrackKind::DvbTeletext => {
            if id != 0xBD {
                return Err(import_error(spec, "transport-stream PES stream id is not a supported private subtitle or teletext stream"));
            }
        },
    }
    if payload[6] / 64 != 2 {
        return Err(import_error(spec, "unsupported transport-stream PES header flags"));
    }
    let flags = payload[7] / 64;
    let header_length = payload[8] as usize;
    let payload_offset = 9 + header_length;
    if payload_offset > payload.len() {
        return Err(import_error(spec, "truncated transport-stream PES optional header"));
    }
    if flags == 0 {
        return Ok(ParsedTransportPesHeader { payload_offset, pts_90k: None });
    }
    if flags == 1 {
        return Err(import_error(spec, "transport-stream PES header used a reserved PTS/DTS flag state"));
    }
    if header_length < 5 {
        return Err(import_error(spec, "transport-stream PES header declared timestamps without enough header bytes"));
    }
    let field = &payload[9..14];
    match parse_ts_pes_timestamp(spec, field) {
        Ok(pts) => Ok(ParsedTransportPesHeader { payload_offset, pts_90k: Some(pts) }),
        Err(e) => Err(e),
    }
}

/// One step of the MPEG-2 section CRC: shift out the top bit, folding in the polynomial.
pub open spec fn crc_bit_step(crc: u32) -> u32 {
    if crc & 0x8000_0000 != 0 { (crc << 1u32) ^ 0x04C1_1DB7 } else { crc << 1u32 }
}

/// `n` CRC bit steps.
pub open spec fn crc_bits(crc: u32, n: nat) -> u32
    decreases n,
{
    if n == 0 { crc } else { crc_bit_step(crc_bits(crc, (n - 1) as nat)) }
}

/// The MPEG-2 section CRC-32 (polynomial 0x04C11DB7, initial value all ones, no reflection, no
/// final XOR) of `data`.
pub open spec fn mpeg2ts_crc(data: Seq<u8>) -> u32
    decreases data.len(),
{
    if data.len() == 0 {
        0xFFFF_FFFF
    } else {
        crc_bits(mpeg2ts_crc(data.drop_last()) ^ ((data.last() as u32) << 24u32), 8)
    }
}

/// Computes the MPEG-2 section CRC-32 of `data`.
pub fn mpeg2ts_section_crc32(data: &[u8]) -> (r: u32)
    ensures
        r == mpeg2ts_crc(data@),
{
    let mut crc: u32 = 0xFFFF_FFFF;
    let mut i: usize = 0;
    while i < data.len()
        invariant
            i <= data@.len(),
            crc == mpeg2ts_crc(data@.take(i as int)),
        decreases data.len() - i,
    {
        assert(data@.take(i + 1).drop_last() == data@.take(i as int));
        let start = crc ^ ((data[i] as u32) << 24u32);
        crc = start;
        let mut k: u32 = 0;
        while k < 8
            invariant
                k <= 8,
                crc == crc_bits(start, k as nat),
            decreases 8 - k,
        {
            crc = if crc & 0x8000_0000 != 0 { (crc << 1u32) ^ 0x04C1_1DB7 } else { crc << 1u32 };
            k = k + 1;
        }
        i = i + 1;
    }
    assert(data@.take(data@.len() as int) == data@);
    crc
}

/// The big-endian value of four bytes.
pub open spec fn be32_value(b: Seq<u8>) -> int {
    (b[0] as int) * 0x100_0000 + (b[1] as int) * 0x1_0000 + (b[2] as int) * 0x100 + (b[3] as int)
}

/// A PSI section passes its CRC check: at least four bytes, the last four holding the CRC of
/// the rest.
pub open spec fn section_crc_ok(section: Seq<u8>) -> bool {
    section.len() >= 4 && mpeg2ts_crc(section.take(section.len() - 4)) == be32_value(section.skip(section.len() - 4))
}

/// Checks the CRC-32 that ends a PSI section.
pub fn validate_transport_section_crc(spec: &str, table_name: &str, section: &[u8]) -> (r: Result<(), MuxError>)
    ensures
        section_crc_ok(section@) ==> r is Ok,
        !section_crc_ok(section@) ==> (r matches Err(e) && is_import_error(e, spec@)),
{
    if section.len() < 4 {
        let message = String::from_str("truncated ").concat(table_name).concat(" CRC32 field");
        return Err(MuxError::UnsupportedTrackImport { spec: spec.to_owned(), message });
    }
    let crc_offset = section.len() - 4;
    let expected = (section[crc_offset] as u32) * 0x100_0000 + (section[crc_offset + 1] as u32) * 0x1_0000
        + (section[crc_offset + 2] as u32) * 0x100 + (section[crc_offset + 3] as u32);
    let actual = mpeg2ts_section_crc32(&section[0..crc_offset]);
    assert(section@.subrange(0, crc_offset as int) == section@.take(crc_offset as int));
    if actual != expected {
        let message = String::from_str(table_name).concat(" section failed CRC32 validation");
        return Err(MuxError::UnsupportedTrackImport { spec: spec.to_owned(), message });
    }
    Ok(())
}

/// The four big-endian bytes of a CRC value, as a section carries it.
pub open spec fn crc_bytes(c: u32) -> Seq<u8> {
    seq![(c >> 24u32) as u8, (c >> 16u32) as u8, (c >> 8u32) as u8, c as u8]
}

/// One CRC bit step is linear over exclusive-or.
proof fn lemma_crc_step_xor(u: u32, v: u32)
    ensures
        crc_bit_step(u ^ v) == crc_bit_step(u) ^ crc_bit_step(v),
{
    assert(crc_bit_step(u ^ v) == crc_bit_step(u) ^ crc_bit_step(v)) by (bit_vector);
}

/// Any number of CRC bit steps is linear over exclusive-or.
proof fn lemma_crc_bits_xor(u: u32, v: u32, n: nat)
    ensures
        crc_bits(u ^ v, n) == crc_bits(u, n) ^ crc_bits(v, n),
    decreases n,
{
    if n > 0 {
        lemma_crc_bits_xor(u, v, (n - 1) as nat);
        lemma_crc_step_xor(crc_bits(u, (n - 1) as nat), crc_bits(v, (n - 1) as nat));
    }
}

/// CRC bit steps never turn a non-zero register into zero.
proof fn lemma_crc_bits_nonzero(u: u32, n: nat)
    requires
        u != 0,
    ensures
        crc_bits(u, n) != 0,
    decreases n,
{
    if n > 0 {
        lemma_crc_bits_nonzero(u, (n - 1) as nat);
        let w = crc_bits(u, (n - 1) as nat);
        assert(w != 0 ==> crc_bit_step(w) != 0) by (bit_vector);
    }
}

/// While the top byte of the register is clear, the first eight bit steps only shift it.
proof fn lemma_crc_bits_shift(x: u32, k: u32)
    requires
        x < 0x100_0000,
        k <= 8,
    ensures
        crc_bits(x, k as nat) == x << k,
    decreases k,
{
    if k == 0 {
        assert(x << 0u32 == x) by (bit_vector);
    } else {
        lemma_crc_bits_shift(x, (k - 1) as u32);
        let j = (k - 1) as u32;
        assert(x < 0x100_0000 && j < 8 ==> crc_bit_step(x << j) == x << (j + 1)) by (bit_vector);
    }
}

/// Feeding the register's own top byte clears it: eight steps then shift the register left
/// by a byte.
proof fn lemma_crc_own_top_byte(c: u32)
    ensures
        crc_bits(c ^ ((((c >> 24u32) as u8) as u32) << 24u32), 8) == c << 8u32,
{
    let x = c ^ ((((c >> 24u32) as u8) as u32) << 24u32);
    assert(x < 0x100_0000 && x << 8u32 == c << 8u32) by (bit_vector)
        requires
            x == c ^ ((((c >> 24u32) as u8) as u32) << 24u32);
    lemma_crc_bits_shift(x, 8);
}

/// A section made of some data and the CRC of that data passes the check, and the CRC over the
/// whole section, its own CRC included, is zero.
pub proof fn lemma_section_with_own_crc_passes(data: Seq<u8>)
    ensures
        section_crc_ok(data + crc_bytes(mpeg2ts_crc(data))),
        mpeg2ts_crc(data + crc_bytes(mpeg2ts_crc(data))) == 0,
{
    let c = mpeg2ts_crc(data);
    let b = crc_bytes(c);
    let section = data + b;
    assert(section.take(section.len() - 4) =~= data);
    assert(section.skip(section.len() - 4) =~= b);
    assert(((c >> 24u32) as u8) as u32 * 0x100_0000 + ((c >> 16u32) as u8) as u32 * 0x1_0000
        + ((c >> 8u32) as u8) as u32 * 0x100 + (c as u8) as u32 == c) by (bit_vector);
    let s1 = data.push(b[0]);
    let s2 = s1.push(b[1]);
    let s3 = s2.push(b[2]);
    let s4 = s3.push(b[3]);
    assert(s4 =~= section);
    assert(s1.drop_last() =~= data);
    assert(s2.drop_last() =~= s1);
    assert(s3.drop_last() =~= s2);
    assert(s4.drop_last() =~= s3);
    let c1 = c << 8u32;
    let c2 = c1 << 8u32;
    let c3 = c2 << 8u32;
    lemma_crc_own_top_byte(c);
    assert(mpeg2ts_crc(s1) == c1);
    assert((c >> 16u32) as u8 == (c1 >> 24u32) as u8) by (bit_vector)
        requires
            c1 == c << 8u32;
    lemma_crc_own_top_byte(c1);
    assert(mpeg2ts_crc(s2) == c2);
    assert((c >> 8u32) as u8 == (c2 >> 24u32) as u8) by (bit_vector)
        requires
            c1 == c << 8u32,
            c2 == c1 << 8u32;
    lemma_crc_own_top_byte(c2);
    assert(mpeg2ts_crc(s3) == c3);
    assert(c as u8 == (c3 >> 24u32) as u8 && c3 << 8u32 == 0) by (bit_vector)
        requires
            c1 == c << 8u32,
            c2 == c1 << 8u32,
            c3 == c2 << 8u32;
    lemma_crc_own_top_byte(c3);
    assert(mpeg2ts_crc(s4) == 0);
}

/// Two inputs of one length that differ in exactly the byte at `k` have CRC registers that
/// differ after every prefix reaching past `k`.
proof fn lemma_crc_prefixes_differ(a: Seq<u8>, b: Seq<u8>, k: int, n: int)
    requires
        a.len() == b.len(),
        0 <= k < n <= a.len(),
        a[k] != b[k],
        forall|i: int| 0 <= i < a.len() && i != k ==> a[i] == b[i],
    ensures
        mpeg2ts_crc(a.take(n)) != mpeg2ts_crc(b.take(n)),
    decreases n,
{
    let an = a.take(n);
    let bn = b.take(n);
    assert(an.drop_last() =~= a.take(n - 1));
    assert(bn.drop_last() =~= b.take(n - 1));
    let ca = mpeg2ts_crc(a.take(n - 1));
    let cb = mpeg2ts_crc(b.take(n - 1));
    let xa = (a[n - 1] as u32) << 24u32;
    let xb = (b[n - 1] as u32) << 24u32;
    lemma_crc_bits_xor(ca ^ xa, cb ^ xb, 8);
    if n - 1 == k {
        assert(a.take(n - 1) =~= b.take(n - 1));
        let x = a[k];
        let y = b[k];
        assert(x != y ==> ((x as u32) << 24u32) ^ ((y as u32) << 24u32) != 0) by (bit_vector);
        assert((ca ^ xa) ^ (cb ^ xb) == xa ^ xb) by (bit_vector)
            requires
                ca == cb;
        lemma_crc_bits_nonzero(xa ^ xb, 8);
    } else {
        lemma_crc_prefixes_differ(a, b, k, n - 1);
        assert((ca ^ xa) ^ (cb ^ xb) == ca ^ cb) by (bit_vector)
            requires
                xa == xb;
        assert(ca != cb ==> ca ^ cb != 0) by (bit_vector);
        lemma_crc_bits_nonzero(ca ^ cb, 8);
    }
    let ra = crc_bits(ca ^ xa, 8);
    let rb = crc_bits(cb ^ xb, 8);
    assert(ra ^ rb != 0 ==> ra != rb) by (bit_vector);
}

/// Flipping any single bit of a section that passes its CRC check makes it fail: a flip in
/// the data changes the CRC of the data, and a flip in the CRC field changes the value it
/// holds.
pub proof fn lemma_section_crc_detects_bit_flip(section: Seq<u8>, k: int, bit: u8)
    requires
        section_crc_ok(section),
        0 <= k < section.len(),
        bit < 8,
    ensures
        !section_crc_ok(section.update(k, section[k] ^ (1u8 << bit))),
{
    let x = section[k];
    let y = x ^ (1u8 << bit);
    assert(bit < 8 ==> x ^ (1u8 << bit) != x) by (bit_vector);
    let flipped = section.update(k, y);
    let n = section.len() - 4;
    if k < n {
        let a = section.take(n);
        let b = flipped.take(n);
        assert(flipped.skip(n) =~= section.skip(n));
        lemma_crc_prefixes_differ(a, b, k, n);
        assert(a.take(n) =~= a);
        assert(b.take(n) =~= b);
    } else {
        assert(flipped.take(n) =~= section.take(n));
        let t = section.skip(n);
        let u = flipped.skip(n);
        assert(u =~= t.update(k - n, y));
    }
}

/// The 12-bit length field of a PSI section header at `start`.
pub open spec fn section_length_at(payload: Seq<u8>, start: int) -> int {
    (payload[start + 1] as int % 16) * 256 + payload[start + 2] as int
}

/// The first PAT entry at or after `e` (before `end`) with a non-zero program number: its
/// program map PID.
pub open spec fn first_program_pid(payload: Seq<u8>, e: int, end: int) -> Option<u16>
    decreases end - e,
{
    if e + 4 > end {
        None
    } else if (payload[e] as int) * 256 + payload[e + 1] as int != 0 {
        Some(((payload[e + 2] as int % 32) * 256 + payload[e + 3] as int) as u16)
    } else {
        first_program_pid(payload, e + 4, end)
    }
}

/// The outcome of parsing a PAT payload: the PMT PID of the first program, or nothing.
pub open spec fn pat_outcome(payload: Seq<u8>) -> Result<Option<u16>, Failure> {
    if payload.len() == 0 {
        Ok(None)
    } else {
        let start = 1 + payload[0] as int;
        if payload.len() < start + 8 {
            Err(Failure::Rejected)
        } else if payload[start] != 0 {
            Err(Failure::Rejected)
        } else {
            let length = section_length_at(payload, start);
            if payload.len() < start + 3 + length {
                Err(Failure::Rejected)
            } else if !section_crc_ok(payload.subrange(start, start + 3 + length)) {
                Err(Failure::Rejected)
            } else {
                Ok(first_program_pid(payload, start + 8, start + 3 + length - 4))
            }
        }
    }
}

/// Parses a PAT section and returns the PMT PID of its first program.
pub fn parse_pat_section(spec: &str, payload: &[u8]) -> (r: Result<Option<u16>, MuxError>)
    ensures
        match pat_outcome(payload@) {
            Ok(v) => r == Ok::<Option<u16>, MuxError>(v),
            Err(f) => r matches Err(e) && fails_as(e, f, spec@),
        },
{
    if payload.len() == 0 {
        return Ok(None);
    }
    let start = 1 + payload[0] as usize;
    if payload.len() < start + 8 {
        return Err(import_error(spec, "truncated PAT section"));
    }
    if payload[start] != 0 {
        return Err(import_error(spec, "unsupported PAT table id"));
    }
    let length = (payload[start + 1] % 16) as usize * 256 + payload[start + 2] as usize;
    if payload.len() < start + 3 + length {
        return Err(import_error(spec, "truncated PAT payload"));
    }
    match validate_transport_section_crc(spec, "PAT", &payload[start..start + 3 + length]) {
        Err(e) => return Err(e),
        Ok(()) => {},
    }
    let section_end = start + 3 + length - 4;
    let mut e = start + 8;
    while e <= section_end && section_end - e >= 4
        invariant
            section_end + 4 <= payload@.len(),
            pat_outcome(payload@) == Ok::<Option<u16>, Failure>(first_program_pid(payload@, e as int, section_end as int)),
        decreases section_end - e,
    {
        if (payload[e] as u16) * 256 + payload[e + 1] as u16 != 0 {
            return Ok(Some((payload[e + 2] % 32) as u16 * 256 + payload[e + 3] as u16));
        }
        e = e + 4;
    }
    Ok(None)
}

/// The outcome of reading the PCR of a packet's adaptation field: nothing when the packet has
/// no adaptation field, an empty one, or no PCR; otherwise the discontinuity indicator and
/// the 27 MHz PCR.
pub open spec fn pcr_outcome(packet: Seq<u8>) -> Result<Option<(bool, u64)>, Failure> {
    let control = packet[3] as int / 16 % 4;
    let length = packet[4] as int;
    if control != 2 && control != 3 {
        Ok(None)
    } else if length == 0 {
        Ok(None)
    } else if 5 + length > 188 {
        Err(Failure::Rejected)
    } else if packet[5] as int / 16 % 2 == 0 {
        Ok(None)
    } else if length < 7 {
        Err(Failure::Rejected)
    } else {
        let base = (packet[6] as int) * 0x200_0000 + (packet[7] as int) * 0x2_0000 + (packet[8] as int) * 0x200
            + (packet[9] as int) * 2 + packet[10] as int / 128;
        let extension = (packet[10] as int % 2) * 256 + packet[11] as int;
        Ok(Some((packet[5] >= 128, (base * 300 + extension) as u64)))
    }
}

/// Reads the PCR carried in a packet's adaptation field.
pub fn parse_transport_packet_pcr(spec: &str, packet: &[u8; 188]) -> (r: Result<Option<(bool, u64)>, MuxError>)
    ensures
        match pcr_outcome(packet@) {
            Ok(v) => r == Ok::<Option<(bool, u64)>, MuxError>(v),
            Err(f) => r matches Err(e) && fails_as(e, f, spec@),
        },
{
    let control = packet[3] / 16 % 4;
    if control != 2 && control != 3 {
        return Ok(None);
    }
    let length = packet[4] as usize;
    if length == 0 {
        return Ok(None);
    }
    if 5 + length > 188 {
        return Err(import_error(spec, "transport-stream adaptation field overflowed the packet payload"));
    }
    let flags = packet[5];
    if flags / 16 % 2 == 0 {
        return Ok(None);
    }
    if length < 7 {
        return Err(import_error(spec, "transport-stream adaptation field carried a truncated PCR payload"));
    }
    let base = (packet[6] as u64) * 0x200_0000 + (packet[7] as u64) * 0x2_0000 + (packet[8] as u64) * 0x200
        + (packet[9] as u64) * 2 + (packet[10] / 128) as u64;
    let extension = (packet[10] % 2) as u64 * 256 + packet[11] as u64;
    Ok(Some((flags >= 128, base * 300 + extension)))
}

/// Walks the descriptor loop `es` from offset `o`, feeding each descriptor's tag and payload
/// to `step`; a descriptor header or payload that runs past the loop is rejected.
pub open spec fn descriptor_scan<S>(es: Seq<u8>, o: int, st: S, step: spec_fn(S, u8, Seq<u8>) -> Result<S, Failure>) -> Result<S, Failure>
    decreases es.len() - o,
{
    if o < 0 || o >= es.len() {
        Ok(st)
    } else if es.len() - o < 2 {
        Err(Failure::Rejected)
    } else {
        let end = o + 2 + es[o + 1] as int;
        if end > es.len() {
            Err(Failure::Rejected)
        } else {
            match step(st, es[o], es.subrange(o + 2, end)) {
                Err(f) => Err(f),
                Ok(next) => descriptor_scan(es, end, next, step),
            }
        }
    }
}

/// The four ASCII bytes `a b c d`.
pub open spec fn tag4(a: u8, b: u8, c: u8, d: u8) -> Seq<u8> {
    seq![a, b, c, d]
}

/// The private-data track a registration descriptor declares: DTS for "DTS1"-"DTS3", AC-4
/// for "AC-4".
pub open spec fn registration_track(payload: Seq<u8>) -> Option<TransportPrivateDataTrack> {
    if payload.len() < 4 {
        None
    } else {
        let r = payload.take(4);
        if r == tag4(0x44, 0x54, 0x53, 0x31) || r == tag4(0x44, 0x54, 0x53, 0x32) || r == tag4(0x44, 0x54, 0x53, 0x33) {
            Some(TransportPrivateDataTrack { kind: TransportTrackKind::Dts, language: [0x75u8, 0x6E, 0x64], dvb_subtitle: None })
        } else if r == tag4(0x41, 0x43, 0x2D, 0x34) {
            Some(TransportPrivateDataTrack { kind: TransportTrackKind::Ac4, language: [0x75u8, 0x6E, 0x64], dvb_subtitle: None })
        } else {
            None
        }
    }
}

/// Whether the first four bytes of `p` are `a b c d`.
fn starts_with4(p: &[u8], a: u8, b: u8, c: u8, d: u8) -> (r: bool)
    ensures
        r == (p@.len() >= 4 && p@.take(4) == tag4(a, b, c, d)),
{
    if p.len() < 4 {
        return false;
    }
    let r = p[0] == a && p[1] == b && p[2] == c && p[3] == d;
    assert(r == (p@.take(4) =~= tag4(a, b, c, d)));
    r
}

/// The DTS or AC-4 track a registration descriptor declares, if any.
pub fn parse_transport_registration_descriptor(descriptor_payload: &[u8]) -> (r: Option<TransportPrivateDataTrack>)
    ensures
        r == registration_track(descriptor_payload@),
{
    if starts_with4(descriptor_payload, 0x44, 0x54, 0x53, 0x31) || starts_with4(descriptor_payload, 0x44, 0x54, 0x53, 0x32)
        || starts_with4(descriptor_payload, 0x44, 0x54, 0x53, 0x33) {
        return Some(TransportPrivateDataTrack { kind: TransportTrackKind::Dts, language: [0x75u8, 0x6E, 0x64], dvb_subtitle: None });
    }
    if starts_with4(descriptor_payload, 0x41, 0x43, 0x2D, 0x34) {
        return Some(TransportPrivateDataTrack { kind: TransportTrackKind::Ac4, language: [0x75u8, 0x6E, 0x64], dvb_subtitle: None });
    }
    None
}

/// The DVB subtitle track a subtitling descriptor declares (from its first service entry), or
/// a rejection unless the payload is whole 8-byte entries.
pub open spec fn dvb_subtitle_track(p: Seq<u8>) -> Result<TransportPrivateDataTrack, Failure> {
    if p.len() < 8 || p.len() % 8 != 0 {
        Err(Failure::Rejected)
    } else {
        Ok(TransportPrivateDataTrack {
            kind: TransportTrackKind::DvbSubtitle,
            language: [p[0], p[1], p[2]],
            dvb_subtitle: Some(DvbSubtitleConfig {
                language: [p[0], p[1], p[2]],
                subtitle_type: p[3],
                composition_page_id: ((p[4] as int) * 256 + p[5] as int) as u16,
                ancillary_page_id: ((p[6] as int) * 256 + p[7] as int) as u16,
            }),
        })
    }
}

/// Parses a DVB subtitling descriptor.
pub fn parse_dvb_subtitle_descriptor(spec: &str, descriptor_payload: &[u8]) -> (r: Result<TransportPrivateDataTrack, MuxError>)
    ensures
        match dvb_subtitle_track(descriptor_payload@) {
            Ok(t) => r == Ok::<TransportPrivateDataTrack, MuxError>(t),
            Err(f) => r matches Err(e) && fails_as(e, f, spec@),
        },
{
    let p = descriptor_payload;
    if p.len() < 8 || p.len() % 8 != 0 {
        return Err(import_error(spec, "transport-stream DVB subtitle descriptors must contain whole 8-byte service entries"));
    }
    Ok(TransportPrivateDataTrack {
        kind: TransportTrackKind::DvbSubtitle,
        language: [p[0], p[1], p[2]],
        dvb_subtitle: Some(DvbSubtitleConfig {
            language: [p[0], p[1], p[2]],
            subtitle_type: p[3],
            composition_page_id: (p[4] as u16) * 256 + p[5] as u16,
            ancillary_page_id: (p[6] as u16) * 256 + p[7] as u16,
        }),
    })
}

/// The DVB teletext track a teletext descriptor declares (language from its first entry), or
/// a rejection unless the payload is whole 5-byte entries.
pub open spec fn dvb_teletext_track(p: Seq<u8>) -> Result<TransportPrivateDataTrack, Failure> {
    if p.len() < 5 || p.len() % 5 != 0 {
        Err(Failure::Rejected)
    } else {
        Ok(TransportPrivateDataTrack { kind: TransportTrackKind::DvbTeletext, language: [p[0], p[1], p[2]], dvb_subtitle: None })
    }
}

/// Parses a DVB teletext descriptor.
pub fn parse_dvb_teletext_descriptor(spec: &str, descriptor_payload: &[u8]) -> (r: Result<TransportPrivateDataTrack, MuxError>)
    ensures
        match dvb_teletext_track(descriptor_payload@) {
            Ok(t) => r == Ok::<TransportPrivateDataTrack, MuxError>(t),
            Err(f) => r matches Err(e) && fails_as(e, f, spec@),
        },
{
    let p = descriptor_payload;
    if p.len() < 5 || p.len() % 5 != 0 {
        return Err(import_error(spec, "transport-stream DVB teletext descriptors must contain whole 5-byte service entries"));
    }
    Ok(TransportPrivateDataTrack { kind: TransportTrackKind::DvbTeletext, language: [p[0], p[1], p[2]], dvb_subtitle: None })
}

/// One descriptor of a private-data stream: registration, DVB subtitling and DVB teletext
/// descriptors declare the track, and only one may.
pub open spec fn private_data_step(found: Option<TransportPrivateDataTrack>, tag: u8, p: Seq<u8>) -> Result<Option<TransportPrivateDataTrack>, Failure> {
    let parsed: Result<Option<TransportPrivateDataTrack>, Failure> = if tag == 0x05 {
        Ok(registration_track(p))
    } else if tag == 0x59 {
        match dvb_subtitle_track(p) { Ok(t) => Ok(Some(t)), Err(f) => Err(f) }
    } else if tag == 0x56 {
        match dvb_teletext_track(p) { Ok(t) => Ok(Some(t)), Err(f) => Err(f) }
    } else {
        Ok(None)
    };
    match parsed {
        Err(f) => Err(f),
        Ok(None) => Ok(found),
        Ok(Some(t)) => if found is Some { Err(Failure::Rejected) } else { Ok(Some(t)) },
    }
}

/// Identifies the track a private-data stream's descriptors declare.
pub fn parse_transport_private_data_track(spec: &str, es_info: &[u8]) -> (r: Result<Option<TransportPrivateDataTrack>, MuxError>)
    ensures
        match descriptor_scan(es_info@, 0, None, |st: Option<TransportPrivateDataTrack>, tag: u8, p: Seq<u8>| private_data_step(st, tag, p)) {
            Ok(v) => r == Ok::<Option<TransportPrivateDataTrack>, MuxError>(v),
            Err(f) => r matches Err(e) && fails_as(e, f, spec@),
        },
{
    let ghost step = |st: Option<TransportPrivateDataTrack>, tag: u8, p: Seq<u8>| private_data_step(st, tag, p);
    let mut found: Option<TransportPrivateDataTrack> = None;
    let mut o: usize = 0;
    while o < es_info.len()
        invariant
            o <= es_info@.len(),
            step == (|st: Option<TransportPrivateDataTrack>, tag: u8, p: Seq<u8>| private_data_step(st, tag, p)),
            descriptor_scan(es_info@, 0, None, step) == descriptor_scan(es_info@, o as int, found, step),
        decreases es_info.len() - o,
    {
        if es_info.len() - o < 2 {
            return Err(import_error(spec, "truncated PMT descriptor header"));
        }
        let tag = es_info[o];
        let length = es_info[o + 1] as usize;
        if length > es_info.len() - o - 2 {
            return Err(import_error(spec, "truncated PMT descriptor payload"));
        }
        let end = o + 2 + length;
        let p = &es_info[o + 2..end];
        let parsed = if tag == 0x05 {
            parse_transport_registration_descriptor(p)
        } else if tag == 0x59 {
            match parse_dvb_subtitle_descriptor(spec, p) {
                Ok(t) => Some(t),
                Err(e) => return Err(e),
            }
        } else if tag == 0x56 {
            match parse_dvb_teletext_descriptor(spec, p) {
                Ok(t) => Some(t),
                Err(e) => return Err(e),
            }
        } else {
            None
        };
        match parsed {
            None => {},
            Some(t) => {
                if found.is_some() {
                    return Err(import_error(spec, "multiple transport-stream private-data descriptor track declarations are not supported on the native direct-ingest path yet"));
                }
                found = Some(t);
            },
        }
        o = end;
    }
    Ok(found)
}

/// What an AV1 private-data stream's descriptors have shown so far: the AV01 registration,
/// the AOMS private-data specifier, and the AV1 video descriptor payload.
pub open spec fn av1_step(st: (bool, bool, Option<Seq<u8>>), tag: u8, p: Seq<u8>) -> Result<(bool, bool, Option<Seq<u8>>), Failure> {
    let (registration, specifier, descriptor) = st;
    if tag == 0x05 {
        if p == tag4(0x41, 0x56, 0x30, 0x31) {
            if registration { Err(Failure::Rejected) } else { Ok((true, specifier, descriptor)) }
        } else {
            Ok(st)
        }
    } else if tag == 0x5F {
        if p == tag4(0x41, 0x4F, 0x4D, 0x53) {
            if specifier { Err(Failure::Rejected) } else { Ok((registration, true, descriptor)) }
        } else {
            Ok(st)
        }
    } else if tag == 0x80 {
        if p.len() != 4 || descriptor is Some {
            Err(Failure::Rejected)
        } else {
            Ok((registration, specifier, Some(p)))
        }
    } else {
        Ok(st)
    }
}

/// The AV1 descriptor a private-data stream carries: none when it shows none of the three AV1
/// markers, the descriptor when it shows all three, and a rejection otherwise.
pub open spec fn av1_descriptor_outcome(es: Seq<u8>) -> Result<Option<Seq<u8>>, Failure> {
    match descriptor_scan(es, 0, (false, false, None), |st: (bool, bool, Option<Seq<u8>>), tag: u8, p: Seq<u8>| av1_step(st, tag, p)) {
        Err(f) => Err(f),
        Ok((false, false, None)) => Ok(None),
        Ok((true, true, Some(d))) => Ok(Some(d)),
        Ok(_) => Err(Failure::Rejected),
    }
}

/// Recognizes AV1 carriage in a private-data stream's descriptors.
pub fn parse_transport_av1_video_descriptor(spec: &str, es_info: &[u8]) -> (r: Result<Option<[u8; 4]>, MuxError>)
    ensures
        match av1_descriptor_outcome(es_info@) {
            Ok(None) => r matches Ok(None),
            Ok(Some(d)) => r matches Ok(Some(a)) && a@ == d,
            Err(f) => r matches Err(e) && fails_as(e, f, spec@),
        },
{
    let ghost step = |st: (bool, bool, Option<Seq<u8>>), tag: u8, p: Seq<u8>| av1_step(st, tag, p);
    let mut registration = false;
    let mut specifier = false;
    let mut descriptor: Option<[u8; 4]> = None;
    let mut o: usize = 0;
    while o < es_info.len()
        invariant
            o <= es_info@.len(),
            step == (|st: (bool, bool, Option<Seq<u8>>), tag: u8, p: Seq<u8>| av1_step(st, tag, p)),
            descriptor_scan(es_info@, 0, (false, false, None), step) == descriptor_scan(
                es_info@,
                o as int,
                (registration, specifier, match descriptor { Some(a) => Some(a@), None => None }),
                step,
            ),
        decreases es_info.len() - o,
    {
        if es_info.len() - o < 2 {
            return Err(import_error(spec, "truncated PMT descriptor header"));
        }
        let tag = es_info[o];
        let length = es_info[o + 1] as usize;
        if length > es_info.len() - o - 2 {
            return Err(import_error(spec, "truncated PMT descriptor payload"));
        }
        let end = o + 2 + length;
        let p = &es_info[o + 2..end];
        let is_av01 = p.len() == 4 && starts_with4(p, 0x41, 0x56, 0x30, 0x31);
        let is_aoms = p.len() == 4 && starts_with4(p, 0x41, 0x4F, 0x4D, 0x53);
        proof {
            if p@.len() == 4 {
                assert(p@.take(4) =~= p@);
            }
        }
        if tag == 0x05 {
            if is_av01 {
                if registration {
                    return Err(import_error(spec, "multiple transport-stream AV1 registration descriptors are not supported on the native direct-ingest path yet"));
                }
                registration = true;
            }
        } else if tag == 0x5F {
            if is_aoms {
                if specifier {
                    return Err(import_error(spec, "multiple transport-stream AV1 private-data specifier descriptors are not supported on the native direct-ingest path yet"));
                }
                specifier = true;
            }
        } else if tag == 0x80 {
            if length != 4 {
                return Err(import_error(spec, "transport-stream AV1 carried descriptor 0x80 with an invalid payload size"));
            }
            if descriptor.is_some() {
                return Err(import_error(spec, "multiple transport-stream AV1 descriptor 0x80 payloads are not supported on the native direct-ingest path yet"));
            }
            let a: [u8; 4] = [p[0], p[1], p[2], p[3]];
            assert(a@ =~= p@);
            descriptor = Some(a);
        }
        o = end;
    }
    match (registration, specifier, descriptor) {
        (false, false, None) => Ok(None),
        (true, true, Some(d)) => Ok(Some(d)),
        _ => Err(import_error(spec, "transport-stream AV1 private-data carriage must carry AV01 registration, AOMS private-data specifier, and descriptor 0x80 on the native direct-ingest path")),
    }
}

/// One descriptor of an AVS3 stream: an "AVSV" registration carries the ten-byte decoder
/// configuration, and only one may.
pub open spec fn avs3_step(found: Option<Seq<u8>>, tag: u8, p: Seq<u8>) -> Result<Option<Seq<u8>>, Failure> {
    if tag == 0x05 && p.len() >= 4 && p.take(4) == tag4(0x41, 0x56, 0x53, 0x56) {
        if p.len() < 14 || found is Some {
            Err(Failure::Rejected)
        } else {
            Ok(Some(p.subrange(4, 14)))
        }
    } else {
        Ok(found)
    }
}

/// Reads the AVS3 decoder configuration from an AVS3 stream's descriptors.
pub fn parse_transport_avs3_video_descriptor(spec: &str, es_info: &[u8]) -> (r: Result<Vec<u8>, MuxError>)
    ensures
        match descriptor_scan(es_info@, 0, None, |st: Option<Seq<u8>>, tag: u8, p: Seq<u8>| avs3_step(st, tag, p)) {
            Ok(Some(c)) => r matches Ok(v) && v@ == c,
            Ok(None) => r matches Err(e) && is_import_error(e, spec@),
            Err(f) => r matches Err(e) && fails_as(e, f, spec@),
        },
{
    let ghost step = |st: Option<Seq<u8>>, tag: u8, p: Seq<u8>| avs3_step(st, tag, p);
    let mut found: Option<Vec<u8>> = None;
    let mut o: usize = 0;
    while o < es_info.len()
        invariant
            o <= es_info@.len(),
            step == (|st: Option<Seq<u8>>, tag: u8, p: Seq<u8>| avs3_step(st, tag, p)),
            descriptor_scan(es_info@, 0, None, step) == descriptor_scan(
                es_info@,
                o as int,
                match found { Some(v) => Some(v@), None => None },
                step,
            ),
        decreases es_info.len() - o,
    {
        if es_info.len() - o < 2 {
            return Err(import_error(spec, "truncated PMT descriptor header"));
        }
        let tag = es_info[o];
        let length = es_info[o + 1] as usize;
        if length > es_info.len() - o - 2 {
            return Err(import_error(spec, "truncated PMT descriptor payload"));
        }
        let end = o + 2 + length;
        let p = &es_info[o + 2..end];
        if tag == 0x05 && starts_with4(p, 0x41, 0x56, 0x53, 0x56) {
            if p.len() < 14 {
                return Err(import_error(spec, "transport-stream AVS3 registration descriptor did not carry the full decoder configuration payload"));
            }
            if found.is_some() {
                return Err(import_error(spec, "multiple AVS3 registration descriptors are not supported on the native direct-ingest path yet"));
            }
            found = Some(crate::text::copy_range(p, 4, 14));
        }
        o = end;
    }
    match found {
        Some(v) => Ok(v),
        None => Err(import_error(spec, "transport-stream AVS3 video carriage is missing its AVSV registration descriptor payload")),
    }
}

} // verus!
