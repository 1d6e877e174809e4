use vstd::prelude::*;
use crate::error::{Failure, MuxError, fails_as, import_error, overflow};
use crate::demux::ogg::{CompletedOggPacket, OggSpan, spans_total};

verus! {

// ---------------------------------------------------------------------------------------------
// Pages
// ---------------------------------------------------------------------------------------------

/// An Ogg page header: its header-type flags, granule position, stream serial number, where
/// its payload starts and its lacing values.
#[derive(Clone, Debug)]
pub struct OggPageHeader {
    pub header_type: u8,
    pub granule_position: u64,
    pub serial_no: u32,
    pub payload_offset: u64,
    pub lacing_values: Vec<u8>,
}

/// The sum of lacing values.
pub open spec fn lacing_total(l: Seq<u8>) -> int
    decreases l.len(),
{
    if l.len() == 0 { 0 } else { lacing_total(l.drop_last()) + l.last() }
}

/// The little-endian value of `n` bytes at `i`.
pub open spec fn le_at(f: Seq<u8>, i: int, n: nat) -> int
    decreases n,
{
    if n == 0 { 0 } else { f[i] + 256 * le_at(f, i + 1, (n - 1) as nat) }
}

/// The page at `off`: the capture pattern `OggS`, stream structure version 0, and a complete
/// 27-byte header and segment table inside the file. Gives the header type, granule
/// position, serial number, payload offset and lacing values.
pub open spec fn ogg_page_at(f: Seq<u8>, off: int) -> Result<(u8, u64, u32, int, Seq<u8>), Failure> {
    if off < 0 || f.len() - off < 27 {
        Err(Failure::Rejected)
    } else if !(f[off] == 0x4F && f[off + 1] == 0x67 && f[off + 2] == 0x67 && f[off + 3] == 0x53) {
        Err(Failure::Rejected)
    } else if f[off + 4] != 0 {
        Err(Failure::Rejected)
    } else {
        let n = f[off + 26] as int;
        if f.len() - off - 27 < n {
            Err(Failure::Rejected)
        } else {
            Ok((f[off + 5], le_at(f, off + 6, 8) as u64, le_at(f, off + 14, 4) as u32, off + 27 + n, f.subrange(off + 27, off + 27 + n)))
        }
    }
}

/// Reads the little-endian 32-bit value at `i`.
fn read_le32(f: &[u8], i: usize) -> (r: u32)
    requires
        i + 4 <= f@.len(),
    ensures
        r as int == le_at(f@, i as int, 4),
{
    proof { reveal_with_fuel(le_at, 5); }
    f[i] as u32 + 256 * (f[i + 1] as u32 + 256 * (f[i + 2] as u32 + 256 * f[i + 3] as u32))
}

/// Reads the little-endian 64-bit value at `i`.
fn read_le64(f: &[u8], i: usize) -> (r: u64)
    requires
        i + 8 <= f@.len(),
    ensures
        r as int == le_at(f@, i as int, 8),
{
    let n = f.len();
    let hi = read_le32(f, i + 4) as u64;
    let lo = read_le32(f, i) as u64;
    proof {
        reveal_with_fuel(le_at, 9);
        assert(le_at(f@, i as int, 8) == le_at(f@, i as int, 4) + 0x1_0000_0000 * le_at(f@, i + 4, 4));
    }
    lo + 0x1_0000_0000 * hi
}

/// Reads the page header at `offset`.
pub fn read_ogg_page_header(file: &[u8], offset: usize, spec: &str) -> (r: Result<OggPageHeader, MuxError>)
    requires
        offset <= file@.len(),
    ensures
        match ogg_page_at(file@, offset as int) {
            Ok((t, g, s, po, l)) => r matches Ok(h) && h.header_type == t && h.granule_position == g
                && h.serial_no == s && h.payload_offset == po && h.lacing_values@ == l,
            Err(x) => r matches Err(e) && fails_as(e, x, spec@),
        },
{
    let n = file.len();
    if n - offset < 27 {
        return Err(import_error(spec, "truncated Ogg page header"));
    }
    if !(file[offset] == 0x4F && file[offset + 1] == 0x67 && file[offset + 2] == 0x67 && file[offset + 3] == 0x53) {
        return Err(import_error(spec, "Ogg page is missing its OggS capture pattern"));
    }
    if file[offset + 4] != 0 {
        return Err(import_error(spec, "unsupported Ogg stream structure version"));
    }
    let segments = file[offset + 26] as usize;
    if n - offset - 27 < segments {
        return Err(import_error(spec, "truncated Ogg page segment table"));
    }
    let granule_position = read_le64(file, offset + 6);
    let serial_no = read_le32(file, offset + 14);
    let start = offset + 27;
    let mut lacing_values: Vec<u8> = Vec::new();
    let mut k: usize = 0;
    while k < segments
        invariant
            start + segments <= n,
            n == file@.len(),
            k <= segments,
            lacing_values@ == file@.subrange(start as int, start + k),
        decreases segments - k,
    {
        lacing_values.push(file[start + k]);
        assert(lacing_values@ =~= file@.subrange(start as int, start + k + 1));
        k = k + 1;
    }
    Ok(OggPageHeader {
        header_type: file[offset + 5],
        granule_position,
        serial_no,
        payload_offset: (start + segments) as u64,
        lacing_values,
    })
}

// ---------------------------------------------------------------------------------------------
// Packets
// ---------------------------------------------------------------------------------------------

/// A packet being assembled from lacing values: its spans so far and their total size.
pub struct OggPacketBuilder {
    pub spans: Vec<OggSpan>,
    pub total_size: u32,
}

impl OggPacketBuilder {
    /// A builder holding no packet.
    pub fn new() -> (r: Self)
        ensures
            r.spans@ == Seq::<OggSpan>::empty(),
            r.total_size == 0,
    {
        OggPacketBuilder { spans: Vec::new(), total_size: 0 }
    }

    /// Whether no packet is under way.
    pub fn is_empty(&self) -> (r: bool)
        ensures
            r == (self.spans@.len() == 0 && self.total_size == 0),
    {
        self.spans.len() == 0 && self.total_size == 0
    }
}

/// A packet under way as values: its spans and total size.
pub open spec fn pending_of(b: OggPacketBuilder) -> (Seq<OggSpan>, u32) {
    (b.spans@, b.total_size)
}

/// The packets completed by lacing values `i` on of a page whose payload continues at
/// `cursor`: each value adds a span of that many bytes (a zero value adds none) to the packet
/// under way, and a value below 255 completes it; completed packets of no bytes are dropped.
/// Gives the packet left under way and the completed ones, or an overflow of a packet's size.
pub open spec fn lace_from(
    pending: (Seq<OggSpan>, u32),
    cursor: int,
    lacing: Seq<u8>,
    i: int,
    done: Seq<(Seq<OggSpan>, u32)>,
) -> Result<((Seq<OggSpan>, u32), Seq<(Seq<OggSpan>, u32)>), Failure>
    decreases lacing.len() - i,
{
    if i < 0 || i >= lacing.len() {
        Ok((pending, done))
    } else {
        let v = lacing[i];
        if pending.1 + v > u32::MAX {
            Err(Failure::Overflow)
        } else {
            let spans = if v == 0 { pending.0 } else { pending.0.push(OggSpan { source_offset: cursor as u64, size: v as u32 }) };
            let total = (pending.1 + v) as u32;
            if v < 255 {
                lace_from((Seq::empty(), 0), cursor + v, lacing, i + 1, if total != 0 { done.push((spans, total)) } else { done })
            } else {
                lace_from((spans, total), cursor + v, lacing, i + 1, done)
            }
        }
    }
}

/// The views of completed packets.
pub open spec fn completed_views(v: Seq<CompletedOggPacket>) -> Seq<(Seq<OggSpan>, u32)> {
    v.map_values(|p: CompletedOggPacket| (p.spans@, p.total_size))
}

proof fn lemma_lacing_total_prefix(l: Seq<u8>, k: int)
    requires
        0 <= k <= l.len(),
    ensures
        0 <= lacing_total(l.subrange(0, k)) <= lacing_total(l),
    decreases l.len() - k,
{
    if k < l.len() {
        lemma_lacing_total_prefix(l, k + 1);
        assert(l.subrange(0, k + 1).drop_last() =~= l.subrange(0, k));
    } else {
        assert(l.subrange(0, k) =~= l);
    }
    lemma_lacing_total_nonneg(l.subrange(0, k));
}

pub proof fn lemma_lacing_total_nonneg(l: Seq<u8>)
    ensures
        lacing_total(l) >= 0,
    decreases l.len(),
{
    if l.len() > 0 {
        lemma_lacing_total_nonneg(l.drop_last());
    }
}

/// Feeds a page's lacing values to the packet builder and returns the packets they complete.
pub fn lace_page(builder: &mut OggPacketBuilder, payload_offset: u64, lacing: &[u8]) -> (r: Result<Vec<CompletedOggPacket>, MuxError>)
    requires
        payload_offset + lacing_total(lacing@) <= u64::MAX,
    ensures
        match lace_from(pending_of(*old(builder)), payload_offset as int, lacing@, 0, Seq::empty()) {
            Ok((pending, done)) => r matches Ok(v) && completed_views(v@) == done && pending_of(*final(builder)) == pending,
            Err(x) => r matches Err(e) && fails_as(e, x, ""@),
        },
{
    let ghost target = lace_from(pending_of(*builder), payload_offset as int, lacing@, 0, Seq::empty());
    let mut done: Vec<CompletedOggPacket> = Vec::new();
    let mut cursor: u64 = payload_offset;
    let n = lacing.len();
    let mut i: usize = 0;
    assert(completed_views(done@) =~= Seq::<(Seq<OggSpan>, u32)>::empty());
    assert(lacing@.subrange(0, 0) =~= Seq::<u8>::empty());
    while i < n
        invariant
            n == lacing@.len(),
            i <= n,
            payload_offset + lacing_total(lacing@) <= u64::MAX,
            cursor == payload_offset + lacing_total(lacing@.subrange(0, i as int)),
            target == lace_from(pending_of(*old(builder)), payload_offset as int, lacing@, 0, Seq::empty()),
            target == lace_from(pending_of(*builder), cursor as int, lacing@, i as int, completed_views(done@)),
        decreases n - i,
    {
        let v = lacing[i];
        proof {
            lemma_lacing_total_prefix(lacing@, i + 1);
            assert(lacing@.subrange(0, i + 1).drop_last() =~= lacing@.subrange(0, i as int));
        }
        if builder.total_size as u64 + v as u64 > 0xFFFF_FFFF {
            return Err(overflow("Ogg packet size"));
        }
        if v != 0 {
            builder.spans.push(OggSpan { source_offset: cursor, size: v as u32 });
        }
        builder.total_size = builder.total_size + v as u32;
        if v < 255 {
            let mut taken: Vec<OggSpan> = Vec::new();
            std::mem::swap(&mut taken, &mut builder.spans);
            let finished = CompletedOggPacket { spans: taken, total_size: builder.total_size };
            builder.total_size = 0;
            if finished.total_size != 0 {
                let ghost before = done@;
                done.push(finished);
                assert(completed_views(done@) =~= completed_views(before).push((finished.spans@, finished.total_size)));
            }
        }
        cursor = cursor + v as u64;
        i = i + 1;
    }
    Ok(done)
}

/// The bytes of a packet's spans, when they all lie inside the file.
pub open spec fn span_bytes(f: Seq<u8>, spans: Seq<OggSpan>) -> Option<Seq<u8>>
    decreases spans.len(),
{
    if spans.len() == 0 {
        Some(Seq::empty())
    } else {
        match span_bytes(f, spans.drop_last()) {
            None => None,
            Some(b) => {
                let s = spans.last();
                if s.source_offset + s.size > f.len() { None } else { Some(b + f.subrange(s.source_offset as int, s.source_offset + s.size)) }
            },
        }
    }
}

/// Reads the bytes of a packet's spans; a span running past the end of the file is a
/// truncated packet.
pub fn read_spans(file: &[u8], spans: &Vec<OggSpan>, spec: &str) -> (r: Result<Vec<u8>, MuxError>)
    ensures
        match span_bytes(file@, spans@) {
            Some(b) => r matches Ok(v) && v@ == b,
            None => r matches Err(e) && fails_as(e, Failure::Rejected, spec@),
        },
{
    let n = file.len();
    let mut out: Vec<u8> = Vec::new();
    let mut i: usize = 0;
    while i < spans.len()
        invariant
            n == file@.len(),
            i <= spans@.len(),
            span_bytes(file@, spans@.subrange(0, i as int)) == Some(out@),
        decreases spans.len() - i,
    {
        let s = spans[i];
        proof {
            assert(spans@.subrange(0, i + 1).drop_last() =~= spans@.subrange(0, i as int));
        }
        if s.source_offset > n as u64 || (n as u64) - s.source_offset < s.size as u64 {
            proof { lemma_span_bytes_none_extends(file@, spans@, i + 1); }
            return Err(import_error(spec, "Ogg packet is truncated"));
        }
        let start = s.source_offset as usize;
        let size = s.size as usize;
        let ghost before = out@;
        let mut k: usize = 0;
        while k < size
            invariant
                start + size <= n,
                n == file@.len(),
                k <= size,
                out@ == before + file@.subrange(start as int, start + k),
            decreases size - k,
        {
            out.push(file[start + k]);
            assert(out@ =~= before + file@.subrange(start as int, start + k + 1));
            k = k + 1;
        }
        i = i + 1;
    }
    assert(spans@.subrange(0, spans@.len() as int) =~= spans@);
    Ok(out)
}

proof fn lemma_span_bytes_none_extends(f: Seq<u8>, spans: Seq<OggSpan>, k: int)
    requires
        0 <= k <= spans.len(),
        span_bytes(f, spans.subrange(0, k)) is None,
    ensures
        span_bytes(f, spans) is None,
    decreases spans.len() - k,
{
    if k < spans.len() {
        assert(spans.subrange(0, k + 1).drop_last() =~= spans.subrange(0, k));
        lemma_span_bytes_none_extends(f, spans, k + 1);
    } else {
        assert(spans.subrange(0, k) =~= spans);
    }
}

/// Lacing fails only by overflowing a packet's size.
pub proof fn lemma_lace_from_overflow_only(pending: (Seq<OggSpan>, u32), cursor: int, lacing: Seq<u8>, i: int, done: Seq<(Seq<OggSpan>, u32)>)
    ensures
        lace_from(pending, cursor, lacing, i, done) matches Err(x) ==> x == Failure::Overflow,
    decreases lacing.len() - i,
{
    if 0 <= i < lacing.len() {
        let v = lacing[i];
        if pending.1 + v <= u32::MAX {
            let spans = if v == 0 { pending.0 } else { pending.0.push(OggSpan { source_offset: cursor as u64, size: v as u32 }) };
            let total = (pending.1 + v) as u32;
            if v < 255 {
                lemma_lace_from_overflow_only((Seq::empty(), 0), cursor + v, lacing, i + 1, if total != 0 { done.push((spans, total)) } else { done });
            } else {
                lemma_lace_from_overflow_only((spans, total), cursor + v, lacing, i + 1, done);
            }
        }
    }
}

/// The sum of a page's lacing values.
pub fn lacing_sum(lacing: &[u8]) -> (r: u64)
    requires
        lacing@.len() <= 255,
    ensures
        r as int == lacing_total(lacing@),
        r <= 65025,
{
    let mut total: u64 = 0;
    let mut i: usize = 0;
    assert(lacing@.subrange(0, 0) =~= Seq::<u8>::empty());
    while i < lacing.len()
        invariant
            lacing@.len() <= 255,
            i <= lacing@.len(),
            total as int == lacing_total(lacing@.subrange(0, i as int)),
            total <= 255 * i,
        decreases lacing.len() - i,
    {
        assert(lacing@.subrange(0, i + 1).drop_last() =~= lacing@.subrange(0, i as int));
        total = total + lacing[i] as u64;
        i = i + 1;
    }
    assert(lacing@.subrange(0, i as int) =~= lacing@);
    total
}

} // verus!
