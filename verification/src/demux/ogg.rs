use vstd::prelude::*;
use crate::error::{MuxError, overflow};
use crate::sample::{SegmentData, SourceSegment};

verus! {

/// A run of bytes of an Ogg packet inside one page's payload.
#[derive(Clone, Copy, Debug, PartialEq, Eq)]
pub struct OggSpan {
    pub source_offset: u64,
    pub size: u32,
}

/// A packet the Ogg lacing values completed: its spans in the file and its total size.
pub struct CompletedOggPacket {
    pub spans: Vec<OggSpan>,
    pub total_size: u32,
}

/// The bytes of spans.
pub open spec fn spans_total(spans: Seq<OggSpan>) -> int
    decreases spans.len(),
{
    if spans.len() == 0 { 0 } else { spans_total(spans.drop_last()) + spans.last().size }
}

/// The file-range segments that lay `spans` out back to back from `logical`.
pub open spec fn span_segments(spans: Seq<OggSpan>, logical: int) -> Seq<SourceSegment>
    decreases spans.len(),
{
    if spans.len() == 0 {
        Seq::empty()
    } else {
        span_segments(spans.drop_last(), logical) + seq![SourceSegment {
            logical_offset: (logical + spans_total(spans.drop_last())) as u64,
            data: SegmentData::FileRange { source_offset: spans.last().source_offset, size: spans.last().size },
        }]
    }
}

proof fn lemma_spans_total_mono(spans: Seq<OggSpan>, k: int)
    requires
        0 <= k <= spans.len(),
    ensures
        0 <= spans_total(spans.subrange(0, k)) <= spans_total(spans),
    decreases spans.len() - k,
{
    if k < spans.len() {
        lemma_spans_total_mono(spans, k + 1);
        assert(spans.subrange(0, k + 1).drop_last() =~= spans.subrange(0, k));
    } else {
        assert(spans.subrange(0, k) =~= spans);
    }
    lemma_spans_total_nonneg(spans.subrange(0, k));
}

proof fn lemma_spans_total_nonneg(spans: Seq<OggSpan>)
    ensures
        spans_total(spans) >= 0,
    decreases spans.len(),
{
    if spans.len() > 0 {
        lemma_spans_total_nonneg(spans.drop_last());
    }
}

/// Lays a packet's spans out as file-range segments at the end of the logical payload.
pub fn append_packet_spans(logical_size: &mut u64, segments: &mut Vec<SourceSegment>, spans: &[OggSpan]) -> (r: Result<(), MuxError>)
    ensures
        r is Ok <==> *old(logical_size) + spans_total(spans@) <= u64::MAX,
        r is Ok ==> *final(logical_size) == *old(logical_size) + spans_total(spans@)
            && final(segments)@ == old(segments)@ + span_segments(spans@, *old(logical_size) as int),
        r matches Err(e) ==> e is LayoutOverflow,
{
    let ghost start = *logical_size as int;
    let ghost before = segments@;
    let mut i: usize = 0;
    while i < spans.len()
        invariant
            i <= spans@.len(),
            start == *old(logical_size),
            before == old(segments)@,
            *logical_size == start + spans_total(spans@.subrange(0, i as int)),
            segments@ == before + span_segments(spans@.subrange(0, i as int), start),
        decreases spans.len() - i,
    {
        let span = spans[i];
        proof {
            assert(spans@.subrange(0, i + 1).drop_last() =~= spans@.subrange(0, i as int));
        }
        if *logical_size > u64::MAX - span.size as u64 {
            proof { lemma_spans_total_mono(spans@, i + 1); }
            return Err(overflow("Ogg logical source size"));
        }
        segments.push(SourceSegment {
            logical_offset: *logical_size,
            data: SegmentData::FileRange { source_offset: span.source_offset, size: span.size },
        });
        *logical_size = *logical_size + span.size as u64;
        i = i + 1;
        proof {
            assert(segments@ =~= before + span_segments(spans@.subrange(0, i as int), start));
        }
    }
    assert(spans@.subrange(0, spans@.len() as int) =~= spans@);
    Ok(())
}


/// The decoder-specific information Xiph codecs carry in `esds`: each header packet behind its
/// 16-bit big-endian length, or nothing when a packet is longer than 65535 bytes.
pub open spec fn header_dsi(packets: Seq<Seq<u8>>) -> Option<Seq<u8>>
    decreases packets.len(),
{
    if packets.len() == 0 {
        Some(Seq::empty())
    } else {
        match header_dsi(packets.drop_last()) {
            None => None,
            Some(d) => if packets.last().len() > 0xFFFF {
                None
            } else {
                Some(d + crate::mp4::be16(packets.last().len() as u16) + packets.last())
            },
        }
    }
}

/// The byte views of packets.
pub open spec fn packet_bytes_views(v: Seq<Vec<u8>>) -> Seq<Seq<u8>> {
    v.map_values(|b: Vec<u8>| b@)
}

proof fn lemma_header_dsi_none_extends(packets: Seq<Seq<u8>>, k: nat)
    requires
        k <= packets.len(),
        header_dsi(packets.subrange(0, k as int)) is None,
    ensures
        header_dsi(packets) is None,
    decreases packets.len() - k,
{
    if k < packets.len() {
        assert(packets.subrange(0, (k + 1) as int).drop_last() =~= packets.subrange(0, k as int));
        lemma_header_dsi_none_extends(packets, k + 1);
    } else {
        assert(packets.subrange(0, k as int) =~= packets);
    }
}

/// Concatenates length-prefixed header packets.
pub fn build_header_dsi(header_packets: &[Vec<u8>]) -> (r: Result<Vec<u8>, MuxError>)
    ensures
        match header_dsi(packet_bytes_views(header_packets@)) {
            Some(d) => r matches Ok(v) && v@ == d,
            None => r matches Err(e) && e is LayoutOverflow,
        },
{
    let ghost ps = packet_bytes_views(header_packets@);
    let mut out: Vec<u8> = Vec::new();
    let mut i: usize = 0;
    while i < header_packets.len()
        invariant
            i <= header_packets@.len(),
            ps == packet_bytes_views(header_packets@),
            header_dsi(ps.subrange(0, i as int)) == Some(out@),
        decreases header_packets.len() - i,
    {
        let p = &header_packets[i];
        proof {
            assert(ps.subrange(0, i + 1).drop_last() =~= ps.subrange(0, i as int));
            assert(ps[i as int] == p@);
        }
        if p.len() > 0xFFFF {
            proof { lemma_header_dsi_none_extends(ps, (i + 1) as nat); }
            return Err(overflow("Xiph header packet length"));
        }
        crate::mp4::push_u16_be(&mut out, p.len() as u16);
        crate::mp4::push_bytes(&mut out, p.as_slice());
        i = i + 1;
    }
    assert(ps.subrange(0, ps.len() as int) =~= ps);
    Ok(out)
}

} // verus!
