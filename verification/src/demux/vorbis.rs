use vstd::prelude::*;
use crate::error::{Failure, MuxError, fails_as, import_error, is_import_error, is_import_error_with, overflow};
use crate::sample::{SourceSegment, StagedSample};
use crate::demux::ogg::{CompletedOggPacket, OggSpan, append_packet_spans, build_header_dsi, header_dsi, packet_bytes_views, span_segments, spans_total};
use crate::demux::ogg_pages::{
    OggPacketBuilder, completed_views, lace_from, lace_page, lacing_sum, lacing_total, lemma_lace_from_overflow_only,
    lemma_lacing_total_nonneg, ogg_page_at, pending_of, read_ogg_page_header, read_spans, span_bytes,
};

verus! {

/// `2^n`.
pub open spec fn two_pow(n: nat) -> nat
    decreases n,
{
    if n == 0 { 1 } else { 2 * two_pow((n - 1) as nat) }
}

/// Bit `p` of `data`, counting from the least significant bit of the first byte.
pub open spec fn lsb_bit(data: Seq<u8>, p: int) -> nat {
    ((data[p / 8] >> ((p % 8) as usize)) & 1u8) as nat
}

/// The `n` bits of `data` from bit `p` on, the first read being the least significant.
pub open spec fn lsb_value(data: Seq<u8>, p: int, n: nat) -> nat
    decreases n,
{
    if n == 0 { 0 } else { lsb_value(data, p, (n - 1) as nat) + lsb_bit(data, p + n - 1) * two_pow((n - 1) as nat) }
}

/// Reading `n` bits at bit position `p`: the value and the next position, or nothing when
/// fewer than `n` bits remain (reading no bits always succeeds).
pub open spec fn take_bits(data: Seq<u8>, p: int, n: int) -> Option<(u32, int)> {
    if n <= 0 {
        Some((0u32, p))
    } else if p + n > data.len() * 8 {
        None
    } else {
        Some((lsb_value(data, p, n as nat) as u32, p + n))
    }
}

/// An `n`-bit value stays below `2^n`.
pub proof fn lemma_lsb_value_bound(data: Seq<u8>, p: int, n: nat)
    ensures
        lsb_value(data, p, n) < two_pow(n),
    decreases n,
{
    if n > 0 {
        lemma_lsb_value_bound(data, p, (n - 1) as nat);
        lemma_lsb_bit_bound(data, p + n - 1);
        let bit = lsb_bit(data, p + n - 1);
        let w = two_pow((n - 1) as nat);
        if bit == 0 {
            assert(bit * w == 0);
        } else {
            assert(bit * w == w);
        }
    }
}

/// A bit is zero or one.
pub proof fn lemma_lsb_bit_bound(data: Seq<u8>, p: int)
    ensures
        lsb_bit(data, p) <= 1,
{
    assert(forall|b: u8, s: usize| (b >> s) & 1u8 <= 1) by (bit_vector);
    let b = data[p / 8];
    let s = (p % 8) as usize;
    assert((b >> s) & 1u8 <= 1);
}

/// A least-significant-bit-first reader over a byte slice.
pub struct LsbBitReader<'a> {
    pub data: &'a [u8],
    pub bit_offset: usize,
}

impl<'a> LsbBitReader<'a> {
    /// The reader sits within its data, whose bit count fits in `usize`.
    pub open spec fn wf(&self) -> bool {
        &&& self.data@.len() * 8 <= usize::MAX
        &&& self.bit_offset <= self.data@.len() * 8
    }

    /// A reader at the first bit of `data`.
    pub fn new(data: &'a [u8]) -> (r: Self)
        requires
            data@.len() * 8 <= usize::MAX,
        ensures
            r.data@ == data@,
            r.bit_offset == 0,
            r.wf(),
    {
        LsbBitReader { data, bit_offset: 0 }
    }

    /// Reads `bits` bits, the first one least significant; when the data runs out the reader
    /// stops at its end and nothing is returned.
    pub fn read(&mut self, bits: u32) -> (r: Option<u32>)
        requires
            old(self).wf(),
            bits <= 32,
        ensures
            final(self).wf(),
            final(self).data@ == old(self).data@,
            match take_bits(old(self).data@, old(self).bit_offset as int, bits as int) {
                Some((v, p)) => r == Some(v) && final(self).bit_offset == p,
                None => r is None && final(self).bit_offset == old(self).data@.len() * 8,
            },
            r matches Some(v) ==> (v as nat) < two_pow(bits as nat),
    {
        if bits == 0 {
            return Some(0);
        }
        let ghost start = self.bit_offset as int;
        let ghost data = self.data@;
        let mut value: u64 = 0;
        let mut weight: u64 = 1;
        let mut i: u32 = 0;
        while i < bits
            invariant
                self.data@ == data,
                data == old(self).data@,
                start == old(self).bit_offset,
                self.wf(),
                bits <= 32,
                i <= bits,
                self.bit_offset == start + i,
                value == lsb_value(data, start, i as nat),
                weight == two_pow(i as nat),
                value < weight,
                weight <= 0x1_0000_0000,
            decreases bits - i,
        {
            let byte_index = self.bit_offset / 8;
            if byte_index >= self.data.len() {
                return None;
            }
            let byte = self.data[byte_index];
            let shift = self.bit_offset % 8;
            let bit = (byte >> shift) & 1;
            assert(bit <= 1) by (bit_vector)
                requires
                    bit == (byte >> shift) & 1u8,
            ;
            assert(bit as nat == lsb_bit(data, start + i));
            proof {
                let w = two_pow(i as nat);
                lemma_lsb_bit_bound(data, start + i);
                if bit == 0 {
                    assert(lsb_bit(data, start + i) * w == 0);
                } else {
                    assert(lsb_bit(data, start + i) == 1);
                    assert(1 * w == w);
                    assert(lsb_bit(data, start + i) * w == w);
                }
                assert(lsb_value(data, start, (i + 1) as nat) == lsb_value(data, start, i as nat) + lsb_bit(data, start + i) * w);
            }
            if bit == 1 {
                value = value + weight;
            }
            if i < 32 {
                assert(weight <= 0x8000_0000) by {
                    lemma_two_pow_bound(i as nat);
                }
            }
            weight = weight * 2;
            self.bit_offset = self.bit_offset + 1;
            i = i + 1;
        }
        assert(value < 0x1_0000_0000);
        Some(value as u32)
    }
}

/// The powers of two that field widths use.
pub proof fn lemma_two_pow_values()
    ensures
        two_pow(1) == 2,
        two_pow(2) == 4,
        two_pow(3) == 8,
        two_pow(4) == 16,
        two_pow(5) == 32,
        two_pow(6) == 64,
        two_pow(7) == 128,
        two_pow(8) == 256,
        two_pow(16) == 0x1_0000,
        two_pow(24) == 0x100_0000,
        two_pow(31) == 0x8000_0000,
        two_pow(32) == 0x1_0000_0000,
{
    assert(two_pow(0) == 1);
    assert(two_pow(1) == 2);
    assert(two_pow(2) == 4);
    assert(two_pow(3) == 8);
    assert(two_pow(4) == 16);
    assert(two_pow(5) == 32);
    assert(two_pow(6) == 64);
    assert(two_pow(7) == 128);
    assert(two_pow(8) == 256);
    assert(two_pow(9) == 512);
    assert(two_pow(10) == 1024);
    assert(two_pow(11) == 2048);
    assert(two_pow(12) == 4096);
    assert(two_pow(13) == 8192);
    assert(two_pow(14) == 16384);
    assert(two_pow(15) == 32768);
    assert(two_pow(16) == 65536);
    assert(two_pow(17) == 131072);
    assert(two_pow(18) == 262144);
    assert(two_pow(19) == 524288);
    assert(two_pow(20) == 1048576);
    assert(two_pow(21) == 2097152);
    assert(two_pow(22) == 4194304);
    assert(two_pow(23) == 8388608);
    assert(two_pow(24) == 16777216);
    assert(two_pow(25) == 33554432);
    assert(two_pow(26) == 67108864);
    assert(two_pow(27) == 134217728);
    assert(two_pow(28) == 268435456);
    assert(two_pow(29) == 536870912);
    assert(two_pow(30) == 1073741824);
    assert(two_pow(31) == 2147483648);
    assert(two_pow(32) == 4294967296);
}

/// Powers of two grow with the exponent.
pub proof fn lemma_two_pow_monotone(i: nat, j: nat)
    requires
        i <= j,
    ensures
        two_pow(i) <= two_pow(j),
    decreases j,
{
    if j > i {
        lemma_two_pow_monotone(i, (j - 1) as nat);
    }
}

/// `2^i` for `i < 32` is at most `2^31`.
proof fn lemma_two_pow_bound(i: nat)
    requires
        i < 32,
    ensures
        two_pow(i) <= 0x8000_0000,
{
    lemma_two_pow_monotone(i, 31);
    lemma_two_pow_values();
}

/// The number of binary digits of `v` (zero for zero).
pub open spec fn bit_length(v: nat) -> nat
    decreases v,
{
    if v == 0 { 0 } else { 1 + bit_length(v / 2) }
}

/// Vorbis `ilog`: the bit length of `v`, with zero counting as one bit unless `allow_zero`.
pub open spec fn ilog_spec(v: u32, allow_zero: bool) -> nat {
    if v == 0 { if allow_zero { 0 } else { 1 } } else { bit_length(v as nat) }
}

/// The bit length of a 32-bit value is at most 32.
proof fn lemma_bit_length_bound(v: nat, k: nat)
    requires
        v < two_pow(k),
    ensures
        bit_length(v) <= k,
    decreases k,
{
    if v > 0 && k > 0 {
        lemma_bit_length_bound(v / 2, (k - 1) as nat);
    }
}

/// Vorbis `ilog` of `value`.
pub fn ilog(value: u32, allow_zero: bool) -> (r: u32)
    ensures
        r == ilog_spec(value, allow_zero),
        r <= 32,
{
    if value == 0 {
        return if allow_zero { 0 } else { 1 };
    }
    proof {
        lemma_two_pow_values();
        lemma_bit_length_bound(value as nat, 32);
    }
    let mut v = value;
    let mut bits: u32 = 0;
    while v != 0
        invariant
            bits + bit_length(v as nat) == bit_length(value as nat),
            bit_length(value as nat) <= 32,
        decreases v,
    {
        bits = bits + 1;
        v = v / 2;
    }
    bits
}

/// The number of set bits of `v`.
pub open spec fn popcount(v: nat) -> nat
    decreases v,
{
    if v == 0 { 0 } else { v % 2 + popcount(v / 2) }
}

/// The number of set bits of a 32-bit value is at most 32.
proof fn lemma_popcount_bound(v: nat, k: nat)
    requires
        v < two_pow(k),
    ensures
        popcount(v) <= k,
    decreases k,
{
    if v > 0 && k > 0 {
        lemma_popcount_bound(v / 2, (k - 1) as nat);
    }
}

/// Counts the set bits of `value`.
pub fn icount(value: u32) -> (r: u32)
    ensures
        r == popcount(value as nat),
{
    proof {
        lemma_two_pow_values();
        lemma_popcount_bound(value as nat, 32);
    }
    let mut v = value;
    let mut count: u32 = 0;
    while v != 0
        invariant
            count + popcount(v as nat) == popcount(value as nat),
            popcount(value as nat) <= 32,
        decreases v,
    {
        count = count + v % 2;
        v = v / 2;
    }
    count
}

/// `b^e` over the naturals.
pub open spec fn nat_pow(b: nat, e: nat) -> nat
    decreases e,
{
    if e == 0 { 1 } else { b * nat_pow(b, (e - 1) as nat) }
}

/// Larger bases give larger powers.
proof fn lemma_nat_pow_monotone(a: nat, b: nat, e: nat)
    requires
        a <= b,
    ensures
        nat_pow(a, e) <= nat_pow(b, e),
    decreases e,
{
    if e > 0 {
        lemma_nat_pow_monotone(a, b, (e - 1) as nat);
        assert(a * nat_pow(a, (e - 1) as nat) <= b * nat_pow(b, (e - 1) as nat)) by (nonlinear_arith)
            requires
                a <= b,
                nat_pow(a, (e - 1) as nat) <= nat_pow(b, (e - 1) as nat),
        ;
    }
}

/// A positive power of a base above `v` exceeds `v`.
proof fn lemma_nat_pow_exceeds(v: nat, e: nat)
    requires
        e >= 1,
    ensures
        nat_pow(v + 1, e) > v,
    decreases e,
{
    assert(nat_pow(v + 1, e) == (v + 1) * nat_pow(v + 1, (e - 1) as nat));
    if e > 1 {
        lemma_nat_pow_exceeds(v, (e - 1) as nat);
        assert((v + 1) * nat_pow(v + 1, (e - 1) as nat) >= nat_pow(v + 1, (e - 1) as nat)) by (nonlinear_arith);
    } else {
        assert(e == 1);
        assert(nat_pow(v + 1, 0) == 1);
        assert(nat_pow(v + 1, 1) == (v + 1) * nat_pow(v + 1, 0));
        assert((v + 1) * 1 == v + 1);
    }
}

/// `v` is the largest value whose `dimensions`-th power is at most `entries`.
pub open spec fn is_quantvals(v: u32, entries: u32, dimensions: u32) -> bool {
    nat_pow(v as nat, dimensions as nat) <= entries && entries < nat_pow(v as nat + 1, dimensions as nat)
}

/// The number of quantized values of a map-type-1 codebook: the largest `v` whose
/// `dimensions`-th power is at most `entries` (zero when either is zero).
pub open spec fn book_quantvals(entries: u32, dimensions: u32) -> u32 {
    if entries == 0 || dimensions == 0 {
        0
    } else {
        choose|v: u32| is_quantvals(v, entries, dimensions)
    }
}

/// `base^e`, or anything above `cap` once the power passes it.
fn capped_pow(base: u32, e: u32, cap: u32) -> (r: u64)
    requires
        cap >= 1,
    ensures
        nat_pow(base as nat, e as nat) <= cap ==> r == nat_pow(base as nat, e as nat),
        nat_pow(base as nat, e as nat) > cap ==> r > cap,
{
    let mut acc: u64 = 1;
    let mut i: u32 = 0;
    while i < e
        invariant
            i <= e,
            acc == nat_pow(base as nat, i as nat),
            acc <= cap,
        decreases e - i,
    {
        assert(acc * (base as u64) <= 0xFFFF_FFFF * 0xFFFF_FFFF) by (nonlinear_arith)
            requires
                acc <= 0xFFFF_FFFF,
                base <= 0xFFFF_FFFF,
        ;
        let next = acc * (base as u64);
        assert(next == nat_pow(base as nat, (i + 1) as nat)) by (nonlinear_arith)
            requires
                next == acc * (base as u64),
                acc == nat_pow(base as nat, i as nat),
                nat_pow(base as nat, (i + 1) as nat) == base * nat_pow(base as nat, i as nat),
        ;
        if next > cap as u64 {
            proof {
                assert(base >= 1) by (nonlinear_arith)
                    requires
                        next == acc * (base as u64),
                        next > 0,
                ;
                lemma_nat_pow_grows(base as nat, (i + 1) as nat, e as nat);
            }
            return next;
        }
        acc = next;
        i = i + 1;
    }
    acc
}

/// Powers of a positive base grow with the exponent.
proof fn lemma_nat_pow_grows(b: nat, i: nat, j: nat)
    requires
        i <= j,
        b >= 1,
    ensures
        nat_pow(b, i) <= nat_pow(b, j),
    decreases j,
{
    if j > i {
        lemma_nat_pow_grows(b, i, (j - 1) as nat);
        assert(b * nat_pow(b, (j - 1) as nat) >= nat_pow(b, (j - 1) as nat)) by (nonlinear_arith)
            requires
                b >= 1,
        ;
    }
}

/// The number of quantized values of a map-type-1 Vorbis codebook.
pub fn vorbis_book_maptype1_quantvals(entries: u32, dimensions: u32) -> (r: u32)
    requires
        entries < u32::MAX,
    ensures
        r == book_quantvals(entries, dimensions),
{
    if entries == 0 || dimensions == 0 {
        return 0;
    }
    let mut lo: u32 = 0;
    let mut hi: u32 = entries + 1;
    proof {
        lemma_nat_pow_exceeds(entries as nat, dimensions as nat);
        assert(nat_pow(0, dimensions as nat) == 0);
    }
    while hi - lo > 1
        invariant
            lo < hi,
            hi <= entries + 1,
            dimensions >= 1,
            nat_pow(lo as nat, dimensions as nat) <= entries,
            nat_pow(hi as nat, dimensions as nat) > entries,
        decreases hi - lo,
    {
        let mid = lo + (hi - lo) / 2;
        if capped_pow(mid, dimensions, entries) <= entries as u64 {
            lo = mid;
        } else {
            hi = mid;
        }
    }
    proof {
        assert(is_quantvals(lo, entries, dimensions));
        let v = book_quantvals(entries, dimensions);
        assert(is_quantvals(v, entries, dimensions));
        if v < lo {
            lemma_nat_pow_monotone(v as nat + 1, lo as nat, dimensions as nat);
        } else if v > lo {
            lemma_nat_pow_monotone(lo as nat + 1, v as nat, dimensions as nat);
        }
    }
    lo
}

/// Reads `count` fields of `bits` bits each from position `o`, returning the next position.
pub open spec fn skip_bits(d: Seq<u8>, o: int, bits: int, count: int) -> Option<int>
    decreases count,
{
    if count <= 0 {
        Some(o)
    } else {
        match take_bits(d, o, bits) {
            None => None,
            Some((_, next)) => skip_bits(d, next, bits, count - 1),
        }
    }
}

/// Reads `n` items with `item`, one after another.
pub open spec fn repeat_items(d: Seq<u8>, o: int, n: int, item: spec_fn(Seq<u8>, int) -> Option<int>) -> Option<int>
    decreases n,
{
    if n <= 0 {
        Some(o)
    } else {
        match item(d, o) {
            None => None,
            Some(next) => repeat_items(d, next, n - 1, item),
        }
    }
}

/// `a + b` saturating at `u32::MAX`.
pub open spec fn sat_add(a: u32, b: u32) -> u32 {
    if a + b > u32::MAX { u32::MAX } else { (a + b) as u32 }
}

/// `a * b` saturating at `u32::MAX`.
pub open spec fn sat_mul(a: u32, b: u32) -> u32 {
    if a * b > u32::MAX { u32::MAX } else { (a * b) as u32 }
}

/// The codeword lengths of a sparse codebook: per entry a used flag, and five bits when used.
pub open spec fn sparse_lengths(d: Seq<u8>, o: int, n: int) -> Option<int>
    decreases n,
{
    if n <= 0 {
        Some(o)
    } else {
        match take_bits(d, o, 1) {
            None => None,
            Some((used, o1)) => if used != 0 {
                match take_bits(d, o1, 5) {
                    None => None,
                    Some((_, o2)) => sparse_lengths(d, o2, n - 1),
                }
            } else {
                sparse_lengths(d, o1, n - 1)
            },
        }
    }
}

/// The codeword lengths of an ordered codebook: runs whose counts take `ilog` of the entries
/// left bits each, until the entries are covered.
pub open spec fn ordered_lengths(d: Seq<u8>, o: int, entries: u32, index: u32) -> Option<int>
    decreases d.len() * 8 - o,
{
    if index >= entries {
        Some(o)
    } else if o < 0 || o > d.len() * 8 {
        None
    } else {
        let bits = ilog_spec((entries - index) as u32, false);
        match take_bits(d, o, bits as int) {
            None => None,
            Some((count, next)) => {
                proof {
                    lemma_bit_length_positive((entries - index) as nat);
                }
                ordered_lengths(d, next, entries, sat_add(index, count))
            },
        }
    }
}

/// A positive value has a positive bit length.
pub proof fn lemma_bit_length_positive(v: nat)
    requires
        v > 0,
    ensures
        bit_length(v) >= 1,
{
}

/// The value-mapping part of a codebook: map type 0 has none; types 1 and 2 carry two 32-bit
/// floats, a value size, a sequence flag, and the quantized values; other types are not
/// supported.
pub open spec fn codebook_values(d: Seq<u8>, o: int, entries: u32, dimensions: u32) -> Option<int> {
    match take_bits(d, o, 4) {
        None => None,
        Some((map_type, o1)) => if map_type == 0 {
            Some(o1)
        } else if map_type == 1 || map_type == 2 {
            match skip_bits(d, o1, 32, 2) {
                None => None,
                Some(o2) => match take_bits(d, o2, 4) {
                    None => None,
                    Some((value_bits, o3)) => match take_bits(d, o3, 1) {
                        None => None,
                        Some((_, o4)) => {
                            let count = if map_type == 1 { book_quantvals(entries, dimensions) } else { sat_mul(entries, dimensions) };
                            skip_bits(d, o4, value_bits + 1, count as int)
                        },
                    },
                },
            }
        } else {
            None
        },
    }
}

/// The head of one codebook (sync pattern, dimensions, entry count, codeword lengths): its
/// entry count, its dimensions, and the position of its value mapping.
pub open spec fn codebook_head(d: Seq<u8>, o: int) -> Option<(u32, u32, int)> {
    match take_bits(d, o, 24) {
        None => None,
        Some((_, o1)) => match take_bits(d, o1, 16) {
            None => None,
            Some((dimensions, o2)) => match take_bits(d, o2, 24) {
                None => None,
                Some((entries, o3)) => match take_bits(d, o3, 1) {
                    None => None,
                    Some((ordered, o4)) => {
                        let lengths = if ordered == 0 {
                            match take_bits(d, o4, 1) {
                                None => None,
                                Some((sparse, o5)) => if sparse != 0 {
                                    sparse_lengths(d, o5, entries as int)
                                } else {
                                    skip_bits(d, o5, 5, entries as int)
                                },
                            }
                        } else {
                            match take_bits(d, o4, 5) {
                                None => None,
                                Some((_, o5)) => ordered_lengths(d, o5, entries, 0),
                            }
                        };
                        match lengths {
                            None => None,
                            Some(o6) => Some((entries, dimensions, o6)),
                        }
                    },
                },
            },
        },
    }
}

/// One codebook: its head, then its value mapping.
pub open spec fn codebook(d: Seq<u8>, o: int) -> Option<int> {
    match codebook_head(d, o) {
        None => None,
        Some((entries, dimensions, o6)) => codebook_values(d, o6, entries, dimensions),
    }
}

/// Whether the codebook at `o` is read intact up to a value mapping of an unsupported type.
pub open spec fn codebook_map_unsupported(d: Seq<u8>, o: int) -> bool {
    match codebook_head(d, o) {
        None => false,
        Some((_, _, o6)) => match take_bits(d, o6, 4) {
            None => false,
            Some((map_type, _)) => map_type > 2,
        },
    }
}

/// Whether reading `n` codebooks from `o` stops at an unsupported value mapping type rather
/// than at the end of the data.
pub open spec fn codebooks_map_unsupported(d: Seq<u8>, o: int, n: int) -> bool
    decreases n,
{
    if n <= 0 {
        false
    } else if codebook_map_unsupported(d, o) {
        true
    } else {
        match codebook(d, o) {
            None => false,
            Some(next) => codebooks_map_unsupported(d, next, n - 1),
        }
    }
}

/// Codebooks that are read whole never stop at an unsupported value mapping type.
proof fn lemma_codebooks_read_whole(d: Seq<u8>, o: int, n: int)
    requires
        repeat_items(d, o, n, item_spec(0, 0)) is Some,
    ensures
        !codebooks_map_unsupported(d, o, n),
    decreases n,
{
    if n > 0 {
        let next = codebook(d, o);
        if codebook_map_unsupported(d, o) {
            assert(next is None);
        }
        if let Some(q) = next {
            lemma_codebooks_read_whole(d, q, n - 1);
        }
    }
}

/// Whether a setup header stops at an unsupported codebook value mapping type.
pub open spec fn setup_map_unsupported(d: Seq<u8>) -> bool {
    match skip_bits(d, 0, 8, 7) {
        None => false,
        Some(o0) => match take_bits(d, o0, 8) {
            None => false,
            Some((books, o1)) => codebooks_map_unsupported(d, o1, books + 1),
        },
    }
}

/// The partition classes of a type-1 floor, in order.
pub open spec fn floor_partitions(d: Seq<u8>, o: int, n: int) -> Option<(Seq<u32>, int)>
    decreases n,
{
    if n <= 0 {
        Some((Seq::empty(), o))
    } else {
        match floor_partitions(d, o, n - 1) {
            None => None,
            Some((ps, o1)) => match take_bits(d, o1, 4) {
                None => None,
                Some((p, o2)) => Some((ps.push(p), o2)),
            },
        }
    }
}

/// The largest partition class (zero for none).
pub open spec fn max_class(ps: Seq<u32>) -> u32
    decreases ps.len(),
{
    if ps.len() == 0 { 0 } else { let m = max_class(ps.drop_last()); if ps.last() > m { ps.last() } else { m } }
}

/// The dimensions of the first `n` classes of a type-1 floor, each with its subclass books.
pub open spec fn floor_classes(d: Seq<u8>, o: int, n: int) -> Option<(Seq<u32>, int)>
    decreases n,
{
    if n <= 0 {
        Some((Seq::empty(), o))
    } else {
        match floor_classes(d, o, n - 1) {
            None => None,
            Some((dims, o1)) => match take_bits(d, o1, 3) {
                None => None,
                Some((dim, o2)) => match take_bits(d, o2, 2) {
                    None => None,
                    Some((subclass, o3)) => {
                        let o4 = if subclass != 0 { match take_bits(d, o3, 8) { None => None, Some((_, x)) => Some(x) } } else { Some(o3) };
                        match o4 {
                            None => None,
                            Some(o5) => match skip_bits(d, o5, 8, two_pow(subclass as nat) as int) {
                                None => None,
                                Some(o6) => Some((dims.push((dim + 1) as u32), o6)),
                            },
                        }
                    },
                },
            },
        }
    }
}

/// The number of X values of a type-1 floor: the dimensions of its partitions' classes.
pub open spec fn floor_value_count(ps: Seq<u32>, dims: Seq<u32>) -> int
    decreases ps.len(),
{
    if ps.len() == 0 { 0 } else { floor_value_count(ps.drop_last(), dims) + dims[ps.last() as int] }
}

/// One floor: type 1 with partitions, classes, multiplier, range bits and X values; or type 0
/// with its fixed fields and book list.
pub open spec fn floor(d: Seq<u8>, o: int) -> Option<int> {
    match take_bits(d, o, 16) {
        None => None,
        Some((floor_type, o1)) => if floor_type != 0 {
            match take_bits(d, o1, 5) {
                None => None,
                Some((count, o2)) => match floor_partitions(d, o2, count as int) {
                    None => None,
                    Some((ps, o3)) => match floor_classes(d, o3, max_class(ps) + 1) {
                        None => None,
                        Some((dims, o4)) => match take_bits(d, o4, 2) {
                            None => None,
                            Some((_, o5)) => match take_bits(d, o5, 4) {
                                None => None,
                                Some((range_bits, o6)) => skip_bits(d, o6, range_bits as int, floor_value_count(ps, dims)),
                            },
                        },
                    },
                },
            }
        } else {
            match skip_bits(d, o1, 8, 1) {
                None => None,
                Some(a) => match skip_bits(d, a, 16, 2) {
                    None => None,
                    Some(b) => match skip_bits(d, b, 6, 1) {
                        None => None,
                        Some(c) => match skip_bits(d, c, 8, 1) {
                            None => None,
                            Some(e) => match take_bits(d, e, 4) {
                                None => None,
                                Some((books, f)) => skip_bits(d, f, 8, books + 1),
                            },
                        },
                    },
                },
            }
        },
    }
}

/// The cascade books of the first `n` residue partitions: their total set-bit count.
pub open spec fn residue_cascades(d: Seq<u8>, o: int, n: int) -> Option<(nat, int)>
    decreases n,
{
    if n <= 0 {
        Some((0, o))
    } else {
        match residue_cascades(d, o, n - 1) {
            None => None,
            Some((total, o1)) => match take_bits(d, o1, 3) {
                None => None,
                Some((low, o2)) => match take_bits(d, o2, 1) {
                    None => None,
                    Some((more, o3)) => if more != 0 {
                        match take_bits(d, o3, 5) {
                            None => None,
                            Some((high, o4)) => Some((total + popcount((low + high * 8) as nat), o4)),
                        }
                    } else {
                        Some((total + popcount(low as nat), o3))
                    },
                },
            },
        }
    }
}

/// One residue: type, bounds, partition size, classifications, class book, cascades and
/// their books.
pub open spec fn residue(d: Seq<u8>, o: int) -> Option<int> {
    match skip_bits(d, o, 16, 1) {
        None => None,
        Some(a) => match skip_bits(d, a, 24, 3) {
            None => None,
            Some(b) => match take_bits(d, b, 6) {
                None => None,
                Some((classes, c)) => match skip_bits(d, c, 8, 1) {
                    None => None,
                    Some(e) => match residue_cascades(d, e, classes + 1) {
                        None => None,
                        Some((books, f)) => skip_bits(d, f, 8, books as int),
                    },
                },
            },
        },
    }
}

/// One mapping: type, submaps, channel couplings, reserved bits, channel muxes, and per
/// submap its time, floor and residue.
pub open spec fn mapping(d: Seq<u8>, o: int, channels: u16) -> Option<int> {
    match skip_bits(d, o, 16, 1) {
        None => None,
        Some(a) => match take_bits(d, a, 1) {
            None => None,
            Some((has_submaps, b)) => {
                let submaps: Option<(int, int)> = if has_submaps != 0 {
                    match take_bits(d, b, 4) { None => None, Some((v, c)) => Some((v + 1, c)) }
                } else {
                    Some((1, b))
                };
                match submaps {
                    None => None,
                    Some((sub, c)) => match take_bits(d, c, 1) {
                        None => None,
                        Some((coupled, e)) => {
                            let coupling: Option<int> = if coupled != 0 {
                                match take_bits(d, e, 8) {
                                    None => None,
                                    Some((steps, f)) => skip_bits(d, f, ilog_spec(channels as u32, true) as int, 2 * (steps + 1)),
                                }
                            } else {
                                Some(e)
                            };
                            match coupling {
                                None => None,
                                Some(g) => match skip_bits(d, g, 2, 1) {
                                    None => None,
                                    Some(h) => {
                                        let muxes = if sub > 1 { skip_bits(d, h, 4, channels as int) } else { Some(h) };
                                        match muxes {
                                            None => None,
                                            Some(k) => skip_bits(d, k, 8, 3 * sub),
                                        }
                                    },
                                },
                            }
                        },
                    },
                }
            },
        },
    }
}

/// The block flags of the first `n` modes.
pub open spec fn mode_flags_of(d: Seq<u8>, o: int, n: int) -> Option<(Seq<bool>, int)>
    decreases n,
{
    if n <= 0 {
        Some((Seq::empty(), o))
    } else {
        match mode_flags_of(d, o, n - 1) {
            None => None,
            Some((flags, o1)) => match take_bits(d, o1, 1) {
                None => None,
                Some((flag, o2)) => match skip_bits(d, o2, 16, 2) {
                    None => None,
                    Some(o3) => match skip_bits(d, o3, 8, 1) {
                        None => None,
                        Some(o4) => Some((flags.push(flag != 0), o4)),
                    },
                },
            },
        }
    }
}

/// The mode block flags a Vorbis setup header declares, walking its codebooks, time domain
/// transforms, floors, residues and mappings; nothing when it is truncated or uses an
/// unsupported codebook map type.
#[verifier::opaque]
pub open spec fn setup_mode_flags(d: Seq<u8>, channels: u16) -> Option<Seq<bool>> {
    match skip_bits(d, 0, 8, 7) {
        None => None,
        Some(o0) => match take_bits(d, o0, 8) {
            None => None,
            Some((books, o1)) => match repeat_items(d, o1, books + 1, |d: Seq<u8>, o: int| codebook(d, o)) {
                None => None,
                Some(o2) => match take_bits(d, o2, 6) {
                    None => None,
                    Some((times, o3)) => match skip_bits(d, o3, 16, times + 1) {
                        None => None,
                        Some(o4) => match take_bits(d, o4, 6) {
                            None => None,
                            Some((floors, o5)) => match repeat_items(d, o5, floors + 1, |d: Seq<u8>, o: int| floor(d, o)) {
                                None => None,
                                Some(o6) => match take_bits(d, o6, 6) {
                                    None => None,
                                    Some((residues, o7)) => match repeat_items(d, o7, residues + 1, |d: Seq<u8>, o: int| residue(d, o)) {
                                        None => None,
                                        Some(o8) => match take_bits(d, o8, 6) {
                                            None => None,
                                            Some((mappings, o9)) => match repeat_items(d, o9, mappings + 1, |d: Seq<u8>, o: int| mapping(d, o, channels)) {
                                                None => None,
                                                Some(o10) => match take_bits(d, o10, 6) {
                                                    None => None,
                                                    Some((modes, o11)) => match mode_flags_of(d, o11, modes + 1) {
                                                        None => None,
                                                        Some((flags, _)) => Some(flags),
                                                    },
                                                },
                                            },
                                        },
                                    },
                                },
                            },
                        },
                    },
                },
            },
        },
    }
}

/// The reader reached the position `spec` says, or failed where `spec` fails.
pub open spec fn followed(old_r: LsbBitReader, new_r: LsbBitReader, ok: bool, spec: Option<int>) -> bool {
    &&& new_r.wf()
    &&& new_r.data@ == old_r.data@
    &&& match spec {
        Some(o) => ok && new_r.bit_offset == o,
        None => !ok,
    }
}

/// Reads `count` fields of `bits` bits.
fn skip_fields(r: &mut LsbBitReader, bits: u32, count: u64) -> (ok: bool)
    requires
        old(r).wf(),
        bits <= 32,
    ensures
        followed(*old(r), *final(r), ok, skip_bits(old(r).data@, old(r).bit_offset as int, bits as int, count as int)),
{
    let ghost d = r.data@;
    let ghost o0 = r.bit_offset as int;
    let mut i: u64 = 0;
    while i < count
        invariant
            r.wf(),
            r.data@ == d,
            d == old(r).data@,
            o0 == old(r).bit_offset,
            bits <= 32,
            i <= count,
            skip_bits(d, o0, bits as int, count as int) == skip_bits(d, r.bit_offset as int, bits as int, count - i),
        decreases count - i,
    {
        if r.read(bits).is_none() {
            return false;
        }
        i = i + 1;
    }
    true
}

/// Reads the codeword lengths of a sparse codebook.
fn read_sparse_lengths(r: &mut LsbBitReader, n: u32) -> (ok: bool)
    requires
        old(r).wf(),
    ensures
        followed(*old(r), *final(r), ok, sparse_lengths(old(r).data@, old(r).bit_offset as int, n as int)),
{
    let ghost d = r.data@;
    let ghost o0 = r.bit_offset as int;
    let mut i: u32 = 0;
    while i < n
        invariant
            r.wf(),
            r.data@ == d,
            d == old(r).data@,
            o0 == old(r).bit_offset,
            i <= n,
            sparse_lengths(d, o0, n as int) == sparse_lengths(d, r.bit_offset as int, n - i),
        decreases n - i,
    {
        match r.read(1) {
            None => return false,
            Some(used) => {
                if used != 0 {
                    if r.read(5).is_none() {
                        return false;
                    }
                }
            },
        }
        i = i + 1;
    }
    true
}

/// Reads the codeword lengths of an ordered codebook.
fn read_ordered_lengths(r: &mut LsbBitReader, entries: u32) -> (ok: bool)
    requires
        old(r).wf(),
    ensures
        followed(*old(r), *final(r), ok, ordered_lengths(old(r).data@, old(r).bit_offset as int, entries, 0)),
{
    let ghost d = r.data@;
    let ghost o0 = r.bit_offset as int;
    let mut index: u32 = 0;
    while index < entries
        invariant
            r.wf(),
            r.data@ == d,
            d == old(r).data@,
            o0 == old(r).bit_offset,
            ordered_lengths(d, o0, entries, 0) == ordered_lengths(d, r.bit_offset as int, entries, index),
        decreases d.len() * 8 - r.bit_offset,
    {
        let bits = ilog(entries - index, false);
        proof { lemma_bit_length_positive((entries - index) as nat); }
        match r.read(bits) {
            None => return false,
            Some(count) => {
                index = if index as u64 + count as u64 > 0xFFFF_FFFF { 0xFFFF_FFFF } else { index + count };
            },
        }
    }
    true
}

/// Reads the value mapping of a codebook.
fn read_codebook_values(r: &mut LsbBitReader, entries: u32, dimensions: u32) -> (res: Result<(), bool>)
    requires
        old(r).wf(),
        entries < u32::MAX,
    ensures
        followed(*old(r), *final(r), res is Ok, codebook_values(old(r).data@, old(r).bit_offset as int, entries, dimensions)),
        res matches Err(unsupported) ==> unsupported == (take_bits(old(r).data@, old(r).bit_offset as int, 4) matches Some((t, _)) && t > 2),
{
    proof { lemma_two_pow_values(); }
    let map_type = match r.read(4) {
        None => return Err(false),
        Some(v) => v,
    };
    if map_type == 0 {
        return Ok(());
    }
    if map_type != 1 && map_type != 2 {
        return Err(true);
    }
    if !skip_fields(r, 32, 2) {
        return Err(false);
    }
    let value_bits = match r.read(4) {
        None => return Err(false),
        Some(v) => v,
    };
    if r.read(1).is_none() {
        return Err(false);
    }
    assert(entries as u64 * dimensions as u64 <= 0xFFFF_FFFF * 0xFFFF_FFFF) by (nonlinear_arith)
        requires
            entries <= 0xFFFF_FFFF,
            dimensions <= 0xFFFF_FFFF,
    ;
    let product = entries as u64 * dimensions as u64;
    let count = if map_type == 1 {
        vorbis_book_maptype1_quantvals(entries, dimensions)
    } else if product > 0xFFFF_FFFF {
        0xFFFF_FFFF
    } else {
        entries * dimensions
    };
    if skip_fields(r, value_bits + 1, count as u64) { Ok(()) } else { Err(false) }
}

/// Reads one codebook, telling an unsupported value mapping type from running out of data.
fn read_codebook(r: &mut LsbBitReader) -> (res: Result<(), bool>)
    requires
        old(r).wf(),
    ensures
        followed(*old(r), *final(r), res is Ok, codebook(old(r).data@, old(r).bit_offset as int)),
        res matches Err(unsupported) ==> unsupported == codebook_map_unsupported(old(r).data@, old(r).bit_offset as int),
{
    if r.read(24).is_none() {
        return Err(false);
    }
    let dimensions = match r.read(16) {
        None => return Err(false),
        Some(v) => v,
    };
    let entries = match r.read(24) {
        None => return Err(false),
        Some(v) => v,
    };
    proof { lemma_two_pow_values(); }
    let ordered = match r.read(1) {
        None => return Err(false),
        Some(v) => v,
    };
    let lengths_ok = if ordered == 0 {
        match r.read(1) {
            None => false,
            Some(sparse) => if sparse != 0 { read_sparse_lengths(r, entries) } else { skip_fields(r, 5, entries as u64) },
        }
    } else {
        match r.read(5) {
            None => false,
            Some(_) => read_ordered_lengths(r, entries),
        }
    };
    if !lengths_ok {
        return Err(false);
    }
    read_codebook_values(r, entries, dimensions)
}

/// Reads `n` codebooks, telling an unsupported value mapping type from running out of data.
fn read_codebooks(r: &mut LsbBitReader, n: u32) -> (res: Result<(), bool>)
    requires
        old(r).wf(),
    ensures
        followed(*old(r), *final(r), res is Ok, repeat_items(old(r).data@, old(r).bit_offset as int, n as int, item_spec(0, 0))),
        res matches Err(unsupported) ==> unsupported == codebooks_map_unsupported(old(r).data@, old(r).bit_offset as int, n as int),
{
    let ghost d = r.data@;
    let ghost o0 = r.bit_offset as int;
    let mut i: u32 = 0;
    while i < n
        invariant
            r.wf(),
            r.data@ == d,
            d == old(r).data@,
            o0 == old(r).bit_offset,
            i <= n,
            repeat_items(d, o0, n as int, item_spec(0, 0)) == repeat_items(d, r.bit_offset as int, n - i, item_spec(0, 0)),
            codebooks_map_unsupported(d, o0, n as int) == codebooks_map_unsupported(d, r.bit_offset as int, n - i),
        decreases n - i,
    {
        match read_codebook(r) {
            Err(unsupported) => return Err(unsupported),
            Ok(()) => {},
        }
        i = i + 1;
    }
    Ok(())
}

/// Reads `n` items: floors (1), residues (2) or mappings (3).
fn read_items(r: &mut LsbBitReader, n: u32, which: u8, channels: u16) -> (ok: bool)
    requires
        old(r).wf(),
        1 <= which <= 3,
    ensures
        followed(*old(r), *final(r), ok, repeat_items(old(r).data@, old(r).bit_offset as int, n as int, item_spec(which, channels))),
{
    let ghost d = r.data@;
    let ghost o0 = r.bit_offset as int;
    let mut i: u32 = 0;
    while i < n
        invariant
            r.wf(),
            r.data@ == d,
            d == old(r).data@,
            o0 == old(r).bit_offset,
            1 <= which <= 3,
            i <= n,
            repeat_items(d, o0, n as int, item_spec(which, channels)) == repeat_items(d, r.bit_offset as int, n - i, item_spec(which, channels)),
        decreases n - i,
    {
        let ok = if which == 1 {
            read_floor(r)
        } else if which == 2 {
            read_residue(r)
        } else {
            read_mapping(r, channels)
        };
        if !ok {
            return false;
        }
        i = i + 1;
    }
    true
}

/// The grammar of one item of a setup-header list: codebook, floor, residue or mapping.
pub open spec fn item_spec(which: u8, channels: u16) -> spec_fn(Seq<u8>, int) -> Option<int> {
    if which == 0 {
        |d: Seq<u8>, o: int| codebook(d, o)
    } else if which == 1 {
        |d: Seq<u8>, o: int| floor(d, o)
    } else if which == 2 {
        |d: Seq<u8>, o: int| residue(d, o)
    } else {
        |d: Seq<u8>, o: int| mapping(d, o, channels)
    }
}

/// Reads the partition classes of a type-1 floor.
fn read_floor_partitions(r: &mut LsbBitReader, n: u32) -> (res: Option<Vec<u32>>)
    requires
        old(r).wf(),
    ensures
        final(r).wf(),
        final(r).data@ == old(r).data@,
        match floor_partitions(old(r).data@, old(r).bit_offset as int, n as int) {
            Some((ps, o)) => res matches Some(v) && v@ == ps && final(r).bit_offset == o,
            None => res is None,
        },
        res matches Some(v) ==> v@.len() == n && forall|k: int| 0 <= k < v@.len() ==> v@[k] < 16,
{
    proof { lemma_two_pow_values(); }
    let ghost d = r.data@;
    let ghost o0 = r.bit_offset as int;
    let mut out: Vec<u32> = Vec::new();
    let mut i: u32 = 0;
    while i < n
        invariant
            r.wf(),
            r.data@ == d,
            d == old(r).data@,
            o0 == old(r).bit_offset,
            i <= n,
            two_pow(4) == 16,
            out@.len() == i,
            floor_partitions(d, o0, i as int) == Some((out@, r.bit_offset as int)),
            forall|k: int| 0 <= k < out@.len() ==> out@[k] < 16,
        decreases n - i,
    {
        match r.read(4) {
            None => {
                proof { lemma_partitions_failure(d, o0, i + 1, n as int); }
                return None;
            },
            Some(p) => out.push(p),
        }
        i = i + 1;
    }
    Some(out)
}

/// Once partition reading fails, reading more fails too.
proof fn lemma_partitions_failure(d: Seq<u8>, o: int, n: int, m: int)
    requires
        0 <= n <= m,
        floor_partitions(d, o, n) is None,
    ensures
        floor_partitions(d, o, m) is None,
    decreases m - n,
{
    if m > n {
        lemma_partitions_failure(d, o, n, m - 1);
    }
}

/// Once class reading fails, reading more fails too.
proof fn lemma_classes_failure(d: Seq<u8>, o: int, n: int, m: int)
    requires
        0 <= n <= m,
        floor_classes(d, o, n) is None,
    ensures
        floor_classes(d, o, m) is None,
    decreases m - n,
{
    if m > n {
        lemma_classes_failure(d, o, n, m - 1);
    }
}

/// Once cascade reading fails, reading more fails too.
proof fn lemma_cascades_failure(d: Seq<u8>, o: int, n: int, m: int)
    requires
        0 <= n <= m,
        residue_cascades(d, o, n) is None,
    ensures
        residue_cascades(d, o, m) is None,
    decreases m - n,
{
    if m > n {
        lemma_cascades_failure(d, o, n, m - 1);
    }
}

/// Once mode reading fails, reading more fails too.
proof fn lemma_modes_failure(d: Seq<u8>, o: int, n: int, m: int)
    requires
        0 <= n <= m,
        mode_flags_of(d, o, n) is None,
    ensures
        mode_flags_of(d, o, m) is None,
    decreases m - n,
{
    if m > n {
        lemma_modes_failure(d, o, n, m - 1);
    }
}

/// Reads the class dimensions of a type-1 floor.
fn read_floor_classes(r: &mut LsbBitReader, n: u32) -> (res: Option<Vec<u32>>)
    requires
        old(r).wf(),
    ensures
        final(r).wf(),
        final(r).data@ == old(r).data@,
        match floor_classes(old(r).data@, old(r).bit_offset as int, n as int) {
            Some((dims, o)) => res matches Some(v) && v@ == dims && final(r).bit_offset == o,
            None => res is None,
        },
        res matches Some(v) ==> v@.len() == n && forall|k: int| 0 <= k < v@.len() ==> v@[k] <= 8,
{
    proof { lemma_two_pow_values(); }
    let ghost d = r.data@;
    let ghost o0 = r.bit_offset as int;
    let mut out: Vec<u32> = Vec::new();
    let mut i: u32 = 0;
    while i < n
        invariant
            r.wf(),
            r.data@ == d,
            d == old(r).data@,
            o0 == old(r).bit_offset,
            i <= n,
            out@.len() == i,
            two_pow(2) == 4 && two_pow(3) == 8 && two_pow(8) == 256,
            floor_classes(d, o0, i as int) == Some((out@, r.bit_offset as int)),
            forall|k: int| 0 <= k < out@.len() ==> out@[k] <= 8,
        decreases n - i,
    {
        let dim = match r.read(3) {
            None => {
                proof { lemma_classes_failure(d, o0, i + 1, n as int); }
                return None;
            },
            Some(v) => v,
        };
        let subclass = match r.read(2) {
            None => {
                proof { lemma_classes_failure(d, o0, i + 1, n as int); }
                return None;
            },
            Some(v) => v,
        };
        if subclass != 0 {
            if r.read(8).is_none() {
                proof { lemma_classes_failure(d, o0, i + 1, n as int); }
                return None;
            }
        }
        let books: u64 = if subclass == 0 { 1 } else if subclass == 1 { 2 } else if subclass == 2 { 4 } else { 8 };
        proof {
            reveal_with_fuel(two_pow, 4);
        }
        if !skip_fields(r, 8, books) {
            proof { lemma_classes_failure(d, o0, i + 1, n as int); }
            return None;
        }
        out.push(dim + 1);
        i = i + 1;
    }
    Some(out)
}

/// Reads one floor.
fn read_floor(r: &mut LsbBitReader) -> (ok: bool)
    requires
        old(r).wf(),
    ensures
        followed(*old(r), *final(r), ok, floor(old(r).data@, old(r).bit_offset as int)),
{
    proof { lemma_two_pow_values(); }
    let floor_type = match r.read(16) {
        None => return false,
        Some(v) => v,
    };
    if floor_type != 0 {
        let count = match r.read(5) {
            None => return false,
            Some(v) => v,
        };
        let partitions = match read_floor_partitions(r, count) {
            None => return false,
            Some(p) => p,
        };
        let mut largest: u32 = 0;
        let mut k: usize = 0;
        while k < partitions.len()
            invariant
                k <= partitions@.len(),
                largest == max_class(partitions@.take(k as int)),
                largest < 16,
                forall|q: int| 0 <= q < partitions@.len() ==> partitions@[q] < 16,
            decreases partitions.len() - k,
        {
            assert(partitions@.take(k + 1).drop_last() == partitions@.take(k as int));
            if partitions[k] > largest {
                largest = partitions[k];
            }
            k = k + 1;
        }
        assert(partitions@.take(partitions@.len() as int) == partitions@);
        let dims = match read_floor_classes(r, largest + 1) {
            None => return false,
            Some(c) => c,
        };
        if r.read(2).is_none() {
            return false;
        }
        let range_bits = match r.read(4) {
            None => return false,
            Some(v) => v,
        };
        let mut values: u64 = 0;
        let mut q: usize = 0;
        while q < partitions.len()
            invariant
                q <= partitions@.len(),
                dims@.len() == largest + 1,
                largest == max_class(partitions@),
                forall|k2: int| 0 <= k2 < dims@.len() ==> dims@[k2] <= 8,
                values == floor_value_count(partitions@.take(q as int), dims@),
                values <= q * 8,
                partitions@.len() < 32,
            decreases partitions.len() - q,
        {
            assert(partitions@.take(q + 1).drop_last() == partitions@.take(q as int));
            proof { lemma_max_class(partitions@, q as int); }
            values = values + dims[partitions[q] as usize] as u64;
            q = q + 1;
        }
        assert(partitions@.take(partitions@.len() as int) == partitions@);
        skip_fields(r, range_bits, values)
    } else {
        if !skip_fields(r, 8, 1) {
            return false;
        }
        if !skip_fields(r, 16, 2) {
            return false;
        }
        if !skip_fields(r, 6, 1) {
            return false;
        }
        if !skip_fields(r, 8, 1) {
            return false;
        }
        let books = match r.read(4) {
            None => return false,
            Some(v) => v,
        };
        skip_fields(r, 8, books as u64 + 1)
    }
}

/// Every partition class is at most the largest one.
proof fn lemma_max_class(ps: Seq<u32>, k: int)
    requires
        0 <= k < ps.len(),
    ensures
        ps[k] <= max_class(ps),
    decreases ps.len(),
{
    if k < ps.len() - 1 {
        lemma_max_class(ps.drop_last(), k);
    }
}

/// Reads the cascade books of a residue and counts their set bits.
fn read_residue_cascades(r: &mut LsbBitReader, n: u32) -> (res: Option<u64>)
    requires
        old(r).wf(),
        n <= 64,
    ensures
        final(r).wf(),
        final(r).data@ == old(r).data@,
        match residue_cascades(old(r).data@, old(r).bit_offset as int, n as int) {
            Some((total, o)) => res == Some(total as u64) && final(r).bit_offset == o && total <= 32 * n,
            None => res is None,
        },
{
    proof { lemma_two_pow_values(); }
    let ghost d = r.data@;
    let ghost o0 = r.bit_offset as int;
    let mut total: u64 = 0;
    let mut i: u32 = 0;
    while i < n
        invariant
            r.wf(),
            r.data@ == d,
            d == old(r).data@,
            o0 == old(r).bit_offset,
            i <= n,
            n <= 64,
            total <= i * 32,
            two_pow(1) == 2 && two_pow(3) == 8 && two_pow(5) == 32 && two_pow(32) == 0x1_0000_0000,
            residue_cascades(d, o0, i as int) == Some((total as nat, r.bit_offset as int)),
        decreases n - i,
    {
        let low = match r.read(3) {
            None => {
                proof { lemma_cascades_failure(d, o0, i + 1, n as int); }
                return None;
            },
            Some(v) => v,
        };
        let more = match r.read(1) {
            None => {
                proof { lemma_cascades_failure(d, o0, i + 1, n as int); }
                return None;
            },
            Some(v) => v,
        };
        let cascade = if more != 0 {
            match r.read(5) {
                None => {
                    proof { lemma_cascades_failure(d, o0, i + 1, n as int); }
                    return None;
                },
                Some(high) => low + high * 8,
            }
        } else {
            low
        };
        let bits = icount(cascade);
        proof {
            lemma_popcount_bound(cascade as nat, 32);
        }
        total = total + bits as u64;
        i = i + 1;
    }
    Some(total)
}

/// Reads one residue.
fn read_residue(r: &mut LsbBitReader) -> (ok: bool)
    requires
        old(r).wf(),
    ensures
        followed(*old(r), *final(r), ok, residue(old(r).data@, old(r).bit_offset as int)),
{
    proof { lemma_two_pow_values(); }
    if !skip_fields(r, 16, 1) {
        return false;
    }
    if !skip_fields(r, 24, 3) {
        return false;
    }
    let classes = match r.read(6) {
        None => return false,
        Some(v) => v,
    };
    if !skip_fields(r, 8, 1) {
        return false;
    }
    let books = match read_residue_cascades(r, classes + 1) {
        None => return false,
        Some(b) => b,
    };
    skip_fields(r, 8, books)
}

/// Reads one mapping.
fn read_mapping(r: &mut LsbBitReader, channels: u16) -> (ok: bool)
    requires
        old(r).wf(),
    ensures
        followed(*old(r), *final(r), ok, mapping(old(r).data@, old(r).bit_offset as int, channels)),
{
    proof { lemma_two_pow_values(); }
    if !skip_fields(r, 16, 1) {
        return false;
    }
    let has_submaps = match r.read(1) {
        None => return false,
        Some(v) => v,
    };
    let submaps: u64 = if has_submaps != 0 {
        match r.read(4) {
            None => return false,
            Some(v) => v as u64 + 1,
        }
    } else {
        1
    };
    let coupled = match r.read(1) {
        None => return false,
        Some(v) => v,
    };
    if coupled != 0 {
        let steps = match r.read(8) {
            None => return false,
            Some(v) => v,
        };
        let channel_bits = ilog(channels as u32, true);
        if !skip_fields(r, channel_bits, 2 * (steps as u64 + 1)) {
            return false;
        }
    }
    if !skip_fields(r, 2, 1) {
        return false;
    }
    if submaps > 1 {
        if !skip_fields(r, 4, channels as u64) {
            return false;
        }
    }
    skip_fields(r, 8, 3 * submaps)
}

/// Reads the mode block flags.
fn read_mode_flags(r: &mut LsbBitReader, n: u32) -> (res: Option<Vec<bool>>)
    requires
        old(r).wf(),
    ensures
        final(r).wf(),
        final(r).data@ == old(r).data@,
        match mode_flags_of(old(r).data@, old(r).bit_offset as int, n as int) {
            Some((flags, o)) => res matches Some(v) && v@ == flags && final(r).bit_offset == o,
            None => res is None,
        },
        res matches Some(v) ==> v@.len() == n,
{
    let ghost d = r.data@;
    let ghost o0 = r.bit_offset as int;
    let mut out: Vec<bool> = Vec::new();
    let mut i: u32 = 0;
    while i < n
        invariant
            r.wf(),
            r.data@ == d,
            d == old(r).data@,
            o0 == old(r).bit_offset,
            i <= n,
            out@.len() == i,
            mode_flags_of(d, o0, i as int) == Some((out@, r.bit_offset as int)),
        decreases n - i,
    {
        let flag = match r.read(1) {
            None => {
                proof { lemma_modes_failure(d, o0, i + 1, n as int); }
                return None;
            },
            Some(v) => v,
        };
        if !skip_fields(r, 16, 2) {
            proof { lemma_modes_failure(d, o0, i + 1, n as int); }
            return None;
        }
        if !skip_fields(r, 8, 1) {
            proof { lemma_modes_failure(d, o0, i + 1, n as int); }
            return None;
        }
        out.push(flag != 0);
        i = i + 1;
    }
    Some(out)
}

/// A Vorbis header packet of type `t`: the type byte and the "vorbis" signature.
pub open spec fn vorbis_header_ok(p: Seq<u8>, t: u8) -> bool {
    p.len() >= 7 && p[0] == t && p.subrange(1, 7) == seq![0x76u8, 0x6F, 0x72, 0x62, 0x69, 0x73]
}

/// Checks the type byte and signature of a Vorbis header packet.
pub fn validate_vorbis_header_packet(packet: &[u8], expected_type: u8, spec: &str, name: &str) -> (r: Result<(), MuxError>)
    ensures
        vorbis_header_ok(packet@, expected_type) ==> r is Ok,
        !vorbis_header_ok(packet@, expected_type) ==> (r matches Err(e) && is_import_error(e, spec@)),
{
    let ok = packet.len() >= 7 && packet[0] == expected_type && packet[1] == 0x76 && packet[2] == 0x6F
        && packet[3] == 0x72 && packet[4] == 0x62 && packet[5] == 0x69 && packet[6] == 0x73;
    if packet.len() >= 7 {
        assert(ok == (packet[0] == expected_type && packet@.subrange(1, 7) =~= seq![0x76u8, 0x6F, 0x72, 0x62, 0x69, 0x73]));
    }
    if !ok {
        let message = String::from_str("Ogg Vorbis ").concat(name).concat(" header was missing the expected Vorbis signature");
        return Err(MuxError::UnsupportedTrackImport { spec: spec.to_owned(), message });
    }
    Ok(())
}

/// The error for a setup header that ends too early.
pub fn truncated_vorbis_setup_error(spec: &str) -> (e: MuxError)
    ensures
        is_import_error_with(e, spec@, "Ogg Vorbis setup header is truncated"@),
{
    import_error(spec, "Ogg Vorbis setup header is truncated")
}

/// The little-endian value of four bytes at `i`.
pub open spec fn le32_at(p: Seq<u8>, i: int) -> int {
    p[i] as int + (p[i + 1] as int) * 0x100 + (p[i + 2] as int) * 0x1_0000 + (p[i + 3] as int) * 0x100_0000
}

/// The core fields of a Vorbis identification header: channels, sample rate, and the short
/// and long block sizes; nothing when the header is malformed or its fields are invalid.
pub open spec fn identification_fields(p: Seq<u8>) -> Option<(u16, u32, u32, u32)> {
    if !vorbis_header_ok(p, 1) || p.len() < 30 || le32_at(p, 7) != 0 {
        None
    } else {
        let channels = p[11];
        let sample_rate = le32_at(p, 12);
        let min_block = two_pow((p[28] % 16) as nat);
        let max_block = two_pow((p[28] / 16) as nat);
        if channels == 0 || sample_rate == 0 || min_block < 8 || max_block < min_block || p[29] != 1 {
            None
        } else {
            Some((channels as u16, sample_rate as u32, min_block as u32, max_block as u32))
        }
    }
}

/// Doubling `n` this many times stays at most the count: `floor(log2(n))` for positive `n`.
pub open spec fn halvings(n: nat) -> nat
    decreases n,
{
    if n <= 1 { 0 } else { 1 + halvings(n / 2) }
}

/// A count below `2^(k+1)` halves at most `k` times.
proof fn lemma_halvings_bound(n: nat, k: nat)
    requires
        n < two_pow(k + 1),
    ensures
        halvings(n) <= k,
    decreases k,
{
    assert(two_pow(k + 1) == 2 * two_pow(k));
    if k == 0 {
        assert(two_pow(0) == 1);
    } else if n > 1 {
        lemma_halvings_bound(n / 2, (k - 1) as nat);
    }
}

/// What the identification and setup headers say about decoding a Vorbis stream.
pub struct VorbisParser {
    pub channels: u16,
    pub sample_rate: u32,
    pub min_block: u32,
    pub max_block: u32,
    pub mode_bits: u8,
    pub mode_flags: [bool; 64],
    pub saw_identification: bool,
}

/// What a Vorbis parser holds, its mode flags as a sequence.
pub struct VorbisParserView {
    pub channels: u16,
    pub sample_rate: u32,
    pub min_block: u32,
    pub max_block: u32,
    pub mode_bits: u8,
    pub mode_flags: Seq<bool>,
    pub saw_identification: bool,
}

impl View for VorbisParser {
    type V = VorbisParserView;

    open spec fn view(&self) -> VorbisParserView {
        VorbisParserView {
            channels: self.channels,
            sample_rate: self.sample_rate,
            min_block: self.min_block,
            max_block: self.max_block,
            mode_bits: self.mode_bits,
            mode_flags: self.mode_flags@,
            saw_identification: self.saw_identification,
        }
    }
}

impl VorbisParser {
    /// A parser that has seen no header.
    pub fn new() -> (r: Self)
        ensures
            r.channels == 0 && r.sample_rate == 0 && r.min_block == 0 && r.max_block == 0 && r.mode_bits == 0,
            forall|i: int| 0 <= i < 64 ==> !r.mode_flags@[i],
            !r.saw_identification,
    {
        VorbisParser {
            channels: 0,
            sample_rate: 0,
            min_block: 0,
            max_block: 0,
            mode_bits: 0,
            mode_flags: [false; 64],
            saw_identification: false,
        }
    }

    /// Reads the identification header: channels, sample rate and block sizes.
    pub fn parse_identification_header(&mut self, packet: &[u8], spec: &str) -> (r: Result<(), MuxError>)
        ensures
            match identification_fields(packet@) {
                Some((channels, rate, min_block, max_block)) => r is Ok && final(self).channels == channels
                    && final(self).sample_rate == rate && final(self).min_block == min_block
                    && final(self).max_block == max_block && final(self).saw_identification
                    && final(self).mode_bits == old(self).mode_bits && final(self).mode_flags == old(self).mode_flags,
                None => r matches Err(e) && is_import_error(e, spec@) && *final(self) == *old(self),
            },
    {
        match validate_vorbis_header_packet(packet, 1, spec, "identification") {
            Err(e) => return Err(e),
            Ok(()) => {},
        }
        if packet.len() < 30 {
            return Err(import_error(spec, "Ogg Vorbis identification header is truncated"));
        }
        let version = packet[7] as u32 + (packet[8] as u32) * 0x100 + (packet[9] as u32) * 0x1_0000 + (packet[10] as u32) * 0x100_0000;
        if version != 0 {
            return Err(import_error(spec, "Ogg Vorbis identification header used an unsupported version"));
        }
        let channels = packet[11];
        let sample_rate = packet[12] as u32 + (packet[13] as u32) * 0x100 + (packet[14] as u32) * 0x1_0000 + (packet[15] as u32) * 0x100_0000;
        let min_exp = packet[28] % 16;
        let max_exp = packet[28] / 16;
        proof {
            lemma_two_pow_values();
            lemma_two_pow_monotone(min_exp as nat, 15);
            lemma_two_pow_monotone(max_exp as nat, 15);
            assert(two_pow(15) == 32768);
        }
        let min_block = block_size(min_exp);
        let max_block = block_size(max_exp);
        if channels == 0 || sample_rate == 0 || min_block < 8 || max_block < min_block || packet[29] != 1 {
            return Err(import_error(spec, "Ogg Vorbis identification header carried invalid core fields"));
        }
        self.channels = channels as u16;
        self.sample_rate = sample_rate;
        self.min_block = min_block;
        self.max_block = max_block;
        self.saw_identification = true;
        Ok(())
    }

    /// Reads the setup header, keeping what audio packets need: the block flag of each mode
    /// and the number of bits that select a mode.
    pub fn parse_setup_header(&mut self, packet: &[u8], spec: &str) -> (r: Result<(), MuxError>)
        requires
            packet@.len() * 8 <= usize::MAX,
        ensures
            !vorbis_header_ok(packet@, 5) || !old(self).saw_identification ==> (r matches Err(e) && is_import_error(e, spec@)),
            vorbis_header_ok(packet@, 5) && old(self).saw_identification ==> match setup_mode_flags(packet@, old(self).channels) {
                Some(flags) => r is Ok
                    && final(self).mode_flags@ == flags + old(self).mode_flags@.skip(flags.len() as int)
                    && final(self).mode_bits == halvings(flags.len())
                    && final(self).channels == old(self).channels && final(self).sample_rate == old(self).sample_rate
                    && final(self).min_block == old(self).min_block && final(self).max_block == old(self).max_block
                    && final(self).saw_identification,
                None => r matches Err(e) && is_import_error_with(e, spec@, if setup_map_unsupported(packet@) {
                    "Ogg Vorbis setup header used an unsupported codebook map type"@
                } else {
                    "Ogg Vorbis setup header is truncated"@
                }),
            },
            r is Err ==> *final(self) == *old(self),
            r is Ok ==> final(self).mode_bits <= 6,
    {
        match validate_vorbis_header_packet(packet, 5, spec, "setup") {
            Err(e) => return Err(e),
            Ok(()) => {},
        }
        if !self.saw_identification {
            return Err(import_error(spec, "Ogg Vorbis setup header appeared before identification"));
        }
        let flags = match read_setup_mode_flags(packet, self.channels) {
            Err(true) => return Err(import_error(spec, "Ogg Vorbis setup header used an unsupported codebook map type")),
            Err(false) => return Err(truncated_vorbis_setup_error(spec)),
            Ok(f) => f,
        };
        let ghost before = self.mode_flags@;
        let mut i: usize = 0;
        while i < flags.len()
            invariant
                flags@.len() <= 64,
                i <= flags@.len(),
                self.mode_flags@ == flags@.take(i as int) + before.skip(i as int),
                before.len() == 64,
                before == old(self).mode_flags@,
                self.channels == old(self).channels,
                self.sample_rate == old(self).sample_rate,
                self.min_block == old(self).min_block,
                self.max_block == old(self).max_block,
                self.saw_identification,
            decreases flags.len() - i,
        {
            self.mode_flags[i] = flags[i];
            assert(self.mode_flags@ =~= flags@.take(i + 1) + before.skip(i + 1));
            i = i + 1;
        }
        assert(flags@.take(flags@.len() as int) == flags@);
        proof { lemma_two_pow_values(); lemma_halvings_bound(flags@.len(), 6); }
        let mut bits: u8 = 0;
        let mut remaining = flags.len();
        while remaining > 1
            invariant
                bits + halvings(remaining as nat) == halvings(flags@.len()),
                halvings(flags@.len()) <= 6,
            decreases remaining,
        {
            bits = bits + 1;
            remaining = remaining / 2;
        }
        self.mode_bits = bits;
        Ok(())
    }

    /// The number of PCM samples an audio packet contributes: half its block size, chosen by
    /// the packet's mode.
    pub fn packet_duration(&self, packet: &[u8], spec: &str) -> (r: Result<u32, MuxError>)
        requires
            packet@.len() * 8 <= usize::MAX,
            self.mode_bits <= 32,
        ensures
            match audio_packet_mode(packet@, self.mode_bits) {
                Some(mode) => if mode < 64 {
                    r == Ok::<u32, MuxError>((if self.mode_flags@[mode as int] { self.max_block } else { self.min_block }) / 2)
                } else {
                    r matches Err(e) && is_import_error(e, spec@)
                },
                None => r matches Err(e) && is_import_error(e, spec@),
            },
    {
        if self.mode_bits == 0 {
            return Err(import_error(spec, "Ogg Vorbis setup did not expose any audio modes"));
        }
        let mut reader = LsbBitReader::new(packet);
        let packet_type = match reader.read(1) {
            None => return Err(import_error(spec, "Ogg Vorbis audio packet is truncated")),
            Some(v) => v,
        };
        if packet_type != 0 {
            return Err(import_error(spec, "Ogg Vorbis packet was not an audio packet"));
        }
        let mode = match reader.read(self.mode_bits as u32) {
            None => return Err(import_error(spec, "Ogg Vorbis audio packet is truncated before the mode index")),
            Some(v) => v,
        };
        if mode >= 64 {
            return Err(import_error(spec, "Ogg Vorbis audio packet used an invalid mode index"));
        }
        let block = if self.mode_flags[mode as usize] { self.max_block } else { self.min_block };
        Ok(block / 2)
    }
}

/// The mode an audio packet selects: after a zero packet-type bit, `mode_bits` bits; nothing
/// when the stream declared no modes, the packet is not audio, or it is truncated.
pub open spec fn audio_packet_mode(p: Seq<u8>, mode_bits: u8) -> Option<u32> {
    if mode_bits == 0 {
        None
    } else {
        match take_bits(p, 0, 1) {
            None => None,
            Some((packet_type, o1)) => if packet_type != 0 {
                None
            } else {
                match take_bits(p, o1, mode_bits as int) {
                    None => None,
                    Some((mode, _)) => Some(mode),
                }
            },
        }
    }
}

/// `2^e` for a block-size exponent.
fn block_size(e: u8) -> (r: u32)
    requires
        e < 16,
    ensures
        r == two_pow(e as nat),
{
    let mut v: u32 = 1;
    let mut i: u8 = 0;
    while i < e
        invariant
            i <= e,
            e < 16,
            v == two_pow(i as nat),
            v <= 0x8000,
        decreases e - i,
    {
        proof {
            lemma_two_pow_monotone((i + 1) as nat, 15);
            lemma_two_pow_values();
            assert(two_pow(15) == 32768);
        }
        v = v * 2;
        i = i + 1;
    }
    v
}

/// Walks a setup header to its mode block flags.
fn read_setup_mode_flags(packet: &[u8], channels: u16) -> (r: Result<Vec<bool>, bool>)
    requires
        packet@.len() * 8 <= usize::MAX,
    ensures
        match setup_mode_flags(packet@, channels) {
            Some(flags) => r matches Ok(v) && v@ == flags && flags.len() <= 64,
            None => r == Err::<Vec<bool>, bool>(setup_map_unsupported(packet@)),
        },
{
    proof {
        lemma_two_pow_values();
        reveal(setup_mode_flags);
    }
    let mut reader = LsbBitReader::new(packet);
    let r = &mut reader;
    if !skip_fields(r, 8, 7) {
        return Err(false);
    }
    let books = match r.read(8) {
        None => return Err(false),
        Some(v) => v,
    };
    let ghost o1 = r.bit_offset as int;
    match read_codebooks(r, books + 1) {
        Err(unsupported) => return Err(unsupported),
        Ok(()) => {},
    }
    proof { lemma_codebooks_read_whole(packet@, o1, books + 1); }
    let times = match r.read(6) {
        None => return Err(false),
        Some(v) => v,
    };
    if !skip_fields(r, 16, times as u64 + 1) {
        return Err(false);
    }
    let floors = match r.read(6) {
        None => return Err(false),
        Some(v) => v,
    };
    if !read_items(r, floors + 1, 1, channels) {
        return Err(false);
    }
    let residues = match r.read(6) {
        None => return Err(false),
        Some(v) => v,
    };
    if !read_items(r, residues + 1, 2, channels) {
        return Err(false);
    }
    let mappings = match r.read(6) {
        None => return Err(false),
        Some(v) => v,
    };
    if !read_items(r, mappings + 1, 3, channels) {
        return Err(false);
    }
    let modes = match r.read(6) {
        None => return Err(false),
        Some(v) => v,
    };
    match read_mode_flags(r, modes + 1) {
        Some(flags) => Ok(flags),
        None => Err(false),
    }
}


/// The number of samples an audio packet contributes, as [`VorbisParser::packet_duration`]
/// computes it.
pub open spec fn vorbis_packet_duration(parser: VorbisParserView, p: Seq<u8>) -> Option<u32> {
    match audio_packet_mode(p, parser.mode_bits) {
        Some(mode) => if mode < 64 {
            Some((if parser.mode_flags[mode as int] { parser.max_block } else { parser.min_block }) / 2)
        } else {
            None
        },
        None => None,
    }
}

/// The nominal durations of packets, or nothing when one is not a valid audio packet.
pub open spec fn vorbis_durations(parser: VorbisParserView, ps: Seq<Seq<u8>>) -> Option<Seq<u64>>
    decreases ps.len(),
{
    if ps.len() == 0 {
        Some(Seq::empty())
    } else {
        match vorbis_durations(parser, ps.drop_last()) {
            None => None,
            Some(d) => match vorbis_packet_duration(parser, ps.last()) {
                None => None,
                Some(x) => Some(d.push(x as u64)),
            },
        }
    }
}

/// The duration of packet `i`: its nominal one, cut on the last packet of the final page to
/// what the page's granule position leaves once the samples before it are counted.
pub open spec fn vorbis_trimmed(nominal: u64, decoded: int, prior: int, granule: u64, last_of_final: bool) -> int {
    if last_of_final && granule != u64::MAX {
        let after_decoded = if granule >= decoded { granule - decoded } else { 0 };
        let remaining = if after_decoded >= prior { after_decoded - prior } else { 0 };
        if remaining < nominal { remaining } else { nominal as int }
    } else {
        nominal as int
    }
}

/// Appends the audio packets of one page from packet `i` on, with their nominal durations.
pub open spec fn vorbis_append_from(
    decoded: int,
    logical: int,
    segs: Seq<SourceSegment>,
    samples: Seq<StagedSample>,
    prior: int,
    packets: Seq<(Seq<OggSpan>, u32)>,
    nominal: Seq<u64>,
    granule: u64,
    eos: bool,
    i: int,
) -> Option<(int, int, Seq<SourceSegment>, Seq<StagedSample>)>
    decreases packets.len() - i,
{
    if i < 0 || i >= packets.len() || i >= nominal.len() {
        Some((decoded, logical, segs, samples))
    } else {
        let p = packets[i];
        let d = vorbis_trimmed(nominal[i], decoded, prior, granule, eos && i == packets.len() - 1);
        if logical + spans_total(p.0) > u64::MAX || d > u32::MAX || decoded + d > u64::MAX || prior + nominal[i] > u64::MAX {
            None
        } else {
            vorbis_append_from(
                decoded + d,
                logical + spans_total(p.0),
                segs + span_segments(p.0, logical),
                samples.push(StagedSample { data_offset: logical as u64, data_size: p.1, duration: d as u32, composition_time_offset: 0, is_sync_sample: true }),
                prior + nominal[i],
                packets,
                nominal,
                granule,
                eos,
                i + 1,
            )
        }
    }
}

/// A packet and its bytes, as values.
pub open spec fn audio_packet_views(v: Seq<(CompletedOggPacket, Vec<u8>)>) -> Seq<(Seq<OggSpan>, u32)> {
    v.map_values(|p: (CompletedOggPacket, Vec<u8>)| (p.0.spans@, p.0.total_size))
}

/// The bytes of audio packets.
pub open spec fn audio_packet_bytes(v: Seq<(CompletedOggPacket, Vec<u8>)>) -> Seq<Seq<u8>> {
    v.map_values(|p: (CompletedOggPacket, Vec<u8>)| p.1@)
}

/// Lays out the audio packets of one page as samples, timing them by their modes and
/// trimming the final page to its granule position.
pub fn append_vorbis_audio_packets(
    spec: &str,
    parser: &VorbisParser,
    decoded_samples: &mut u64,
    logical_size: &mut u64,
    transformed_segments: &mut Vec<SourceSegment>,
    samples: &mut Vec<StagedSample>,
    audio_packets: Vec<(CompletedOggPacket, Vec<u8>)>,
    granule_position: u64,
    eos: bool,
) -> (r: Result<(), MuxError>)
    requires
        parser.mode_bits <= 32,
        forall|i: int| 0 <= i < audio_packets@.len() ==> #[trigger] audio_packets@[i].1@.len() * 8 <= usize::MAX,
    ensures
        match vorbis_durations(parser@, audio_packet_bytes(audio_packets@)) {
            None => r matches Err(e) && fails_as(e, Failure::Rejected, spec@),
            Some(nominal) => match vorbis_append_from(*old(decoded_samples) as int, *old(logical_size) as int, old(transformed_segments)@,
                old(samples)@, 0, audio_packet_views(audio_packets@), nominal, granule_position, eos, 0) {
                Some((d, l, g, s)) => r is Ok && *final(decoded_samples) == d && *final(logical_size) == l
                    && final(transformed_segments)@ == g && final(samples)@ == s,
                None => r matches Err(e) && e is LayoutOverflow,
            },
        },
{
    let ghost bytes = audio_packet_bytes(audio_packets@);
    let n = audio_packets.len();
    let mut nominal: Vec<u64> = Vec::new();
    let mut k: usize = 0;
    while k < n
        invariant
            n == audio_packets@.len(),
            bytes == audio_packet_bytes(audio_packets@),
            parser.mode_bits <= 32,
            forall|i: int| 0 <= i < audio_packets@.len() ==> #[trigger] audio_packets@[i].1@.len() * 8 <= usize::MAX,
            k <= n,
            nominal@.len() == k,
            vorbis_durations(parser@, bytes.subrange(0, k as int)) == Some(nominal@),
        decreases n - k,
    {
        assert(bytes.subrange(0, k + 1).drop_last() =~= bytes.subrange(0, k as int));
        assert(bytes[k as int] == audio_packets@[k as int].1@);
        let d = match parser.packet_duration(audio_packets[k].1.as_slice(), spec) {
            Ok(d) => d,
            Err(e) => {
                proof { lemma_vorbis_durations_none_extends(parser@, bytes, (k + 1) as nat); }
                return Err(e);
            },
        };
        nominal.push(d as u64);
        k = k + 1;
    }
    assert(bytes.subrange(0, n as int) =~= bytes);
    let ghost packets = audio_packet_views(audio_packets@);
    let ghost target = vorbis_append_from(*decoded_samples as int, *logical_size as int, transformed_segments@, samples@, 0, packets, nominal@, granule_position, eos, 0);
    let mut prior: u64 = 0;
    let mut i: usize = 0;
    while i < n
        invariant
            n == audio_packets@.len(),
            nominal@.len() == n,
            vorbis_durations(parser@, audio_packet_bytes(audio_packets@)) == Some(nominal@),
            packets == audio_packet_views(audio_packets@),
            i <= n,
            target == vorbis_append_from(*decoded_samples as int, *logical_size as int, transformed_segments@, samples@, prior as int, packets, nominal@, granule_position, eos, i as int),
            target == vorbis_append_from(*old(decoded_samples) as int, *old(logical_size) as int, old(transformed_segments)@, old(samples)@, 0,
                audio_packet_views(audio_packets@), nominal@, granule_position, eos, 0),
        decreases n - i,
    {
        let packet = &audio_packets[i].0;
        assert(packets[i as int] == (packet.spans@, packet.total_size));
        let mut duration = nominal[i];
        if eos && i == n - 1 && granule_position != u64::MAX {
            let after_decoded = if granule_position >= *decoded_samples { granule_position - *decoded_samples } else { 0 };
            let remaining = if after_decoded >= prior { after_decoded - prior } else { 0 };
            if remaining < duration {
                duration = remaining;
            }
        }
        let data_offset = *logical_size;
        append_packet_spans(logical_size, transformed_segments, packet.spans.as_slice())?;
        if duration > 0xFFFF_FFFF {
            return Err(overflow("Ogg Vorbis packet duration"));
        }
        samples.push(StagedSample {
            data_offset,
            data_size: packet.total_size,
            duration: duration as u32,
            composition_time_offset: 0,
            is_sync_sample: true,
        });
        if *decoded_samples > u64::MAX - duration {
            return Err(overflow("Ogg Vorbis decoded sample count"));
        }
        *decoded_samples = *decoded_samples + duration;
        if prior > u64::MAX - nominal[i] {
            return Err(overflow("Ogg Vorbis page duration"));
        }
        prior = prior + nominal[i];
        i = i + 1;
    }
    Ok(())
}

proof fn lemma_vorbis_durations_none_extends(parser: VorbisParserView, ps: Seq<Seq<u8>>, k: nat)
    requires
        k <= ps.len(),
        vorbis_durations(parser, ps.subrange(0, k as int)) is None,
    ensures
        vorbis_durations(parser, ps) is None,
    decreases ps.len() - k,
{
    if k < ps.len() {
        assert(ps.subrange(0, (k + 1) as int).drop_last() =~= ps.subrange(0, k as int));
        lemma_vorbis_durations_none_extends(parser, ps, k + 1);
    } else {
        assert(ps.subrange(0, k as int) =~= ps);
    }
}

/// The checks a finished Vorbis stream must pass, in order: no packet left half-assembled,
/// all three headers with the identification and setup headers seen, at least one audio
/// packet; then the header packets' decoder-specific information.
pub open spec fn vorbis_finish(packet_pending: bool, saw_identification: bool, headers: Seq<Seq<u8>>, setup_seen: bool, sample_count: nat) -> Result<Seq<u8>, Failure> {
    if packet_pending || !saw_identification || !setup_seen || headers.len() != 3 || sample_count == 0 {
        Err(Failure::Rejected)
    } else {
        match header_dsi(headers) {
            None => Err(Failure::Overflow),
            Some(d) => Ok(d),
        }
    }
}

/// Checks a finished Vorbis stream and builds its decoder-specific information.
pub fn finalize_vorbis_track(
    spec: &str,
    parser: &VorbisParser,
    packet_pending: bool,
    header_packets: &[Vec<u8>],
    setup_seen: bool,
    samples: &[StagedSample],
) -> (r: Result<Vec<u8>, MuxError>)
    ensures
        match vorbis_finish(packet_pending, parser.saw_identification, packet_bytes_views(header_packets@), setup_seen, samples@.len()) {
            Ok(d) => r matches Ok(v) && v@ == d,
            Err(f) => r matches Err(e) && fails_as(e, f, spec@),
        },
{
    if packet_pending {
        return Err(import_error(spec, "Ogg Vorbis input ended in the middle of a packet"));
    }
    if !parser.saw_identification || !setup_seen || header_packets.len() != 3 {
        return Err(import_error(spec, "Ogg Vorbis input did not contain the full three-header setup"));
    }
    if samples.len() == 0 {
        return Err(import_error(spec, "Ogg Vorbis input did not contain any audio packets after headers"));
    }
    build_header_dsi(header_packets)
}


// ---------------------------------------------------------------------------------------------
// Scanning an Ogg Vorbis stream
// ---------------------------------------------------------------------------------------------

/// The parser before any header.
pub open spec fn fresh_vorbis_parser() -> VorbisParserView {
    VorbisParserView {
        channels: 0,
        sample_rate: 0,
        min_block: 0,
        max_block: 0,
        mode_bits: 0,
        mode_flags: Seq::new(64, |i: int| false),
        saw_identification: false,
    }
}

/// The state of a Vorbis stream being read: the parser, the header packets so far, whether
/// the comment and setup headers were passed, the decoded sample count, and the logical
/// payload with its segments and samples.
pub struct VorbisScanView {
    pub parser: VorbisParserView,
    pub headers: Seq<Seq<u8>>,
    pub comment_seen: bool,
    pub setup_seen: bool,
    pub decoded: int,
    pub logical: int,
    pub segments: Seq<SourceSegment>,
    pub samples: Seq<StagedSample>,
}

/// One header packet: the identification header sets the stream's core fields, the comment
/// header is checked, and the setup header sets the mode flags.
pub open spec fn vorbis_header_step(st: VorbisScanView, b: Seq<u8>) -> Result<VorbisScanView, Failure> {
    let p = st.parser;
    if !p.saw_identification {
        match identification_fields(b) {
            None => Err(Failure::Rejected),
            Some((channels, sample_rate, min_block, max_block)) => Ok(VorbisScanView {
                parser: VorbisParserView { channels, sample_rate, min_block, max_block, saw_identification: true, ..p },
                headers: st.headers.push(b),
                ..st
            }),
        }
    } else if !st.comment_seen {
        if vorbis_header_ok(b, 3) {
            Ok(VorbisScanView { comment_seen: true, headers: st.headers.push(b), ..st })
        } else {
            Err(Failure::Rejected)
        }
    } else if !vorbis_header_ok(b, 5) {
        Err(Failure::Rejected)
    } else {
        match setup_mode_flags(b, p.channels) {
            None => Err(Failure::Rejected),
            Some(flags) => Ok(VorbisScanView {
                parser: VorbisParserView {
                    mode_flags: flags + p.mode_flags.skip(flags.len() as int),
                    mode_bits: halvings(flags.len()) as u8,
                    ..p
                },
                setup_seen: true,
                headers: st.headers.push(b),
                ..st
            }),
        }
    }
}

/// Sorts a page's completed packets from `i` on: until the setup header has been passed each
/// packet is the next header, and every later one is an audio packet, kept with its bytes. A
/// packet must lie inside the file, and its bit count must fit in `usize`.
pub open spec fn vorbis_classify(
    f: Seq<u8>,
    st: VorbisScanView,
    packets: Seq<(Seq<OggSpan>, u32)>,
    i: int,
    audio: Seq<((Seq<OggSpan>, u32), Seq<u8>)>,
) -> Result<(VorbisScanView, Seq<((Seq<OggSpan>, u32), Seq<u8>)>), Failure>
    decreases packets.len() - i,
{
    if i < 0 || i >= packets.len() {
        Ok((st, audio))
    } else {
        match span_bytes(f, packets[i].0) {
            None => Err(Failure::Rejected),
            Some(b) => if b.len() * 8 > usize::MAX {
                Err(Failure::Overflow)
            } else if st.parser.saw_identification && st.comment_seen && st.setup_seen {
                vorbis_classify(f, st, packets, i + 1, audio.push((packets[i], b)))
            } else {
                match vorbis_header_step(st, b) {
                    Err(e) => Err(e),
                    Ok(st2) => vorbis_classify(f, st2, packets, i + 1, audio),
                }
            },
        }
    }
}

/// The spans of audio packets kept with their bytes.
pub open spec fn audio_spans(a: Seq<((Seq<OggSpan>, u32), Seq<u8>)>) -> Seq<(Seq<OggSpan>, u32)> {
    a.map_values(|x: ((Seq<OggSpan>, u32), Seq<u8>)| x.0)
}

/// The bytes of audio packets kept with their spans.
pub open spec fn audio_bytes(a: Seq<((Seq<OggSpan>, u32), Seq<u8>)>) -> Seq<Seq<u8>> {
    a.map_values(|x: ((Seq<OggSpan>, u32), Seq<u8>)| x.1)
}

/// Audio packets held in memory, as values.
pub open spec fn audio_entry_views(v: Seq<(CompletedOggPacket, Vec<u8>)>) -> Seq<((Seq<OggSpan>, u32), Seq<u8>)> {
    v.map_values(|p: (CompletedOggPacket, Vec<u8>)| ((p.0.spans@, p.0.total_size), p.1@))
}

/// The stream state after a page's completed packets: the headers are read, then the audio
/// packets are timed by their modes and laid out, the last one of a final page trimmed to the
/// page's granule position.
pub open spec fn vorbis_page(f: Seq<u8>, st: VorbisScanView, packets: Seq<(Seq<OggSpan>, u32)>, granule: u64, eos: bool) -> Result<VorbisScanView, Failure> {
    match vorbis_classify(f, st, packets, 0, Seq::empty()) {
        Err(e) => Err(e),
        Ok((st2, audio)) => match vorbis_durations(st2.parser, audio_bytes(audio)) {
            None => Err(Failure::Rejected),
            Some(nominal) => match vorbis_append_from(st2.decoded, st2.logical, st2.segments, st2.samples, 0, audio_spans(audio), nominal, granule, eos, 0) {
                None => Err(Failure::Overflow),
                Some((d, l, g, smp)) => Ok(VorbisScanView { decoded: d, logical: l, segments: g, samples: smp, ..st2 }),
            },
        },
    }
}

/// The pages from `off` on: a stream may not open on a continued packet; each page's lacing
/// completes packets, which update the stream state. Gives the packet left under way and the
/// final state.
pub open spec fn vorbis_scan_from(
    f: Seq<u8>,
    off: int,
    pending: (Seq<OggSpan>, u32),
    st: VorbisScanView,
) -> Result<((Seq<OggSpan>, u32), VorbisScanView), Failure>
    decreases if off < f.len() { f.len() - off } else { 0 },
{
    if off < 0 || off >= f.len() {
        Ok((pending, st))
    } else {
        match ogg_page_at(f, off) {
            Err(e) => Err(e),
            Ok((header_type, granule, _, po, lacing)) => {
                let end = po + lacing_total(lacing);
                if pending.0.len() == 0 && pending.1 == 0 && header_type % 2 == 1 {
                    Err(Failure::Rejected)
                } else if end > u64::MAX {
                    Err(Failure::Overflow)
                } else {
                    match lace_from(pending, po, lacing, 0, Seq::empty()) {
                        Err(e) => Err(e),
                        Ok((p2, done)) => {
                            proof { lemma_lacing_total_nonneg(lacing); }
                            if done.len() == 0 {
                                vorbis_scan_from(f, end, p2, st)
                            } else {
                                match vorbis_page(f, st, done, granule, (header_type / 4) % 2 == 1) {
                                    Err(e) => Err(e),
                                    Ok(st2) => vorbis_scan_from(f, end, p2, st2),
                                }
                            }
                        },
                    }
                }
            },
        }
    }
}

/// The state before the first page.
pub open spec fn vorbis_scan_start() -> VorbisScanView {
    VorbisScanView {
        parser: fresh_vorbis_parser(),
        headers: Seq::empty(),
        comment_seen: false,
        setup_seen: false,
        decoded: 0,
        logical: 0,
        segments: Seq::empty(),
        samples: Seq::empty(),
    }
}

/// What reading a whole Ogg Vorbis stream held in memory yields: the parser after its
/// headers, the headers' decoder-specific information, and the staged payload and samples;
/// or how it fails.
pub open spec fn vorbis_stream(f: Seq<u8>) -> Result<(VorbisParserView, Seq<u8>, int, Seq<SourceSegment>, Seq<StagedSample>), Failure> {
    match vorbis_scan_from(f, 0, (Seq::empty(), 0), vorbis_scan_start()) {
        Err(e) => Err(e),
        Ok((pending, st)) => match vorbis_finish(pending.0.len() != 0 || pending.1 != 0, st.parser.saw_identification, st.headers,
            st.setup_seen, st.samples.len()) {
            Err(e) => Err(e),
            Ok(d) => Ok((st.parser, d, st.logical, st.segments, st.samples)),
        },
    }
}

/// An Ogg Vorbis stream staged for muxing: its core fields, the decoder-specific information
/// its three headers form, the logical payload its audio packets form, and one sample per
/// audio packet.
pub struct ParsedOggVorbisTrack {
    pub sample_rate: u32,
    pub channels: u16,
    pub decoder_specific_info: Vec<u8>,
    pub logical_size: u64,
    pub segments: Vec<SourceSegment>,
    pub samples: Vec<StagedSample>,
}

/// The stream state the reading loop holds, as a view.
pub open spec fn vorbis_state(
    parser: VorbisParser,
    headers: Seq<Vec<u8>>,
    comment_seen: bool,
    setup_seen: bool,
    decoded: u64,
    logical: u64,
    segments: Seq<SourceSegment>,
    samples: Seq<StagedSample>,
) -> VorbisScanView {
    VorbisScanView {
        parser: parser@,
        headers: packet_bytes_views(headers),
        comment_seen,
        setup_seen,
        decoded: decoded as int,
        logical: logical as int,
        segments,
        samples,
    }
}

/// Reads one page's completed packets: headers first, then audio.
#[verifier::rlimit(60)]
fn process_vorbis_completed_page(
    file: &[u8],
    spec: &str,
    parser: &mut VorbisParser,
    header_packets: &mut Vec<Vec<u8>>,
    comment_seen: &mut bool,
    setup_seen: &mut bool,
    decoded: &mut u64,
    logical: &mut u64,
    segments: &mut Vec<SourceSegment>,
    samples: &mut Vec<StagedSample>,
    packets: Vec<CompletedOggPacket>,
    granule_position: u64,
    eos: bool,
) -> (r: Result<(), MuxError>)
    requires
        old(parser).mode_bits <= 6,
    ensures
        final(parser).mode_bits <= 6,
        match vorbis_page(file@, vorbis_state(*old(parser), old(header_packets)@, *old(comment_seen), *old(setup_seen),
            *old(decoded), *old(logical), old(segments)@, old(samples)@), completed_views(packets@), granule_position, eos) {
            Ok(st) => r is Ok && vorbis_state(*final(parser), final(header_packets)@, *final(comment_seen), *final(setup_seen),
                *final(decoded), *final(logical), final(segments)@, final(samples)@) == st,
            Err(x) => r matches Err(e) && fails_as(e, x, spec@),
        },
{
    let ghost views = completed_views(packets@);
    let ghost start = vorbis_state(*parser, header_packets@, *comment_seen, *setup_seen, *decoded, *logical, segments@, samples@);
    let ghost target = vorbis_classify(file@, start, views, 0, Seq::empty());
    let mut audio: Vec<(CompletedOggPacket, Vec<u8>)> = Vec::new();
    let n = packets.len();
    let mut rest = packets;
    let mut i: usize = 0;
    assert(audio_entry_views(audio@) =~= Seq::<((Seq<OggSpan>, u32), Seq<u8>)>::empty());
    while i < n
        invariant
            n == views.len(),
            views == completed_views(packets@),
            i <= n,
            rest@.len() == n - i,
            forall|j: int| 0 <= j < rest@.len() ==> (#[trigger] rest@[j].spans@, rest@[j].total_size) == views[i + j],
            parser.mode_bits <= 6,
            forall|j: int| 0 <= j < audio@.len() ==> #[trigger] audio@[j].1@.len() * 8 <= usize::MAX,
            start == vorbis_state(*old(parser), old(header_packets)@, *old(comment_seen), *old(setup_seen), *old(decoded),
                *old(logical), old(segments)@, old(samples)@),
            target == vorbis_classify(file@, start, views, 0, Seq::empty()),
            target == vorbis_classify(file@, vorbis_state(*parser, header_packets@, *comment_seen, *setup_seen, *decoded, *logical,
                segments@, samples@), views, i as int, audio_entry_views(audio@)),
            *decoded == *old(decoded),
            *logical == *old(logical),
            segments@ == old(segments)@,
            samples@ == old(samples)@,
        decreases n - i,
    {
        let ghost before_rest = rest@;
        let ghost before_audio = audio@;
        let ghost headers_before = header_packets@;
        let packet = rest.remove(0);
        assert((packet.spans@, packet.total_size) == views[i as int]);
        let ghost cur = vorbis_state(*parser, header_packets@, *comment_seen, *setup_seen, *decoded, *logical, segments@, samples@);
        let bytes = match read_spans(file, &packet.spans, spec) {
            Err(e) => {
                assert(vorbis_classify(file@, cur, views, i as int, audio_entry_views(audio@)) is Err);
                return Err(e);
            },
            Ok(b) => b,
        };
        if bytes.len() > usize::MAX / 8 {
            assert(bytes@.len() * 8 > usize::MAX) by (nonlinear_arith)
                requires
                    bytes@.len() > usize::MAX / 8;
            assert(vorbis_classify(file@, cur, views, i as int, audio_entry_views(audio@)) == Err::<(VorbisScanView, Seq<((Seq<OggSpan>, u32), Seq<u8>)>), Failure>(Failure::Overflow));
            return Err(overflow("Ogg Vorbis packet length"));
        }
        assert(bytes@.len() * 8 <= usize::MAX) by (nonlinear_arith)
            requires
                bytes@.len() <= usize::MAX / 8;
        if !parser.saw_identification {
            parser.parse_identification_header(bytes.as_slice(), spec)?;
            let ghost b = bytes@;
            header_packets.push(bytes);
            assert(packet_bytes_views(header_packets@) =~= packet_bytes_views(headers_before).push(b));
        } else if !*comment_seen {
            validate_vorbis_header_packet(bytes.as_slice(), 3, spec, "comment")?;
            *comment_seen = true;
            let ghost b = bytes@;
            header_packets.push(bytes);
            assert(packet_bytes_views(header_packets@) =~= packet_bytes_views(headers_before).push(b));
        } else if !*setup_seen {
            parser.parse_setup_header(bytes.as_slice(), spec)?;
            *setup_seen = true;
            let ghost b = bytes@;
            header_packets.push(bytes);
            assert(packet_bytes_views(header_packets@) =~= packet_bytes_views(headers_before).push(b));
        } else {
            let ghost entry = ((packet.spans@, packet.total_size), bytes@);
            audio.push((packet, bytes));
            assert(audio_entry_views(audio@) =~= audio_entry_views(before_audio).push(entry));
        }
        proof {
            assert forall|j: int| 0 <= j < rest@.len() implies (#[trigger] rest@[j].spans@, rest@[j].total_size) == views[i + 1 + j] by {
                assert(rest@[j] == before_rest[j + 1]);
            }
        }
        i = i + 1;
    }
    proof {
        assert(audio_packet_bytes(audio@) =~= audio_bytes(audio_entry_views(audio@)));
        assert(audio_packet_views(audio@) =~= audio_spans(audio_entry_views(audio@)));
    }
    append_vorbis_audio_packets(spec, parser, decoded, logical, segments, samples, audio, granule_position, eos)
}

/// Reads an Ogg Vorbis stream held in memory: its three headers, then its audio packets as
/// staged samples.
#[verifier::spinoff_prover]
#[verifier::rlimit(60)]
pub fn parse_ogg_vorbis_bytes(file: &[u8], spec: &str) -> (r: Result<ParsedOggVorbisTrack, MuxError>)
    ensures
        match vorbis_stream(file@) {
            Ok((p, d, l, g, smp)) => r matches Ok(t) && t.sample_rate == p.sample_rate && t.channels == p.channels
                && t.decoder_specific_info@ == d && t.logical_size == l && t.segments@ == g && t.samples@ == smp,
            Err(x) => r matches Err(e) && fails_as(e, x, spec@),
        },
{
    let n = file.len();
    let mut offset: usize = 0;
    let mut builder = OggPacketBuilder::new();
    let mut parser = VorbisParser::new();
    let mut header_packets: Vec<Vec<u8>> = Vec::new();
    let mut comment_seen = false;
    let mut setup_seen = false;
    let mut decoded: u64 = 0;
    let mut logical: u64 = 0;
    let mut segments: Vec<SourceSegment> = Vec::new();
    let mut samples: Vec<StagedSample> = Vec::new();
    assert(pending_of(builder) =~= (Seq::<OggSpan>::empty(), 0u32));
    assert(parser@.mode_flags =~= fresh_vorbis_parser().mode_flags);
    assert(packet_bytes_views(header_packets@) =~= Seq::<Seq<u8>>::empty());
    assert(vorbis_state(parser, header_packets@, comment_seen, setup_seen, decoded, logical, segments@, samples@) == vorbis_scan_start());
    while offset < n
        invariant
            n == file@.len(),
            offset <= n,
            parser.mode_bits <= 6,
            vorbis_scan_from(file@, 0, (Seq::empty(), 0), vorbis_scan_start()) == vorbis_scan_from(file@, offset as int, pending_of(builder),
                vorbis_state(parser, header_packets@, comment_seen, setup_seen, decoded, logical, segments@, samples@)),
        decreases n - offset,
    {
        let ghost off0 = offset as int;
        let ghost pend0 = pending_of(builder);
        let ghost st0 = vorbis_state(parser, header_packets@, comment_seen, setup_seen, decoded, logical, segments@, samples@);
        let page = read_ogg_page_header(file, offset, spec)?;
        if builder.is_empty() && page.header_type % 2 == 1 {
            return Err(import_error(spec, "Ogg Vorbis input started in the middle of a continued packet"));
        }
        let total = lacing_sum(page.lacing_values.as_slice());
        if page.payload_offset > u64::MAX - total {
            return Err(overflow("Ogg page range"));
        }
        let end = page.payload_offset + total;
        proof { lemma_lace_from_overflow_only(pending_of(builder), page.payload_offset as int, page.lacing_values@, 0, Seq::empty()); }
        let completed = lace_page(&mut builder, page.payload_offset, page.lacing_values.as_slice())?;
        if completed.len() > 0 {
            process_vorbis_completed_page(file, spec, &mut parser, &mut header_packets, &mut comment_seen, &mut setup_seen,
                &mut decoded, &mut logical, &mut segments, &mut samples, completed, page.granule_position,
                page.header_type / 4 % 2 == 1)?;
        }
        proof { lemma_lacing_total_nonneg(page.lacing_values@); }
        let ghost st1 = vorbis_state(parser, header_packets@, comment_seen, setup_seen, decoded, logical, segments@, samples@);
        assert(vorbis_scan_from(file@, off0, pend0, st0) == vorbis_scan_from(file@, end as int, pending_of(builder), st1));
        if end >= n as u64 {
            offset = n;
        } else {
            offset = end as usize;
        }
        assert(vorbis_scan_from(file@, end as int, pending_of(builder), st1) == vorbis_scan_from(file@, offset as int, pending_of(builder), st1));
    }
    let pending = !builder.is_empty();
    let dsi = finalize_vorbis_track(spec, &parser, pending, header_packets.as_slice(), setup_seen, samples.as_slice())?;
    Ok(ParsedOggVorbisTrack {
        sample_rate: parser.sample_rate,
        channels: parser.channels,
        decoder_specific_info: dsi,
        logical_size: logical,
        segments,
        samples,
    })
}

} // verus!
