use vstd::prelude::*;
use vstd::arithmetic::power2::{pow2, lemma_pow2_strictly_increases, lemma2_to64};
use crate::error::{Failure, MuxError, fails_as, import_error, overflow};
use crate::demux::vp9::{BitCursor, bits_value};
use crate::mp4::{be32, build_visual_sample_entry_box_with_compressor_name, compressor_field, encode_raw_box, four_cc, spec_box, visual_entry_payload, zeros};
use crate::sample::{SegmentData, SourceSegment, StagedSample};

verus! {

// ---------------------------------------------------------------------------------------------
// Bit-level output
// ---------------------------------------------------------------------------------------------

/// The low `w` bits of `v`, most significant first.
pub open spec fn bits_of(v: u32, w: nat) -> Seq<bool> {
    Seq::new(w, |j: int| (v >> ((w - 1 - j) as u32)) & 1 == 1)
}

/// The value of eight bits read most significant first, missing bits reading as zero.
pub open spec fn byte_from_bits(bits: Seq<bool>, start: int, k: nat) -> nat
    decreases k,
{
    if k == 0 {
        0
    } else {
        byte_from_bits(bits, start, (k - 1) as nat) * 2 + if start + k - 1 < bits.len() && bits[start + k - 1] { 1nat } else { 0nat }
    }
}

/// Packs a bit string into bytes, most significant bit first, zero-padding the last byte.
pub open spec fn pack_bits(bits: Seq<bool>) -> Seq<u8> {
    Seq::new(((bits.len() + 7) / 8) as nat, |i: int| byte_from_bits(bits, 8 * i, 8) as u8)
}

proof fn lemma_byte_from_bits_bound(bits: Seq<bool>, start: int, k: nat)
    ensures
        byte_from_bits(bits, start, k) < pow2(k),
    decreases k,
{
    if k > 0 {
        lemma_byte_from_bits_bound(bits, start, (k - 1) as nat);
        vstd::arithmetic::power2::lemma_pow2_unfold(k);
    } else {
        vstd::arithmetic::power2::lemma_pow2(0);
        assert(pow2(0) == 1) by { vstd::arithmetic::power2::lemma2_to64(); }
    }
}

/// An MSB-first bit writer whose output is the bit string it has been given.
pub struct VvcBitWriter {
    pub bits: Vec<bool>,
}

impl VvcBitWriter {
    /// An empty writer.
    pub fn new() -> (r: Self)
        ensures
            r.bits@ == Seq::<bool>::empty(),
    {
        VvcBitWriter { bits: Vec::new() }
    }

    /// Appends the low `width` bits of `value`, most significant first.
    pub fn write_bits(&mut self, value: u32, width: usize)
        requires
            width <= 32,
        ensures
            final(self).bits@ == old(self).bits@ + bits_of(value, width as nat),
    {
        let ghost start = self.bits@;
        let mut j: usize = 0;
        while j < width
            invariant
                j <= width <= 32,
                self.bits@ == start + bits_of(value, width as nat).subrange(0, j as int),
            decreases width - j,
        {
            let shift: u32 = (width - 1 - j) as u32;
            let b = (value >> shift) & 1 == 1;
            self.bits.push(b);
            proof {
                assert(bits_of(value, width as nat)[j as int] == b);
                assert(bits_of(value, width as nat).subrange(0, j + 1) =~= bits_of(value, width as nat).subrange(0, j as int).push(b));
            }
            j = j + 1;
        }
        assert(bits_of(value, width as nat).subrange(0, width as int) =~= bits_of(value, width as nat));
    }

    /// Appends one bit.
    pub fn write_bit(&mut self, bit: bool)
        ensures
            final(self).bits@ == old(self).bits@.push(bit),
    {
        self.bits.push(bit);
    }

    /// The written bits packed into bytes, the last one zero-padded.
    pub fn into_bytes(self) -> (r: Vec<u8>)
        ensures
            r@ == pack_bits(self.bits@),
    {
        let n = self.bits.len();
        let count: usize = n / 8 + if n % 8 == 0 { 0 } else { 1 };
        assert(count == (n + 7) / 8);
        let mut out: Vec<u8> = Vec::new();
        let mut i: usize = 0;
        while i < count
            invariant
                n == self.bits@.len(),
                count == (n + 7) / 8,
                i <= count,
                out@ == pack_bits(self.bits@).subrange(0, i as int),
            decreases count - i,
        {
            let mut acc: u32 = 0;
            let mut k: usize = 0;
            proof { lemma2_to64(); }
            while k < 8
                invariant
                    n == self.bits@.len(),
                    i < count,
                    count == (n + 7) / 8,
                    k <= 8,
                    acc as nat == byte_from_bits(self.bits@, 8 * i, k as nat),
                    acc < pow2(k as nat),
                decreases 8 - k,
            {
                let pos = 8 * i + k;
                let b: u32 = if pos < n && self.bits[pos] { 1 } else { 0 };
                proof {
                    vstd::arithmetic::power2::lemma_pow2_unfold((k + 1) as nat);
                    lemma_byte_from_bits_bound(self.bits@, 8 * i, (k + 1) as nat);
                    lemma2_to64();
                    lemma_pow2_strictly_increases((k + 1) as nat, 9);
                }
                acc = acc * 2 + b;
                k = k + 1;
            }
            proof {
                lemma2_to64();
            }
            out.push(acc as u8);
            assert(out@ =~= pack_bits(self.bits@).subrange(0, i + 1));
            i = i + 1;
        }
        assert(out@ =~= pack_bits(self.bits@));
        out
    }
}

/// Writes the low `width` bits of a byte.
pub fn write_u8_bits(writer: &mut VvcBitWriter, value: u8, width: usize)
    requires
        width <= 8,
    ensures
        final(writer).bits@ == old(writer).bits@ + bits_of(value as u32, width as nat),
{
    writer.write_bits(value as u32, width);
}

/// Writes the low `width` bits of a 16-bit value.
pub fn write_u16_bits(writer: &mut VvcBitWriter, value: u16, width: usize)
    requires
        width <= 16,
    ensures
        final(writer).bits@ == old(writer).bits@ + bits_of(value as u32, width as nat),
{
    writer.write_bits(value as u32, width);
}

/// Writes the low `width` bits of a 32-bit value.
pub fn write_u32_bits(writer: &mut VvcBitWriter, value: u32, width: usize)
    requires
        width <= 32,
    ensures
        final(writer).bits@ == old(writer).bits@ + bits_of(value, width as nat),
{
    writer.write_bits(value, width);
}

// ---------------------------------------------------------------------------------------------
// NAL unit header helpers
// ---------------------------------------------------------------------------------------------

/// The NAL unit type: the top five bits of the second header byte.
pub fn vvc_nal_type(nal: &[u8]) -> (r: u8)
    requires
        nal@.len() >= 2,
    ensures
        r == nal@[1] >> 3u8,
        r < 32,
{
    let b = nal[1];
    assert(b >> 3u8 < 32) by (bit_vector);
    b >> 3
}

/// Video coding layer NAL unit types are 0 through 11.
pub fn is_vvc_vcl_nal_type(nal_type: u8) -> (r: bool)
    ensures
        r == (nal_type <= 11),
{
    nal_type <= 11
}

/// Random-access NAL unit types (IRAP and GDR) are 7 through 11.
pub fn is_vvc_sync_nal_type(nal_type: u8) -> (r: bool)
    ensures
        r == (7 <= nal_type <= 11),
{
    7 <= nal_type && nal_type <= 11
}

/// The first `b` from `b` on (stopping at 31) with `v <= 2^b`.
pub open spec fn ceil_log2_from(v: int, b: nat) -> nat
    decreases 31 - b,
{
    if b >= 31 || v <= pow2(b) { b } else { ceil_log2_from(v, b + 1) }
}

/// The smallest `b` with `v <= 2^b` (31 when none below 31 is).
pub open spec fn ceil_log2(v: int) -> nat {
    ceil_log2_from(v, 0)
}

/// The smallest `b` with `value <= 2^b`.
pub fn vvc_ceil_log2(value: u32) -> (r: u32)
    requires
        value <= 0x8000_0000,
    ensures
        r <= 31,
        r == ceil_log2(value as int),
        value <= pow2(r as nat),
        r == 0 || pow2((r - 1) as nat) < value,
{
    proof { lemma2_to64(); }
    let mut bits: u32 = 0;
    while bits < 31 && value > (1u32 << bits)
        invariant
            bits <= 31,
            bits == 0 || pow2((bits - 1) as nat) < value,
            ceil_log2(value as int) == ceil_log2_from(value as int, bits as nat),
        decreases 31 - bits,
    {
        proof {
            vstd::bits::lemma_u32_pow2_no_overflow(bits as nat);
            vstd::bits::lemma_u32_shl_is_mul(1, bits);
        }
        bits = bits + 1;
    }
    proof {
        if bits < 31 {
            vstd::bits::lemma_u32_pow2_no_overflow(bits as nat);
            vstd::bits::lemma_u32_shl_is_mul(1, bits);
        }
    }
    bits
}

// ---------------------------------------------------------------------------------------------
// Raw byte sequence payload
// ---------------------------------------------------------------------------------------------

/// The payload from `i` on with emulation-prevention bytes removed: a `0x03` that follows two
/// zero bytes is dropped and restarts the zero count; `zeros` counts the zeros just kept.
pub open spec fn rbsp_from(s: Seq<u8>, i: int, zeros: int) -> Seq<u8>
    decreases s.len() - i,
{
    if i < 0 || i >= s.len() {
        Seq::empty()
    } else if zeros >= 2 && s[i] == 3 {
        rbsp_from(s, i + 1, 0)
    } else {
        seq![s[i]] + rbsp_from(s, i + 1, if s[i] == 0 { zeros + 1 } else { 0 })
    }
}

/// The raw byte sequence payload of an escaped NAL payload.
pub open spec fn rbsp(s: Seq<u8>) -> Seq<u8> {
    rbsp_from(s, 0, 0)
}

/// Removes emulation-prevention bytes.
pub fn nal_to_rbsp(s: &[u8]) -> (r: Vec<u8>)
    ensures
        r@ == rbsp(s@),
        r@.len() <= s@.len(),
{
    let mut out: Vec<u8> = Vec::new();
    let mut zeros: usize = 0;
    let mut i: usize = 0;
    while i < s.len()
        invariant
            i <= s@.len(),
            zeros <= 2,
            out@ + rbsp_from(s@, i as int, zeros as int) == rbsp(s@),
            out@.len() <= i,
        decreases s.len() - i,
    {
        let b = s[i];
        if zeros >= 2 && b == 3 {
            zeros = 0;
        } else {
            let ghost before = out@;
            let ghost next_z: int = if b == 0 { zeros + 1 } else { 0 };
            out.push(b);
            proof {
                assert(rbsp_from(s@, i as int, zeros as int) == seq![b] + rbsp_from(s@, i + 1, next_z));
                assert(out@ + rbsp_from(s@, i + 1, next_z) =~= before + (seq![b] + rbsp_from(s@, i + 1, next_z)));
            }
            zeros = if b == 0 { if zeros < 2 { zeros + 1 } else { 2 } } else { 0 };
            proof {
                if next_z > 2 {
                    lemma_rbsp_zero_cap(s@, i + 1, next_z);
                }
            }
        }
        i = i + 1;
    }
    assert(out@ + rbsp_from(s@, i as int, zeros as int) =~= out@);
    out
}

/// Any zero count of two or more behaves like two.
proof fn lemma_rbsp_zero_cap(s: Seq<u8>, i: int, z: int)
    requires
        z >= 2,
    ensures
        rbsp_from(s, i, z) == rbsp_from(s, i, 2),
    decreases s.len() - i,
{
    if 0 <= i < s.len() && s[i] != 3 {
        if s[i] == 0 {
            lemma_rbsp_zero_cap(s, i + 1, z + 1);
            lemma_rbsp_zero_cap(s, i + 1, 3);
        }
    }
}


// ---------------------------------------------------------------------------------------------
// Bit-level input
// ---------------------------------------------------------------------------------------------

/// Reading `w` bits at bit position `p`: the value and the next position, or nothing when
/// fewer than `w` bits remain.
pub open spec fn rb(d: Seq<u8>, p: int, w: nat) -> Option<(nat, int)> {
    if p < 0 || p + w > d.len() * 8 { None } else { Some((bits_value(d, p, w), p + w)) }
}

/// Reading one flag.
pub open spec fn rflag(d: Seq<u8>, p: int) -> Option<(bool, int)> {
    match rb(d, p, 1) {
        Some((v, q)) => Some((v == 1, q)),
        None => None,
    }
}

/// Skipping `n` bits.
pub open spec fn skip(d: Seq<u8>, p: int, n: nat) -> Option<int> {
    if p < 0 || p + n > d.len() * 8 { None } else { Some(p + n) }
}

/// The number of zero bits from `p` before the first one bit, if a one bit follows.
pub open spec fn zero_run(d: Seq<u8>, p: int) -> Option<nat>
    decreases d.len() * 8 - p,
{
    if p < 0 || p >= d.len() * 8 {
        None
    } else if bits_value(d, p, 1) == 1 {
        Some(0)
    } else {
        match zero_run(d, p + 1) {
            Some(n) => Some(n + 1),
            None => None,
        }
    }
}

/// An unsigned Exp-Golomb code at `p`: `z` zero bits, a one bit, then `z` suffix bits, giving
/// `2^z - 1 + suffix`; codes with more than 31 leading zeros are refused.
pub open spec fn ue(d: Seq<u8>, p: int) -> Option<(nat, int)> {
    match zero_run(d, p) {
        None => None,
        Some(z) => if z > 31 {
            None
        } else {
            match rb(d, p + z + 1, z) {
                Some((v, q)) => Some(((pow2(z) - 1 + v) as nat, q)),
                None => None,
            }
        },
    }
}

/// Bit values stay below `2^w`.
pub proof fn lemma_bits_value_bound(d: Seq<u8>, p: int, w: nat)
    ensures
        bits_value(d, p, w) < pow2(w),
    decreases w,
{
    if w == 0 {
        lemma2_to64();
    } else {
        lemma_bits_value_bound(d, p, (w - 1) as nat);
        vstd::arithmetic::power2::lemma_pow2_unfold(w);
        let k = p + w - 1;
        let byte = d[k / 8];
        let sh = (7 - k % 8) as usize;
        assert((byte >> sh) & 1u8 <= 1) by (bit_vector);
    }
}

/// Reads `w` bits, keeping the cursor's data.
pub(crate) fn read_n(c: &mut BitCursor, w: usize) -> (r: Option<u32>)
    requires
        old(c).wf(),
        w <= 32,
    ensures
        final(c).wf(),
        final(c).data@ == old(c).data@,
        match rb(old(c).data@, old(c).bit_offset as int, w as nat) {
            Some((v, q)) => r == Some(v as u32) && v <= u32::MAX && final(c).bit_offset == q,
            None => r is None,
        },
{
    proof {
        lemma_bits_value_bound(old(c).data@, old(c).bit_offset as int, w as nat);
        lemma2_to64();
        if w < 32 {
            lemma_pow2_strictly_increases(w as nat, 32);
        }
    }
    c.read_bits_u32(w)
}

/// Reads one flag.
fn read_flag(c: &mut BitCursor) -> (r: Option<bool>)
    requires
        old(c).wf(),
    ensures
        final(c).wf(),
        final(c).data@ == old(c).data@,
        match rflag(old(c).data@, old(c).bit_offset as int) {
            Some((v, q)) => r == Some(v) && final(c).bit_offset == q,
            None => r is None,
        },
{
    proof {
        lemma_bits_value_bound(old(c).data@, old(c).bit_offset as int, 1);
        lemma2_to64();
    }
    match read_n(c, 1) {
        Some(v) => Some(v == 1),
        None => None,
    }
}

/// Skips `n` bits.
pub(crate) fn skip_n(c: &mut BitCursor, n: usize) -> (r: bool)
    requires
        old(c).wf(),
    ensures
        final(c).wf(),
        final(c).data@ == old(c).data@,
        match skip(old(c).data@, old(c).bit_offset as int, n as nat) {
            Some(q) => r && final(c).bit_offset == q,
            None => !r,
        },
{
    if n > c.data.len() * 8 - c.bit_offset {
        return false;
    }
    c.bit_offset = c.bit_offset + n;
    true
}

/// Reads an unsigned Exp-Golomb code.
fn read_ue(c: &mut BitCursor) -> (r: Option<u32>)
    requires
        old(c).wf(),
    ensures
        final(c).wf(),
        final(c).data@ == old(c).data@,
        match ue(old(c).data@, old(c).bit_offset as int) {
            Some((v, q)) => v < u32::MAX && r == Some(v as u32) && final(c).bit_offset == q,
            None => r is None,
        },
{
    let ghost d = c.data@;
    let ghost p0 = c.bit_offset as int;
    let mut zeros: usize = 0;
    loop
        invariant_except_break
            c.bit_offset == p0 + zeros,
            zero_run(d, p0) == match zero_run(d, p0 + zeros) {
                Some(n) => Some((n + zeros) as nat),
                None => None::<nat>,
            },
        invariant
            c.wf(),
            c.data@ == d,
            d == old(c).data@,
            p0 == old(c).bit_offset,
            zeros <= 31,
        ensures
            c.bit_offset == p0 + zeros + 1,
            zero_run(d, p0) == Some(zeros as nat),
        decreases d.len() * 8 - c.bit_offset,
    {
        let ghost p = c.bit_offset as int;
        match read_flag(c) {
            None => {
                return None;
            },
            Some(true) => {
                assert(zero_run(d, p) == Some(0nat));
                break;
            },
            Some(false) => {
                if zeros == 31 {
                    proof {
                        assert(zero_run(d, p) == match zero_run(d, p + 1) { Some(n) => Some((n + 1) as nat), None => None::<nat> });
                    }
                    return None;
                }
                zeros = zeros + 1;
            },
        }
    }
    let suffix = match read_n(c, zeros) {
        Some(v) => v,
        None => return None,
    };
    proof {
        lemma_bits_value_bound(d, p0 + zeros + 1, zeros as nat);
        lemma2_to64();
        lemma_pow2_strictly_increases(zeros as nat, 32);
        vstd::bits::lemma_u64_pow2_no_overflow(zeros as nat);
        vstd::bits::lemma_u64_shl_is_mul(1, zeros as u64);
    }
    let v: u64 = (1u64 << (zeros as u64)) - 1 + suffix as u64;
    Some(v as u32)
}

// ---------------------------------------------------------------------------------------------
// Profile, tier and level
// ---------------------------------------------------------------------------------------------

/// The profile, tier and level fields of a VVC sequence parameter set.
pub struct VvcProfileTierLevel {
    pub general_profile_idc: u8,
    pub general_tier_flag: bool,
    pub general_level_idc: u8,
    pub frame_only_constraint: bool,
    pub multilayer_enabled: bool,
    pub general_constraint_info: Vec<u8>,
    pub sublayer_present_mask: u8,
    pub sublayer_level_idc: Vec<u8>,
    pub num_sub_profiles: u8,
    pub sub_profiles_idc: Vec<u32>,
}

/// The fields of [`VvcProfileTierLevel`] as values.
pub struct VvcPtlView {
    pub general_profile_idc: u8,
    pub general_tier_flag: bool,
    pub general_level_idc: u8,
    pub frame_only_constraint: bool,
    pub multilayer_enabled: bool,
    pub general_constraint_info: Seq<u8>,
    pub sublayer_present_mask: u8,
    pub sublayer_level_idc: Seq<u8>,
    pub num_sub_profiles: u8,
    pub sub_profiles_idc: Seq<u32>,
}

impl View for VvcProfileTierLevel {
    type V = VvcPtlView;

    open spec fn view(&self) -> VvcPtlView {
        VvcPtlView {
            general_profile_idc: self.general_profile_idc,
            general_tier_flag: self.general_tier_flag,
            general_level_idc: self.general_level_idc,
            frame_only_constraint: self.frame_only_constraint,
            multilayer_enabled: self.multilayer_enabled,
            general_constraint_info: self.general_constraint_info@,
            sublayer_present_mask: self.sublayer_present_mask,
            sublayer_level_idc: self.sublayer_level_idc@,
            num_sub_profiles: self.num_sub_profiles,
            sub_profiles_idc: self.sub_profiles_idc@,
        }
    }
}

/// The general constraint information bytes when they are present: the marker bit with seven
/// flag bits, eight full bytes, an unset byte, two flag bits at the top of the next byte and a
/// final zero byte; then an 8-bit extension length and that many skipped bits.
pub open spec fn gci_at(d: Seq<u8>, p: int) -> Option<(Seq<u8>, int)> {
    match rb(d, p, 7) {
        None => None,
        Some((first, p1)) => match rb(d, p1, 64) {
            None => None,
            Some((_, p2)) => match rb(d, p2, 2) {
                None => None,
                Some((suffix, p3)) => match rb(d, p3, 8) {
                    None => None,
                    Some((ext, p4)) => match skip(d, p4, ext) {
                        None => None,
                        Some(p5) => Some((
                            seq![(0x80 + first) as u8] + Seq::new(8, |i: int| bits_value(d, p1 + 8 * i, 8) as u8)
                                + seq![0u8, (suffix * 64) as u8, 0u8],
                            p5,
                        )),
                    },
                },
            },
        },
    }
}

/// The next byte boundary at or after `p`.
pub open spec fn align8(p: int) -> int {
    if p % 8 == 0 { p } else { p + 8 - p % 8 }
}

/// Reads sublayer presence flags for layers `k - 1` down to 0 into `mask`.
pub open spec fn mask_at(d: Seq<u8>, p: int, k: nat, mask: u8) -> Option<(u8, int)>
    decreases k,
{
    if k == 0 {
        Some((mask, p))
    } else {
        match rflag(d, p) {
            None => None,
            Some((b, q)) => mask_at(d, q, (k - 1) as nat, if b { mask | (1u8 << ((k - 1) as u8)) } else { mask }),
        }
    }
}

/// Reads the level of each present sublayer from `k - 1` down to 0 into `levels`.
pub open spec fn levels_at(d: Seq<u8>, p: int, k: nat, mask: u8, levels: Seq<u8>) -> Option<(Seq<u8>, int)>
    decreases k,
{
    if k == 0 {
        Some((levels, p))
    } else if mask & (1u8 << ((k - 1) as u8)) != 0 {
        match rb(d, p, 8) {
            None => None,
            Some((v, q)) => levels_at(d, q, (k - 1) as nat, mask, levels.update(k - 1, v as u8)),
        }
    } else {
        levels_at(d, p, (k - 1) as nat, mask, levels)
    }
}

/// Reads `n` more 32-bit values onto `acc`.
pub open spec fn words_at(d: Seq<u8>, p: int, n: nat, acc: Seq<u32>) -> Option<(Seq<u32>, int)>
    decreases n,
{
    if n == 0 {
        Some((acc, p))
    } else {
        match rb(d, p, 32) {
            None => None,
            Some((v, q)) => words_at(d, q, (n - 1) as nat, acc.push(v as u32)),
        }
    }
}

/// The profile, tier and level structure at `p` with `max_tid` sublayers below the top.
#[verifier::opaque]
pub open spec fn ptl_at(d: Seq<u8>, p: int, max_tid: nat) -> Option<(VvcPtlView, int)> {
    match rb(d, p, 7) {
        None => None,
        Some((profile, p1)) => match rflag(d, p1) {
            None => None,
            Some((tier, p2)) => match rb(d, p2, 8) {
                None => None,
                Some((level, p3)) => match rflag(d, p3) {
                    None => None,
                    Some((frame_only, p4)) => match rflag(d, p4) {
                        None => None,
                        Some((multilayer, p5)) => match rflag(d, p5) {
                            None => None,
                            Some((gci_present, p6)) => match (if gci_present { gci_at(d, p6) } else { Some((Seq::new(12, |i: int| 0u8), p6)) }) {
                                None => None,
                                Some((gci, p7)) => match mask_at(d, align8(p7), max_tid, 0) {
                                    None => None,
                                    Some((mask, p8)) => match levels_at(d, align8(p8), max_tid, mask, Seq::new(8, |i: int| 0u8)) {
                                        None => None,
                                        Some((levels, p9)) => match rb(d, p9, 8) {
                                            None => None,
                                            Some((num, p10)) => match words_at(d, p10, num, Seq::empty()) {
                                                None => None,
                                                Some((subs, p11)) => Some((VvcPtlView {
                                                    general_profile_idc: profile as u8,
                                                    general_tier_flag: tier,
                                                    general_level_idc: level as u8,
                                                    frame_only_constraint: frame_only,
                                                    multilayer_enabled: multilayer,
                                                    general_constraint_info: gci,
                                                    sublayer_present_mask: mask,
                                                    sublayer_level_idc: levels,
                                                    num_sub_profiles: num as u8,
                                                    sub_profiles_idc: subs,
                                                }, p11)),
                                            },
                                        },
                                    },
                                },
                            },
                        },
                    },
                },
            },
        },
    }
}


/// The error every truncated VVC bit field produces.
fn vvc_truncated(spec: &str) -> (e: MuxError)
    ensures
        fails_as(e, Failure::Rejected, spec@),
{
    import_error(spec, "VVC parameter set ended inside a field")
}

/// Moves to the next byte boundary; the bits passed over are padding.
fn align_cursor(c: &mut BitCursor)
    requires
        old(c).wf(),
    ensures
        final(c).wf(),
        final(c).data@ == old(c).data@,
        final(c).bit_offset == align8(old(c).bit_offset as int),
{
    let rem = c.bit_offset % 8;
    if rem != 0 {
        let ghost n = c.data@.len();
        assert((n * 8) % 8 == 0) by (nonlinear_arith);
        assert(c.bit_offset + (8 - rem) <= n * 8) by (nonlinear_arith)
            requires
                c.bit_offset <= n * 8,
                (n * 8) % 8 == 0,
                rem == c.bit_offset % 8,
                rem != 0,
        ;
        let ok = skip_n(c, 8 - rem);
        assert(ok);
    }
}

/// Reads the general constraint information that a set presence flag announces.
fn read_gci(c: &mut BitCursor, spec: &str) -> (r: Result<Vec<u8>, MuxError>)
    requires
        old(c).wf(),
    ensures
        final(c).wf(),
        final(c).data@ == old(c).data@,
        match gci_at(old(c).data@, old(c).bit_offset as int) {
            Some((v, q)) => r matches Ok(g) && g@ == v && final(c).bit_offset == q,
            None => r matches Err(e) && fails_as(e, Failure::Rejected, spec@),
        },
        r matches Ok(g) ==> g@.len() == 12,
{
    let ghost d = c.data@;
    let ghost p6 = c.bit_offset as int;
    let mut gci: Vec<u8> = Vec::new();
    let first = match read_n(c, 7) { Some(v) => v, None => return Err(vvc_truncated(spec)) };
    proof { lemma_bits_value_bound(d, p6, 7); lemma2_to64(); }
    gci.push((0x80 + first) as u8);
    let ghost p1 = c.bit_offset as int;
    let mut i: usize = 0;
    while i < 8
        invariant
            c.wf(),
            c.data@ == d,
            d == old(c).data@,
            p6 == old(c).bit_offset,
            i <= 8,
            c.bit_offset == p1 + 8 * i,
            p1 == p6 + 7,
            rb(d, p6, 7) is Some,
            first as nat == bits_value(d, p6, 7),
            gci@ == seq![(0x80 + first) as u8] + Seq::new(i as nat, |j: int| bits_value(d, p1 + 8 * j, 8) as u8),
        decreases 8 - i,
    {
        let b = match read_n(c, 8) { Some(v) => v, None => return Err(vvc_truncated(spec)) };
        proof { lemma_bits_value_bound(d, p1 + 8 * i, 8); lemma2_to64(); }
        gci.push(b as u8);
        assert(gci@ =~= seq![(0x80 + first) as u8] + Seq::new((i + 1) as nat, |j: int| bits_value(d, p1 + 8 * j, 8) as u8));
        i = i + 1;
    }
    assert(rb(d, p1, 64) is Some);
    gci.push(0);
    let suffix = match read_n(c, 2) { Some(v) => v, None => return Err(vvc_truncated(spec)) };
    proof { lemma_bits_value_bound(d, p1 + 64, 2); lemma2_to64(); }
    gci.push((suffix * 64) as u8);
    gci.push(0);
    let ext = match read_n(c, 8) { Some(v) => v, None => return Err(vvc_truncated(spec)) };
    let ghost p4 = (p1 + 66) as int;
    proof { lemma_bits_value_bound(d, p4, 8); }
    assert(rb(d, p4, 8) == Some((ext as nat, p4 + 8)));
    if !skip_n(c, ext as usize) {
        return Err(vvc_truncated(spec));
    }
    assert(gci@ =~= seq![(0x80 + first) as u8] + Seq::new(8, |j: int| bits_value(d, p1 + 8 * j, 8) as u8)
        + seq![0u8, (suffix * 64) as u8, 0u8]);
    assert(gci_at(d, p6) is Some);
    assert(gci@ =~= gci_at(d, p6).unwrap().0);
    Ok(gci)
}

/// Reads the sublayer presence flags from the top sublayer down.
fn read_sublayer_mask(c: &mut BitCursor, max_tid: u8, spec: &str) -> (r: Result<u8, MuxError>)
    requires
        old(c).wf(),
        max_tid <= 7,
    ensures
        final(c).wf(),
        final(c).data@ == old(c).data@,
        match mask_at(old(c).data@, old(c).bit_offset as int, max_tid as nat, 0) {
            Some((v, q)) => r == Ok::<u8, MuxError>(v) && final(c).bit_offset == q,
            None => r matches Err(e) && fails_as(e, Failure::Rejected, spec@),
        },
{
    let ghost d = c.data@;
    let ghost p0 = c.bit_offset as int;
    let mut mask: u8 = 0;
    let mut k: u8 = max_tid;
    while k > 0
        invariant
            c.wf(),
            c.data@ == d,
            d == old(c).data@,
            p0 == old(c).bit_offset,
            k <= max_tid <= 7,
            mask_at(d, p0, max_tid as nat, 0) == mask_at(d, c.bit_offset as int, k as nat, mask),
        decreases k,
    {
        let b = match read_flag(c) { Some(v) => v, None => return Err(vvc_truncated(spec)) };
        if b {
            mask = mask | (1u8 << (k - 1));
        }
        k = k - 1;
    }
    Ok(mask)
}

/// Reads the level of each present sublayer from the top sublayer down.
fn read_sublayer_levels(c: &mut BitCursor, max_tid: u8, mask: u8, spec: &str) -> (r: Result<Vec<u8>, MuxError>)
    requires
        old(c).wf(),
        max_tid <= 7,
    ensures
        final(c).wf(),
        final(c).data@ == old(c).data@,
        match levels_at(old(c).data@, old(c).bit_offset as int, max_tid as nat, mask, Seq::new(8, |i: int| 0u8)) {
            Some((v, q)) => r matches Ok(l) && l@ == v && final(c).bit_offset == q,
            None => r matches Err(e) && fails_as(e, Failure::Rejected, spec@),
        },
        r matches Ok(l) ==> l@.len() == 8,
{
    let ghost d = c.data@;
    let ghost p0 = c.bit_offset as int;
    let mut levels: Vec<u8> = vec![0u8, 0u8, 0u8, 0u8, 0u8, 0u8, 0u8, 0u8];
    assert(levels@ =~= Seq::new(8, |i: int| 0u8));
    let mut k: u8 = max_tid;
    while k > 0
        invariant
            c.wf(),
            c.data@ == d,
            d == old(c).data@,
            p0 == old(c).bit_offset,
            k <= max_tid <= 7,
            levels@.len() == 8,
            levels_at(d, p0, max_tid as nat, mask, Seq::new(8, |i: int| 0u8)) == levels_at(d, c.bit_offset as int, k as nat, mask, levels@),
        decreases k,
    {
        if mask & (1u8 << (k - 1)) != 0 {
            let ghost p = c.bit_offset as int;
            let v = match read_n(c, 8) { Some(v) => v, None => return Err(vvc_truncated(spec)) };
            proof { lemma_bits_value_bound(d, p, 8); lemma2_to64(); }
            levels.set((k - 1) as usize, v as u8);
        }
        k = k - 1;
    }
    Ok(levels)
}

/// Reads `num` 32-bit sub-profile identifiers.
fn read_sub_profiles(c: &mut BitCursor, num: u8, spec: &str) -> (r: Result<Vec<u32>, MuxError>)
    requires
        old(c).wf(),
    ensures
        final(c).wf(),
        final(c).data@ == old(c).data@,
        match words_at(old(c).data@, old(c).bit_offset as int, num as nat, Seq::empty()) {
            Some((v, q)) => r matches Ok(w) && w@ == v && final(c).bit_offset == q,
            None => r matches Err(e) && fails_as(e, Failure::Rejected, spec@),
        },
{
    let ghost d = c.data@;
    let ghost p0 = c.bit_offset as int;
    let mut subs: Vec<u32> = Vec::new();
    let mut left: u8 = num;
    while left > 0
        invariant
            c.wf(),
            c.data@ == d,
            d == old(c).data@,
            p0 == old(c).bit_offset,
            left <= num,
            words_at(d, p0, num as nat, Seq::empty()) == words_at(d, c.bit_offset as int, left as nat, subs@),
        decreases left,
    {
        let v = match read_n(c, 32) { Some(v) => v, None => return Err(vvc_truncated(spec)) };
        subs.push(v);
        left = left - 1;
    }
    Ok(subs)
}

/// Reads a profile, tier and level structure for `max_tid` sublayers below the top one.
#[verifier::rlimit(40)]
pub fn read_vvc_profile_tier_level(c: &mut BitCursor, max_tid: u8, spec: &str) -> (r: Result<VvcProfileTierLevel, MuxError>)
    requires
        old(c).wf(),
        max_tid <= 7,
    ensures
        final(c).wf(),
        final(c).data@ == old(c).data@,
        match ptl_at(old(c).data@, old(c).bit_offset as int, max_tid as nat) {
            Some((v, q)) => r matches Ok(ptl) && ptl@ == v && final(c).bit_offset == q,
            None => r matches Err(e) && fails_as(e, Failure::Rejected, spec@),
        },
        r matches Ok(ptl) ==> ptl_wf(ptl@),
{
    proof { reveal(ptl_at); }
    let ghost d = c.data@;
    let ghost p0 = c.bit_offset as int;
    proof { lemma_bits_value_bound(d, p0, 7); lemma_bits_value_bound(d, p0 + 8, 8); lemma2_to64(); }
    let profile = match read_n(c, 7) { Some(v) => v as u8, None => return Err(vvc_truncated(spec)) };
    let tier = match read_flag(c) { Some(v) => v, None => return Err(vvc_truncated(spec)) };
    let level = match read_n(c, 8) { Some(v) => v as u8, None => return Err(vvc_truncated(spec)) };
    let frame_only = match read_flag(c) { Some(v) => v, None => return Err(vvc_truncated(spec)) };
    let multilayer = match read_flag(c) { Some(v) => v, None => return Err(vvc_truncated(spec)) };
    let gci_present = match read_flag(c) { Some(v) => v, None => return Err(vvc_truncated(spec)) };
    let gci = if gci_present {
        read_gci(c, spec)?
    } else {
        let z: Vec<u8> = vec![0u8, 0u8, 0u8, 0u8, 0u8, 0u8, 0u8, 0u8, 0u8, 0u8, 0u8, 0u8];
        assert(z@ =~= Seq::new(12, |i: int| 0u8));
        z
    };
    align_cursor(c);
    let mask = read_sublayer_mask(c, max_tid, spec)?;
    align_cursor(c);
    let levels = read_sublayer_levels(c, max_tid, mask, spec)?;
    let ghost p11 = c.bit_offset as int;
    proof { lemma_bits_value_bound(d, p11, 8); }
    let num = match read_n(c, 8) { Some(v) => v as u8, None => return Err(vvc_truncated(spec)) };
    let subs = read_sub_profiles(c, num, spec)?;
    Ok(VvcProfileTierLevel {
        general_profile_idc: profile,
        general_tier_flag: tier,
        general_level_idc: level,
        frame_only_constraint: frame_only,
        multilayer_enabled: multilayer,
        general_constraint_info: gci,
        sublayer_present_mask: mask,
        sublayer_level_idc: levels,
        num_sub_profiles: num,
        sub_profiles_idc: subs,
    })
}


// ---------------------------------------------------------------------------------------------
// Sequence parameter set
// ---------------------------------------------------------------------------------------------

/// What a VVC sequence parameter set says about the coded pictures.
pub struct VvcSpsInfo {
    pub width: u16,
    pub height: u16,
    pub max_sublayers: u8,
    pub chroma_format_idc: u8,
    pub bit_depth: u8,
    pub profile_tier_level: Option<VvcProfileTierLevel>,
}

/// The fields of [`VvcSpsInfo`] as values.
pub struct VvcSpsView {
    pub width: u16,
    pub height: u16,
    pub max_sublayers: u8,
    pub chroma_format_idc: u8,
    pub bit_depth: u8,
    pub profile_tier_level: Option<VvcPtlView>,
}

impl View for VvcSpsInfo {
    type V = VvcSpsView;

    open spec fn view(&self) -> VvcSpsView {
        VvcSpsView {
            width: self.width,
            height: self.height,
            max_sublayers: self.max_sublayers,
            chroma_format_idc: self.chroma_format_idc,
            bit_depth: self.bit_depth,
            profile_tier_level: match self.profile_tier_level {
                Some(p) => Some(p@),
                None => None,
            },
        }
    }
}

/// The leading fields: SPS and VPS ids (skipped), maximum sublayers, chroma format, CTU size,
/// and the profile-tier-level structure when its presence flag is set. Gives the sublayer
/// count, chroma format, log2 CTU size, the structure and the next position.
#[verifier::opaque]
pub open spec fn sps_header(d: Seq<u8>) -> Option<(u8, u8, u8, Option<VvcPtlView>, int)> {
    match skip(d, 0, 8) {
        None => None,
        Some(p1) => match rb(d, p1, 3) {
            None => None,
            Some((ms, p2)) => match rb(d, p2, 2) {
                None => None,
                Some((chroma, p3)) => match rb(d, p3, 2) {
                    None => None,
                    Some((ctu, p4)) => match rflag(d, p4) {
                        None => None,
                        Some((present, p5)) => if present {
                            match ptl_at(d, p5, ms) {
                                None => None,
                                Some((ptl, p6)) => Some(((ms + 1) as u8, chroma as u8, (ctu + 5) as u8, Some(ptl), p6)),
                            }
                        } else {
                            Some(((ms + 1) as u8, chroma as u8, (ctu + 5) as u8, None, p5))
                        },
                    },
                },
            },
        },
    }
}

/// The chroma subsampling factors a chroma format implies for the conformance window.
pub open spec fn crop_units(chroma: u8) -> (int, int) {
    if chroma == 1 { (2, 2) } else if chroma == 2 { (2, 1) } else { (1, 1) }
}

/// The conformance-window crop of a coded dimension, or an overflow.
pub open spec fn crop(unit: int, a: nat, b: nat) -> Option<int> {
    if a + b > u32::MAX || unit * (a + b) > u32::MAX { None } else { Some(unit * (a + b)) }
}

/// The coded picture size after the conformance window, from the flags that follow the
/// profile structure, and the next position.
#[verifier::opaque]
pub open spec fn sps_dims(d: Seq<u8>, p: int, chroma: u8) -> Result<(u32, u32, int), Failure> {
    match rflag(d, p) {
        None => Err(Failure::Rejected),
        Some((_, p1)) => match rflag(d, p1) {
            None => Err(Failure::Rejected),
            Some((rpr, p2)) => match (if rpr { match rflag(d, p2) { Some((_, q)) => Some(q), None => None } } else { Some(p2) }) {
                None => Err(Failure::Rejected),
                Some(p3) => match ue(d, p3) {
                    None => Err(Failure::Rejected),
                    Some((w, p4)) => match ue(d, p4) {
                        None => Err(Failure::Rejected),
                        Some((h, p5)) => match rflag(d, p5) {
                            None => Err(Failure::Rejected),
                            Some((conf, p6)) => if !conf {
                                if w == 0 || h == 0 { Err(Failure::Rejected) } else { Ok((w as u32, h as u32, p6)) }
                            } else {
                                conf_window(d, p6, chroma, w, h)
                            },
                        },
                    },
                },
            },
        },
    }
}

/// Applies the conformance window read at `p` to a `w` x `h` coded size.
#[verifier::opaque]
pub open spec fn conf_window(d: Seq<u8>, p: int, chroma: u8, w: nat, h: nat) -> Result<(u32, u32, int), Failure> {
    match ue(d, p) {
        None => Err(Failure::Rejected),
        Some((left, p7)) => match ue(d, p7) {
            None => Err(Failure::Rejected),
            Some((right, p8)) => match ue(d, p8) {
                None => Err(Failure::Rejected),
                Some((top, p9)) => match ue(d, p9) {
                    None => Err(Failure::Rejected),
                    Some((bottom, p10)) => match (crop(crop_units(chroma).0, left, right), crop(crop_units(chroma).1, top, bottom)) {
                        (Some(hc), Some(vc)) => if hc >= w || vc >= h {
                            Err(Failure::Rejected)
                        } else {
                            Ok(((w - hc) as u32, (h - vc) as u32, p10))
                        },
                        _ => Err(Failure::Overflow),
                    },
                },
            },
        },
    }
}

/// The four conformance-window offsets (left, right, top, bottom) coded at `p`.
pub open spec fn conf_offsets(d: Seq<u8>, p: int) -> Option<(nat, nat, nat, nat)> {
    match ue(d, p) {
        None => None,
        Some((left, p1)) => match ue(d, p1) {
            None => None,
            Some((right, p2)) => match ue(d, p2) {
                None => None,
                Some((top, p3)) => match ue(d, p3) {
                    None => None,
                    Some((bottom, _)) => Some((left, right, top, bottom)),
                },
            },
        },
    }
}

/// The conformance window crops in chroma sample units: for 4:2:0 (chroma format 1) each
/// offset is two luma samples both ways, for 4:2:2 (2) two across and one down, and for
/// monochrome and 4:4:4 one both ways. A window that leaves a picture gives the coded size
/// less those crops.
#[verifier::rlimit(40)]
pub proof fn lemma_conf_window_crops_in_chroma_units(d: Seq<u8>, p: int, chroma: u8, w: u32, h: u32)
    ensures
        conf_window(d, p, chroma, w as nat, h as nat) matches Ok((cw, ch, _)) ==> conf_offsets(d, p) matches Some((l, r, t, b)) && {
            &&& chroma == 1 ==> cw == w - 2 * (l + r) && ch == h - 2 * (t + b)
            &&& chroma == 2 ==> cw == w - 2 * (l + r) && ch == h - (t + b)
            &&& (chroma != 1 && chroma != 2) ==> cw == w - (l + r) && ch == h - (t + b)
            &&& 0 < cw && 0 < ch
        },
{
    reveal(conf_window);
    if let Ok((cw, ch, _)) = conf_window(d, p, chroma, w as nat, h as nat) {
        let (l, r, t, b) = conf_offsets(d, p).unwrap();
        let (uw, uh) = crop_units(chroma);
        assert(crop(uw, l, r) == Some(uw * (l + r)));
        assert(crop(uh, t, b) == Some(uh * (t + b)));
    }
}

/// The bits the subpicture layout of subpicture `i` of `nb` occupies: position and size fields
/// where the picture spans more than one CTU (all of them for the first subpicture, only when
/// sizes differ for the rest), and two flags each when subpictures are not all independent.
pub open spec fn subpic_cost(i: int, nb: int, same: bool, indep: bool, wb: int, hb: int, wbig: bool, hbig: bool) -> int {
    (if !same || i == 0 {
        (if i != 0 && wbig { wb } else { 0 }) + (if i != 0 && hbig { hb } else { 0 })
            + (if i + 1 < nb && wbig { wb } else { 0 }) + (if i + 1 < nb && hbig { hb } else { 0 })
    } else {
        0
    }) + if !indep { 2int } else { 0int }
}

/// The bits the first `k` subpicture layouts occupy.
pub open spec fn subpic_bits(k: nat, nb: int, same: bool, indep: bool, wb: int, hb: int, wbig: bool, hbig: bool) -> int
    decreases k,
{
    if k == 0 {
        0
    } else {
        subpic_bits((k - 1) as nat, nb, same, indep, wb, hb, wbig, hbig) + subpic_cost(k - 1, nb, same, indep, wb, hb, wbig, hbig)
    }
}

proof fn lemma_subpic_bits_mono(k: nat, m: nat, nb: int, same: bool, indep: bool, wb: int, hb: int, wbig: bool, hbig: bool)
    requires
        k <= m,
        wb >= 0,
        hb >= 0,
    ensures
        0 <= subpic_bits(k, nb, same, indep, wb, hb, wbig, hbig) <= subpic_bits(m, nb, same, indep, wb, hb, wbig, hbig),
    decreases m,
{
    if m > k {
        lemma_subpic_bits_mono(k, (m - 1) as nat, nb, same, indep, wb, hb, wbig, hbig);
    } else if k > 0 {
        lemma_subpic_bits_mono((k - 1) as nat, (k - 1) as nat, nb, same, indep, wb, hb, wbig, hbig);
    }
}

/// The subpicture information that follows the coded size, giving the next position.
#[verifier::opaque]
pub open spec fn sps_subpics(d: Seq<u8>, p: int, w: u32, h: u32, ctb: int) -> Result<int, Failure> {
    match rflag(d, p) {
        None => Err(Failure::Rejected),
        Some((present, p1)) => if !present {
            Ok(p1)
        } else {
            match ue(d, p1) {
                None => Err(Failure::Rejected),
                Some((n, p2)) => {
                    let nb = n + 1;
                    let layout: Result<int, Failure> = if nb > 1 {
                        match rflag(d, p2) {
                            None => Err(Failure::Rejected),
                            Some((indep, p3)) => match rflag(d, p3) {
                                None => Err(Failure::Rejected),
                                Some((same, p4)) => if w + ctb - 1 > u32::MAX || h + ctb - 1 > u32::MAX {
                                    Err(Failure::Overflow)
                                } else {
                                    let wb = ceil_log2((w + ctb - 1) / ctb);
                                    let hb = ceil_log2((h + ctb - 1) / ctb);
                                    let total = subpic_bits(nb as nat, nb as int, same, indep, wb as int, hb as int, w > ctb, h > ctb);
                                    if p4 + total > d.len() * 8 { Err(Failure::Rejected) } else { Ok(p4 + total) }
                                },
                            },
                        }
                    } else {
                        Ok(p2)
                    };
                    match layout {
                        Err(f) => Err(f),
                        Ok(p5) => match ue(d, p5) {
                            None => Err(Failure::Rejected),
                            Some((id_len_minus1, p6)) => match rflag(d, p6) {
                                None => Err(Failure::Rejected),
                                Some((explicit, p7)) => if !explicit {
                                    Ok(p7)
                                } else {
                                    match rflag(d, p7) {
                                        None => Err(Failure::Rejected),
                                        Some((mapped, p8)) => if !mapped {
                                            Ok(p8)
                                        } else if p8 + nb * (id_len_minus1 + 1) > d.len() * 8 {
                                            Err(Failure::Rejected)
                                        } else {
                                            Ok(p8 + nb * (id_len_minus1 + 1))
                                        },
                                    }
                                },
                            },
                        },
                    }
                },
            }
        },
    }
}

/// The bit depth field that closes the parsed part, and the final range checks.
#[verifier::opaque]
pub open spec fn sps_tail(d: Seq<u8>, p: int, w: u32, h: u32, ms: u8, chroma: u8, ptl: Option<VvcPtlView>) -> Result<VvcSpsView, Failure> {
    match ue(d, p) {
        None => Err(Failure::Rejected),
        Some((bd, _)) => if bd + 8 > u32::MAX || w > u16::MAX || h > u16::MAX || bd + 8 > u8::MAX {
            Err(Failure::Overflow)
        } else {
            Ok(VvcSpsView {
                width: w as u16,
                height: h as u16,
                max_sublayers: ms,
                chroma_format_idc: chroma,
                bit_depth: (bd + 8) as u8,
                profile_tier_level: ptl,
            })
        },
    }
}

/// The sequence parameter set fields of a raw byte sequence payload.
pub open spec fn sps_body(d: Seq<u8>) -> Result<VvcSpsView, Failure> {
    match sps_header(d) {
        None => Err(Failure::Rejected),
        Some((ms, chroma, ctu, ptl, p)) => match sps_dims(d, p, chroma) {
            Err(f) => Err(f),
            Ok((w, h, p2)) => match sps_subpics(d, p2, w, h, pow2(ctu as nat) as int) {
                Err(f) => Err(f),
                Ok(p3) => sps_tail(d, p3, w, h, ms, chroma, ptl),
            },
        },
    }
}

/// The sequence parameter set of a NAL unit (two header bytes, then the escaped payload).
pub open spec fn sps_parse(nal: Seq<u8>) -> Result<VvcSpsView, Failure> {
    if nal.len() < 3 {
        Err(Failure::Rejected)
    } else {
        sps_body(rbsp(nal.subrange(2, nal.len() as int)))
    }
}

/// The view of an optional profile structure.
pub open spec fn ptl_view(p: Option<VvcProfileTierLevel>) -> Option<VvcPtlView> {
    match p {
        Some(v) => Some(v@),
        None => None,
    }
}

/// Reads the leading SPS fields from the start of the payload.
fn read_sps_header(c: &mut BitCursor, spec: &str) -> (r: Result<(u8, u8, u8, Option<VvcProfileTierLevel>), MuxError>)
    requires
        old(c).wf(),
        old(c).bit_offset == 0,
    ensures
        final(c).wf(),
        final(c).data@ == old(c).data@,
        match sps_header(old(c).data@) {
            Some((ms, chroma, ctu, ptl, q)) => r matches Ok((a, b, e, f)) && a == ms && b == chroma && e == ctu
                && ptl_view(f) == ptl && final(c).bit_offset == q,
            None => r matches Err(e) && fails_as(e, Failure::Rejected, spec@),
        },
        r matches Ok((a, b, e, f)) ==> 1 <= a <= 8 && 5 <= e <= 8 && (f matches Some(p) ==> ptl_wf(p@)),
{
    proof { reveal(sps_header); }
    let ghost d = c.data@;
    if !skip_n(c, 8) {
        return Err(vvc_truncated(spec));
    }
    proof {
        lemma_bits_value_bound(d, 8, 3);
        lemma_bits_value_bound(d, 11, 2);
        lemma_bits_value_bound(d, 13, 2);
        lemma2_to64();
    }
    let ms = match read_n(c, 3) { Some(v) => v as u8, None => return Err(vvc_truncated(spec)) };
    let chroma = match read_n(c, 2) { Some(v) => v as u8, None => return Err(vvc_truncated(spec)) };
    let ctu = match read_n(c, 2) { Some(v) => v as u8, None => return Err(vvc_truncated(spec)) };
    let present = match read_flag(c) { Some(v) => v, None => return Err(vvc_truncated(spec)) };
    let ptl = if present {
        Some(read_vvc_profile_tier_level(c, ms, spec)?)
    } else {
        None
    };
    Ok((ms + 1, chroma, ctu + 5, ptl))
}

/// Reads the coded size and applies the conformance window.
fn read_sps_dims(c: &mut BitCursor, chroma: u8, spec: &str) -> (r: Result<(u32, u32), MuxError>)
    requires
        old(c).wf(),
    ensures
        final(c).wf(),
        final(c).data@ == old(c).data@,
        match sps_dims(old(c).data@, old(c).bit_offset as int, chroma) {
            Ok((w, h, q)) => r matches Ok((a, b)) && a == w && b == h && final(c).bit_offset == q,
            Err(f) => r matches Err(e) && fails_as(e, f, spec@),
        },
{
    proof { reveal(sps_dims); }
    let _gdr = match read_flag(c) { Some(v) => v, None => return Err(vvc_truncated(spec)) };
    let rpr = match read_flag(c) { Some(v) => v, None => return Err(vvc_truncated(spec)) };
    if rpr {
        let _res_change = match read_flag(c) { Some(v) => v, None => return Err(vvc_truncated(spec)) };
    }
    let width = match read_ue(c) { Some(v) => v, None => return Err(vvc_truncated(spec)) };
    let height = match read_ue(c) { Some(v) => v, None => return Err(vvc_truncated(spec)) };
    let conf = match read_flag(c) { Some(v) => v, None => return Err(vvc_truncated(spec)) };
    if !conf {
        if width == 0 || height == 0 {
            return Err(import_error(spec, "VVC SPS coded dimensions resolved to zero"));
        }
        return Ok((width, height));
    }
    read_conf_window(c, chroma, width, height, spec)
}

/// Reads the conformance window offsets and crops the coded size by them.
fn read_conf_window(c: &mut BitCursor, chroma: u8, width: u32, height: u32, spec: &str) -> (r: Result<(u32, u32), MuxError>)
    requires
        old(c).wf(),
    ensures
        final(c).wf(),
        final(c).data@ == old(c).data@,
        match conf_window(old(c).data@, old(c).bit_offset as int, chroma, width as nat, height as nat) {
            Ok((w, h, q)) => r matches Ok((a, b)) && a == w && b == h && final(c).bit_offset == q,
            Err(f) => r matches Err(e) && fails_as(e, f, spec@),
        },
{
    proof { reveal(conf_window); }
    let left = match read_ue(c) { Some(v) => v, None => return Err(vvc_truncated(spec)) };
    let right = match read_ue(c) { Some(v) => v, None => return Err(vvc_truncated(spec)) };
    let top = match read_ue(c) { Some(v) => v, None => return Err(vvc_truncated(spec)) };
    let bottom = match read_ue(c) { Some(v) => v, None => return Err(vvc_truncated(spec)) };
    let (sub_width_c, sub_height_c): (u32, u32) = if chroma == 1 { (2, 2) } else if chroma == 2 { (2, 1) } else { (1, 1) };
    let horizontal_crop = match left.checked_add(right) {
        Some(sum) => match sub_width_c.checked_mul(sum) {
            Some(v) => v,
            None => return Err(overflow("VVC conformance width crop")),
        },
        None => return Err(overflow("VVC conformance width crop")),
    };
    let vertical_crop = match top.checked_add(bottom) {
        Some(sum) => match sub_height_c.checked_mul(sum) {
            Some(v) => v,
            None => return Err(overflow("VVC conformance height crop")),
        },
        None => return Err(overflow("VVC conformance height crop")),
    };
    if horizontal_crop >= width || vertical_crop >= height {
        return Err(import_error(spec, "VVC SPS conformance window exceeds coded dimensions"));
    }
    Ok((width - horizontal_crop, height - vertical_crop))
}


/// The bits one subpicture's layout occupies, computed as the parser consumes them.
fn subpic_cost_exec(i: u32, nb: u32, same: bool, indep: bool, wb: u32, hb: u32, wbig: bool, hbig: bool) -> (r: usize)
    requires
        wb <= 31,
        hb <= 31,
    ensures
        r as int == subpic_cost(i as int, nb as int, same, indep, wb as int, hb as int, wbig, hbig),
        r <= 126,
{
    let mut cost: usize = 0;
    if !same || i == 0 {
        if i != 0 && wbig { cost = cost + wb as usize; }
        if i != 0 && hbig { cost = cost + hb as usize; }
        if (i as u64) + 1 < nb as u64 && wbig { cost = cost + wb as usize; }
        if (i as u64) + 1 < nb as u64 && hbig { cost = cost + hb as usize; }
    }
    if !indep {
        cost = cost + 2;
    }
    cost
}

/// Passes over the subpicture layouts of `nb` subpictures.
fn skip_subpic_layouts(c: &mut BitCursor, nb: u32, same: bool, indep: bool, wb: u32, hb: u32, wbig: bool, hbig: bool, spec: &str) -> (r: Result<(), MuxError>)
    requires
        old(c).wf(),
        wb <= 31,
        hb <= 31,
    ensures
        final(c).wf(),
        final(c).data@ == old(c).data@,
        ({
            let total = subpic_bits(nb as nat, nb as int, same, indep, wb as int, hb as int, wbig, hbig);
            if old(c).bit_offset + total > old(c).data@.len() * 8 {
                r matches Err(e) && fails_as(e, Failure::Rejected, spec@)
            } else {
                r is Ok && final(c).bit_offset == old(c).bit_offset + total
            }
        }),
{
    let ghost d = c.data@;
    let ghost p0 = c.bit_offset as int;
    let mut index: u32 = 0;
    while index < nb
        invariant
            c.wf(),
            c.data@ == d,
            d == old(c).data@,
            p0 == old(c).bit_offset,
            wb <= 31,
            hb <= 31,
            index <= nb,
            c.bit_offset == p0 + subpic_bits(index as nat, nb as int, same, indep, wb as int, hb as int, wbig, hbig),
        decreases nb - index,
    {
        let cost = subpic_cost_exec(index, nb, same, indep, wb, hb, wbig, hbig);
        if !skip_n(c, cost) {
            proof {
                lemma_subpic_bits_mono((index + 1) as nat, nb as nat, nb as int, same, indep, wb as int, hb as int, wbig, hbig);
            }
            return Err(vvc_truncated(spec));
        }
        index = index + 1;
    }
    Ok(())
}

/// Reads the subpicture information after the coded size.
#[verifier::rlimit(40)]
fn read_sps_subpics(c: &mut BitCursor, w: u32, h: u32, ctb: u32, spec: &str) -> (r: Result<(), MuxError>)
    requires
        old(c).wf(),
        32 <= ctb <= 256,
    ensures
        final(c).wf(),
        final(c).data@ == old(c).data@,
        match sps_subpics(old(c).data@, old(c).bit_offset as int, w, h, ctb as int) {
            Ok(q) => r is Ok && final(c).bit_offset == q,
            Err(f) => r matches Err(e) && fails_as(e, f, spec@),
        },
{
    proof { reveal(sps_subpics); }
    let ghost d = c.data@;
    let present = match read_flag(c) { Some(v) => v, None => return Err(vvc_truncated(spec)) };
    if !present {
        return Ok(());
    }
    let n = match read_ue(c) { Some(v) => v, None => return Err(vvc_truncated(spec)) };
    let nb: u32 = n + 1;
    if nb > 1 {
        let indep = match read_flag(c) { Some(v) => v, None => return Err(vvc_truncated(spec)) };
        let same = match read_flag(c) { Some(v) => v, None => return Err(vvc_truncated(spec)) };
        let wsum = match w.checked_add(ctb - 1) { Some(v) => v, None => return Err(overflow("VVC SPS width CTU count")) };
        let hsum = match h.checked_add(ctb - 1) { Some(v) => v, None => return Err(overflow("VVC SPS height CTU count")) };
        assert(wsum / ctb <= 0x8000_0000 && hsum / ctb <= 0x8000_0000) by (nonlinear_arith)
            requires
                wsum <= 0xFFFF_FFFF,
                hsum <= 0xFFFF_FFFF,
                ctb >= 32,
        ;
        let wb = vvc_ceil_log2(wsum / ctb);
        let hb = vvc_ceil_log2(hsum / ctb);
        skip_subpic_layouts(c, nb, same, indep, wb, hb, w > ctb, h > ctb, spec)?;
    }
    let id_len_minus1 = match read_ue(c) { Some(v) => v, None => return Err(vvc_truncated(spec)) };
    let explicit = match read_flag(c) { Some(v) => v, None => return Err(vvc_truncated(spec)) };
    if explicit {
        let mapped = match read_flag(c) { Some(v) => v, None => return Err(vvc_truncated(spec)) };
        if mapped {
            let id_len: u64 = id_len_minus1 as u64 + 1;
            assert((nb as u64) * id_len <= 0xFFFF_FFFF * 0x1_0000_0000) by (nonlinear_arith)
                requires
                    nb <= 0xFFFF_FFFF,
                    id_len <= 0x1_0000_0000,
            ;
            let total: u64 = (nb as u64) * id_len;
            let remaining: usize = c.data.len() * 8 - c.bit_offset;
            if total > remaining as u64 {
                return Err(vvc_truncated(spec));
            }
            let ok = skip_n(c, total as usize);
            assert(ok);
        }
    }
    Ok(())
}

/// Reads the bit depth and range-checks the parsed fields.
fn read_sps_tail(c: &mut BitCursor, w: u32, h: u32, ms: u8, chroma: u8, ptl: Option<VvcProfileTierLevel>, spec: &str) -> (r: Result<VvcSpsInfo, MuxError>)
    requires
        old(c).wf(),
    ensures
        final(c).wf(),
        match sps_tail(old(c).data@, old(c).bit_offset as int, w, h, ms, chroma, ptl_view(ptl)) {
            Ok(v) => r matches Ok(info) && info@ == v,
            Err(f) => r matches Err(e) && fails_as(e, f, spec@),
        },
        r matches Ok(info) ==> info.max_sublayers == ms && info.profile_tier_level == ptl && info.bit_depth >= 8,
{
    proof { reveal(sps_tail); }
    let bd = match read_ue(c) { Some(v) => v, None => return Err(vvc_truncated(spec)) };
    let bit_depth = match bd.checked_add(8) { Some(v) => v, None => return Err(overflow("VVC bit depth")) };
    if w > 0xFFFF {
        return Err(overflow("VVC coded width"));
    }
    if h > 0xFFFF {
        return Err(overflow("VVC coded height"));
    }
    if bit_depth > 0xFF {
        return Err(overflow("VVC coded bit depth"));
    }
    Ok(VvcSpsInfo {
        width: w as u16,
        height: h as u16,
        max_sublayers: ms,
        chroma_format_idc: chroma,
        bit_depth: bit_depth as u8,
        profile_tier_level: ptl,
    })
}

/// Reads the sequence parameter set fields from the start of a raw byte sequence payload.
#[verifier::rlimit(60)]
fn read_sps_body(c: &mut BitCursor, spec: &str) -> (r: Result<VvcSpsInfo, MuxError>)
    requires
        old(c).wf(),
        old(c).bit_offset == 0,
    ensures
        match sps_body(old(c).data@) {
            Ok(v) => r matches Ok(info) && info@ == v,
            Err(f) => r matches Err(e) && fails_as(e, f, spec@),
        },
        r matches Ok(info) ==> 1 <= info.max_sublayers <= 8 && (info.profile_tier_level matches Some(p) ==> ptl_wf(p@)) && info.bit_depth >= 8,
{
    let ghost d = c.data@;
    let (max_sublayers, chroma_format_idc, log2_ctu, profile_tier_level) = match read_sps_header(c, spec) {
        Ok(v) => v,
        Err(e) => return Err(e),
    };
    let (width, height) = match read_sps_dims(c, chroma_format_idc, spec) {
        Ok(v) => v,
        Err(e) => return Err(e),
    };
    proof {
        lemma2_to64();
        vstd::bits::lemma_u32_pow2_no_overflow(log2_ctu as nat);
        vstd::bits::lemma_u32_shl_is_mul(1, log2_ctu as u32);
    }
    let ctb: u32 = 1u32 << (log2_ctu as u32);
    proof {
        if log2_ctu > 5 {
            lemma_pow2_strictly_increases(5, log2_ctu as nat);
        }
        lemma_pow2_strictly_increases(log2_ctu as nat, 9);
    }
    match read_sps_subpics(c, width, height, ctb, spec) {
        Ok(()) => {},
        Err(e) => return Err(e),
    }
    read_sps_tail(c, width, height, max_sublayers, chroma_format_idc, profile_tier_level, spec)
}

/// Parses the fields of a VVC sequence parameter set NAL unit that the decoder configuration
/// record carries.
pub fn parse_vvc_sps_configuration(nal: &[u8], spec: &str) -> (r: Result<VvcSpsInfo, MuxError>)
    requires
        nal@.len() <= usize::MAX / 8,
    ensures
        match sps_parse(nal@) {
            Ok(v) => r matches Ok(info) && info@ == v,
            Err(f) => r matches Err(e) && fails_as(e, f, spec@),
        },
        r matches Ok(info) ==> 1 <= info.max_sublayers <= 8 && (info.profile_tier_level matches Some(p) ==> ptl_wf(p@)) && info.bit_depth >= 8,
{
    if nal.len() < 3 {
        return Err(import_error(spec, "VVC SPS NAL is too short"));
    }
    let tail: &[u8] = &nal[2..nal.len()];
    assert(tail@ == nal@.subrange(2, nal@.len() as int));
    let payload = nal_to_rbsp(tail);
    let mut c = BitCursor::new(payload.as_slice());
    read_sps_body(&mut c, spec)
}


// ---------------------------------------------------------------------------------------------
// Decoder configuration record
// ---------------------------------------------------------------------------------------------

/// A profile structure as the parser builds it: twelve constraint bytes and eight levels.
pub open spec fn ptl_wf(p: VvcPtlView) -> bool {
    p.general_constraint_info.len() >= 12 && p.sublayer_level_idc.len() >= 8
}

/// The bits of each byte of `s`, in order.
pub open spec fn bytes_bits(s: Seq<u8>) -> Seq<bool>
    decreases s.len(),
{
    if s.len() == 0 { Seq::empty() } else { bytes_bits(s.drop_last()) + bits_of(s.last() as u32, 8) }
}

/// Sublayer presence bits for layers `k - 1` down to 0.
pub open spec fn sublayer_flag_bits(mask: u8, k: nat) -> Seq<bool>
    decreases k,
{
    if k == 0 { Seq::empty() } else { seq![mask & (1u8 << ((k - 1) as u8)) != 0] + sublayer_flag_bits(mask, (k - 1) as nat) }
}

/// Levels of the present sublayers among `k - 1` down to 0.
pub open spec fn sublayer_level_bits(mask: u8, levels: Seq<u8>, k: nat) -> Seq<bool>
    decreases k,
{
    if k == 0 {
        Seq::empty()
    } else {
        (if mask & (1u8 << ((k - 1) as u8)) != 0 { bits_of(levels[k - 1] as u32, 8) } else { Seq::empty() })
            + sublayer_level_bits(mask, levels, (k - 1) as nat)
    }
}

/// The bits of a list of 32-bit values.
pub open spec fn words_bits(s: Seq<u32>) -> Seq<bool>
    decreases s.len(),
{
    if s.len() == 0 { Seq::empty() } else { words_bits(s.drop_last()) + bits_of(s.last(), 32) }
}

/// The fixed-width fields that open the profile part of the record.
pub open spec fn ptl_fixed_bits(info: VvcSpsView, ptl: VvcPtlView) -> Seq<bool> {
    bits_of(0, 9) + bits_of(info.max_sublayers as u32, 3) + bits_of(1, 2) + bits_of(info.chroma_format_idc as u32, 2)
        + bits_of((info.bit_depth - 8) as u32, 3) + bits_of(0x1F, 5) + bits_of(0, 2) + bits_of(12, 6)
        + bits_of(ptl.general_profile_idc as u32, 7) + seq![ptl.general_tier_flag]
        + bits_of(ptl.general_level_idc as u32, 8) + seq![ptl.frame_only_constraint, ptl.multilayer_enabled]
}

/// Eleven constraint bytes and six bits of the twelfth.
pub open spec fn ptl_gci_bits(gci: Seq<u8>) -> Seq<bool> {
    bytes_bits(gci.subrange(0, 11)) + bits_of(gci[11] as u32, 6)
}

/// Sublayer flags, their padding to eight, and the present sublayers' levels.
pub open spec fn ptl_sublayer_bits(ms: u8, ptl: VvcPtlView) -> Seq<bool> {
    let tid: nat = if ms >= 1 { (ms - 1) as nat } else { 0 };
    sublayer_flag_bits(ptl.sublayer_present_mask, tid)
        + (if ms > 1 { Seq::new((9 - ms) as nat, |i: int| false) } else { Seq::empty() })
        + sublayer_level_bits(ptl.sublayer_present_mask, ptl.sublayer_level_idc, tid)
}

/// Sub-profiles, picture size and the zero frame rate field.
pub open spec fn ptl_tail_bits(info: VvcSpsView, ptl: VvcPtlView) -> Seq<bool> {
    bits_of(ptl.num_sub_profiles as u32, 8) + words_bits(ptl.sub_profiles_idc)
        + bits_of(info.width as u32, 16) + bits_of(info.height as u32, 16) + bits_of(0, 16)
}

/// The native-layer profile part of the record, or the failure when the bit depth is below 8.
pub open spec fn dcr_ptl_bits(info: VvcSpsView, ptl: VvcPtlView) -> Result<Seq<bool>, Failure> {
    if info.bit_depth < 8 {
        Err(Failure::Rejected)
    } else {
        Ok(ptl_fixed_bits(info, ptl) + ptl_gci_bits(ptl.general_constraint_info) + ptl_sublayer_bits(info.max_sublayers, ptl)
            + ptl_tail_bits(info, ptl))
    }
}

/// Each NAL unit with its 16-bit length, or nothing when one is longer than 65535 bytes.
pub open spec fn nal_list_bits(nals: Seq<Seq<u8>>) -> Option<Seq<bool>>
    decreases nals.len(),
{
    if nals.len() == 0 {
        Some(Seq::empty())
    } else {
        match nal_list_bits(nals.drop_last()) {
            None => None,
            Some(b) => if nals.last().len() > 0xFFFF {
                None
            } else {
                Some(b + bits_of(nals.last().len() as u32, 16) + bytes_bits(nals.last()))
            },
        }
    }
}

/// One NAL array: completeness flag, reserved bits, type, count, then the units.
pub open spec fn nal_array_bits(nal_type: u8, nals: Seq<Seq<u8>>) -> Option<Seq<bool>> {
    if nals.len() > 0xFFFF {
        None
    } else {
        match nal_list_bits(nals) {
            None => None,
            Some(b) => Some(seq![true] + bits_of(0, 2) + bits_of(nal_type as u32, 5) + bits_of(nals.len() as u32, 16) + b),
        }
    }
}

/// The NAL arrays: VPS units when there are any, then SPS and PPS units.
pub open spec fn dcr_array_bits(vps: Seq<Seq<u8>>, sps: Seq<Seq<u8>>, pps: Seq<Seq<u8>>) -> Option<Seq<bool>> {
    let count: u32 = if vps.len() > 0 { 3 } else { 2 };
    match (if vps.len() > 0 { nal_array_bits(14, vps) } else { Some(Seq::empty()) }) {
        None => None,
        Some(v) => match nal_array_bits(15, sps) {
            None => None,
            Some(s) => match nal_array_bits(16, pps) {
                None => None,
                Some(p) => Some(bits_of(count, 8) + v + s + p),
            },
        },
    }
}

/// The bits of a VVC decoder configuration record with four-byte NAL lengths.
pub open spec fn dcr_bits(info: VvcSpsView, vps: Seq<Seq<u8>>, sps: Seq<Seq<u8>>, pps: Seq<Seq<u8>>) -> Result<Seq<bool>, Failure> {
    let head = bits_of(0x1F, 5) + bits_of(3, 2) + seq![info.profile_tier_level is Some];
    match (match info.profile_tier_level {
        Some(ptl) => dcr_ptl_bits(info, ptl),
        None => Ok(Seq::empty()),
    }) {
        Err(f) => Err(f),
        Ok(pb) => match dcr_array_bits(vps, sps, pps) {
            None => Err(Failure::Overflow),
            Some(ab) => Ok(head + pb + ab),
        },
    }
}

/// The byte views of a list of byte vectors.
pub open spec fn nal_views(v: Seq<Vec<u8>>) -> Seq<Seq<u8>> {
    v.map_values(|b: Vec<u8>| b@)
}

/// Writes the bytes of `s`.
fn write_bytes(w: &mut VvcBitWriter, s: &[u8])
    ensures
        final(w).bits@ == old(w).bits@ + bytes_bits(s@),
{
    let mut i: usize = 0;
    while i < s.len()
        invariant
            i <= s@.len(),
            w.bits@ == old(w).bits@ + bytes_bits(s@.subrange(0, i as int)),
        decreases s.len() - i,
    {
        write_u8_bits(w, s[i], 8);
        proof {
            let t = s@.subrange(0, i + 1);
            assert(t.drop_last() =~= s@.subrange(0, i as int));
        }
        i = i + 1;
    }
    assert(s@.subrange(0, s@.len() as int) =~= s@);
}

/// Writes one NAL array, failing when a count or length does not fit 16 bits.
fn write_nal_array(w: &mut VvcBitWriter, nal_type: u8, nals: &[Vec<u8>]) -> (r: bool)
    requires
        nal_type < 32,
    ensures
        match nal_array_bits(nal_type, nal_views(nals@)) {
            Some(b) => r && final(w).bits@ == old(w).bits@ + b,
            None => !r,
        },
{
    if nals.len() > 0xFFFF {
        return false;
    }
    let ghost before = w.bits@;
    w.write_bit(true);
    write_u8_bits(w, 0, 2);
    write_u8_bits(w, nal_type, 5);
    write_u16_bits(w, nals.len() as u16, 16);
    let ghost head = w.bits@;
    let mut i: usize = 0;
    while i < nals.len()
        invariant
            i <= nals@.len(),
            nal_list_bits(nal_views(nals@).subrange(0, i as int)) matches Some(b) && w.bits@ == head + b,
        decreases nals.len() - i,
    {
        let nal = &nals[i];
        proof {
            assert(nal_views(nals@).subrange(0, i + 1).drop_last() =~= nal_views(nals@).subrange(0, i as int));
        }
        if nal.len() > 0xFFFF {
            proof { lemma_nal_list_none_extends(nal_views(nals@), (i + 1) as nat); }
            return false;
        }
        write_u16_bits(w, nal.len() as u16, 16);
        write_bytes(w, nal.as_slice());
        i = i + 1;
    }
    assert(nal_views(nals@).subrange(0, nals@.len() as int) =~= nal_views(nals@));
    true
}

/// Once a prefix has an overlong unit, so does every longer prefix.
proof fn lemma_nal_list_none_extends(nals: Seq<Seq<u8>>, k: nat)
    requires
        k <= nals.len(),
        nal_list_bits(nals.subrange(0, k as int)) is None,
    ensures
        nal_list_bits(nals) is None,
    decreases nals.len() - k,
{
    if k < nals.len() {
        assert(nals.subrange(0, (k + 1) as int).drop_last() =~= nals.subrange(0, k as int));
        lemma_nal_list_none_extends(nals, k + 1);
    } else {
        assert(nals.subrange(0, k as int) =~= nals);
    }
}


/// Writes sublayer presence flags for layers `tid - 1` down to 0.
fn write_sublayer_flags(w: &mut VvcBitWriter, mask: u8, tid: u8)
    requires
        tid <= 8,
    ensures
        final(w).bits@ == old(w).bits@ + sublayer_flag_bits(mask, tid as nat),
{
    let ghost b2 = w.bits@;
    let mut k: u8 = tid;
    while k > 0
        invariant
            k <= tid <= 8,
            b2 == old(w).bits@,
            b2 + sublayer_flag_bits(mask, tid as nat) == w.bits@ + sublayer_flag_bits(mask, k as nat),
        decreases k,
    {
        let ghost before = w.bits@;
        w.write_bit(mask & (1u8 << (k - 1)) != 0);
        assert(before + sublayer_flag_bits(mask, k as nat) =~= w.bits@ + sublayer_flag_bits(mask, (k - 1) as nat));
        k = k - 1;
    }
    assert(w.bits@ + sublayer_flag_bits(mask, 0) =~= w.bits@);
}

/// Writes `9 - ms` zero bits when there is more than one sublayer.
fn write_sublayer_padding(w: &mut VvcBitWriter, ms: u8)
    requires
        ms <= 9,
    ensures
        final(w).bits@ == old(w).bits@ + (if ms > 1 { Seq::new((9 - ms) as nat, |i: int| false) } else { Seq::empty() }),
{
    let ghost b3 = w.bits@;
    if ms > 1 {
        let mut j: u8 = ms;
        while j <= 8
            invariant
                2 <= ms <= j <= 9,
                b3 == old(w).bits@,
                w.bits@ == b3 + Seq::new((j - ms) as nat, |i: int| false),
            decreases 9 - j,
        {
            w.write_bit(false);
            assert(w.bits@ =~= b3 + Seq::new((j + 1 - ms) as nat, |i: int| false));
            j = j + 1;
        }
    } else {
        assert(w.bits@ =~= b3 + Seq::<bool>::empty());
    }
}

/// Writes the levels of the present sublayers among `tid - 1` down to 0.
fn write_sublayer_levels(w: &mut VvcBitWriter, mask: u8, levels: &[u8], tid: u8)
    requires
        tid <= 8,
        levels@.len() >= 8,
    ensures
        final(w).bits@ == old(w).bits@ + sublayer_level_bits(mask, levels@, tid as nat),
{
    let ghost b4 = w.bits@;
    let mut k: u8 = tid;
    while k > 0
        invariant
            k <= tid <= 8,
            levels@.len() >= 8,
            b4 == old(w).bits@,
            b4 + sublayer_level_bits(mask, levels@, tid as nat) == w.bits@ + sublayer_level_bits(mask, levels@, k as nat),
        decreases k,
    {
        let ghost before = w.bits@;
        if mask & (1u8 << (k - 1)) != 0 {
            write_u8_bits(w, levels[(k - 1) as usize], 8);
        }
        assert(before + sublayer_level_bits(mask, levels@, k as nat) =~= w.bits@ + sublayer_level_bits(mask, levels@, (k - 1) as nat));
        k = k - 1;
    }
    assert(w.bits@ + sublayer_level_bits(mask, levels@, 0) =~= w.bits@);
}

/// Writes a list of 32-bit values.
fn write_words(w: &mut VvcBitWriter, subs: &[u32])
    ensures
        final(w).bits@ == old(w).bits@ + words_bits(subs@),
{
    let mut i: usize = 0;
    while i < subs.len()
        invariant
            i <= subs@.len(),
            w.bits@ == old(w).bits@ + words_bits(subs@.subrange(0, i as int)),
        decreases subs.len() - i,
    {
        write_u32_bits(w, subs[i], 32);
        assert(subs@.subrange(0, i + 1).drop_last() =~= subs@.subrange(0, i as int));
        i = i + 1;
    }
    assert(subs@.subrange(0, subs@.len() as int) =~= subs@);
}

/// Writes the fixed-width fields that open the profile part.
fn write_ptl_fixed(w: &mut VvcBitWriter, info: &VvcSpsInfo, ptl: &VvcProfileTierLevel)
    requires
        info.bit_depth >= 8,
    ensures
        final(w).bits@ == old(w).bits@ + ptl_fixed_bits(info@, ptl@),
{
    let ghost b0 = w.bits@;
    write_u16_bits(w, 0, 9);
    write_u8_bits(w, info.max_sublayers, 3);
    write_u8_bits(w, 1, 2);
    write_u8_bits(w, info.chroma_format_idc, 2);
    write_u8_bits(w, info.bit_depth - 8, 3);
    write_u8_bits(w, 0x1F, 5);
    write_u8_bits(w, 0, 2);
    write_u8_bits(w, 12, 6);
    write_u8_bits(w, ptl.general_profile_idc, 7);
    w.write_bit(ptl.general_tier_flag);
    write_u8_bits(w, ptl.general_level_idc, 8);
    w.write_bit(ptl.frame_only_constraint);
    w.write_bit(ptl.multilayer_enabled);
    assert(w.bits@ =~= b0 + ptl_fixed_bits(info@, ptl@));
}

/// Writes eleven constraint bytes and six bits of the twelfth.
fn write_ptl_gci(w: &mut VvcBitWriter, gci: &[u8])
    requires
        gci@.len() >= 12,
    ensures
        final(w).bits@ == old(w).bits@ + ptl_gci_bits(gci@),
{
    let ghost b1 = w.bits@;
    let gci_head: &[u8] = &gci[0..11];
    assert(gci_head@ == gci@.subrange(0, 11));
    write_bytes(w, gci_head);
    write_u8_bits(w, gci[11], 6);
    assert(w.bits@ =~= b1 + ptl_gci_bits(gci@));
}

/// Writes the sub-profiles, the picture size and the zero frame rate field.
fn write_ptl_tail(w: &mut VvcBitWriter, info: &VvcSpsInfo, ptl: &VvcProfileTierLevel)
    ensures
        final(w).bits@ == old(w).bits@ + ptl_tail_bits(info@, ptl@),
{
    let ghost b3 = w.bits@;
    write_u8_bits(w, ptl.num_sub_profiles, 8);
    write_words(w, ptl.sub_profiles_idc.as_slice());
    write_u16_bits(w, info.width, 16);
    write_u16_bits(w, info.height, 16);
    write_u16_bits(w, 0, 16);
    assert(w.bits@ =~= b3 + ptl_tail_bits(info@, ptl@));
}

/// Writes the profile part of the record.
fn write_dcr_ptl(w: &mut VvcBitWriter, info: &VvcSpsInfo, ptl: &VvcProfileTierLevel) -> (r: Result<(), MuxError>)
    requires
        info.max_sublayers <= 9,
        ptl_wf(ptl@),
    ensures
        match dcr_ptl_bits(info@, ptl@) {
            Ok(b) => r is Ok && final(w).bits@ == old(w).bits@ + b,
            Err(f) => r matches Err(e) && fails_as(e, f, "VVC"@),
        },
{
    if info.bit_depth < 8 {
        return Err(import_error("VVC", "VVC bit depth must be at least 8"));
    }
    let ghost b0 = w.bits@;
    write_ptl_fixed(w, info, ptl);
    let ghost b1 = w.bits@;
    write_ptl_gci(w, ptl.general_constraint_info.as_slice());
    let ghost b2 = w.bits@;
    let tid: u8 = if info.max_sublayers >= 1 { info.max_sublayers - 1 } else { 0 };
    write_sublayer_flags(w, ptl.sublayer_present_mask, tid);
    write_sublayer_padding(w, info.max_sublayers);
    write_sublayer_levels(w, ptl.sublayer_present_mask, ptl.sublayer_level_idc.as_slice(), tid);
    assert(w.bits@ =~= b2 + ptl_sublayer_bits(info.max_sublayers, ptl@));
    let ghost b3 = w.bits@;
    write_ptl_tail(w, info, ptl);
    assert(w.bits@ =~= b0 + ptl_fixed_bits(info@, ptl@) + ptl_gci_bits(ptl@.general_constraint_info)
        + ptl_sublayer_bits(info.max_sublayers, ptl@) + ptl_tail_bits(info@, ptl@));
    Ok(())
}

/// Builds a VVC decoder configuration record (four-byte NAL lengths) from the parsed sequence
/// parameter set and the distinct parameter sets of each kind.
pub fn build_vvc_decoder_configuration_record(
    sps_info: &VvcSpsInfo,
    vps_list: &[Vec<u8>],
    sps_list: &[Vec<u8>],
    pps_list: &[Vec<u8>],
) -> (r: Result<Vec<u8>, MuxError>)
    requires
        sps_info.max_sublayers <= 9,
        sps_info.profile_tier_level matches Some(p) ==> ptl_wf(p@),
    ensures
        match dcr_bits(sps_info@, nal_views(vps_list@), nal_views(sps_list@), nal_views(pps_list@)) {
            Ok(b) => r matches Ok(v) && v@ == pack_bits(b),
            Err(f) => r matches Err(e) && fails_as(e, f, "VVC"@),
        },
{
    let mut w = VvcBitWriter::new();
    write_u8_bits(&mut w, 0x1F, 5);
    write_u8_bits(&mut w, 3, 2);
    w.write_bit(sps_info.profile_tier_level.is_some());
    let ghost head = w.bits@;
    match &sps_info.profile_tier_level {
        Some(ptl) => {
            write_dcr_ptl(&mut w, sps_info, ptl)?;
        },
        None => {},
    }
    let ghost mid = w.bits@;
    let count: u8 = if vps_list.len() > 0 { 3 } else { 2 };
    write_u8_bits(&mut w, count, 8);
    let ghost c = w.bits@;
    if vps_list.len() > 0 {
        if !write_nal_array(&mut w, 14, vps_list) {
            return Err(overflow("VVC NAL count"));
        }
    }
    let ghost v = w.bits@;
    if !write_nal_array(&mut w, 15, sps_list) {
        return Err(overflow("VVC NAL count"));
    }
    let ghost s = w.bits@;
    if !write_nal_array(&mut w, 16, pps_list) {
        return Err(overflow("VVC NAL count"));
    }
    proof {
        let ab = dcr_array_bits(nal_views(vps_list@), nal_views(sps_list@), nal_views(pps_list@));
        assert(ab is Some);
        assert(w.bits@ =~= mid + ab.unwrap());
        assert(w.bits@ =~= dcr_bits(sps_info@, nal_views(vps_list@), nal_views(sps_list@), nal_views(pps_list@)).unwrap());
    }
    Ok(w.into_bytes())
}


// ---------------------------------------------------------------------------------------------
// Sample entry
// ---------------------------------------------------------------------------------------------

/// The `vvc1` visual sample entry with a `vvcC` child (full box, version 0, flags 0) holding
/// the decoder configuration record.
pub open spec fn vvc_sample_entry(width: u16, height: u16, record: Seq<u8>) -> Seq<u8> {
    spec_box(
        seq![0x76u8, 0x76u8, 0x63u8, 0x31u8],
        visual_entry_payload(width, height, 0x0048_0000, 0x0048_0000, 1, compressor_field(Seq::empty()), 0x0018, -1i16,
            spec_box(seq![0x76u8, 0x76u8, 0x63u8, 0x43u8], zeros(4) + record)),
    )
}

/// Builds the `vvc1` sample entry box.
pub fn build_vvc_sample_entry_box(width: u16, height: u16, decoder_configuration_record: Vec<u8>) -> (r: Result<Vec<u8>, MuxError>)
    ensures
        r is Ok <==> decoder_configuration_record@.len() + 12 + 86 <= u32::MAX,
        r matches Ok(b) ==> b@ == vvc_sample_entry(width, height, decoder_configuration_record@),
        r matches Err(e) ==> e is LayoutOverflow,
{
    let mut payload: Vec<u8> = vec![0u8, 0u8, 0u8, 0u8];
    let mut record = decoder_configuration_record;
    let ghost rec = record@;
    payload.append(&mut record);
    assert(payload@ =~= zeros(4) + rec);
    let vvcc = encode_raw_box(four_cc(0x76, 0x76, 0x63, 0x43), payload.as_slice())?;
    let children = vec![vvcc];
    let empty: Vec<u8> = Vec::new();
    let r = build_visual_sample_entry_box_with_compressor_name(four_cc(0x76, 0x76, 0x63, 0x31), width, height, empty.as_slice(), children.as_slice());
    proof {
        assert(crate::mp4::views(children@) =~= seq![vvcc@]);
        assert(crate::mp4::concat_all(seq![vvcc@]) =~= vvcc@) by {
            reveal_with_fuel(crate::mp4::concat_all, 2);
        }
    }
    r
}

// ---------------------------------------------------------------------------------------------
// Staging access units
// ---------------------------------------------------------------------------------------------

/// A NAL unit found by the Annex B start-code scanner, and where its bytes began.
pub struct AnnexBNal {
    pub bytes: Vec<u8>,
    pub source_offset: u64,
}

/// The parameter sets and access units of a raw VVC stream, staged as length-prefixed NAL units.
pub struct VvcStageState {
    pub vps_list: Vec<Vec<u8>>,
    pub sps_list: Vec<Vec<u8>>,
    pub pps_list: Vec<Vec<u8>>,
    pub samples: Vec<StagedSample>,
    pub segments: Vec<SourceSegment>,
    pub current_sample_offset: Option<u64>,
    pub current_sample_size: u32,
    pub current_sync: bool,
    pub current_has_vcl: bool,
    pub logical_size: u64,
}

/// Adds `nal` to `list` unless an identical unit is already there.
pub fn push_unique_nal(list: &mut Vec<Vec<u8>>, nal: Vec<u8>)
    ensures
        nal_views(final(list)@) == with_unique(nal_views(old(list)@), nal@),
{
    let ghost views = nal_views(list@);
    let mut i: usize = 0;
    while i < list.len()
        invariant
            i <= list@.len(),
            list@ == old(list)@,
            views == nal_views(list@),
            forall|j: int| 0 <= j < i ==> views[j] != nal@,
        decreases list.len() - i,
    {
        if crate::text::bytes_eq(list[i].as_slice(), nal.as_slice()) {
            assert(views[i as int] == nal@);
            assert(views.contains(nal@));
            return;
        }
        i = i + 1;
    }
    assert(!views.contains(nal@));
    let ghost v = nal@;
    list.push(nal);
    assert(nal_views(list@) =~= views.push(v));
}

/// Whether adding a NAL unit of `size` bytes plus its prefix to the current sample fits.
pub open spec fn append_fits(st: &VvcStageState, size: u32) -> bool {
    st.logical_size + 4 + size <= u64::MAX && st.current_sample_size + 4 + size <= u32::MAX
}

/// The fields of a stage state that appending one NAL unit of `size` bytes changes, other than
/// the segment list.
pub open spec fn appended(old: &VvcStageState, new: &VvcStageState, size: u32, sync: bool, vcl: bool) -> bool {
    &&& new.current_sample_offset == (match old.current_sample_offset { Some(o) => Some(o), None => Some(old.logical_size) })
    &&& new.logical_size == old.logical_size + 4 + size
    &&& new.current_sample_size == old.current_sample_size + 4 + size
    &&& new.current_sync == (old.current_sync || sync)
    &&& new.current_has_vcl == (old.current_has_vcl || vcl)
    &&& new.samples@ == old.samples@
    &&& nal_views(new.vps_list@) == nal_views(old.vps_list@)
    &&& nal_views(new.sps_list@) == nal_views(old.sps_list@)
    &&& nal_views(new.pps_list@) == nal_views(old.pps_list@)
    &&& new.segments@.len() == old.segments@.len() + 2
    &&& forall|i: int| 0 <= i < old.segments@.len() ==> new.segments@[i] == old.segments@[i]
    &&& new.segments@[old.segments@.len() as int] matches SourceSegment { logical_offset, data: SegmentData::Prefix(p) }
        && logical_offset == old.logical_size && p@ == be32(size)
}

/// The big-endian bytes of `v`.
fn be32_array(v: u32) -> (r: [u8; 4])
    ensures
        r@ == be32(v),
{
    let r = [(v / 0x1000000) as u8, ((v / 0x10000) % 256) as u8, ((v / 256) % 256) as u8, (v % 256) as u8];
    assert(r@ =~= be32(v));
    r
}

impl VvcStageState {
    /// An empty stage.
    pub fn new() -> (r: Self)
        ensures
            r.vps_list@.len() == 0 && r.sps_list@.len() == 0 && r.pps_list@.len() == 0,
            r.samples@.len() == 0 && r.segments@.len() == 0,
            r.current_sample_offset is None && r.current_sample_size == 0,
            !r.current_sync && !r.current_has_vcl && r.logical_size == 0,
            stage_wf(&r),
    {
        VvcStageState {
            vps_list: Vec::new(),
            sps_list: Vec::new(),
            pps_list: Vec::new(),
            samples: Vec::new(),
            segments: Vec::new(),
            current_sample_offset: None,
            current_sample_size: 0,
            current_sync: false,
            current_has_vcl: false,
            logical_size: 0,
        }
    }

    /// Closes the access unit being collected, if any, as a staged sample.
    pub fn finish_current_sample(&mut self)
        ensures
            nal_views(final(self).vps_list@) == nal_views(old(self).vps_list@),
            nal_views(final(self).sps_list@) == nal_views(old(self).sps_list@),
            nal_views(final(self).pps_list@) == nal_views(old(self).pps_list@),
            final(self).segments@ == old(self).segments@,
            final(self).logical_size == old(self).logical_size,
            match old(self).current_sample_offset {
                Some(o) => final(self).samples@ == old(self).samples@.push(StagedSample {
                    data_offset: o,
                    data_size: old(self).current_sample_size,
                    duration: 0,
                    composition_time_offset: 0,
                    is_sync_sample: old(self).current_sync,
                }) && final(self).current_sample_offset is None && final(self).current_sample_size == 0
                    && !final(self).current_sync && !final(self).current_has_vcl,
                None => final(self).samples@ == old(self).samples@
                    && final(self).current_sample_offset == old(self).current_sample_offset
                    && final(self).current_sample_size == old(self).current_sample_size
                    && final(self).current_sync == old(self).current_sync
                    && final(self).current_has_vcl == old(self).current_has_vcl,
            },
    {
        match self.current_sample_offset {
            Some(data_offset) => {
                self.samples.push(StagedSample {
                    data_offset,
                    data_size: self.current_sample_size,
                    duration: 0,
                    composition_time_offset: 0,
                    is_sync_sample: self.current_sync,
                });
                self.current_sample_offset = None;
                self.current_sample_size = 0;
                self.current_sync = false;
                self.current_has_vcl = false;
            },
            None => {},
        }
    }

    /// Appends a NAL unit read from the input file at `source_offset` to the current sample,
    /// behind a four-byte length prefix.
    pub fn append_sample_nal(&mut self, source_offset: u64, source_size: u32, is_sync_sample: bool, is_vcl: bool) -> (r: Result<(), MuxError>)
        ensures
            r is Ok <==> append_fits(old(self), source_size),
            r is Ok ==> appended(old(self), final(self), source_size, is_sync_sample, is_vcl)
                && final(self).segments@[old(self).segments@.len() as int + 1] == (SourceSegment {
                    logical_offset: (old(self).logical_size + 4) as u64,
                    data: SegmentData::FileRange { source_offset, size: source_size },
                }),
            r matches Err(e) ==> e is LayoutOverflow,
    {
        if self.logical_size > u64::MAX - 4 || source_size > u32::MAX - 4
            || self.current_sample_size > u32::MAX - (4 + source_size)
            || self.logical_size + 4 > u64::MAX - source_size as u64 {
            return Err(overflow("raw VVC transformed payload"));
        }
        if self.current_sample_offset.is_none() {
            self.current_sample_offset = Some(self.logical_size);
        }
        self.segments.push(SourceSegment { logical_offset: self.logical_size, data: SegmentData::Prefix(be32_array(source_size)) });
        self.logical_size = self.logical_size + 4;
        self.segments.push(SourceSegment {
            logical_offset: self.logical_size,
            data: SegmentData::FileRange { source_offset, size: source_size },
        });
        self.current_sample_size = self.current_sample_size + (4 + source_size);
        self.logical_size = self.logical_size + source_size as u64;
        self.current_sync = self.current_sync || is_sync_sample;
        self.current_has_vcl = self.current_has_vcl || is_vcl;
        Ok(())
    }

    /// Appends a NAL unit held in memory to the current sample, behind a four-byte length
    /// prefix.
    pub fn append_sample_bytes(&mut self, bytes: Vec<u8>, is_sync_sample: bool, is_vcl: bool) -> (r: Result<(), MuxError>)
        ensures
            r is Ok <==> bytes@.len() <= u32::MAX && append_fits(old(self), bytes@.len() as u32),
            r is Ok ==> appended(old(self), final(self), bytes@.len() as u32, is_sync_sample, is_vcl),
            r is Ok ==> (final(self).segments@[old(self).segments@.len() as int + 1] matches SourceSegment {
                    logical_offset, data: SegmentData::Bytes(b) } && logical_offset == old(self).logical_size + 4 && b@ == bytes@),
            r matches Err(e) ==> e is LayoutOverflow,
    {
        if bytes.len() > 0xFFFF_FFFF {
            return Err(overflow("segmented VVC NAL length"));
        }
        let source_size = bytes.len() as u32;
        if self.logical_size > u64::MAX - 4 || source_size > u32::MAX - 4
            || self.current_sample_size > u32::MAX - (4 + source_size)
            || self.logical_size + 4 > u64::MAX - source_size as u64 {
            return Err(overflow("segmented VVC transformed payload"));
        }
        if self.current_sample_offset.is_none() {
            self.current_sample_offset = Some(self.logical_size);
        }
        self.segments.push(SourceSegment { logical_offset: self.logical_size, data: SegmentData::Prefix(be32_array(source_size)) });
        self.logical_size = self.logical_size + 4;
        self.segments.push(SourceSegment { logical_offset: self.logical_size, data: SegmentData::Bytes(bytes) });
        self.current_sample_size = self.current_sample_size + (4 + source_size);
        self.logical_size = self.logical_size + source_size as u64;
        self.current_sync = self.current_sync || is_sync_sample;
        self.current_has_vcl = self.current_has_vcl || is_vcl;
        Ok(())
    }
}


/// Where the last staged sample ends (at zero when there is none).
pub open spec fn staged_end(s: Seq<StagedSample>) -> int {
    if s.len() == 0 { 0 } else { s.last().data_offset + s.last().data_size }
}

/// Staged samples lie back to back from logical offset zero.
pub open spec fn samples_contiguous(s: Seq<StagedSample>) -> bool {
    &&& s.len() > 0 ==> s[0].data_offset == 0
    &&& forall|i: int| 0 <= i < s.len() - 1 ==> #[trigger] s[i + 1].data_offset == s[i].data_offset + s[i].data_size
}

/// The stage's layout: staged samples lie back to back from zero; the access unit being
/// collected, if any, starts where they end and runs to the logical size; with none open,
/// its size and flags are clear and the logical size is where the samples end.
pub open spec fn stage_wf(st: &VvcStageState) -> bool {
    &&& st.current_sample_offset is None ==> st.current_sample_size == 0 && !st.current_sync && !st.current_has_vcl
    &&& samples_contiguous(st.samples@)
    &&& st.current_sample_offset matches Some(o) ==> o == staged_end(st.samples@)
    &&& st.logical_size == staged_end(st.samples@) + st.current_sample_size
}

/// The parameter-set lists and sample-building fields are all unchanged.
pub open spec fn same_stage(a: &VvcStageState, b: &VvcStageState) -> bool {
    &&& nal_views(a.vps_list@) == nal_views(b.vps_list@)
    &&& nal_views(a.sps_list@) == nal_views(b.sps_list@)
    &&& nal_views(a.pps_list@) == nal_views(b.pps_list@)
    &&& a.samples@ == b.samples@
    &&& a.segments@ == b.segments@
    &&& a.current_sample_offset == b.current_sample_offset
    &&& a.current_sample_size == b.current_sample_size
    &&& a.current_sync == b.current_sync
    &&& a.current_has_vcl == b.current_has_vcl
    &&& a.logical_size == b.logical_size
}

/// `list` after adding `nal` unless an identical unit is there.
pub open spec fn with_unique(list: Seq<Seq<u8>>, nal: Seq<u8>) -> Seq<Seq<u8>> {
    if list.contains(nal) { list } else { list.push(nal) }
}

/// The sample the access unit being collected closes into.
pub open spec fn closed_sample(st: &VvcStageState) -> StagedSample {
    StagedSample {
        data_offset: st.current_sample_offset.unwrap(),
        data_size: st.current_sample_size,
        duration: 0,
        composition_time_offset: 0,
        is_sync_sample: st.current_sync,
    }
}

/// How staging one NAL unit of type `t` and `size` bytes changes the stage, when it fits;
/// the new segments' contents are stated by the staging functions themselves.
pub open spec fn staged(old: &VvcStageState, new: &VvcStageState, t: u8, nal: Seq<u8>) -> bool {
    if t == 14 || t == 15 || t == 16 {
        &&& nal_views(new.vps_list@) == (if t == 14 { with_unique(nal_views(old.vps_list@), nal) } else { nal_views(old.vps_list@) })
        &&& nal_views(new.sps_list@) == (if t == 15 { with_unique(nal_views(old.sps_list@), nal) } else { nal_views(old.sps_list@) })
        &&& nal_views(new.pps_list@) == (if t == 16 { with_unique(nal_views(old.pps_list@), nal) } else { nal_views(old.pps_list@) })
        &&& new.samples@ == old.samples@ && new.segments@ == old.segments@
        &&& new.current_sample_offset == old.current_sample_offset && new.current_sample_size == old.current_sample_size
        &&& new.current_sync == old.current_sync && new.current_has_vcl == old.current_has_vcl
        &&& new.logical_size == old.logical_size
    } else if t == 20 {
        &&& nal_views(new.vps_list@) == nal_views(old.vps_list@)
        &&& nal_views(new.sps_list@) == nal_views(old.sps_list@)
        &&& nal_views(new.pps_list@) == nal_views(old.pps_list@)
        &&& new.samples@ == (if old.current_sample_offset is Some { old.samples@.push(closed_sample(old)) } else { old.samples@ })
        &&& new.current_sample_offset == Some(old.logical_size)
        &&& new.current_sample_size == 4 + nal.len()
        &&& !new.current_sync && !new.current_has_vcl
        &&& new.logical_size == old.logical_size + 4 + nal.len()
        &&& new.segments@.len() == old.segments@.len() + 2
        &&& forall|i: int| 0 <= i < old.segments@.len() ==> new.segments@[i] == old.segments@[i]
        &&& new.segments@[old.segments@.len() as int] matches SourceSegment { logical_offset, data: SegmentData::Prefix(p) }
            && logical_offset == old.logical_size && p@ == be32(nal.len() as u32)
    } else {
        let sync = 7 <= t <= 11;
        let vcl = t <= 11;
        appended(old, new, nal.len() as u32, sync, vcl)
    }
}

/// Whether staging a NAL unit of type `t` and `size` bytes fits the integer ranges.
pub open spec fn stage_fits(st: &VvcStageState, t: u8, size: nat) -> bool {
    if t == 14 || t == 15 || t == 16 {
        true
    } else if t == 20 {
        size <= u32::MAX - 4 && st.logical_size + 4 + size <= u64::MAX
    } else {
        size <= u32::MAX && append_fits(st, size as u32)
    }
}

/// Stages one NAL unit found in the input file: parameter sets are collected (once each),
/// an access unit delimiter closes the current sample and opens the next, and everything else
/// is appended to the current sample by file range.
pub fn stage_vvc_nal(state: &mut VvcStageState, nal: AnnexBNal, spec: &str) -> (r: Result<(), MuxError>)
    requires
        stage_wf(old(state)),
    ensures
        r is Ok ==> stage_wf(final(state)),
        nal.bytes@.len() < 2 ==> (r matches Err(e) && fails_as(e, Failure::Rejected, spec@)) && same_stage(old(state), final(state)),
        nal.bytes@.len() >= 2 ==> {
            let t = nal.bytes@[1] >> 3u8;
            &&& (r is Ok <==> stage_fits(old(state), t, nal.bytes@.len()))
            &&& r is Ok ==> staged(old(state), final(state), t, nal.bytes@)
            &&& r is Ok && !(t == 14 || t == 15 || t == 16) ==>
                final(state).segments@[old(state).segments@.len() as int + 1] == (SourceSegment {
                    logical_offset: (old(state).logical_size + 4) as u64,
                    data: SegmentData::FileRange { source_offset: nal.source_offset, size: nal.bytes@.len() as u32 },
                })
            &&& r matches Err(e) ==> e is LayoutOverflow
        },
{
    if nal.bytes.len() < 2 {
        return Err(import_error(spec, "VVC NAL units must be at least two bytes long"));
    }
    let nal_type = vvc_nal_type(nal.bytes.as_slice());
    let ghost bytes = nal.bytes@;
    if nal_type == 14 {
        push_unique_nal(&mut state.vps_list, nal.bytes);
        return Ok(());
    } else if nal_type == 15 {
        push_unique_nal(&mut state.sps_list, nal.bytes);
        return Ok(());
    } else if nal_type == 16 {
        push_unique_nal(&mut state.pps_list, nal.bytes);
        return Ok(());
    }
    if nal.bytes.len() > 0xFFFF_FFFF {
        return Err(overflow("VVC NAL length"));
    }
    let nal_len = nal.bytes.len() as u32;
    if nal_type == 20 {
        if state.current_sample_offset.is_some() {
            state.finish_current_sample();
        }
        state.append_sample_nal(nal.source_offset, nal_len, false, false)
    } else {
        state.append_sample_nal(nal.source_offset, nal_len, is_vvc_sync_nal_type(nal_type), is_vvc_vcl_nal_type(nal_type))
    }
}

/// Stages one NAL unit whose bytes were gathered from a segmented source; it is kept in memory.
pub fn stage_vvc_nal_segmented(state: &mut VvcStageState, nal: AnnexBNal, spec: &str) -> (r: Result<(), MuxError>)
    requires
        stage_wf(old(state)),
    ensures
        r is Ok ==> stage_wf(final(state)),
        nal.bytes@.len() < 2 ==> (r matches Err(e) && fails_as(e, Failure::Rejected, spec@)) && same_stage(old(state), final(state)),
        nal.bytes@.len() >= 2 ==> {
            let t = nal.bytes@[1] >> 3u8;
            &&& (r is Ok <==> stage_fits(old(state), t, nal.bytes@.len()))
            &&& r is Ok ==> staged(old(state), final(state), t, nal.bytes@)
            &&& r is Ok && !(t == 14 || t == 15 || t == 16) ==>
                (final(state).segments@[old(state).segments@.len() as int + 1] matches SourceSegment {
                    logical_offset, data: SegmentData::Bytes(b) } && logical_offset == old(state).logical_size + 4 && b@ == nal.bytes@)
            &&& r matches Err(e) ==> e is LayoutOverflow
        },
{
    if nal.bytes.len() < 2 {
        return Err(import_error(spec, "VVC NAL units must be at least two bytes long"));
    }
    let nal_type = vvc_nal_type(nal.bytes.as_slice());
    if nal_type == 14 {
        push_unique_nal(&mut state.vps_list, nal.bytes);
        Ok(())
    } else if nal_type == 15 {
        push_unique_nal(&mut state.sps_list, nal.bytes);
        Ok(())
    } else if nal_type == 16 {
        push_unique_nal(&mut state.pps_list, nal.bytes);
        Ok(())
    } else if nal_type == 20 {
        if state.current_sample_offset.is_some() {
            state.finish_current_sample();
        }
        state.append_sample_bytes(nal.bytes, false, false)
    } else {
        let sync = is_vvc_sync_nal_type(nal_type);
        let vcl = is_vvc_vcl_nal_type(nal_type);
        state.append_sample_bytes(nal.bytes, sync, vcl)
    }
}


/// A raw video stream staged as one track of length-prefixed NAL units.
pub struct IndexedAnnexBTrack {
    pub segments: Vec<SourceSegment>,
    pub total_size: u64,
    pub track_width: u16,
    pub track_height: u16,
    pub timescale: u32,
    pub sample_entry_box: Vec<u8>,
    pub source_edit_media_time: Option<u64>,
    pub samples: Vec<StagedSample>,
}

/// The samples once the open access unit, if any, is closed.
pub open spec fn finished_samples(st: &VvcStageState) -> Seq<StagedSample> {
    if st.current_sample_offset is Some { st.samples@.push(closed_sample(st)) } else { st.samples@ }
}

/// What a finished stage becomes: the parsed sequence parameter set and the sample entry, or
/// why the stage is refused. Only single-picture streams are accepted.
pub open spec fn vvc_track_outcome(samples: Seq<StagedSample>, vps: Seq<Seq<u8>>, sps: Seq<Seq<u8>>, pps: Seq<Seq<u8>>) -> Result<(VvcSpsView, Seq<u8>), Failure> {
    if sps.len() == 0 || pps.len() == 0 || samples.len() != 1 {
        Err(Failure::Rejected)
    } else {
        match sps_parse(sps[0]) {
            Err(f) => Err(f),
            Ok(info) => match dcr_bits(info, vps, sps, pps) {
                Err(f) => Err(f),
                Ok(b) => if pack_bits(b).len() + 12 + 86 > u32::MAX {
                    Err(Failure::Overflow)
                } else {
                    Ok((info, vvc_sample_entry(info.width, info.height, pack_bits(b))))
                },
            },
        }
    }
}

/// Closes the stage into a track: the single picture is given duration 1 and composition
/// offset 1 on a 25 Hz timescale, with an edit starting at media time 1.
pub fn finalize_vvc_staged_track(state: VvcStageState, spec: &str) -> (r: Result<IndexedAnnexBTrack, MuxError>)
    requires
        stage_wf(&state),
        forall|i: int| 0 <= i < state.sps_list@.len() ==> #[trigger] state.sps_list@[i]@.len() <= usize::MAX / 8,
    ensures
        match vvc_track_outcome(finished_samples(&state), nal_views(state.vps_list@), nal_views(state.sps_list@), nal_views(state.pps_list@)) {
            Ok((info, entry)) => r matches Ok(t) && t.samples@ == seq![StagedSample {
                duration: 1,
                composition_time_offset: 1,
                ..finished_samples(&state)[0]
            }] && t.track_width == info.width && t.track_height == info.height && t.timescale == 25
                && t.source_edit_media_time == Some(1u64) && t.sample_entry_box@ == entry
                && t.segments@ == state.segments@ && t.total_size == state.logical_size,
            Err(f) => r matches Err(e) && fails_as(e, f, spec@),
        },
{
    let mut state = state;
    let ghost original = state;
    state.finish_current_sample();
    if state.sps_list.len() == 0 || state.pps_list.len() == 0 {
        return Err(import_error(spec, "VVC input must include SPS and PPS NAL units"));
    }
    if state.samples.len() == 0 {
        return Err(import_error(spec, "VVC input contained parameter sets but no media samples"));
    }
    if state.samples.len() > 1 {
        return Err(import_error(spec, "multi-sample VVC inputs are not supported on the native direct-ingest path yet"));
    }
    assert(nal_views(state.sps_list@)[0] == state.sps_list@[0]@);
    let info = parse_vvc_sps_configuration(state.sps_list[0].as_slice(), spec)?;
    let record = match build_vvc_decoder_configuration_record(&info, state.vps_list.as_slice(), state.sps_list.as_slice(), state.pps_list.as_slice()) {
        Ok(v) => v,
        Err(e) => return Err(e),
    };
    let sample_entry_box = build_vvc_sample_entry_box(info.width, info.height, record)?;
    let first = state.samples[0];
    let mut samples: Vec<StagedSample> = Vec::new();
    samples.push(StagedSample { duration: 1, composition_time_offset: 1, ..first });
    Ok(IndexedAnnexBTrack {
        segments: state.segments,
        total_size: state.logical_size,
        track_width: info.width,
        track_height: info.height,
        timescale: 25,
        sample_entry_box,
        source_edit_media_time: Some(1),
        samples,
    })
}

} // verus!
