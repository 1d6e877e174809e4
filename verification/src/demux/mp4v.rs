use vstd::prelude::*;
use vstd::arithmetic::power2::{pow2, lemma2_to64, lemma_pow2_unfold};
use crate::error::{Failure, MuxError, fails_as, import_error};
use crate::demux::vp9::BitCursor;
use crate::demux::vvc::{rb, skip, read_n, skip_n, lemma_bits_value_bound};

verus! {

/// Whether a video object layer start code (`00 00 01 2x`) begins at byte `i`.
pub open spec fn vol_start_code_at(d: Seq<u8>, i: int) -> bool {
    0 <= i && i + 4 <= d.len() && d[i] == 0 && d[i + 1] == 0 && d[i + 2] == 1 && 0x20 <= d[i + 3] <= 0x2F
}

/// The first byte at or after `i` where a video object layer start code begins.
pub open spec fn vol_start_from(d: Seq<u8>, i: int) -> Option<int>
    decreases d.len() - i,
{
    if i < 0 || i + 4 > d.len() {
        None
    } else if vol_start_code_at(d, i) {
        Some(i)
    } else {
        vol_start_from(d, i + 1)
    }
}

/// The number of binary digits of `n` (none for zero).
pub open spec fn bit_length(n: nat) -> nat
    decreases n,
{
    if n == 0 { 0 } else { 1 + bit_length(n / 2) }
}

/// The width of `fixed_vop_time_increment`: enough bits for every increment below the
/// resolution, and at least one.
pub open spec fn time_increment_bits(resolution: nat) -> nat {
    let b = bit_length((resolution - 1) as nat);
    if b == 0 { 1 } else { b }
}

/// The position of `video_object_layer_shape`, after the layer's leading fields have been
/// passed over from bit `p`: random access and object type (9 bits), the optional layer
/// identifier (4 + 3 bits), the aspect ratio (4 bits, 16 more for an extended pixel aspect),
/// and the optional control parameters (3 bits, and 79 more when VBV parameters follow).
pub open spec fn vol_shape_position(d: Seq<u8>, p: int) -> Option<int> {
    match skip(d, p, 9) {
        None => None,
        Some(p1) => match rb(d, p1, 1) {
            None => None,
            Some((has_identifier, p2)) => {
                let p3 = if has_identifier == 1 { skip(d, p2, 7) } else { Some(p2) };
                match p3 {
                    None => None,
                    Some(p3) => match rb(d, p3, 4) {
                        None => None,
                        Some((aspect, p4)) => {
                            let p5 = if aspect == 15 { skip(d, p4, 16) } else { Some(p4) };
                            match p5 {
                                None => None,
                                Some(p5) => match rb(d, p5, 1) {
                                    None => None,
                                    Some((has_control, p6)) => if has_control == 1 {
                                        match skip(d, p6, 3) {
                                            None => None,
                                            Some(p7) => match rb(d, p7, 1) {
                                                None => None,
                                                Some((has_vbv, p8)) => if has_vbv == 1 { skip(d, p8, 79) } else { Some(p8) },
                                            },
                                        }
                                    } else {
                                        Some(p6)
                                    },
                                },
                            }
                        },
                    },
                }
            },
        },
    }
}

/// The frame size a rectangular video object layer declares, read from its shape at bit `q`:
/// shape (2 bits, zero), marker, a non-zero time increment resolution (16 bits), marker, the
/// fixed-rate flag and its increment, then marker, width (13 bits), marker, height (13 bits);
/// the size must not be empty.
pub open spec fn vol_size_from_shape(d: Seq<u8>, q: int) -> Option<(u16, u16)> {
    match rb(d, q, 2) {
        None => None,
        Some((shape, q1)) => if shape != 0 {
            None
        } else {
            match rb(d, q1 + 1, 16) {
                None => None,
                Some((resolution, q2)) => if resolution == 0 {
                    None
                } else {
                    match rb(d, q2 + 1, 1) {
                        None => None,
                        Some((fixed_rate, q3)) => {
                            let q4 = if fixed_rate == 1 { q3 + time_increment_bits(resolution) } else { q3 };
                            match rb(d, q4 + 1, 13) {
                                None => None,
                                Some((width, q5)) => match rb(d, q5 + 1, 13) {
                                    None => None,
                                    Some((height, _)) => if width == 0 || height == 0 {
                                        None
                                    } else {
                                        Some((width as u16, height as u16))
                                    },
                                },
                            }
                        },
                    }
                },
            }
        },
    }
}

/// The frame size an MPEG-4 visual decoder configuration declares in its first video object
/// layer header.
pub open spec fn mp4v_frame_size(d: Seq<u8>) -> Option<(u16, u16)> {
    match vol_start_from(d, 0) {
        None => None,
        Some(i) => match vol_shape_position(d, (i + 4) * 8) {
            None => None,
            Some(q) => vol_size_from_shape(d, q),
        },
    }
}

/// A number below `2^k` has at most `k` binary digits.
proof fn lemma_bit_length_bound(n: nat, k: nat)
    requires
        n < pow2(k),
    ensures
        bit_length(n) <= k,
    decreases k,
{
    if k == 0 {
        lemma2_to64();
    } else {
        lemma_pow2_unfold(k);
        if n > 0 {
            lemma_bit_length_bound(n / 2, (k - 1) as nat);
        }
    }
}

/// The first video object layer start code in `d`.
fn find_vol_start(d: &[u8]) -> (r: Option<usize>)
    ensures
        match vol_start_from(d@, 0) {
            Some(i) => r matches Some(j) && j as int == i,
            None => r is None,
        },
        r matches Some(i) ==> vol_start_code_at(d@, i as int),
{
    let n = d.len();
    let mut i: usize = 0;
    while 4 <= n && i <= n - 4
        invariant
            n == d@.len(),
            vol_start_from(d@, 0) == vol_start_from(d@, i as int),
        decreases n - i,
    {
        if d[i] == 0 && d[i + 1] == 0 && d[i + 2] == 1 && 0x20 <= d[i + 3] && d[i + 3] <= 0x2F {
            return Some(i);
        }
        i = i + 1;
    }
    None
}

/// The width of the fixed time increment for a resolution of at most 16 bits.
fn time_increment_width(resolution: u32) -> (b: usize)
    requires
        1 <= resolution < 65536,
    ensures
        b == time_increment_bits(resolution as nat),
        1 <= b <= 16,
{
    let ghost total = bit_length((resolution - 1) as nat);
    proof {
        lemma2_to64();
        lemma_bit_length_bound((resolution - 1) as nat, 16);
    }
    let mut n: u32 = resolution - 1;
    let mut b: usize = 0;
    while n > 0
        invariant
            total == bit_length((resolution - 1) as nat),
            total <= 16,
            b + bit_length(n as nat) == total,
        decreases n,
    {
        n = n / 2;
        b = b + 1;
    }
    if b == 0 { 1 } else { b }
}

/// Moves past the leading fields of a video object layer header to its shape.
fn skip_to_vol_shape(c: &mut BitCursor) -> (ok: bool)
    requires
        old(c).wf(),
    ensures
        final(c).wf(),
        final(c).data@ == old(c).data@,
        match vol_shape_position(old(c).data@, old(c).bit_offset as int) {
            Some(q) => ok && final(c).bit_offset == q,
            None => !ok,
        },
{
    if !skip_n(c, 9) {
        return false;
    }
    let has_identifier = match read_n(c, 1) {
        Some(v) => v,
        None => return false,
    };
    if has_identifier == 1 && !skip_n(c, 7) {
        return false;
    }
    let aspect = match read_n(c, 4) {
        Some(v) => v,
        None => return false,
    };
    if aspect == 15 && !skip_n(c, 16) {
        return false;
    }
    let has_control = match read_n(c, 1) {
        Some(v) => v,
        None => return false,
    };
    if has_control == 1 {
        if !skip_n(c, 3) {
            return false;
        }
        let has_vbv = match read_n(c, 1) {
            Some(v) => v,
            None => return false,
        };
        if has_vbv == 1 && !skip_n(c, 79) {
            return false;
        }
    }
    true
}

/// Reads the frame size of a rectangular video object layer from its shape onwards.
fn read_vol_size(c: &mut BitCursor) -> (r: Option<(u16, u16)>)
    requires
        old(c).wf(),
    ensures
        r == vol_size_from_shape(old(c).data@, old(c).bit_offset as int),
{
    let ghost d = c.data@;
    let ghost q = c.bit_offset as int;
    proof {
        lemma2_to64();
        lemma_bits_value_bound(d, q, 2);
    }
    let shape = read_n(c, 2)?;
    if shape != 0 {
        return None;
    }
    if !skip_n(c, 1) {
        return None;
    }
    let q2 = c.bit_offset;
    proof { lemma_bits_value_bound(d, q2 as int, 16); }
    let resolution = read_n(c, 16)?;
    if resolution == 0 {
        return None;
    }
    if !skip_n(c, 1) {
        return None;
    }
    let fixed_rate = read_n(c, 1)?;
    if fixed_rate == 1 {
        let width = time_increment_width(resolution);
        if !skip_n(c, width) {
            return None;
        }
    }
    if !skip_n(c, 1) {
        return None;
    }
    let q5 = c.bit_offset;
    proof { lemma_bits_value_bound(d, q5 as int, 13); }
    let width = read_n(c, 13)?;
    if !skip_n(c, 1) {
        return None;
    }
    let q6 = c.bit_offset;
    proof { lemma_bits_value_bound(d, q6 as int, 13); }
    let height = read_n(c, 13)?;
    if width == 0 || height == 0 {
        return None;
    }
    Some((width as u16, height as u16))
}

/// Reads the frame size from an MPEG-4 visual decoder configuration, rejecting one without a
/// complete rectangular video object layer header.
pub fn parse_mp4v_decoder_specific_info(decoder_specific_info: &[u8], spec: &str) -> (r: Result<(u16, u16), MuxError>)
    requires
        decoder_specific_info@.len() * 8 <= usize::MAX,
    ensures
        match mp4v_frame_size(decoder_specific_info@) {
            Some((w, h)) => r == Ok::<(u16, u16), MuxError>((w, h)),
            None => r matches Err(e) && fails_as(e, Failure::Rejected, spec@),
        },
{
    let start = match find_vol_start(decoder_specific_info) {
        Some(i) => i,
        None => return Err(import_error(spec, "MPEG-4 visual decoder config carries no video object layer header")),
    };
    let mut c = BitCursor::new(decoder_specific_info);
    c.bit_offset = (start + 4) * 8;
    if !skip_to_vol_shape(&mut c) {
        return Err(import_error(spec, "MPEG-4 visual video object layer header is truncated"));
    }
    match read_vol_size(&mut c) {
        Some(size) => Ok(size),
        None => Err(import_error(spec, "MPEG-4 visual video object layer does not declare a rectangular frame size")),
    }
}

} // verus!
