use vstd::prelude::*;
use crate::error::{Failure, MuxError, fails_as, import_error, is_import_error, overflow};
use crate::sample::{CandidateSample, StagedSample, UNBOUND_SOURCE_INDEX, convert_all, convert_prefix, lemma_convert_failure_persists};

verus! {

/// The transport 33-bit presentation clock wraps at this many 90 kHz ticks.
pub const TRANSPORT_MAX_PCR_90K: u64 = 8_589_934_592;


/// The 33-bit PTS/PCR-base wrap period of the 90 kHz transport clock.
pub open spec fn transport_max_pcr_90k() -> int {
    8_589_934_592
}

/// A PES timestamp bound to the logical byte offset at which its payload starts.
#[derive(Clone, Copy, Debug, PartialEq, Eq)]
pub struct TransportTimestampAnchor {
    pub sample_offset: u64,
    pub pts_90k: u64,
}

/// `|v|` over integers.
pub open spec fn abs_int(v: int) -> int {
    if v < 0 { -v } else { v }
}

/// The sign of `v`: -1, 0 or 1.
pub open spec fn sign_int(v: int) -> int {
    if v < 0 { -1 } else if v > 0 { 1 } else { 0 }
}

/// Exact rescaling of a signed time by `factor / divisor`: the divisor must be non-zero, the
/// scaled magnitude must fit 64 bits and divide evenly, and the result must fit `i64`.
pub open spec fn exact_rescale(value: i64, factor: int, divisor: u32) -> Result<i64, Failure> {
    let scaled = abs_int(value as int) * factor;
    if divisor == 0 {
        Err(Failure::Rejected)
    } else if scaled > u64::MAX {
        Err(Failure::Overflow)
    } else if scaled % (divisor as int) != 0 {
        Err(Failure::Rejected)
    } else if scaled / (divisor as int) > i64::MAX {
        Err(Failure::Overflow)
    } else {
        Ok((sign_int(value as int) * (scaled / (divisor as int))) as i64)
    }
}

/// Exact rescaling of a signed duration from `source_timescale` onto the 90 kHz clock.
pub open spec fn rescale_90k_exact(value: i64, source_timescale: u32) -> Result<i64, Failure> {
    exact_rescale(value, 90_000, source_timescale)
}

/// Exact rescaling of an MPEG-4 Part 2 time onto the retained 30 fps fallback cadence
/// (3000 ticks of the 90 kHz clock per `fallback_base_duration`).
pub open spec fn mp4v_fallback_time(value: i64, fallback_base_duration: u32) -> Result<i64, Failure> {
    exact_rescale(value, 3_000, fallback_base_duration)
}

/// Rounded rescaling of a signed duration onto the 90 kHz clock (half-up on the magnitude).
pub open spec fn rescale_90k_rounded(value: i64, source_timescale: u32) -> Result<i64, Failure> {
    let scaled = abs_int(value as int) * 90_000;
    if source_timescale == 0 {
        Err(Failure::Rejected)
    } else if scaled > u64::MAX {
        Err(Failure::Overflow)
    } else if scaled + (source_timescale as int) / 2 > u64::MAX {
        Err(Failure::Overflow)
    } else if (scaled + (source_timescale as int) / 2) / (source_timescale as int) > i64::MAX {
        Err(Failure::Overflow)
    } else {
        Ok((sign_int(value as int) * ((scaled + (source_timescale as int) / 2) / (source_timescale as int))) as i64)
    }
}

/// The magnitude of a signed 64-bit value.
fn magnitude(value: i64) -> (r: u64)
    ensures
        r == abs_int(value as int),
{
    if value < 0 {
        ((-(value + 1)) as u64) + 1
    } else {
        value as u64
    }
}

/// Applies the sign of `value` to `normalized`.
fn apply_sign(value: i64, normalized: u64) -> (r: i64)
    requires
        normalized <= i64::MAX,
    ensures
        r == sign_int(value as int) * normalized,
{
    let n = normalized as i64;
    if value < 0 { -n } else if value > 0 { n } else { 0 }
}

/// The import error "transport-stream {subject}{rest}{tail}".
pub fn transport_error(spec: &str, subject: &str, rest: &str, tail: &str) -> (e: MuxError)
    ensures
        is_import_error(e, spec@),
{
    let message = String::from_str("transport-stream ").concat(subject).concat(rest).concat(tail);
    MuxError::UnsupportedTrackImport { spec: spec.to_owned(), message }
}

/// Shared exact rescaling; the rejections read "transport-stream {subject}{zero_rest}" and
/// "transport-stream {subject}{cadence_rest}{cadence_tail}".
fn rescale_exact_core(
    value: i64,
    factor: u64,
    divisor: u32,
    spec: &str,
    subject: &str,
    zero_rest: &str,
    cadence_rest: &str,
    cadence_tail: &str,
    label: &str,
) -> (r: Result<i64, MuxError>)
    requires
        factor <= 90_000,
    ensures
        match exact_rescale(value, factor as int, divisor) {
            Ok(v) => r == Ok::<i64, MuxError>(v),
            Err(f) => r matches Err(e) && fails_as(e, f, spec@),
        },
{
    if divisor == 0 {
        return Err(transport_error(spec, subject, zero_rest, ""));
    }
    let m = magnitude(value);
    let scaled = match m.checked_mul(factor) {
        Some(v) => v,
        None => return Err(overflow(label)),
    };
    if scaled % (divisor as u64) != 0 {
        return Err(transport_error(spec, subject, cadence_rest, cadence_tail));
    }
    let normalized = scaled / (divisor as u64);
    if normalized > 0x7FFF_FFFF_FFFF_FFFF {
        return Err(overflow(label));
    }
    Ok(apply_sign(value, normalized))
}

/// Rescales an MPEG-4 Part 2 time onto the retained 30 fps transport fallback cadence.
pub fn transport_mp4v_fallback_time(value: i64, fallback_base_duration: u32, spec: &str) -> (r: Result<i64, MuxError>)
    ensures
        match mp4v_fallback_time(value, fallback_base_duration) {
            Ok(v) => r == Ok::<i64, MuxError>(v),
            Err(f) => r matches Err(e) && fails_as(e, f, spec@),
        },
{
    rescale_exact_core(
        value,
        3_000,
        fallback_base_duration,
        spec,
        "MPEG-4 Part 2",
        " video did not expose a valid fallback frame cadence",
        " cadence does not map cleanly onto the retained 30 fps transport fallback",
        "",
        "transport-stream MPEG-4 Part 2 fallback time rescale",
    )
}

/// Rescales an MPEG-2 video duration onto the 90 kHz transport clock.
pub fn rescale_transport_mpeg2v_time(value: i64, source_timescale: u32, spec: &str) -> (r: Result<i64, MuxError>)
    ensures
        match rescale_90k_exact(value, source_timescale) {
            Ok(v) => r == Ok::<i64, MuxError>(v),
            Err(f) => r matches Err(e) && fails_as(e, f, spec@),
        },
{
    rescale_exact_core(
        value,
        90_000,
        source_timescale,
        spec,
        "MPEG-2 video",
        " used an invalid zero timescale",
        " cadence does not rescale cleanly onto the 90_000 ",
        "media clock",
        "transport-stream MPEG-2 video time rescale",
    )
}

/// Rescales an H.264/H.265/VVC duration onto the 90 kHz transport clock.
pub fn rescale_transport_h26x_time(value: i64, source_timescale: u32, spec: &str, codec_name: &str) -> (r: Result<i64, MuxError>)
    ensures
        match rescale_90k_exact(value, source_timescale) {
            Ok(v) => r == Ok::<i64, MuxError>(v),
            Err(f) => r matches Err(e) && fails_as(e, f, spec@),
        },
{
    rescale_exact_core(
        value,
        90_000,
        source_timescale,
        spec,
        codec_name,
        " used an invalid zero timescale",
        " cadence does not rescale cleanly onto the 90_000 ",
        "transport clock",
        "transport-stream H26x time rescale",
    )
}

/// Rescales an AVS3 video duration onto the 90 kHz transport clock.
pub fn rescale_transport_avs3_time(value: i64, source_timescale: u32, spec: &str) -> (r: Result<i64, MuxError>)
    ensures
        match rescale_90k_exact(value, source_timescale) {
            Ok(v) => r == Ok::<i64, MuxError>(v),
            Err(f) => r matches Err(e) && fails_as(e, f, spec@),
        },
{
    rescale_exact_core(
        value,
        90_000,
        source_timescale,
        spec,
        "AVS3 video",
        " used an invalid zero timescale",
        " cadence does not rescale cleanly onto the 90_000 ",
        "media clock",
        "transport-stream AVS3 video time rescale",
    )
}

/// Rescales an audio duration onto the 90 kHz transport clock, rounding half up.
pub fn rescale_transport_audio_time(value: i64, source_timescale: u32, spec: &str, label: &str) -> (r: Result<i64, MuxError>)
    ensures
        match rescale_90k_rounded(value, source_timescale) {
            Ok(v) => r == Ok::<i64, MuxError>(v),
            Err(f) => r matches Err(e) && fails_as(e, f, spec@),
        },
{
    if source_timescale == 0 {
        let message = String::from_str(label).concat(" used an invalid zero timescale");
        return Err(MuxError::UnsupportedTrackImport { spec: spec.to_owned(), message });
    }
    let m = magnitude(value);
    let scaled = match m.checked_mul(90_000) {
        Some(v) => v,
        None => return Err(overflow("transport-stream audio time rescale")),
    };
    let divisor = source_timescale as u64;
    let rounded = match scaled.checked_add(divisor / 2) {
        Some(v) => v,
        None => return Err(overflow("transport-stream audio time rounding")),
    };
    let normalized = rounded / divisor;
    if normalized > 0x7FFF_FFFF_FFFF_FFFF {
        return Err(overflow("transport-stream audio time rescale"));
    }
    Ok(apply_sign(value, normalized))
}

/// The edit delta, among `target - current` and its neighbours one transport wrap away, with
/// the smallest magnitude (the first of equals).
pub open spec fn spec_wrapped_edit_delta(target: int, current: int) -> int {
    let direct = target - current;
    let wrap = transport_max_pcr_90k();
    let a = direct;
    let b = direct - wrap;
    let c = direct + wrap;
    let best_ab = if abs_int(b) < abs_int(a) { b } else { a };
    if abs_int(c) < abs_int(best_ab) { c } else { best_ab }
}

/// The wrap-aware difference between two edit-media times.
pub fn wrapped_transport_h264_edit_delta(target_edit_media_time: i64, current_edit_media_time: i64) -> (r: Result<i64, MuxError>)
    ensures
        i64::MIN <= spec_wrapped_edit_delta(target_edit_media_time as int, current_edit_media_time as int) <= i64::MAX
            ==> r == Ok::<i64, MuxError>(spec_wrapped_edit_delta(target_edit_media_time as int, current_edit_media_time as int) as i64),
        !(i64::MIN <= spec_wrapped_edit_delta(target_edit_media_time as int, current_edit_media_time as int) <= i64::MAX)
            ==> (r matches Err(e) && e is LayoutOverflow),
{
    let direct = target_edit_media_time as i128 - current_edit_media_time as i128;
    let wrap: i128 = 8_589_934_592;
    let a = direct;
    let b = direct - wrap;
    let c = direct + wrap;
    let abs_a = if a < 0 { -a } else { a };
    let abs_b = if b < 0 { -b } else { b };
    let abs_c = if c < 0 { -c } else { c };
    let (best_ab, abs_ab) = if abs_b < abs_a { (b, abs_b) } else { (a, abs_a) };
    let best = if abs_c < abs_ab { c } else { best_ab };
    if best < -0x8000_0000_0000_0000 || best > 0x7FFF_FFFF_FFFF_FFFF {
        return Err(overflow("transport-stream H.264 edit-media time realignment"));
    }
    Ok(best as i64)
}

/// The PTS of the first of the first `n` anchors bound to logical offset `offset`.
pub open spec fn anchor_pts(anchors: Seq<TransportTimestampAnchor>, offset: u64, n: int) -> Option<u64>
    decreases n,
{
    if n <= 0 {
        None
    } else {
        match anchor_pts(anchors, offset, n - 1) {
            Some(p) => Some(p),
            None => if anchors[n - 1].sample_offset == offset { Some(anchors[n - 1].pts_90k) } else { None },
        }
    }
}

/// The PTS of the first anchor bound to logical offset `offset`.
pub open spec fn first_anchor_pts(anchors: Seq<TransportTimestampAnchor>, offset: u64) -> Option<u64> {
    anchor_pts(anchors, offset, anchors.len() as int)
}

/// Once a prefix holds an anchor for `offset`, every longer prefix gives the same PTS.
pub proof fn lemma_anchor_pts_persists(anchors: Seq<TransportTimestampAnchor>, offset: u64, n: int, m: int)
    requires
        n <= m,
        anchor_pts(anchors, offset, n) is Some,
    ensures
        anchor_pts(anchors, offset, m) == anchor_pts(anchors, offset, n),
    decreases m - n,
{
    if m > n {
        lemma_anchor_pts_persists(anchors, offset, n, m - 1);
    }
}

/// A prefix holds an anchor for `offset` exactly when one of its anchors is bound there.
pub proof fn lemma_anchor_pts_some(anchors: Seq<TransportTimestampAnchor>, offset: u64, n: int)
    requires
        0 <= n <= anchors.len(),
    ensures
        anchor_pts(anchors, offset, n) is Some <==> exists|i: int| 0 <= i < n && (#[trigger] anchors[i]).sample_offset == offset,
    decreases n,
{
    if n > 0 {
        lemma_anchor_pts_some(anchors, offset, n - 1);
        if anchor_pts(anchors, offset, n - 1) is Some {
            let i = choose|i: int| 0 <= i < n - 1 && (#[trigger] anchors[i]).sample_offset == offset;
            assert(0 <= i < n && anchors[i].sample_offset == offset);
        }
    }
}

/// Looks up the PTS of the first anchor bound to `offset`.
pub(crate) fn find_anchor_pts(anchors: &[TransportTimestampAnchor], offset: u64) -> (r: Option<u64>)
    ensures
        r == first_anchor_pts(anchors@, offset),
{
    let mut a: usize = 0;
    while a < anchors.len()
        invariant
            a <= anchors@.len(),
            anchor_pts(anchors@, offset, a as int) is None,
        decreases anchors.len() - a,
    {
        if anchors[a].sample_offset == offset {
            proof { lemma_anchor_pts_persists(anchors@, offset, a + 1, anchors@.len() as int); }
            return Some(anchors[a].pts_90k);
        }
        a = a + 1;
    }
    None
}

/// The smallest composition offset of the samples after adding `delta` (0 when none is
/// negative).
pub open spec fn min_shifted_cto(samples: Seq<CandidateSample>, delta: int, n: int) -> int
    decreases n,
{
    if n <= 0 {
        0
    } else {
        let m = min_shifted_cto(samples, delta, n - 1);
        let v = samples[n - 1].composition_time_offset + delta;
        if v < m { v } else { m }
    }
}

/// `samples` with `delta` added to every composition offset.
pub open spec fn shift_ctos(samples: Seq<CandidateSample>, delta: int) -> Seq<CandidateSample> {
    samples.map_values(|s: CandidateSample| CandidateSample { composition_time_offset: (s.composition_time_offset + delta) as i32, ..s })
}

/// Every composition offset plus `delta` stays in the `i32` range.
pub open spec fn ctos_fit(samples: Seq<CandidateSample>, delta: int) -> bool {
    forall|i: int| 0 <= i < samples.len() ==> i32::MIN <= (#[trigger] samples[i]).composition_time_offset + delta <= i32::MAX
}

/// The outcome of aligning H.264 presentation times to the first sample's PES timestamp:
/// the total composition shift and the new edit-media time, or nothing to do (`Ok(None)`),
/// or an overflow.
pub open spec fn h264_alignment(
    samples: Seq<CandidateSample>,
    edit: Option<u64>,
    anchors: Seq<TransportTimestampAnchor>,
) -> Result<Option<(int, u64)>, ()> {
    if samples.len() == 0 {
        Ok(None)
    } else {
        match first_anchor_pts(anchors, samples[0].data_offset) {
            None => Ok(None),
            Some(pts) => {
                let current = match edit { Some(e) => e as int, None => 0 };
                if current > i64::MAX || pts > i64::MAX {
                    Err(())
                } else {
                    let delta = spec_wrapped_edit_delta(pts as int, current);
                    if delta < i32::MIN || delta > i32::MAX || !ctos_fit(samples, delta) {
                        Err(())
                    } else {
                        let shift = -min_shifted_cto(samples, delta, samples.len() as int);
                        if shift > i32::MAX || !ctos_fit(samples, delta + shift) || pts + shift > u64::MAX {
                            Err(())
                        } else {
                            Ok(Some((delta + shift, (pts + shift) as u64)))
                        }
                    }
                }
            },
        }
    }
}

/// The minimum over the first `n` samples is at most each of them, and not positive.
pub proof fn lemma_min_shifted_cto(samples: Seq<CandidateSample>, delta: int, n: int)
    requires
        0 <= n <= samples.len(),
    ensures
        min_shifted_cto(samples, delta, n) <= 0,
        forall|i: int| 0 <= i < n ==> min_shifted_cto(samples, delta, n) <= #[trigger] samples[i].composition_time_offset + delta,
        n > 0 && min_shifted_cto(samples, delta, n) < 0 ==> exists|i: int| 0 <= i < n && min_shifted_cto(samples, delta, n) == #[trigger] samples[i].composition_time_offset + delta,
    decreases n,
{
    if n > 0 {
        lemma_min_shifted_cto(samples, delta, n - 1);
    }
}

/// Whenever alignment finds an anchor and succeeds, no composition offset of the aligned
/// samples is negative.
pub proof fn lemma_h264_alignment_offsets_nonnegative(
    samples: Seq<CandidateSample>,
    edit: Option<u64>,
    anchors: Seq<TransportTimestampAnchor>,
    total: int,
    new_edit: u64,
)
    requires
        h264_alignment(samples, edit, anchors) == Ok::<Option<(int, u64)>, ()>(Some((total, new_edit))),
    ensures
        forall|i: int| 0 <= i < samples.len() ==> (#[trigger] shift_ctos(samples, total)[i]).composition_time_offset >= 0,
        shift_ctos(samples, total).len() == samples.len(),
{
    let pts = first_anchor_pts(anchors, samples[0].data_offset).unwrap();
    let current = match edit { Some(e) => e as int, None => 0 };
    let delta = spec_wrapped_edit_delta(pts as int, current);
    lemma_min_shifted_cto(samples, delta, samples.len() as int);
    let shift = -min_shifted_cto(samples, delta, samples.len() as int);
    assert(total == delta + shift);
    assert forall|i: int| 0 <= i < samples.len() implies (#[trigger] shift_ctos(samples, total)[i]).composition_time_offset >= 0 by {
        assert(i32::MIN <= samples[i].composition_time_offset + total <= i32::MAX);
        assert(samples[i].composition_time_offset + delta >= min_shifted_cto(samples, delta, samples.len() as int));
    }
}

/// Realigns H.264 composition offsets so that the first sample presents at its PES timestamp,
/// taking the shortest way around the transport clock wrap, then lifts every offset so none
/// is negative and moves the edit-media time by the same lift.
pub fn align_transport_h264_presentation_time(
    samples: &mut Vec<CandidateSample>,
    source_edit_media_time: &mut Option<u64>,
    pts_anchors: &[TransportTimestampAnchor],
) -> (r: Result<(), MuxError>)
    ensures
        match h264_alignment(old(samples)@, *old(source_edit_media_time), pts_anchors@) {
            Ok(None) => r is Ok && final(samples)@ == old(samples)@ && *final(source_edit_media_time) == *old(source_edit_media_time),
            Ok(Some((total, edit))) => r is Ok && final(samples)@ == shift_ctos(old(samples)@, total)
                && *final(source_edit_media_time) == Some(edit),
            Err(()) => r matches Err(e) && e is LayoutOverflow,
        },
        final(samples)@.len() == old(samples)@.len(),
{
    if samples.len() == 0 {
        return Ok(());
    }
    let anchor_pts_90k = match find_anchor_pts(pts_anchors, samples[0].data_offset) {
        Some(p) => p,
        None => return Ok(()),
    };
    let current_raw: u64 = match *source_edit_media_time {
        Some(e) => e,
        None => 0,
    };
    if current_raw > 0x7FFF_FFFF_FFFF_FFFF || anchor_pts_90k > 0x7FFF_FFFF_FFFF_FFFF {
        return Err(overflow("transport-stream H.264 edit-media time"));
    }
    let delta = match wrapped_transport_h264_edit_delta(anchor_pts_90k as i64, current_raw as i64) {
        Ok(d) => d,
        Err(e) => return Err(e),
    };
    if delta < -0x8000_0000 || delta > 0x7FFF_FFFF {
        return Err(overflow("transport-stream H.264 composition realignment"));
    }
    let delta = delta as i32;
    let ghost original = samples@;
    let n = samples.len();
    let mut i: usize = 0;
    while i < n
        invariant
            n == original.len(),
            original == old(samples)@,
            original.len() > 0,
            first_anchor_pts(pts_anchors@, original[0].data_offset) == Some(anchor_pts_90k),
            *source_edit_media_time == *old(source_edit_media_time),
            current_raw == (match *old(source_edit_media_time) { Some(e) => e, None => 0 }),
            current_raw <= i64::MAX,
            anchor_pts_90k <= i64::MAX,
            delta == spec_wrapped_edit_delta(anchor_pts_90k as int, current_raw as int),
            samples@.len() == n,
            i <= n,
            forall|k: int| 0 <= k < i ==> samples@[k] == #[trigger] shift_ctos(original, delta as int)[k],
            forall|k: int| 0 <= k < i ==> i32::MIN <= (#[trigger] original[k]).composition_time_offset + delta <= i32::MAX,
            forall|k: int| i <= k < n ==> samples@[k] == original[k],
        decreases n - i,
    {
        let s = samples[i];
        match s.composition_time_offset.checked_add(delta) {
            Some(v) => {
                samples.set(i, CandidateSample { composition_time_offset: v, ..s });
            },
            None => {
                assert(original[i as int] == s);
                assert(!(i32::MIN <= original[i as int].composition_time_offset + delta <= i32::MAX));
                assert(!ctos_fit(original, delta as int));
                return Err(overflow("transport-stream H.264 composition realignment"));
            },
        }
        i = i + 1;
    }
    assert(samples@ =~= shift_ctos(original, delta as int));
    assert(ctos_fit(original, delta as int));
    let mut min_value: i32 = 0;
    let mut j: usize = 0;
    while j < n
        invariant
            n == original.len(),
            original == old(samples)@,
            original.len() > 0,
            first_anchor_pts(pts_anchors@, original[0].data_offset) == Some(anchor_pts_90k),
            *source_edit_media_time == *old(source_edit_media_time),
            current_raw == (match *old(source_edit_media_time) { Some(e) => e, None => 0 }),
            current_raw <= i64::MAX,
            anchor_pts_90k <= i64::MAX,
            delta == spec_wrapped_edit_delta(anchor_pts_90k as int, current_raw as int),
            samples@ == shift_ctos(original, delta as int),
            ctos_fit(original, delta as int),
            j <= n,
            min_value == min_shifted_cto(original, delta as int, j as int),
        decreases n - j,
    {
        let v = samples[j].composition_time_offset;
        assert(original[j as int].composition_time_offset + delta <= i32::MAX);
        assert(v == original[j as int].composition_time_offset + delta);
        if v < min_value {
            min_value = v;
        }
        j = j + 1;
    }
    proof { lemma_min_shifted_cto(original, delta as int, n as int); }
    let negative_shift: u32 = if min_value < 0 { ((-(min_value + 1)) as u32) + 1 } else { 0 };
    if negative_shift != 0 {
        if negative_shift > 0x7FFF_FFFF {
            return Err(overflow("transport-stream H.264 composition shift"));
        }
        let shift = negative_shift as i32;
        let ghost shifted = samples@;
        let mut k: usize = 0;
        while k < n
            invariant
                n == original.len(),
                original == old(samples)@,
                original.len() > 0,
                first_anchor_pts(pts_anchors@, original[0].data_offset) == Some(anchor_pts_90k),
                *source_edit_media_time == *old(source_edit_media_time),
                current_raw == (match *old(source_edit_media_time) { Some(e) => e, None => 0 }),
                current_raw <= i64::MAX,
                anchor_pts_90k <= i64::MAX,
                delta == spec_wrapped_edit_delta(anchor_pts_90k as int, current_raw as int),
            original.len() > 0,
            first_anchor_pts(pts_anchors@, original[0].data_offset) == Some(anchor_pts_90k),
            *source_edit_media_time == *old(source_edit_media_time),
            current_raw == (match *old(source_edit_media_time) { Some(e) => e, None => 0 }),
            current_raw <= i64::MAX,
            anchor_pts_90k <= i64::MAX,
            delta == spec_wrapped_edit_delta(anchor_pts_90k as int, current_raw as int),
                ctos_fit(original, delta as int),
                shift == -min_shifted_cto(original, delta as int, n as int),
                shifted == shift_ctos(original, delta as int),
                samples@.len() == n,
                forall|q: int| 0 <= q < k ==> i32::MIN <= (#[trigger] original[q]).composition_time_offset + delta + shift <= i32::MAX,
                k <= n,
                forall|q: int| 0 <= q < k ==> samples@[q] == #[trigger] shift_ctos(original, delta + shift)[q],
                forall|q: int| k <= q < n ==> samples@[q] == shifted[q],
            decreases n - k,
        {
            let s = samples[k];
            assert(shifted[k as int] == s);
            assert(s.composition_time_offset == original[k as int].composition_time_offset + delta);
            match s.composition_time_offset.checked_add(shift) {
                Some(v) => {
                    samples.set(k, CandidateSample { composition_time_offset: v, ..s });
                },
                None => {
                    assert(shifted[k as int] == s);
                    assert(original[k as int].composition_time_offset + delta >= i32::MIN);
                    assert(!(i32::MIN <= original[k as int].composition_time_offset + delta + shift <= i32::MAX));
                    assert(!ctos_fit(original, delta + shift));
                    return Err(overflow("transport-stream H.264 composition shift"));
                },
            }
            k = k + 1;
        }
        assert(samples@ =~= shift_ctos(original, delta + shift));
    } else {
        assert(shift_ctos(original, delta as int) =~= shift_ctos(original, delta + 0));
    }
    match anchor_pts_90k.checked_add(negative_shift as u64) {
        Some(edit) => {
            *source_edit_media_time = Some(edit);
            Ok(())
        },
        None => Err(overflow("transport-stream H.264 edit-media time")),
    }
}

/// The candidate for a staged MPEG-2 video or AVS3 sample, both times rescaled exactly onto the
/// 90 kHz clock and narrowed by truncation.
pub open spec fn exact_candidate(s: StagedSample, source_timescale: u32) -> Result<CandidateSample, Failure> {
    match rescale_90k_exact(s.duration as i64, source_timescale) {
        Err(f) => Err(f),
        Ok(d) => match rescale_90k_exact(s.composition_time_offset as i64, source_timescale) {
            Err(f) => Err(f),
            Ok(c) => Ok(CandidateSample {
                source_index: usize::MAX,
                data_offset: s.data_offset,
                data_size: s.data_size,
                duration: d as u32,
                composition_time_offset: c as i32,
                is_sync_sample: s.is_sync_sample,
            }),
        },
    }
}

/// The candidate for a staged H.264/H.265/VVC sample: both times rescaled exactly onto the
/// 90 kHz clock, each required to fit its field.
pub open spec fn h26x_candidate(s: StagedSample, source_timescale: u32) -> Result<CandidateSample, Failure> {
    match rescale_90k_exact(s.duration as i64, source_timescale) {
        Err(f) => Err(f),
        Ok(d) => if d < 0 || d > u32::MAX {
            Err(Failure::Overflow)
        } else {
            match rescale_90k_exact(s.composition_time_offset as i64, source_timescale) {
                Err(f) => Err(f),
                Ok(c) => if c < i32::MIN || c > i32::MAX {
                    Err(Failure::Overflow)
                } else {
                    Ok(CandidateSample {
                        source_index: usize::MAX,
                        data_offset: s.data_offset,
                        data_size: s.data_size,
                        duration: d as u32,
                        composition_time_offset: c as i32,
                        is_sync_sample: s.is_sync_sample,
                    })
                },
            }
        },
    }
}

/// Which exact-cadence video codec a rescale speaks for.
#[derive(Clone, Copy, Debug, PartialEq, Eq, Structural)]
pub enum ExactCadenceCodec {
    Mpeg2v,
    Avs3,
    H26x,
}

/// Rescales one staged sample for `codec`.
fn rescale_staged_sample(sample: StagedSample, source_timescale: u32, spec: &str, codec: ExactCadenceCodec, codec_name: &str) -> (r: Result<CandidateSample, MuxError>)
    ensures
        match (if codec == ExactCadenceCodec::H26x { h26x_candidate(sample, source_timescale) } else { exact_candidate(sample, source_timescale) }) {
            Ok(c) => r == Ok::<CandidateSample, MuxError>(c),
            Err(f) => r matches Err(e) && fails_as(e, f, spec@),
        },
{
    let duration = match codec {
        ExactCadenceCodec::Mpeg2v => rescale_transport_mpeg2v_time(sample.duration as i64, source_timescale, spec),
        ExactCadenceCodec::Avs3 => rescale_transport_avs3_time(sample.duration as i64, source_timescale, spec),
        ExactCadenceCodec::H26x => rescale_transport_h26x_time(sample.duration as i64, source_timescale, spec, codec_name),
    };
    let duration = match duration {
        Ok(d) => d,
        Err(e) => return Err(e),
    };
    let duration: u32 = if codec == ExactCadenceCodec::H26x {
        if duration < 0 || duration > 0xFFFF_FFFF {
            return Err(overflow("transport-stream H26x duration rescale"));
        }
        duration as u32
    } else {
        duration as u32
    };
    let offset = match codec {
        ExactCadenceCodec::Mpeg2v => rescale_transport_mpeg2v_time(sample.composition_time_offset as i64, source_timescale, spec),
        ExactCadenceCodec::Avs3 => rescale_transport_avs3_time(sample.composition_time_offset as i64, source_timescale, spec),
        ExactCadenceCodec::H26x => rescale_transport_h26x_time(sample.composition_time_offset as i64, source_timescale, spec, codec_name),
    };
    let offset = match offset {
        Ok(c) => c,
        Err(e) => return Err(e),
    };
    let offset: i32 = if codec == ExactCadenceCodec::H26x {
        if offset < -0x8000_0000 || offset > 0x7FFF_FFFF {
            return Err(overflow("transport-stream H26x composition offset rescale"));
        }
        offset as i32
    } else {
        offset as i32
    };
    Ok(CandidateSample {
        source_index: UNBOUND_SOURCE_INDEX,
        data_offset: sample.data_offset,
        data_size: sample.data_size,
        duration,
        composition_time_offset: offset,
        is_sync_sample: sample.is_sync_sample,
    })
}

/// Rescales every staged sample for `codec`, stopping at the first failure.
fn rescale_staged_samples(samples: &Vec<StagedSample>, source_timescale: u32, spec: &str, codec: ExactCadenceCodec, codec_name: &str) -> (r: Result<Vec<CandidateSample>, MuxError>)
    ensures
        match convert_all(samples@, if codec == ExactCadenceCodec::H26x {
            |s: StagedSample| h26x_candidate(s, source_timescale)
        } else {
            |s: StagedSample| exact_candidate(s, source_timescale)
        }) {
            Ok(v) => r matches Ok(out) && out@ == v,
            Err(f) => r matches Err(e) && fails_as(e, f, spec@),
        },
{
    let ghost f = if codec == ExactCadenceCodec::H26x {
        |s: StagedSample| h26x_candidate(s, source_timescale)
    } else {
        |s: StagedSample| exact_candidate(s, source_timescale)
    };
    let mut out: Vec<CandidateSample> = Vec::new();
    let mut i: usize = 0;
    while i < samples.len()
        invariant
            i <= samples@.len(),
            f == (if codec == ExactCadenceCodec::H26x {
                |s: StagedSample| h26x_candidate(s, source_timescale)
            } else {
                |s: StagedSample| exact_candidate(s, source_timescale)
            }),
            convert_prefix(samples@, f, i as int) == Ok::<Seq<CandidateSample>, Failure>(out@),
        decreases samples.len() - i,
    {
        match rescale_staged_sample(samples[i], source_timescale, spec, codec, codec_name) {
            Ok(c) => {
                out.push(c);
            },
            Err(e) => {
                proof {
                    assert(convert_prefix(samples@, f, i + 1) is Err);
                    lemma_convert_failure_persists(samples@, f, i + 1, samples@.len() as int);
                }
                return Err(e);
            },
        }
        i = i + 1;
    }
    Ok(out)
}

/// Rescales staged MPEG-2 video samples onto the 90 kHz transport clock.
pub fn rescale_transport_mpeg2v_samples(samples: Vec<StagedSample>, source_timescale: u32, spec: &str) -> (r: Result<Vec<CandidateSample>, MuxError>)
    ensures
        match convert_all(samples@, |s: StagedSample| exact_candidate(s, source_timescale)) {
            Ok(v) => r matches Ok(out) && out@ == v,
            Err(f) => r matches Err(e) && fails_as(e, f, spec@),
        },
{
    rescale_staged_samples(&samples, source_timescale, spec, ExactCadenceCodec::Mpeg2v, "MPEG-2 video")
}

/// Rescales staged AVS3 video samples onto the 90 kHz transport clock.
pub fn rescale_transport_avs3_samples(samples: Vec<StagedSample>, source_timescale: u32, spec: &str) -> (r: Result<Vec<CandidateSample>, MuxError>)
    ensures
        match convert_all(samples@, |s: StagedSample| exact_candidate(s, source_timescale)) {
            Ok(v) => r matches Ok(out) && out@ == v,
            Err(f) => r matches Err(e) && fails_as(e, f, spec@),
        },
{
    rescale_staged_samples(&samples, source_timescale, spec, ExactCadenceCodec::Avs3, "AVS3 video")
}

/// Rescales staged H.264/H.265/VVC samples onto the 90 kHz transport clock; each time must
/// fit its field.
pub fn rescale_transport_h26x_samples(samples: Vec<StagedSample>, source_timescale: u32, spec: &str, codec_name: &str) -> (r: Result<Vec<CandidateSample>, MuxError>)
    ensures
        match convert_all(samples@, |s: StagedSample| h26x_candidate(s, source_timescale)) {
            Ok(v) => r matches Ok(out) && out@ == v,
            Err(f) => r matches Err(e) && fails_as(e, f, spec@),
        },
{
    rescale_staged_samples(&samples, source_timescale, spec, ExactCadenceCodec::H26x, codec_name)
}

/// The edit-media time rescaled onto the 90 kHz clock, when there is one.
pub open spec fn h26x_edit_media_time(edit: Option<u64>, source_timescale: u32) -> Result<Option<u64>, Failure> {
    match edit {
        None => Ok(None),
        Some(v) => if v > i64::MAX {
            Err(Failure::Overflow)
        } else {
            match rescale_90k_exact(v as i64, source_timescale) {
                Err(f) => Err(f),
                Ok(t) => if t < 0 { Err(Failure::Overflow) } else { Ok(Some(t as u64)) },
            }
        },
    }
}

/// Rescales an H.264/H.265/VVC edit-media time onto the 90 kHz transport clock.
pub fn rescale_transport_h26x_edit_media_time(source_edit_media_time: Option<u64>, source_timescale: u32, spec: &str, codec_name: &str) -> (r: Result<Option<u64>, MuxError>)
    ensures
        match h26x_edit_media_time(source_edit_media_time, source_timescale) {
            Ok(v) => r == Ok::<Option<u64>, MuxError>(v),
            Err(f) => r matches Err(e) && fails_as(e, f, spec@),
        },
{
    match source_edit_media_time {
        None => Ok(None),
        Some(value) => {
            if value > 0x7FFF_FFFF_FFFF_FFFF {
                return Err(overflow("transport-stream edit-media time"));
            }
            match rescale_transport_h26x_time(value as i64, source_timescale, spec, codec_name) {
                Err(e) => Err(e),
                Ok(t) => if t < 0 {
                    Err(overflow("transport-stream edit-media time"))
                } else {
                    Ok(Some(t as u64))
                },
            }
        },
    }
}

/// A staged MPEG-2 video duration rescaled onto the 90 kHz clock and required to fit 32 bits.
pub open spec fn mpeg2v_duration(s: StagedSample, source_timescale: u32) -> Result<u32, Failure> {
    match rescale_90k_exact(s.duration as i64, source_timescale) {
        Err(f) => Err(f),
        Ok(d) => if d < 0 || d > u32::MAX { Err(Failure::Overflow) } else { Ok(d as u32) },
    }
}

/// An MPEG-2 video sample with its rescaled duration and the track-wide composition offset.
pub open spec fn mpeg2v_offset_candidate(s: StagedSample, source_timescale: u32, offset: u32) -> Result<CandidateSample, Failure> {
    match mpeg2v_duration(s, source_timescale) {
        Err(f) => Err(f),
        Ok(d) => Ok(CandidateSample {
            source_index: usize::MAX,
            data_offset: s.data_offset,
            data_size: s.data_size,
            duration: d,
            composition_time_offset: offset as i32,
            is_sync_sample: s.is_sync_sample,
        }),
    }
}

/// An MPEG-2 video sample paced at 30 fps with no composition offset.
pub open spec fn mpeg2v_paced_candidate(s: StagedSample) -> CandidateSample {
    CandidateSample {
        source_index: usize::MAX,
        data_offset: s.data_offset,
        data_size: s.data_size,
        duration: 3_000,
        composition_time_offset: 0,
        is_sync_sample: s.is_sync_sample,
    }
}

/// How MPEG-2 video samples are timed: with no anchors they are rescaled; a single anchor over
/// several samples paces them at 30 fps; otherwise every sample is rescaled and every
/// composition offset (and the edit-media time) is the first sample's rescaled duration.
pub open spec fn mpeg2v_samples_outcome(
    samples: Seq<StagedSample>,
    source_timescale: u32,
    anchors: Seq<TransportTimestampAnchor>,
) -> Result<(Seq<CandidateSample>, Option<u64>), Failure> {
    if anchors.len() == 0 {
        match convert_all(samples, |s: StagedSample| exact_candidate(s, source_timescale)) {
            Err(f) => Err(f),
            Ok(v) => Ok((v, None)),
        }
    } else if anchors.len() == 1 && samples.len() > 1 {
        Ok((samples.map_values(|s: StagedSample| mpeg2v_paced_candidate(s)), None))
    } else if samples.len() == 0 {
        Ok((Seq::empty(), None))
    } else {
        match mpeg2v_duration(samples[0], source_timescale) {
            Err(f) => Err(f),
            Ok(first) => if first > i32::MAX {
                Err(Failure::Overflow)
            } else {
                match convert_all(samples, |s: StagedSample| mpeg2v_offset_candidate(s, source_timescale, first)) {
                    Err(f) => Err(f),
                    Ok(v) => Ok((v, Some(first as u64))),
                }
            },
        }
    }
}

/// One MPEG-2 video duration rescaled and narrowed.
fn mpeg2v_sample_duration(sample: StagedSample, source_timescale: u32, spec: &str) -> (r: Result<u32, MuxError>)
    ensures
        match mpeg2v_duration(sample, source_timescale) {
            Ok(d) => r == Ok::<u32, MuxError>(d),
            Err(f) => r matches Err(e) && fails_as(e, f, spec@),
        },
{
    match rescale_transport_mpeg2v_time(sample.duration as i64, source_timescale, spec) {
        Err(e) => Err(e),
        Ok(d) => if d < 0 || d > 0xFFFF_FFFF {
            Err(overflow("transport-stream MPEG-2 video duration"))
        } else {
            Ok(d as u32)
        },
    }
}

/// Times MPEG-2 video samples on the 90 kHz transport clock and reports the edit-media time.
pub fn build_transport_mpeg2v_samples(
    spec: &str,
    samples: Vec<StagedSample>,
    source_timescale: u32,
    pts_anchors: &[TransportTimestampAnchor],
) -> (r: Result<(Vec<CandidateSample>, Option<u64>), MuxError>)
    ensures
        match mpeg2v_samples_outcome(samples@, source_timescale, pts_anchors@) {
            Ok((v, edit)) => r matches Ok((out, e)) && out@ == v && e == edit,
            Err(f) => r matches Err(e) && fails_as(e, f, spec@),
        },
{
    if pts_anchors.len() == 0 {
        return match rescale_transport_mpeg2v_samples(samples, source_timescale, spec) {
            Ok(v) => Ok((v, None)),
            Err(e) => Err(e),
        };
    }
    if pts_anchors.len() == 1 && samples.len() > 1 {
        let mut out: Vec<CandidateSample> = Vec::new();
        let mut i: usize = 0;
        while i < samples.len()
            invariant
                i <= samples@.len(),
                out@ == samples@.take(i as int).map_values(|s: StagedSample| mpeg2v_paced_candidate(s)),
            decreases samples.len() - i,
        {
            let s = samples[i];
            out.push(CandidateSample {
                source_index: UNBOUND_SOURCE_INDEX,
                data_offset: s.data_offset,
                data_size: s.data_size,
                duration: 3_000,
                composition_time_offset: 0,
                is_sync_sample: s.is_sync_sample,
            });
            assert(samples@.take(i + 1) == samples@.take(i as int).push(s));
            i = i + 1;
        }
        assert(samples@.take(samples@.len() as int) == samples@);
        return Ok((out, None));
    }
    if samples.len() == 0 {
        return Ok((Vec::new(), None));
    }
    let first = match mpeg2v_sample_duration(samples[0], source_timescale, spec) {
        Ok(d) => d,
        Err(e) => return Err(e),
    };
    if first > 0x7FFF_FFFF {
        return Err(overflow("transport-stream MPEG-2 video composition offset"));
    }
    let ghost f = |s: StagedSample| mpeg2v_offset_candidate(s, source_timescale, first);
    let mut out: Vec<CandidateSample> = Vec::new();
    let mut i: usize = 0;
    while i < samples.len()
        invariant
            i <= samples@.len(),
            first <= i32::MAX,
            pts_anchors@.len() != 0,
            !(pts_anchors@.len() == 1 && samples@.len() > 1),
            samples@.len() > 0,
            mpeg2v_duration(samples@[0], source_timescale) == Ok::<u32, Failure>(first),
            f == (|s: StagedSample| mpeg2v_offset_candidate(s, source_timescale, first)),
            convert_prefix(samples@, f, i as int) == Ok::<Seq<CandidateSample>, Failure>(out@),
        decreases samples.len() - i,
    {
        let s = samples[i];
        let duration = match mpeg2v_sample_duration(s, source_timescale, spec) {
            Ok(d) => d,
            Err(e) => {
                proof {
                    assert(convert_prefix(samples@, f, i + 1) is Err);
                    lemma_convert_failure_persists(samples@, f, i + 1, samples@.len() as int);
                }
                return Err(e);
            },
        };
        out.push(CandidateSample {
            source_index: UNBOUND_SOURCE_INDEX,
            data_offset: s.data_offset,
            data_size: s.data_size,
            duration,
            composition_time_offset: first as i32,
            is_sync_sample: s.is_sync_sample,
        });
        i = i + 1;
    }
    Ok((out, Some(first as u64)))
}

/// Sample `k` is a non-sync frame of the first frame's duration, after a frame of that
/// duration, presenting with the sync frame that follows it.
pub open spec fn wrap_collapse_at(s: Seq<CandidateSample>, d: u32, k: int) -> bool {
    &&& !s[k].is_sync_sample
    &&& s[k + 1].is_sync_sample
    &&& s[k - 1].duration == d
    &&& s[k].duration == d
    &&& s[k].composition_time_offset == s[k + 1].composition_time_offset
}

/// The last index in `1..=hi` where a wrap duplicate can be collapsed.
pub open spec fn last_wrap_collapse(s: Seq<CandidateSample>, d: u32, hi: int) -> Option<int>
    decreases hi,
{
    if hi < 1 {
        None
    } else if wrap_collapse_at(s, d, hi) {
        Some(hi)
    } else {
        last_wrap_collapse(s, d, hi - 1)
    }
}

/// A collapse index found up to `hi` lies in `1..=hi` and collapses there.
pub proof fn lemma_last_wrap_collapse_range(s: Seq<CandidateSample>, d: u32, hi: int)
    ensures
        last_wrap_collapse(s, d, hi) matches Some(k) ==> 1 <= k <= hi && wrap_collapse_at(s, d, k),
    decreases hi,
{
    if hi >= 1 && !wrap_collapse_at(s, d, hi) {
        lemma_last_wrap_collapse_range(s, d, hi - 1);
    }
}

/// The outcome of normalizing an H.264 track whose edit-media time sits within one frame of
/// the transport clock wrap: nothing to do (`Ok(None)`); or every composition offset moves by
/// the first frame's duration, the edit-media time wraps and moves by the same duration, and
/// the last duplicated frame before a sync frame is folded into its predecessor; or overflow.
pub open spec fn h264_wraparound(samples: Seq<CandidateSample>, edit: Option<u64>) -> Result<Option<(Seq<CandidateSample>, u64)>, ()> {
    match edit {
        None => Ok(None),
        Some(current) => if samples.len() == 0 || samples[0].duration == 0 {
            Ok(None)
        } else {
            let d = samples[0].duration;
            let limit = if transport_max_pcr_90k() >= d { transport_max_pcr_90k() - d } else { 0 };
            if current < limit {
                Ok(None)
            } else if d > i32::MAX || !ctos_fit(samples, d as int) {
                Err(())
            } else {
                let shifted = shift_ctos(samples, d as int);
                let new_edit = ((current as int) % transport_max_pcr_90k() + d) as u64;
                match last_wrap_collapse(shifted, d, samples.len() - 2) {
                    None => Ok(Some((shifted, new_edit))),
                    Some(k) => if shifted[k - 1].duration + shifted[k].duration > u32::MAX {
                        Err(())
                    } else {
                        Ok(Some((
                            shifted.update(k - 1, CandidateSample { duration: (shifted[k - 1].duration + shifted[k].duration) as u32, ..shifted[k - 1] }).remove(k),
                            new_edit,
                        )))
                    },
                }
            }
        },
    }
}

/// Normalizes an H.264 track whose edit-media time lies on the far side of the transport clock
/// wrap.
pub fn normalize_transport_h264_wraparound_samples(
    samples: &mut Vec<CandidateSample>,
    source_edit_media_time: &mut Option<u64>,
) -> (r: Result<(), MuxError>)
    ensures
        match h264_wraparound(old(samples)@, *old(source_edit_media_time)) {
            Ok(None) => r is Ok && final(samples)@ == old(samples)@ && *final(source_edit_media_time) == *old(source_edit_media_time),
            Ok(Some((v, edit))) => r is Ok && final(samples)@ == v && *final(source_edit_media_time) == Some(edit),
            Err(()) => r matches Err(e) && e is LayoutOverflow,
        },
{
    let current = match *source_edit_media_time {
        None => return Ok(()),
        Some(c) => c,
    };
    if samples.len() == 0 {
        return Ok(());
    }
    let first_duration = samples[0].duration;
    if first_duration == 0 {
        return Ok(());
    }
    let frame_duration = first_duration as u64;
    let limit: u64 = if 8_589_934_592u64 >= frame_duration { 8_589_934_592u64 - frame_duration } else { 0 };
    if current < limit {
        return Ok(());
    }
    if first_duration > 0x7FFF_FFFF {
        return Err(overflow("transport-stream H.264 wrap composition shift"));
    }
    let shift = first_duration as i32;
    let ghost original = samples@;
    let n = samples.len();
    let mut i: usize = 0;
    while i < n
        invariant
            n == original.len(),
            original == old(samples)@,
            original.len() > 0,
            first_duration == original[0].duration,
            first_duration > 0,
            shift == first_duration,
            *source_edit_media_time == *old(source_edit_media_time),
            *old(source_edit_media_time) == Some(current),
            current >= (if transport_max_pcr_90k() >= first_duration { transport_max_pcr_90k() - first_duration } else { 0 }),
            samples@.len() == n,
            i <= n,
            forall|k: int| 0 <= k < i ==> samples@[k] == #[trigger] shift_ctos(original, shift as int)[k],
            forall|k: int| 0 <= k < i ==> i32::MIN <= (#[trigger] original[k]).composition_time_offset + shift <= i32::MAX,
            forall|k: int| i <= k < n ==> samples@[k] == original[k],
        decreases n - i,
    {
        let s = samples[i];
        match s.composition_time_offset.checked_add(shift) {
            Some(v) => {
                samples.set(i, CandidateSample { composition_time_offset: v, ..s });
            },
            None => {
                assert(original[i as int] == s);
                assert(!(i32::MIN <= original[i as int].composition_time_offset + shift <= i32::MAX));
                assert(!ctos_fit(original, shift as int));
                return Err(overflow("transport-stream H.264 wrap composition shift"));
            },
        }
        i = i + 1;
    }
    assert(samples@ =~= shift_ctos(original, shift as int));
    assert(ctos_fit(original, shift as int));
    let new_edit = current % 8_589_934_592u64 + frame_duration;
    *source_edit_media_time = Some(new_edit);
    let ghost shifted = samples@;
    let mut collapse: Option<usize> = None;
    let mut index: usize = 1;
    while index + 1 < n
        invariant
            n == shifted.len(),
            samples@ == shifted,
            1 <= index,
            index <= n || n < 2,
            n >= 2 ==> index <= n - 1,
            index == 1 || index <= n - 1,
            collapse matches Some(k) ==> last_wrap_collapse(shifted, first_duration, index - 1) == Some(k as int),
            collapse is None ==> last_wrap_collapse(shifted, first_duration, index - 1) is None,
        decreases n - index,
    {
        let previous = samples[index - 1];
        let current_sample = samples[index];
        let next = samples[index + 1];
        if !current_sample.is_sync_sample && next.is_sync_sample && previous.duration == first_duration
            && current_sample.duration == first_duration
            && current_sample.composition_time_offset == next.composition_time_offset {
            collapse = Some(index);
        }
        index = index + 1;
    }
    assert(index - 1 == n - 2 || n < 2);
    proof { lemma_last_wrap_collapse_range(shifted, first_duration, n - 2); }
    match collapse {
        None => Ok(()),
        Some(k) => {
            let extra = samples[k].duration;
            let previous = samples[k - 1];
            match previous.duration.checked_add(extra) {
                None => Err(overflow("transport-stream H.264 wrap collapsed sample duration")),
                Some(merged) => {
                    samples.set(k - 1, CandidateSample { duration: merged, ..previous });
                    samples.remove(k);
                    Ok(())
                },
            }
        },
    }
}

} // verus!
