use vstd::prelude::*;
use crate::error::{Failure, MuxError, fails_as, overflow};
use crate::sample::{
    CandidateSample, StagedSample, UNBOUND_SOURCE_INDEX, convert_all, convert_prefix, lemma_convert_failure_persists,
    lemma_convert_prefix_len,
};
use crate::demux::ts_samples::{
    TransportTimestampAnchor, first_anchor_pts, rescale_90k_rounded, rescale_transport_audio_time,
};
use crate::demux::ts_anchored::{
    anchor_index_of, anchor_key_order, anchors_conflict, build_anchor_index, index_lookup, indices,
    lemma_anchor_index_keys, strictly_increasing,
};

verus! {

/// The first sample index from `j` on whose offset is at least `k` (the sample count when
/// there is none).
pub open spec fn first_at_or_after(samples: Seq<StagedSample>, k: u64, j: int) -> int
    decreases samples.len() - j,
{
    if j < 0 || j >= samples.len() {
        samples.len() as int
    } else if samples[j].data_offset >= k {
        j
    } else {
        first_at_or_after(samples, k, j + 1)
    }
}

/// The sample an anchored boundary `k` belongs to: the first sample at or after it, or the
/// last sample.
pub open spec fn anchor_sample_index(samples: Seq<StagedSample>, k: u64) -> int {
    let i = first_at_or_after(samples, k, 0);
    if i < samples.len() - 1 { i } else { samples.len() - 1 }
}

/// Each anchored boundary, in increasing order, with the sample it belongs to and its PTS.
pub open spec fn raw_anchor_indexes(samples: Seq<StagedSample>, anchors: Seq<TransportTimestampAnchor>) -> Seq<(usize, u64)> {
    anchor_key_order(anchors).map_values(|k: u64| (
        anchor_sample_index(samples, k) as usize,
        match first_anchor_pts(anchors, k) { Some(p) => p, None => 0 },
    ))
}

/// The first `n` entries with every entry dropped whose sample equals the entry before it.
pub open spec fn dedup_by_sample(s: Seq<(usize, u64)>, n: int) -> Seq<(usize, u64)>
    decreases n,
{
    if n <= 0 {
        Seq::empty()
    } else if n >= 2 && s[n - 1].0 == s[n - 2].0 {
        dedup_by_sample(s, n - 1)
    } else {
        dedup_by_sample(s, n - 1).push(s[n - 1])
    }
}

/// Which sample each PES anchor lands on: nothing when there are no anchors, no samples, or
/// the first sample is unanchored; a rejection when two anchors at one boundary disagree;
/// otherwise one entry per anchored sample, in boundary order.
pub open spec fn anchor_sample_indexes(samples: Seq<StagedSample>, anchors: Seq<TransportTimestampAnchor>) -> Result<Option<Seq<(usize, u64)>>, Failure> {
    if anchors.len() == 0 || samples.len() == 0 {
        Ok(None)
    } else if anchors_conflict(anchors) {
        Err(Failure::Rejected)
    } else if first_anchor_pts(anchors, samples[0].data_offset) is None {
        Ok(None)
    } else {
        let raw = raw_anchor_indexes(samples, anchors);
        Ok(Some(dedup_by_sample(raw, raw.len() as int)))
    }
}

/// Skipping samples known to lie before `k` does not change where `k` lands.
proof fn lemma_first_at_or_after_skip(samples: Seq<StagedSample>, k: u64, j: int)
    requires
        0 <= j <= samples.len(),
        forall|i: int| 0 <= i < j ==> samples[i].data_offset < k,
    ensures
        first_at_or_after(samples, k, 0) == first_at_or_after(samples, k, j),
    decreases j,
{
    if j > 0 {
        lemma_first_at_or_after_skip(samples, k, j - 1);
    }
}

/// Maps the anchored boundaries onto the samples they start, given the sorted anchor index.
fn index_anchored_samples(
    samples: &[StagedSample],
    keys: &Vec<u64>,
    pts: &Vec<u64>,
    anchors: Ghost<Seq<TransportTimestampAnchor>>,
) -> (r: Vec<(usize, u64)>)
    requires
        samples@.len() > 0,
        anchor_index_of(keys@, pts@, anchors@),
    ensures
        r@ == dedup_by_sample(raw_anchor_indexes(samples@, anchors@), keys@.len() as int),
        raw_anchor_indexes(samples@, anchors@).len() == keys@.len(),
{
    proof { lemma_anchor_index_keys(keys@, pts@, anchors@); }
    let ghost raw = raw_anchor_indexes(samples@, anchors@);
    let n = samples.len();
    let mut out: Vec<(usize, u64)> = Vec::new();
    let mut j: usize = 0;
    let mut prev_index: usize = 0;
    let mut p: usize = 0;
    while p < keys.len()
        invariant
            n == samples@.len(),
            n > 0,
            anchor_index_of(keys@, pts@, anchors@),
            keys@ == anchor_key_order(anchors@),
            raw == raw_anchor_indexes(samples@, anchors@),
            raw.len() == keys@.len(),
            p <= keys@.len(),
            j <= n,
            p == 0 ==> j == 0,
            p > 0 ==> forall|i: int| 0 <= i < j ==> samples@[i].data_offset < keys@[p - 1],
            p > 0 ==> prev_index == raw[p - 1].0,
            out@ == dedup_by_sample(raw, p as int),
        decreases keys.len() - p,
    {
        let k = keys[p];
        proof {
            if p > 0 {
                assert(keys@[p - 1] < keys@[p as int]);
                assert forall|i: int| 0 <= i < j implies samples@[i].data_offset < k by {
                    assert(samples@[i].data_offset < keys@[p - 1]);
                }
            }
        }
        while j < n && samples[j].data_offset < k
            invariant
                n == samples@.len(),
                j <= n,
                forall|i: int| 0 <= i < j ==> samples@[i].data_offset < k,
            decreases n - j,
        {
            j = j + 1;
        }
        proof {
            lemma_first_at_or_after_skip(samples@, k, j as int);
            assert(first_at_or_after(samples@, k, j as int) == j);
        }
        let index: usize = if j < n - 1 { j } else { n - 1 };
        let value = pts[p];
        assert(raw[p as int] == (index, value));
        if p == 0 || index != prev_index {
            out.push((index, value));
        }
        prev_index = index;
        p = p + 1;
    }
    out
}

/// Locates the samples that the PES anchors start.
pub fn transport_anchor_sample_indexes(
    spec: &str,
    label: &str,
    samples: &[StagedSample],
    pts_anchors: &[TransportTimestampAnchor],
) -> (r: Result<Option<Vec<(usize, u64)>>, MuxError>)
    ensures
        match anchor_sample_indexes(samples@, pts_anchors@) {
            Ok(None) => r matches Ok(None),
            Ok(Some(v)) => r matches Ok(Some(out)) && out@ == v,
            Err(f) => r matches Err(e) && fails_as(e, f, spec@),
        },
{
    if pts_anchors.len() == 0 || samples.len() == 0 {
        return Ok(None);
    }
    let (keys, pts) = match build_anchor_index(pts_anchors) {
        Some(index) => index,
        None => {
            let message = String::from_str(label).concat(" carried multiple conflicting PES timestamps for the same sample boundary");
            return Err(MuxError::UnsupportedTrackImport { spec: spec.to_owned(), message });
        },
    };
    if index_lookup(&keys, &pts, Ghost(pts_anchors@), samples[0].data_offset).is_none() {
        return Ok(None);
    }
    Ok(Some(index_anchored_samples(samples, &keys, &pts, Ghost(pts_anchors@))))
}

/// A staged audio duration floored onto the 90 kHz clock, required to fit 32 bits.
pub open spec fn floored_audio_duration(d: u32, source_timescale: u32) -> Result<u32, Failure> {
    let v = (d as int) * 90_000 / (source_timescale as int);
    if v > u32::MAX { Err(Failure::Overflow) } else { Ok(v as u32) }
}

/// A timestamped audio sample with the given duration and its composition offset rescaled
/// (rounding half up) onto the 90 kHz clock.
pub open spec fn audio_candidate(s: StagedSample, duration: u32, source_timescale: u32) -> Result<CandidateSample, Failure> {
    match rescale_90k_rounded(s.composition_time_offset as i64, source_timescale) {
        Err(f) => Err(f),
        Ok(c) => if c < i32::MIN || c > i32::MAX {
            Err(Failure::Overflow)
        } else {
            Ok(CandidateSample {
                source_index: usize::MAX,
                data_offset: s.data_offset,
                data_size: s.data_size,
                duration,
                composition_time_offset: c as i32,
                is_sync_sample: s.is_sync_sample,
            })
        },
    }
}

/// A timestamped audio sample timed by its own floored duration.
pub open spec fn floored_audio_candidate(s: StagedSample, source_timescale: u32) -> Result<CandidateSample, Failure> {
    match floored_audio_duration(s.duration, source_timescale) {
        Err(f) => Err(f),
        Ok(d) => audio_candidate(s, d, source_timescale),
    }
}

/// The sum of a run of durations.
pub open spec fn duration_sum(d: Seq<u32>) -> int
    decreases d.len(),
{
    if d.len() == 0 { 0 } else { duration_sum(d.drop_last()) + d.last() }
}

/// The distance from one PES timestamp to the next, modulo 2^32.
pub open spec fn wrapped_anchor_delta(current: u64, next: u64) -> int {
    ((next as int) - (current as int)) % 0x1_0000_0000
}

/// One anchor window of timestamped audio: the last sample before the next anchor absorbs
/// whatever the anchored span leaves over the intrinsic durations before it.
pub open spec fn audio_window(d: Seq<u32>, start: (usize, u64), end: (usize, u64)) -> Result<Seq<u32>, Failure> {
    if end.0 <= start.0 {
        Err(Failure::Rejected)
    } else {
        let span = wrapped_anchor_delta(start.1, end.1);
        let prefix = duration_sum(d.subrange(start.0 as int, end.0 - 1));
        if span < prefix {
            Err(Failure::Rejected)
        } else {
            Ok(d.update(end.0 - 1, (span - prefix) as u32))
        }
    }
}

/// The durations after the first `w` anchor windows.
pub open spec fn audio_windows(d: Seq<u32>, anchors: Seq<(usize, u64)>, w: int) -> Result<Seq<u32>, Failure>
    decreases w,
{
    if w <= 0 {
        Ok(d)
    } else {
        match audio_windows(d, anchors, w - 1) {
            Err(f) => Err(f),
            Ok(prev) => audio_window(prev, anchors[w - 1], anchors[w]),
        }
    }
}

/// How timestamped audio is timed: each sample's own duration floored onto the 90 kHz clock,
/// unless two or more samples are anchored, in which case the anchored spans fix the
/// duration of the sample before each anchor.
pub open spec fn timestamped_audio_outcome(
    samples: Seq<StagedSample>,
    source_timescale: u32,
    anchors: Seq<TransportTimestampAnchor>,
) -> Result<Seq<CandidateSample>, Failure> {
    let floored = convert_all(samples, |s: StagedSample| floored_audio_candidate(s, source_timescale));
    if anchors.len() == 0 {
        floored
    } else if anchors_conflict(anchors) {
        Err(Failure::Rejected)
    } else if samples.len() == 0 || first_anchor_pts(anchors, samples[0].data_offset) is None {
        floored
    } else {
        let raw = raw_anchor_indexes(samples, anchors);
        let list = dedup_by_sample(raw, raw.len() as int);
        match floored {
            Err(f) => Err(f),
            Ok(intrinsic) => if list.len() < 2 {
                Ok(intrinsic)
            } else {
                match audio_windows(intrinsic.map_values(|c: CandidateSample| c.duration), list, list.len() - 1) {
                    Err(f) => Err(f),
                    Ok(d) => convert_all(indices(samples.len() as int), |i: int| audio_candidate(samples[i], d[i], source_timescale)),
                }
            },
        }
    }
}

/// Times one audio sample with the given duration.
fn audio_sample(sample: StagedSample, duration: u32, source_timescale: u32, spec: &str, label: &str) -> (r: Result<CandidateSample, MuxError>)
    ensures
        match audio_candidate(sample, duration, source_timescale) {
            Ok(c) => r == Ok::<CandidateSample, MuxError>(c),
            Err(f) => r matches Err(e) && fails_as(e, f, spec@),
        },
{
    let offset = match rescale_transport_audio_time(sample.composition_time_offset as i64, source_timescale, spec, label) {
        Err(e) => return Err(e),
        Ok(c) => c,
    };
    if offset < -0x8000_0000 || offset > 0x7FFF_FFFF {
        return Err(overflow("transport-stream timestamped audio composition offset"));
    }
    Ok(CandidateSample {
        source_index: UNBOUND_SOURCE_INDEX,
        data_offset: sample.data_offset,
        data_size: sample.data_size,
        duration,
        composition_time_offset: offset as i32,
        is_sync_sample: sample.is_sync_sample,
    })
}

/// Times every audio sample by its own floored duration.
fn floored_audio_samples(samples: &Vec<StagedSample>, source_timescale: u32, spec: &str, label: &str) -> (r: Result<Vec<CandidateSample>, MuxError>)
    requires
        source_timescale != 0,
    ensures
        match convert_all(samples@, |s: StagedSample| floored_audio_candidate(s, source_timescale)) {
            Ok(v) => r matches Ok(out) && out@ == v,
            Err(f) => r matches Err(e) && fails_as(e, f, spec@),
        },
{
    let ghost f = |s: StagedSample| floored_audio_candidate(s, source_timescale);
    let mut out: Vec<CandidateSample> = Vec::new();
    let mut i: usize = 0;
    while i < samples.len()
        invariant
            i <= samples@.len(),
            source_timescale != 0,
            f == (|s: StagedSample| floored_audio_candidate(s, source_timescale)),
            convert_prefix(samples@, f, i as int) == Ok::<Seq<CandidateSample>, Failure>(out@),
        decreases samples.len() - i,
    {
        let s = samples[i];
        let scaled = (s.duration as u64) * 90_000 / (source_timescale as u64);
        if scaled > 0xFFFF_FFFF {
            proof {
                assert(convert_prefix(samples@, f, i + 1) is Err);
                lemma_convert_failure_persists(samples@, f, i + 1, samples@.len() as int);
            }
            return Err(overflow("transport-stream timestamped audio duration"));
        }
        match audio_sample(s, scaled as u32, source_timescale, spec, label) {
            Ok(c) => out.push(c),
            Err(e) => {
                proof {
                    assert(convert_prefix(samples@, f, i + 1) is Err);
                    lemma_convert_failure_persists(samples@, f, i + 1, samples@.len() as int);
                }
                return Err(e);
            },
        }
        i = i + 1;
    }
    Ok(out)
}

/// Times every audio sample by its own floored duration; with no samples the timescale is
/// never divided by.
fn floored_audio_samples_any(samples: &Vec<StagedSample>, source_timescale: u32, spec: &str, label: &str) -> (r: Result<Vec<CandidateSample>, MuxError>)
    requires
        samples@.len() > 0 ==> source_timescale != 0,
    ensures
        match convert_all(samples@, |s: StagedSample| floored_audio_candidate(s, source_timescale)) {
            Ok(v) => r matches Ok(out) && out@ == v,
            Err(f) => r matches Err(e) && fails_as(e, f, spec@),
        },
{
    if samples.len() == 0 {
        proof {
            assert(convert_all(samples@, |s: StagedSample| floored_audio_candidate(s, source_timescale)) == Ok::<Seq<CandidateSample>, Failure>(Seq::empty()));
        }
        return Ok(Vec::new());
    }
    floored_audio_samples(samples, source_timescale, spec, label)
}

/// The durations of candidates.
fn candidate_durations(samples: &Vec<CandidateSample>) -> (r: Vec<u32>)
    ensures
        r@ == samples@.map_values(|c: CandidateSample| c.duration),
{
    let mut out: Vec<u32> = Vec::new();
    let mut i: usize = 0;
    while i < samples.len()
        invariant
            i <= samples@.len(),
            out@ == samples@.take(i as int).map_values(|c: CandidateSample| c.duration),
        decreases samples.len() - i,
    {
        out.push(samples[i].duration);
        assert(samples@.take(i + 1) == samples@.take(i as int).push(samples@[i as int]));
        i = i + 1;
    }
    assert(samples@.take(samples@.len() as int) == samples@);
    out
}

/// The sum of durations `d[start..end]`.
fn sum_durations(d: &Vec<u32>, start: usize, end: usize) -> (r: u128)
    requires
        start <= end <= d@.len(),
    ensures
        r == duration_sum(d@.subrange(start as int, end as int)),
{
    let mut total: u128 = 0;
    let mut i: usize = start;
    while i < end
        invariant
            start <= i <= end <= d@.len(),
            total == duration_sum(d@.subrange(start as int, i as int)),
            total <= (i - start) * 0xFFFF_FFFF,
        decreases end - i,
    {
        assert(d@.subrange(start as int, i + 1).drop_last() == d@.subrange(start as int, i as int));
        total = total + d[i] as u128;
        i = i + 1;
    }
    total
}

/// The wrapped distance between two PES timestamps.
fn wrapped_delta(current: u64, next: u64) -> (r: u32)
    ensures
        r == wrapped_anchor_delta(current, next),
{
    if next >= current {
        let d = next - current;
        (d % 0x1_0000_0000) as u32
    } else {
        let back = current - next;
        let m = back % 0x1_0000_0000;
        if m == 0 { 0 } else { (0x1_0000_0000 - m) as u32 }
    }
}

/// Applies the anchor windows to timestamped audio durations.
fn apply_audio_windows(d: &mut Vec<u32>, list: &Vec<(usize, u64)>, spec: &str, label: &str) -> (r: Result<(), MuxError>)
    requires
        list@.len() >= 2,
        forall|w: int| 0 <= w < list@.len() ==> (#[trigger] list@[w]).0 < old(d)@.len(),
    ensures
        match audio_windows(old(d)@, list@, list@.len() - 1) {
            Ok(v) => r is Ok && final(d)@ == v,
            Err(f) => r matches Err(e) && fails_as(e, f, spec@),
        },
        final(d)@.len() == old(d)@.len(),
{
    let ghost original = d@;
    let mut w: usize = 0;
    while w < list.len() - 1
        invariant
            list@.len() >= 2,
            w + 1 <= list@.len(),
            original == old(d)@,
            d@.len() == original.len(),
            forall|x: int| 0 <= x < list@.len() ==> (#[trigger] list@[x]).0 < original.len(),
            audio_windows(original, list@, w as int) == Ok::<Seq<u32>, Failure>(d@),
        decreases list.len() - w,
    {
        let (start, current) = list[w];
        let (end, next) = list[w + 1];
        if end <= start {
            proof { lemma_audio_windows_failure_persists(original, list@, w + 1, list@.len() - 1); }
            let message = String::from_str(label).concat(" carried non-monotonic PES anchor ordering across sample boundaries");
            return Err(MuxError::UnsupportedTrackImport { spec: spec.to_owned(), message });
        }
        let span = wrapped_delta(current, next);
        let prefix = sum_durations(d, start, end - 1);
        if (span as u128) < prefix {
            proof { lemma_audio_windows_failure_persists(original, list@, w + 1, list@.len() - 1); }
            let message = String::from_str(label).concat(" carried PES anchors that resolve to a smaller duration than the intrinsic sample cadence");
            return Err(MuxError::UnsupportedTrackImport { spec: spec.to_owned(), message });
        }
        let residual = ((span as u128) - prefix) as u32;
        d.set(end - 1, residual);
        w = w + 1;
    }
    Ok(())
}

/// Once the windows fail, later windows keep the same failure.
proof fn lemma_audio_windows_failure_persists(d: Seq<u32>, list: Seq<(usize, u64)>, w: int, m: int)
    requires
        0 <= w <= m,
        audio_windows(d, list, w) is Err,
    ensures
        audio_windows(d, list, m) == audio_windows(d, list, w),
    decreases m - w,
{
    if m > w {
        lemma_audio_windows_failure_persists(d, list, w, m - 1);
    }
}

/// Times every audio sample with the given durations.
fn audio_samples_with_durations(samples: &Vec<StagedSample>, d: &Vec<u32>, source_timescale: u32, spec: &str, label: &str) -> (r: Result<Vec<CandidateSample>, MuxError>)
    requires
        d@.len() == samples@.len(),
    ensures
        match convert_all(indices(samples@.len() as int), |i: int| audio_candidate(samples@[i], d@[i], source_timescale)) {
            Ok(v) => r matches Ok(out) && out@ == v,
            Err(f) => r matches Err(e) && fails_as(e, f, spec@),
        },
{
    let ghost xs = indices(samples@.len() as int);
    let ghost f = |i: int| audio_candidate(samples@[i], d@[i], source_timescale);
    let mut out: Vec<CandidateSample> = Vec::new();
    let mut i: usize = 0;
    while i < samples.len()
        invariant
            i <= samples@.len(),
            d@.len() == samples@.len(),
            xs == indices(samples@.len() as int),
            f == (|i: int| audio_candidate(samples@[i], d@[i], source_timescale)),
            convert_prefix(xs, f, i as int) == Ok::<Seq<CandidateSample>, Failure>(out@),
        decreases samples.len() - i,
    {
        assert(xs[i as int] == i);
        match audio_sample(samples[i], d[i], source_timescale, spec, label) {
            Ok(c) => out.push(c),
            Err(e) => {
                proof {
                    assert(convert_prefix(xs, f, i + 1) is Err);
                    lemma_convert_failure_persists(xs, f, i + 1, xs.len() as int);
                }
                return Err(e);
            },
        }
        i = i + 1;
    }
    Ok(out)
}

/// Dropping entries keeps every remaining sample index below `bound`.
proof fn lemma_dedup_in_range(s: Seq<(usize, u64)>, n: int, bound: int)
    requires
        0 <= n <= s.len(),
        forall|i: int| 0 <= i < s.len() ==> (#[trigger] s[i]).0 < bound,
    ensures
        forall|w: int| 0 <= w < dedup_by_sample(s, n).len() ==> (#[trigger] dedup_by_sample(s, n)[w]).0 < bound,
    decreases n,
{
    if n > 0 {
        lemma_dedup_in_range(s, n - 1, bound);
        assert(s[n - 1].0 < bound);
        let prev = dedup_by_sample(s, n - 1);
        if !(n >= 2 && s[n - 1].0 == s[n - 2].0) {
            assert forall|w: int| 0 <= w < prev.push(s[n - 1]).len() implies (#[trigger] prev.push(s[n - 1])[w]).0 < bound by {
                if w < prev.len() {
                    assert(prev.push(s[n - 1])[w] == prev[w]);
                }
            }
        }
    }
}

/// Every entry of the anchor list names a sample.
proof fn lemma_anchor_indexes_in_range(samples: Seq<StagedSample>, anchors: Seq<TransportTimestampAnchor>)
    requires
        samples.len() > 0,
    ensures
        forall|w: int| 0 <= w < dedup_by_sample(raw_anchor_indexes(samples, anchors), raw_anchor_indexes(samples, anchors).len() as int).len()
            ==> (#[trigger] dedup_by_sample(raw_anchor_indexes(samples, anchors), raw_anchor_indexes(samples, anchors).len() as int)[w]).0 < samples.len(),
{
    let raw = raw_anchor_indexes(samples, anchors);
    let keys = anchor_key_order(anchors);
    assert forall|i: int| 0 <= i < raw.len() implies (#[trigger] raw[i]).0 < samples.len() by {
        lemma_first_at_or_after_range(samples, keys[i], 0);
        assert(raw[i].0 == anchor_sample_index(samples, keys[i]) as usize);
    }
    lemma_dedup_in_range(raw, raw.len() as int, samples.len() as int);
}

/// Where a boundary lands is a sample index or the sample count.
proof fn lemma_first_at_or_after_range(samples: Seq<StagedSample>, k: u64, j: int)
    requires
        0 <= j,
    ensures
        0 <= first_at_or_after(samples, k, j) <= samples.len(),
    decreases samples.len() - j,
{
    if j < samples.len() && samples[j].data_offset < k {
        lemma_first_at_or_after_range(samples, k, j + 1);
    }
}

/// Times audio samples from their PES timestamps on the 90 kHz transport clock.
pub fn build_transport_timestamped_audio_samples(
    spec: &str,
    label: &str,
    samples: Vec<StagedSample>,
    source_timescale: u32,
    pts_anchors: &[TransportTimestampAnchor],
) -> (r: Result<(u32, Vec<CandidateSample>), MuxError>)
    requires
        samples@.len() > 0 ==> source_timescale != 0,
    ensures
        match timestamped_audio_outcome(samples@, source_timescale, pts_anchors@) {
            Ok(v) => r matches Ok((timescale, out)) && timescale == 90_000 && out@ == v,
            Err(f) => r matches Err(e) && fails_as(e, f, spec@),
        },
{
    if pts_anchors.len() == 0 {
        return match floored_audio_samples_any(&samples, source_timescale, spec, label) {
            Ok(v) => Ok((90_000, v)),
            Err(e) => Err(e),
        };
    }
    let (keys, pts) = match build_anchor_index(pts_anchors) {
        Some(index) => index,
        None => {
            let message = String::from_str(label).concat(" carried multiple conflicting PES timestamps for the same sample boundary");
            return Err(MuxError::UnsupportedTrackImport { spec: spec.to_owned(), message });
        },
    };
    if samples.len() == 0 || index_lookup(&keys, &pts, Ghost(pts_anchors@), samples[0].data_offset).is_none() {
        return match floored_audio_samples_any(&samples, source_timescale, spec, label) {
            Ok(v) => Ok((90_000, v)),
            Err(e) => Err(e),
        };
    }
    let list = index_anchored_samples(&samples, &keys, &pts, Ghost(pts_anchors@));
    let intrinsic = match floored_audio_samples(&samples, source_timescale, spec, label) {
        Ok(v) => v,
        Err(e) => return Err(e),
    };
    if list.len() < 2 {
        return Ok((90_000, intrinsic));
    }
    proof {
        lemma_anchor_indexes_in_range(samples@, pts_anchors@);
        lemma_convert_prefix_len(samples@, |s: StagedSample| floored_audio_candidate(s, source_timescale), samples@.len() as int);
    }
    let mut durations = candidate_durations(&intrinsic);
    match apply_audio_windows(&mut durations, &list, spec, label) {
        Err(e) => return Err(e),
        Ok(()) => {},
    }
    match audio_samples_with_durations(&samples, &durations, source_timescale, spec, label) {
        Ok(v) => Ok((90_000, v)),
        Err(e) => Err(e),
    }
}

/// The flat chunk plan of the durations from sample `i` on, with `count` samples of total
/// duration `dur` in the open chunk and `counts` closed: a chunk closes before the sample that
/// would take it past half a second; a sample longer than that on its own closes the chunk it
/// joins and takes the next sample into a chunk of its own.
pub open spec fn flat_chunks(d: Seq<u32>, i: int, count: int, dur: int, counts: Seq<u32>) -> Result<Seq<u32>, Failure>
    decreases d.len() - i, (if count != 0 { 1int } else { 0int }),
{
    if i < 0 || i >= d.len() {
        let out = if count != 0 { counts.push(count as u32) } else { counts };
        if out.len() == 0 { Err(Failure::Unplanned) } else { Ok(out) }
    } else {
        let x = d[i] as int;
        if count != 0 && dur + x > 45_000 {
            if x > 45_000 {
                if count + 1 > u32::MAX {
                    Err(Failure::Overflow)
                } else if i + 1 < d.len() {
                    flat_chunks(d, i + 2, 0, 0, counts.push((count + 1) as u32).push(1))
                } else {
                    flat_chunks(d, i + 1, 0, 0, counts.push((count + 1) as u32))
                }
            } else {
                flat_chunks(d, i, 0, 0, counts.push(count as u32))
            }
        } else if count + 1 > u32::MAX {
            Err(Failure::Overflow)
        } else {
            flat_chunks(d, i + 1, count + 1, dur + x, counts)
        }
    }
}

/// Plans flat AC-3 chunks of about half a second from the sample durations.
pub fn build_transport_ac3_flat_chunk_sample_counts(spec: &str, sample_durations: &[u32]) -> (r: Result<Vec<u32>, MuxError>)
    ensures
        match flat_chunks(sample_durations@, 0, 0, 0, Seq::empty()) {
            Ok(v) => r matches Ok(out) && out@ == v,
            Err(f) => r matches Err(e) && fails_as(e, f, spec@),
        },
{
    let ghost d = sample_durations@;
    let mut counts: Vec<u32> = Vec::new();
    let mut current_count: u32 = 0;
    let mut current_duration: u64 = 0;
    let mut sample_index: usize = 0;
    while sample_index < sample_durations.len()
        invariant
            d == sample_durations@,
            sample_index <= d.len(),
            current_duration <= u32::MAX,
            current_count == 0 ==> current_duration == 0,
            flat_chunks(d, 0, 0, 0, Seq::empty()) == flat_chunks(d, sample_index as int, current_count as int, current_duration as int, counts@),
        decreases d.len() - sample_index, (if current_count != 0 { 1int } else { 0int }),
    {
        let duration = sample_durations[sample_index] as u64;
        if current_count != 0 && current_duration + duration > 45_000 {
            if duration > 45_000 {
                if current_count == 0xFFFF_FFFF {
                    return Err(overflow("transport-stream AC-3 chunk sample count"));
                }
                counts.push(current_count + 1);
                current_count = 0;
                current_duration = 0;
                sample_index = sample_index + 1;
                if sample_index < sample_durations.len() {
                    counts.push(1);
                    sample_index = sample_index + 1;
                }
                continue;
            }
            counts.push(current_count);
            current_count = 0;
            current_duration = 0;
            continue;
        }
        if current_count == 0xFFFF_FFFF {
            return Err(overflow("transport-stream AC-3 chunk sample count"));
        }
        current_count = current_count + 1;
        current_duration = current_duration + duration;
        sample_index = sample_index + 1;
    }
    if current_count != 0 {
        counts.push(current_count);
    }
    if counts.len() == 0 {
        let message = String::from_str(spec).concat(" produced no flat transport-stream AC-3 chunk boundaries");
        return Err(MuxError::InvalidChunkPlan { track_id: 0, message });
    }
    Ok(counts)
}

/// An AC-3 sample timed by its own duration floored onto the 90 kHz clock.
pub open spec fn ac3_floored_candidate(s: StagedSample, source_timescale: u32) -> Result<CandidateSample, Failure> {
    match floored_audio_duration(s.duration, source_timescale) {
        Err(f) => Err(f),
        Ok(d) => Ok(CandidateSample {
            source_index: usize::MAX,
            data_offset: s.data_offset,
            data_size: s.data_size,
            duration: d,
            composition_time_offset: 0,
            is_sync_sample: s.is_sync_sample,
        }),
    }
}

/// One AC-3 anchor window over the durations and the carried adjustment: a span within the
/// jitter tolerance of the 1536-sample cadence only carries its difference forward; any
/// other span sets the duration of the sample before the next anchor to what the span leaves
/// over the intrinsic durations, plus the carry, which it consumes.
pub open spec fn ac3_window(
    state: (Seq<u32>, int),
    start: (usize, u64),
    end: (usize, u64),
    intrinsic: u32,
    source_timescale: u32,
) -> Result<(Seq<u32>, int), Failure> {
    let (d, carry) = state;
    if end.0 <= start.0 {
        Err(Failure::Rejected)
    } else {
        let span = wrapped_anchor_delta(start.1, end.1);
        let sample_span = end.0 - start.0;
        let raw_expected = 1536 * sample_span * 90_000;
        if raw_expected > u64::MAX {
            Err(Failure::Overflow)
        } else if raw_expected / (source_timescale as int) > u32::MAX {
            Err(Failure::Overflow)
        } else {
            let expected = raw_expected / (source_timescale as int);
            let adjustment = span - expected;
            if -16 <= adjustment <= 16 {
                if carry + adjustment < i64::MIN || carry + adjustment > i64::MAX {
                    Err(Failure::Overflow)
                } else {
                    Ok((d, carry + adjustment))
                }
            } else {
                let prefix = (intrinsic as int) * (sample_span - 1);
                if prefix > u64::MAX {
                    Err(Failure::Overflow)
                } else if span < prefix {
                    Err(Failure::Rejected)
                } else if span - prefix + carry < i64::MIN || span - prefix + carry > i64::MAX {
                    Err(Failure::Overflow)
                } else if span - prefix + carry <= 0 {
                    Err(Failure::Rejected)
                } else if span - prefix + carry > u32::MAX {
                    Err(Failure::Overflow)
                } else {
                    Ok((d.update(end.0 - 1, (span - prefix + carry) as u32), 0))
                }
            }
        }
    }
}

/// The durations and carry after the first `w` AC-3 anchor windows.
pub open spec fn ac3_windows(d: Seq<u32>, list: Seq<(usize, u64)>, intrinsic: u32, source_timescale: u32, w: int) -> Result<(Seq<u32>, int), Failure>
    decreases w,
{
    if w <= 0 {
        Ok((d, 0))
    } else {
        match ac3_windows(d, list, intrinsic, source_timescale, w - 1) {
            Err(f) => Err(f),
            Ok(state) => ac3_window(state, list[w - 1], list[w], intrinsic, source_timescale),
        }
    }
}

/// An AC-3 sample with a given duration and no composition offset.
pub open spec fn ac3_timed_candidate(s: StagedSample, duration: u32) -> CandidateSample {
    CandidateSample {
        source_index: usize::MAX,
        data_offset: s.data_offset,
        data_size: s.data_size,
        duration,
        composition_time_offset: 0,
        is_sync_sample: s.is_sync_sample,
    }
}

/// How AC-3 samples are timed: without anchors each by its own floored duration and with no
/// chunk plan; with anchors every sample starts at the floored 1536-sample cadence, the anchor
/// windows adjust it, and the durations get a flat chunk plan.
pub open spec fn ac3_anchored_outcome(
    samples: Seq<StagedSample>,
    source_timescale: u32,
    anchors: Seq<TransportTimestampAnchor>,
) -> Result<(Seq<CandidateSample>, Option<Seq<u32>>), Failure> {
    match anchor_sample_indexes(samples, anchors) {
        Err(f) => Err(f),
        Ok(None) => match convert_all(samples, |s: StagedSample| ac3_floored_candidate(s, source_timescale)) {
            Err(f) => Err(f),
            Ok(v) => Ok((v, None)),
        },
        Ok(Some(list)) => match floored_audio_duration(1536, source_timescale) {
            Err(f) => Err(f),
            Ok(intrinsic) => {
                let start = Seq::new(samples.len(), |i: int| intrinsic);
                match ac3_windows(start, list, intrinsic, source_timescale, list.len() - 1) {
                    Err(f) => Err(f),
                    Ok((d, carry)) => match flat_chunks(d, 0, 0, 0, Seq::empty()) {
                        Err(f) => Err(f),
                        Ok(counts) => Ok((
                            Seq::new(samples.len(), |i: int| ac3_timed_candidate(samples[i], d[i])),
                            Some(counts),
                        )),
                    },
                }
            },
        },
    }
}

/// Once AC-3 windows fail, later windows keep the same failure.
proof fn lemma_ac3_windows_failure_persists(d: Seq<u32>, list: Seq<(usize, u64)>, intrinsic: u32, ts: u32, w: int, m: int)
    requires
        0 <= w <= m,
        ac3_windows(d, list, intrinsic, ts, w) is Err,
    ensures
        ac3_windows(d, list, intrinsic, ts, m) == ac3_windows(d, list, intrinsic, ts, w),
    decreases m - w,
{
    if m > w {
        lemma_ac3_windows_failure_persists(d, list, intrinsic, ts, w, m - 1);
    }
}

/// Applies the AC-3 anchor windows to the durations.
fn apply_ac3_windows(d: &mut Vec<u32>, list: &Vec<(usize, u64)>, intrinsic: u32, source_timescale: u32, spec: &str) -> (r: Result<(), MuxError>)
    requires
        source_timescale != 0,
        forall|w: int| 0 <= w < list@.len() ==> (#[trigger] list@[w]).0 < old(d)@.len(),
    ensures
        match ac3_windows(old(d)@, list@, intrinsic, source_timescale, list@.len() - 1) {
            Ok((v, carry)) => r is Ok && final(d)@ == v,
            Err(f) => r matches Err(e) && fails_as(e, f, spec@),
        },
        final(d)@.len() == old(d)@.len(),
{
    if list.len() < 2 {
        return Ok(());
    }
    let ghost original = d@;
    let mut carry: i64 = 0;
    let mut w: usize = 0;
    while w < list.len() - 1
        invariant
            source_timescale != 0,
            list@.len() >= 2,
            w + 1 <= list@.len(),
            original == old(d)@,
            d@.len() == original.len(),
            forall|x: int| 0 <= x < list@.len() ==> (#[trigger] list@[x]).0 < original.len(),
            ac3_windows(original, list@, intrinsic, source_timescale, w as int) == Ok::<(Seq<u32>, int), Failure>((d@, carry as int)),
        decreases list.len() - w,
    {
        let (start, current) = list[w];
        let (end, next) = list[w + 1];
        if end <= start {
            proof { lemma_ac3_windows_failure_persists(original, list@, intrinsic, source_timescale, w + 1, list@.len() - 1); }
            return Err(crate::demux::ts_samples::transport_error(spec, "AC-3 carried non-monotonic PES anchor ordering across sample boundaries", "", ""));
        }
        let span = wrapped_delta(current, next);
        let sample_span = end - start;
        let raw_expected = match 1536u64.checked_mul(sample_span as u64) {
            Some(v) => match v.checked_mul(90_000) {
                Some(v2) => v2,
                None => {
                    proof { lemma_ac3_windows_failure_persists(original, list@, intrinsic, source_timescale, w + 1, list@.len() - 1); }
                    return Err(overflow("transport-stream AC-3 anchored span duration"));
                },
            },
            None => {
                proof {
                    assert(1536 * sample_span * 90_000 > u64::MAX) by (nonlinear_arith)
                        requires 1536 * sample_span > u64::MAX;
                    lemma_ac3_windows_failure_persists(original, list@, intrinsic, source_timescale, w + 1, list@.len() - 1);
                }
                return Err(overflow("transport-stream AC-3 anchored span duration"));
            },
        };
        let expected = raw_expected / (source_timescale as u64);
        if expected > 0xFFFF_FFFF {
            proof { lemma_ac3_windows_failure_persists(original, list@, intrinsic, source_timescale, w + 1, list@.len() - 1); }
            return Err(overflow("transport-stream AC-3 anchored duration"));
        }
        let adjustment: i64 = (span as i64) - (expected as i64);
        if -16 <= adjustment && adjustment <= 16 {
            carry = match carry.checked_add(adjustment) {
                Some(c) => c,
                None => {
                    proof { lemma_ac3_windows_failure_persists(original, list@, intrinsic, source_timescale, w + 1, list@.len() - 1); }
                    return Err(overflow("transport-stream AC-3 anchored residual carry"));
                },
            };
        } else {
            let prefix = match (intrinsic as u64).checked_mul((sample_span - 1) as u64) {
                Some(p) => p,
                None => {
                    proof { lemma_ac3_windows_failure_persists(original, list@, intrinsic, source_timescale, w + 1, list@.len() - 1); }
                    return Err(overflow("transport-stream AC-3 anchored span duration"));
                },
            };
            if (span as u64) < prefix {
                proof { lemma_ac3_windows_failure_persists(original, list@, intrinsic, source_timescale, w + 1, list@.len() - 1); }
                return Err(crate::demux::ts_samples::transport_error(spec, "AC-3 carried PES anchors that resolve to a smaller duration than the intrinsic sample cadence", "", ""));
            }
            let base = ((span as u64) - prefix) as i64;
            let residual = match base.checked_add(carry) {
                Some(v) => v,
                None => {
                    proof { lemma_ac3_windows_failure_persists(original, list@, intrinsic, source_timescale, w + 1, list@.len() - 1); }
                    return Err(overflow("transport-stream AC-3 anchored residual carry"));
                },
            };
            if residual <= 0 {
                proof { lemma_ac3_windows_failure_persists(original, list@, intrinsic, source_timescale, w + 1, list@.len() - 1); }
                return Err(crate::demux::ts_samples::transport_error(spec, "AC-3 carried PES anchors that resolve to a smaller duration than the intrinsic sample cadence", "", ""));
            }
            if residual > 0xFFFF_FFFF {
                proof { lemma_ac3_windows_failure_persists(original, list@, intrinsic, source_timescale, w + 1, list@.len() - 1); }
                return Err(overflow("transport-stream AC-3 duration"));
            }
            d.set(end - 1, residual as u32);
            carry = 0;
        }
        w = w + 1;
    }
    Ok(())
}

/// Times AC-3 samples from their PES anchors and plans flat chunks for them.
pub fn build_transport_ac3_packet_anchored_samples(
    spec: &str,
    samples: Vec<StagedSample>,
    source_timescale: u32,
    pts_anchors: &[TransportTimestampAnchor],
) -> (r: Result<(u32, Vec<CandidateSample>, Option<Vec<u32>>), MuxError>)
    requires
        samples@.len() > 0 ==> source_timescale != 0,
    ensures
        match ac3_anchored_outcome(samples@, source_timescale, pts_anchors@) {
            Ok((v, None)) => r matches Ok((timescale, out, None)) && timescale == 90_000 && out@ == v,
            Ok((v, Some(c))) => r matches Ok((timescale, out, Some(counts))) && timescale == 90_000 && out@ == v && counts@ == c,
            Err(f) => r matches Err(e) && fails_as(e, f, spec@),
        },
{
    let list = match transport_anchor_sample_indexes(spec, "transport-stream AC-3 audio", &samples, pts_anchors) {
        Err(e) => return Err(e),
        Ok(Some(list)) => list,
        Ok(None) => {
            let ghost f = |s: StagedSample| ac3_floored_candidate(s, source_timescale);
            let mut out: Vec<CandidateSample> = Vec::new();
            let mut i: usize = 0;
            while i < samples.len()
                invariant
                    i <= samples@.len(),
                    samples@.len() > 0 ==> source_timescale != 0,
                    anchor_sample_indexes(samples@, pts_anchors@) == Ok::<Option<Seq<(usize, u64)>>, Failure>(None),
                    f == (|s: StagedSample| ac3_floored_candidate(s, source_timescale)),
                    convert_prefix(samples@, f, i as int) == Ok::<Seq<CandidateSample>, Failure>(out@),
                decreases samples.len() - i,
            {
                let s = samples[i];
                let scaled = (s.duration as u64) * 90_000 / (source_timescale as u64);
                if scaled > 0xFFFF_FFFF {
                    proof {
                        assert(convert_prefix(samples@, f, i + 1) is Err);
                        lemma_convert_failure_persists(samples@, f, i + 1, samples@.len() as int);
                    }
                    return Err(overflow("transport-stream AC-3 duration"));
                }
                out.push(CandidateSample {
                    source_index: UNBOUND_SOURCE_INDEX,
                    data_offset: s.data_offset,
                    data_size: s.data_size,
                    duration: scaled as u32,
                    composition_time_offset: 0,
                    is_sync_sample: s.is_sync_sample,
                });
                i = i + 1;
            }
            return Ok((90_000, out, None));
        },
    };
    let intrinsic_raw = 1536u64 * 90_000 / (source_timescale as u64);
    if intrinsic_raw > 0xFFFF_FFFF {
        return Err(overflow("transport-stream AC-3 duration"));
    }
    let intrinsic = intrinsic_raw as u32;
    let n = samples.len();
    let mut durations: Vec<u32> = Vec::new();
    let mut i: usize = 0;
    while i < n
        invariant
            n == samples@.len(),
            i <= n,
            durations@ == Seq::new(i as nat, |k: int| intrinsic),
        decreases n - i,
    {
        durations.push(intrinsic);
        i = i + 1;
    }
    proof {
        assert(samples@.len() > 0);
        lemma_anchor_indexes_in_range(samples@, pts_anchors@);
    }
    match apply_ac3_windows(&mut durations, &list, intrinsic, source_timescale, spec) {
        Err(e) => return Err(e),
        Ok(()) => {},
    }
    let counts = match build_transport_ac3_flat_chunk_sample_counts(spec, &durations) {
        Err(e) => return Err(e),
        Ok(c) => c,
    };
    let mut out: Vec<CandidateSample> = Vec::new();
    let mut k: usize = 0;
    while k < n
        invariant
            n == samples@.len(),
            durations@.len() == n,
            k <= n,
            out@ == Seq::new(k as nat, |q: int| ac3_timed_candidate(samples@[q], durations@[q])),
        decreases n - k,
    {
        let s = samples[k];
        out.push(CandidateSample {
            source_index: UNBOUND_SOURCE_INDEX,
            data_offset: s.data_offset,
            data_size: s.data_size,
            duration: durations[k],
            composition_time_offset: 0,
            is_sync_sample: s.is_sync_sample,
        });
        k = k + 1;
    }
    Ok((90_000, out, Some(counts)))
}

} // verus!
