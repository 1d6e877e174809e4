use vstd::prelude::*;
use crate::error::{Failure, MuxError, fails_as, overflow};
use crate::sample::{CandidateSample, StagedSample, UNBOUND_SOURCE_INDEX, convert_all, convert_prefix, lemma_convert_failure_persists};
use crate::demux::ts_samples::{
    TransportTimestampAnchor, anchor_pts, first_anchor_pts, lemma_anchor_pts_persists,
    lemma_anchor_pts_some, mp4v_fallback_time, transport_error, transport_mp4v_fallback_time,
};

verus! {

/// The indices `0..n`.
pub open spec fn indices(n: int) -> Seq<int> {
    Seq::new(n as nat, |i: int| i)
}

/// A candidate with no timing: zero duration and zero composition offset.
pub open spec fn untimed_candidate(s: StagedSample) -> CandidateSample {
    CandidateSample {
        source_index: usize::MAX,
        data_offset: s.data_offset,
        data_size: s.data_size,
        duration: 0,
        composition_time_offset: 0,
        is_sync_sample: s.is_sync_sample,
    }
}

/// Some anchor disagrees with the first anchor bound to the same sample boundary.
pub open spec fn anchors_conflict(anchors: Seq<TransportTimestampAnchor>) -> bool {
    exists|j: int| 0 <= j < anchors.len()
        && first_anchor_pts(anchors, (#[trigger] anchors[j]).sample_offset) != Some(anchors[j].pts_90k)
}

/// Every sample starts at an anchored boundary.
pub open spec fn all_anchored(samples: Seq<StagedSample>, anchors: Seq<TransportTimestampAnchor>) -> bool {
    forall|i: int| 0 <= i < samples.len() ==> (#[trigger] first_anchor_pts(anchors, samples[i].data_offset)) is Some
}

/// The PES timestamp of sample `i`: looked up by its offset, or taken from the anchor with the
/// same index.
pub open spec fn pts_at(samples: Seq<StagedSample>, anchors: Seq<TransportTimestampAnchor>, by_offset: bool, i: int) -> u64 {
    if by_offset {
        match first_anchor_pts(anchors, samples[i].data_offset) {
            Some(p) => p,
            None => 0,
        }
    } else {
        anchors[i].pts_90k
    }
}

/// The duration between two consecutive timestamps, which must increase and fit 32 bits.
pub open spec fn pts_step(current: u64, next: u64) -> Result<u32, Failure> {
    if next <= current {
        Err(Failure::Rejected)
    } else if next - current > u32::MAX {
        Err(Failure::Overflow)
    } else {
        Ok((next - current) as u32)
    }
}

/// A fallback-cadence time narrowed to a duration.
pub open spec fn fallback_duration(value: u32, base: u32) -> Result<u32, Failure> {
    match mp4v_fallback_time(value as i64, base) {
        Err(f) => Err(f),
        Ok(t) => if t < 0 || t > u32::MAX { Err(Failure::Overflow) } else { Ok(t as u32) },
    }
}

/// A fallback-cadence time narrowed to a composition offset.
pub open spec fn fallback_offset(value: i32, base: u32) -> Result<i32, Failure> {
    match mp4v_fallback_time(value as i64, base) {
        Err(f) => Err(f),
        Ok(t) => if t < i32::MIN || t > i32::MAX { Err(Failure::Overflow) } else { Ok(t as i32) },
    }
}

/// Sample `i` timed by PES anchors: its duration runs to the next sample's timestamp; the last
/// sample gets zero, or with a fallback cadence its own rescaled duration. With a fallback
/// cadence the composition offset is rescaled too, else it is zero.
pub open spec fn anchored_candidate(
    samples: Seq<StagedSample>,
    anchors: Seq<TransportTimestampAnchor>,
    by_offset: bool,
    fallback: Option<u32>,
    i: int,
) -> Result<CandidateSample, Failure> {
    let s = samples[i];
    let duration = if i + 1 < samples.len() {
        pts_step(pts_at(samples, anchors, by_offset, i), pts_at(samples, anchors, by_offset, i + 1))
    } else {
        match fallback {
            None => Ok(0u32),
            Some(base) => fallback_duration(s.duration, base),
        }
    };
    let offset = match fallback {
        None => Ok(0i32),
        Some(base) => fallback_offset(s.composition_time_offset, base),
    };
    match duration {
        Err(f) => Err(f),
        Ok(d) => match offset {
            Err(f) => Err(f),
            Ok(c) => Ok(CandidateSample {
                source_index: usize::MAX,
                data_offset: s.data_offset,
                data_size: s.data_size,
                duration: d,
                composition_time_offset: c,
                is_sync_sample: s.is_sync_sample,
            }),
        },
    }
}

/// The anchored timing of all samples, or the first failure.
pub open spec fn anchored_candidates(
    samples: Seq<StagedSample>,
    anchors: Seq<TransportTimestampAnchor>,
    by_offset: bool,
    fallback: Option<u32>,
) -> Result<Seq<CandidateSample>, Failure> {
    convert_all(indices(samples.len() as int), |i: int| anchored_candidate(samples, anchors, by_offset, fallback, i))
}

/// The samples with no timing.
pub open spec fn untimed_candidates(samples: Seq<StagedSample>) -> Seq<CandidateSample> {
    samples.map_values(|s: StagedSample| untimed_candidate(s))
}

/// Builds the untimed candidates.
fn untimed_transport_samples(samples: &Vec<StagedSample>) -> (r: Vec<CandidateSample>)
    ensures
        r@ == untimed_candidates(samples@),
{
    let mut out: Vec<CandidateSample> = Vec::new();
    let mut i: usize = 0;
    while i < samples.len()
        invariant
            i <= samples@.len(),
            out@ == untimed_candidates(samples@.take(i as int)),
        decreases samples.len() - i,
    {
        let s = samples[i];
        out.push(CandidateSample {
            source_index: UNBOUND_SOURCE_INDEX,
            data_offset: s.data_offset,
            data_size: s.data_size,
            duration: 0,
            composition_time_offset: 0,
            is_sync_sample: s.is_sync_sample,
        });
        assert(samples@.take(i + 1) == samples@.take(i as int).push(s));
        i = i + 1;
    }
    assert(samples@.take(samples@.len() as int) == samples@);
    out
}

/// The values rise strictly from left to right.
pub open spec fn strictly_increasing(ks: Seq<u64>) -> bool {
    forall|i: int, j: int| 0 <= i < j < ks.len() ==> ks[i] < ks[j]
}

/// The anchored boundaries in increasing order, each once, with the PTS of the first anchor
/// bound there.
pub open spec fn anchor_index_of(keys: Seq<u64>, pts: Seq<u64>, anchors: Seq<TransportTimestampAnchor>) -> bool {
    &&& strictly_increasing(keys)
    &&& keys.len() == pts.len()
    &&& forall|p: int| 0 <= p < keys.len() ==> first_anchor_pts(anchors, #[trigger] keys[p]) == Some(pts[p])
    &&& forall|o: u64| #[trigger] first_anchor_pts(anchors, o) is Some ==> keys.contains(o)
}

/// Two strictly increasing sequences with the same elements are equal.
pub proof fn lemma_increasing_unique(a: Seq<u64>, b: Seq<u64>)
    requires
        strictly_increasing(a),
        strictly_increasing(b),
        forall|k: u64| a.contains(k) <==> b.contains(k),
    ensures
        a == b,
    decreases a.len() + b.len(),
{
    if a.len() == 0 {
        if b.len() > 0 {
            assert(b.contains(b[0]));
        }
        assert(a =~= b);
    } else if b.len() == 0 {
        assert(a.contains(a[0]));
    } else {
        assert(a.contains(a[0]));
        assert(b.contains(b[0]));
        let ia = choose|i: int| 0 <= i < a.len() && a[i] == b[0];
        let ib = choose|i: int| 0 <= i < b.len() && b[i] == a[0];
        assert(a[0] == b[0]);
        let a1 = a.drop_first();
        let b1 = b.drop_first();
        assert forall|k: u64| a1.contains(k) <==> b1.contains(k) by {
            if a1.contains(k) {
                let i = choose|i: int| 0 <= i < a1.len() && a1[i] == k;
                assert(a[i + 1] == k);
                assert(a.contains(k));
                let j = choose|j: int| 0 <= j < b.len() && b[j] == k;
                assert(j != 0);
                assert(b1[j - 1] == k);
            }
            if b1.contains(k) {
                let i = choose|i: int| 0 <= i < b1.len() && b1[i] == k;
                assert(b[i + 1] == k);
                assert(b.contains(k));
                let j = choose|j: int| 0 <= j < a.len() && a[j] == k;
                assert(j != 0);
                assert(a1[j - 1] == k);
            }
        }
        lemma_increasing_unique(a1, b1);
        assert(a =~= b) by {
            assert forall|i: int| 0 <= i < a.len() implies a[i] == b[i] by {
                if i > 0 {
                    assert(a[i] == a1[i - 1]);
                    assert(b[i] == b1[i - 1]);
                }
            }
        }
    }
}

/// The anchored boundaries in increasing order, each once.
pub open spec fn anchor_key_order(anchors: Seq<TransportTimestampAnchor>) -> Seq<u64> {
    choose|ks: Seq<u64>| strictly_increasing(ks) && forall|k: u64| ks.contains(k) <==> (#[trigger] first_anchor_pts(anchors, k)) is Some
}

/// The first position in the sorted `keys` whose key is at least `offset`, and whether that
/// key is `offset`.
fn search_keys(keys: &Vec<u64>, offset: u64) -> (r: (usize, bool))
    requires
        strictly_increasing(keys@),
    ensures
        r.0 <= keys@.len(),
        forall|i: int| 0 <= i < r.0 ==> keys@[i] < offset,
        forall|i: int| r.0 <= i < keys@.len() ==> keys@[i] >= offset,
        r.1 <==> keys@.contains(offset),
        r.1 ==> r.0 < keys@.len() && keys@[r.0 as int] == offset,
{
    let mut lo: usize = 0;
    let mut hi: usize = keys.len();
    while lo < hi
        invariant
            lo <= hi <= keys@.len(),
            strictly_increasing(keys@),
            forall|i: int| 0 <= i < lo ==> keys@[i] < offset,
            forall|i: int| hi <= i < keys@.len() ==> keys@[i] >= offset,
        decreases hi - lo,
    {
        let mid = lo + (hi - lo) / 2;
        if keys[mid] < offset {
            lo = mid + 1;
        } else {
            hi = mid;
        }
    }
    let found = lo < keys.len() && keys[lo] == offset;
    proof {
        if keys@.contains(offset) {
            let i = choose|i: int| 0 <= i < keys@.len() && keys@[i] == offset;
            if i > lo as int {
                assert(keys@[lo as int] < keys@[i]);
            }
        }
    }
    (lo, found)
}

/// Indexes the anchors by boundary, or reports that two anchors at one boundary disagree.
pub(crate) fn build_anchor_index(anchors: &[TransportTimestampAnchor]) -> (r: Option<(Vec<u64>, Vec<u64>)>)
    ensures
        r is None <==> anchors_conflict(anchors@),
        r matches Some((keys, pts)) ==> anchor_index_of(keys@, pts@, anchors@),
{
    let mut keys: Vec<u64> = Vec::new();
    let mut pts: Vec<u64> = Vec::new();
    let mut j: usize = 0;
    while j < anchors.len()
        invariant
            j <= anchors@.len(),
            strictly_increasing(keys@),
            keys@.len() == pts@.len(),
            forall|p: int| 0 <= p < keys@.len() ==> anchor_pts(anchors@, #[trigger] keys@[p], j as int) == Some(pts@[p]),
            forall|o: u64| #[trigger] anchor_pts(anchors@, o, j as int) is Some ==> keys@.contains(o),
            forall|k: int| 0 <= k < j ==> anchor_pts(anchors@, (#[trigger] anchors@[k]).sample_offset, j as int) == Some(anchors@[k].pts_90k),
        decreases anchors.len() - j,
    {
        let a = anchors[j];
        let (p, found) = search_keys(&keys, a.sample_offset);
        if found {
            if pts[p] != a.pts_90k {
                proof {
                    assert(anchor_pts(anchors@, a.sample_offset, j as int) == Some(pts@[p as int]));
                    lemma_anchor_pts_persists(anchors@, a.sample_offset, j as int, anchors@.len() as int);
                    assert(first_anchor_pts(anchors@, anchors@[j as int].sample_offset) != Some(anchors@[j as int].pts_90k));
                }
                return None;
            }
            proof {
                assert forall|p2: int| 0 <= p2 < keys@.len() implies anchor_pts(anchors@, #[trigger] keys@[p2], j + 1) == Some(pts@[p2]) by {
                    lemma_anchor_pts_persists(anchors@, keys@[p2], j as int, j + 1);
                }
                assert forall|o: u64| #[trigger] anchor_pts(anchors@, o, j + 1) is Some implies keys@.contains(o) by {
                    if anchor_pts(anchors@, o, j as int) is None {
                        assert(o == a.sample_offset);
                    }
                }
                assert forall|k: int| 0 <= k < j + 1 implies anchor_pts(anchors@, (#[trigger] anchors@[k]).sample_offset, j + 1) == Some(anchors@[k].pts_90k) by {
                    if k < j {
                        lemma_anchor_pts_persists(anchors@, anchors@[k].sample_offset, j as int, j + 1);
                    } else {
                        assert(anchor_pts(anchors@, a.sample_offset, j as int) == Some(pts@[p as int]));
                    }
                }
            }
        } else {
            let ghost old_keys = keys@;
            let ghost old_pts = pts@;
            keys.insert(p, a.sample_offset);
            pts.insert(p, a.pts_90k);
            proof {
                assert(anchor_pts(anchors@, a.sample_offset, j as int) is None) by {
                    if anchor_pts(anchors@, a.sample_offset, j as int) is Some {
                        assert(old_keys.contains(a.sample_offset));
                    }
                }
                assert(anchor_pts(anchors@, a.sample_offset, j + 1) == Some(a.pts_90k));
                assert forall|x: int, y: int| 0 <= x < y < keys@.len() implies keys@[x] < keys@[y] by {
                    if x < p && y < p {
                        assert(keys@[x] == old_keys[x] && keys@[y] == old_keys[y]);
                    } else if x < p && y == p {
                        assert(keys@[x] == old_keys[x]);
                    } else if x < p {
                        assert(keys@[x] == old_keys[x] && keys@[y] == old_keys[y - 1]);
                    } else if x == p {
                        assert(keys@[y] == old_keys[y - 1]);
                        assert(old_keys[y - 1] >= a.sample_offset);
                        assert(old_keys[y - 1] != a.sample_offset) by {
                            assert(old_keys.contains(old_keys[y - 1]));
                        }
                    } else {
                        assert(keys@[x] == old_keys[x - 1] && keys@[y] == old_keys[y - 1]);
                    }
                }
                assert forall|q: int| 0 <= q < keys@.len() implies anchor_pts(anchors@, #[trigger] keys@[q], j + 1) == Some(pts@[q]) by {
                    if q < p {
                        assert(keys@[q] == old_keys[q] && pts@[q] == old_pts[q]);
                        lemma_anchor_pts_persists(anchors@, old_keys[q], j as int, j + 1);
                    } else if q > p {
                        assert(keys@[q] == old_keys[q - 1] && pts@[q] == old_pts[q - 1]);
                        lemma_anchor_pts_persists(anchors@, old_keys[q - 1], j as int, j + 1);
                    }
                }
                assert forall|o: u64| #[trigger] anchor_pts(anchors@, o, j + 1) is Some implies keys@.contains(o) by {
                    if o == a.sample_offset {
                        assert(keys@[p as int] == o);
                    } else {
                        assert(anchor_pts(anchors@, o, j as int) is Some);
                        assert(old_keys.contains(o));
                        let q = choose|q: int| 0 <= q < old_keys.len() && old_keys[q] == o;
                        if q < p {
                            assert(keys@[q] == o);
                        } else {
                            assert(keys@[q + 1] == o);
                        }
                    }
                }
                assert forall|k: int| 0 <= k < j + 1 implies anchor_pts(anchors@, (#[trigger] anchors@[k]).sample_offset, j + 1) == Some(anchors@[k].pts_90k) by {
                    if k < j {
                        lemma_anchor_pts_persists(anchors@, anchors@[k].sample_offset, j as int, j + 1);
                    }
                }
            }
        }
        j = j + 1;
    }
    proof {
        assert(!anchors_conflict(anchors@)) by {
            assert forall|k: int| 0 <= k < anchors@.len() implies first_anchor_pts(anchors@, (#[trigger] anchors@[k]).sample_offset) == Some(anchors@[k].pts_90k) by {}
        }
    }
    Some((keys, pts))
}

/// The anchor index gives the sorted boundaries.
pub proof fn lemma_anchor_index_keys(keys: Seq<u64>, pts: Seq<u64>, anchors: Seq<TransportTimestampAnchor>)
    requires
        anchor_index_of(keys, pts, anchors),
    ensures
        keys == anchor_key_order(anchors),
{
    assert forall|k: u64| keys.contains(k) <==> (#[trigger] first_anchor_pts(anchors, k)) is Some by {
        if keys.contains(k) {
            let p = choose|p: int| 0 <= p < keys.len() && keys[p] == k;
            assert(first_anchor_pts(anchors, keys[p]) == Some(pts[p]));
        }
    }
    let ks = anchor_key_order(anchors);
    assert(strictly_increasing(ks) && forall|k: u64| ks.contains(k) <==> (#[trigger] first_anchor_pts(anchors, k)) is Some);
    assert forall|k: u64| keys.contains(k) <==> ks.contains(k) by {
        assert(keys.contains(k) <==> first_anchor_pts(anchors, k) is Some);
        assert(ks.contains(k) <==> first_anchor_pts(anchors, k) is Some);
    }
    lemma_increasing_unique(keys, ks);
}

/// Looks an offset up in the anchor index.
pub(crate) fn index_lookup(keys: &Vec<u64>, pts: &Vec<u64>, anchors: Ghost<Seq<TransportTimestampAnchor>>, offset: u64) -> (r: Option<u64>)
    requires
        anchor_index_of(keys@, pts@, anchors@),
    ensures
        r == first_anchor_pts(anchors@, offset),
{
    let (p, found) = search_keys(keys, offset);
    if found {
        assert(first_anchor_pts(anchors@, keys@[p as int]) == Some(pts@[p as int]));
        Some(pts[p])
    } else {
        assert(!(first_anchor_pts(anchors@, offset) is Some));
        None
    }
}

/// Whether every sample starts at an anchored boundary.
fn every_sample_anchored(samples: &Vec<StagedSample>, keys: &Vec<u64>, pts: &Vec<u64>, anchors: Ghost<Seq<TransportTimestampAnchor>>) -> (r: bool)
    requires
        anchor_index_of(keys@, pts@, anchors@),
    ensures
        r == all_anchored(samples@, anchors@),
{
    let mut i: usize = 0;
    while i < samples.len()
        invariant
            i <= samples@.len(),
            anchor_index_of(keys@, pts@, anchors@),
            forall|k: int| 0 <= k < i ==> (#[trigger] first_anchor_pts(anchors@, samples@[k].data_offset)) is Some,
        decreases samples.len() - i,
    {
        if index_lookup(keys, pts, anchors, samples[i].data_offset).is_none() {
            assert(first_anchor_pts(anchors@, samples@[i as int].data_offset) is None);
            return false;
        }
        i = i + 1;
    }
    true
}

/// The timestamp of sample `i` as the spec reads it.
fn pts_of(samples: &Vec<StagedSample>, anchors: &[TransportTimestampAnchor], keys: &Vec<u64>, pts: &Vec<u64>, by_offset: bool, i: usize) -> (r: u64)
    requires
        i < samples@.len(),
        !by_offset ==> i < anchors@.len(),
        by_offset ==> anchor_index_of(keys@, pts@, anchors@),
    ensures
        r == pts_at(samples@, anchors@, by_offset, i as int),
{
    if by_offset {
        match index_lookup(keys, pts, Ghost(anchors@), samples[i].data_offset) {
            Some(p) => p,
            None => 0,
        }
    } else {
        anchors[i].pts_90k
    }
}

/// Times sample `i` by its anchors; `subject` names the stream in rejections and overflows.
fn anchored_sample(
    samples: &Vec<StagedSample>,
    anchors: &[TransportTimestampAnchor],
    keys: &Vec<u64>,
    pts: &Vec<u64>,
    by_offset: bool,
    fallback: Option<u32>,
    i: usize,
    spec: &str,
    subject: &str,
    duration_label: &str,
    offset_label: &str,
) -> (r: Result<CandidateSample, MuxError>)
    requires
        i < samples@.len(),
        !by_offset ==> anchors@.len() == samples@.len(),
        by_offset ==> anchor_index_of(keys@, pts@, anchors@),
    ensures
        match anchored_candidate(samples@, anchors@, by_offset, fallback, i as int) {
            Ok(c) => r == Ok::<CandidateSample, MuxError>(c),
            Err(f) => r matches Err(e) && fails_as(e, f, spec@),
        },
{
    let s = samples[i];
    let duration: u32 = if i < samples.len() - 1 {
        let current = pts_of(samples, anchors, keys, pts, by_offset, i);
        let next = pts_of(samples, anchors, keys, pts, by_offset, i + 1);
        if next <= current {
            return Err(transport_error(spec, subject, " carried non-monotonic PES timestamps across sample boundaries", ""));
        }
        if next - current > 0xFFFF_FFFF {
            return Err(overflow(duration_label));
        }
        (next - current) as u32
    } else {
        match fallback {
            None => 0,
            Some(base) => match transport_mp4v_fallback_time(s.duration as i64, base, spec) {
                Err(e) => return Err(e),
                Ok(t) => {
                    if t < 0 || t > 0xFFFF_FFFF {
                        return Err(overflow(duration_label));
                    }
                    t as u32
                },
            },
        }
    };
    let offset: i32 = match fallback {
        None => 0,
        Some(base) => match transport_mp4v_fallback_time(s.composition_time_offset as i64, base, spec) {
            Err(e) => return Err(e),
            Ok(t) => {
                if t < -0x8000_0000 || t > 0x7FFF_FFFF {
                    return Err(overflow(offset_label));
                }
                t as i32
            },
        },
    };
    Ok(CandidateSample {
        source_index: UNBOUND_SOURCE_INDEX,
        data_offset: s.data_offset,
        data_size: s.data_size,
        duration,
        composition_time_offset: offset,
        is_sync_sample: s.is_sync_sample,
    })
}

/// Times every sample by its anchors, stopping at the first failure.
fn anchored_samples(
    samples: &Vec<StagedSample>,
    anchors: &[TransportTimestampAnchor],
    keys: &Vec<u64>,
    pts: &Vec<u64>,
    by_offset: bool,
    fallback: Option<u32>,
    spec: &str,
    subject: &str,
    duration_label: &str,
    offset_label: &str,
) -> (r: Result<Vec<CandidateSample>, MuxError>)
    requires
        !by_offset ==> anchors@.len() == samples@.len(),
        by_offset ==> anchor_index_of(keys@, pts@, anchors@),
    ensures
        match anchored_candidates(samples@, anchors@, by_offset, fallback) {
            Ok(v) => r matches Ok(out) && out@ == v,
            Err(f) => r matches Err(e) && fails_as(e, f, spec@),
        },
{
    let ghost xs = indices(samples@.len() as int);
    let ghost f = |i: int| anchored_candidate(samples@, anchors@, by_offset, fallback, i);
    let mut out: Vec<CandidateSample> = Vec::new();
    let mut i: usize = 0;
    while i < samples.len()
        invariant
            i <= samples@.len(),
            !by_offset ==> anchors@.len() == samples@.len(),
            by_offset ==> anchor_index_of(keys@, pts@, anchors@),
            xs == indices(samples@.len() as int),
            f == (|i: int| anchored_candidate(samples@, anchors@, by_offset, fallback, i)),
            convert_prefix(xs, f, i as int) == Ok::<Seq<CandidateSample>, Failure>(out@),
        decreases samples.len() - i,
    {
        assert(xs[i as int] == i);
        match anchored_sample(samples, anchors, keys, pts, by_offset, fallback, i, spec, subject, duration_label, offset_label) {
            Ok(c) => {
                out.push(c);
            },
            Err(e) => {
                proof {
                    assert(convert_prefix(xs, f, i + 1) is Err);
                    lemma_convert_failure_persists(xs, f, i + 1, xs.len() as int);
                }
                return Err(e);
            },
        }
        i = i + 1;
    }
    Ok(out)
}

/// How AV1 samples are timed: untimed without anchors; otherwise one anchor per access unit,
/// each sample lasting until the next one's timestamp.
pub open spec fn av1_samples_outcome(samples: Seq<StagedSample>, anchors: Seq<TransportTimestampAnchor>) -> Result<Seq<CandidateSample>, Failure> {
    if anchors.len() == 0 {
        Ok(untimed_candidates(samples))
    } else if anchors.len() != samples.len() {
        Err(Failure::Rejected)
    } else {
        anchored_candidates(samples, anchors, false, None)
    }
}

/// Times AV1 access units from their PES timestamps.
pub fn build_transport_av1_samples(spec: &str, samples: Vec<StagedSample>, pts_anchors: &[TransportTimestampAnchor]) -> (r: Result<Vec<CandidateSample>, MuxError>)
    ensures
        match av1_samples_outcome(samples@, pts_anchors@) {
            Ok(v) => r matches Ok(out) && out@ == v,
            Err(f) => r matches Err(e) && fails_as(e, f, spec@),
        },
{
    if pts_anchors.len() == 0 {
        return Ok(untimed_transport_samples(&samples));
    }
    if pts_anchors.len() != samples.len() {
        return Err(transport_error(spec, "AV1 PES timestamp anchors did not line up with access-unit boundaries", "", ""));
    }
    anchored_samples(&samples, pts_anchors, &Vec::new(), &Vec::new(), false, None, spec, "AV1", "transport-stream AV1 duration", "transport-stream AV1 duration")
}

/// How anchored video (VVC, or MPEG-4 Part 2 with a fallback cadence) is timed: conflicting
/// anchors are rejected; when the first sample is anchored, samples are timed by their
/// offsets if all are anchored, else by index if there is one anchor per sample; anything
/// else keeps the untimed (or fallback) timing.
pub open spec fn anchored_video_outcome(
    samples: Seq<StagedSample>,
    anchors: Seq<TransportTimestampAnchor>,
    fallback: Option<u32>,
    otherwise: Result<Seq<CandidateSample>, Failure>,
) -> Result<Seq<CandidateSample>, Failure> {
    if anchors.len() == 0 {
        otherwise
    } else if anchors_conflict(anchors) {
        Err(Failure::Rejected)
    } else if samples.len() == 0 || first_anchor_pts(anchors, samples[0].data_offset) is None {
        otherwise
    } else if all_anchored(samples, anchors) {
        anchored_candidates(samples, anchors, true, fallback)
    } else if anchors.len() == samples.len() {
        anchored_candidates(samples, anchors, false, fallback)
    } else {
        otherwise
    }
}

/// Times VVC access units from their PES timestamps.
pub fn build_transport_vvc_samples(spec: &str, samples: Vec<StagedSample>, pts_anchors: &[TransportTimestampAnchor]) -> (r: Result<Vec<CandidateSample>, MuxError>)
    ensures
        match anchored_video_outcome(samples@, pts_anchors@, None, Ok(untimed_candidates(samples@))) {
            Ok(v) => r matches Ok(out) && out@ == v,
            Err(f) => r matches Err(e) && fails_as(e, f, spec@),
        },
{
    if pts_anchors.len() == 0 {
        return Ok(untimed_transport_samples(&samples));
    }
    let (keys, pts) = match build_anchor_index(pts_anchors) {
        Some(index) => index,
        None => return Err(transport_error(spec, "VVC video carried multiple conflicting PES timestamps for the same sample boundary", "", "")),
    };
    if samples.len() == 0 || index_lookup(&keys, &pts, Ghost(pts_anchors@), samples[0].data_offset).is_none() {
        return Ok(untimed_transport_samples(&samples));
    }
    if every_sample_anchored(&samples, &keys, &pts, Ghost(pts_anchors@)) {
        return anchored_samples(&samples, pts_anchors, &keys, &pts, true, None, spec, "VVC video", "transport-stream VVC duration", "transport-stream VVC duration");
    }
    if pts_anchors.len() == samples.len() {
        return anchored_samples(&samples, pts_anchors, &keys, &pts, false, None, spec, "VVC video", "transport-stream VVC duration", "transport-stream VVC duration");
    }
    Ok(untimed_transport_samples(&samples))
}

/// The first non-zero staged duration from sample `i` on.
pub open spec fn first_nonzero_duration(samples: Seq<StagedSample>, i: int) -> Option<u32>
    decreases samples.len() - i,
{
    if i < 0 || i >= samples.len() {
        None
    } else if samples[i].duration != 0 {
        Some(samples[i].duration)
    } else {
        first_nonzero_duration(samples, i + 1)
    }
}

/// An MPEG-4 Part 2 sample timed on the fallback cadence alone.
pub open spec fn mp4v_fallback_candidate(s: StagedSample, base: u32) -> Result<CandidateSample, Failure> {
    match fallback_duration(s.duration, base) {
        Err(f) => Err(f),
        Ok(d) => match fallback_offset(s.composition_time_offset, base) {
            Err(f) => Err(f),
            Ok(c) => Ok(CandidateSample {
                source_index: usize::MAX,
                data_offset: s.data_offset,
                data_size: s.data_size,
                duration: d,
                composition_time_offset: c,
                is_sync_sample: s.is_sync_sample,
            }),
        },
    }
}

/// How MPEG-4 Part 2 samples are timed: the first non-zero staged duration is the fallback
/// cadence (none is rejected); anchors time the samples as for other anchored video, with the
/// fallback cadence for the last duration and for composition offsets.
pub open spec fn mp4v_samples_outcome(samples: Seq<StagedSample>, anchors: Seq<TransportTimestampAnchor>) -> Result<Seq<CandidateSample>, Failure> {
    match first_nonzero_duration(samples, 0) {
        None => Err(Failure::Rejected),
        Some(base) => anchored_video_outcome(
            samples,
            anchors,
            Some(base),
            convert_all(samples, |s: StagedSample| mp4v_fallback_candidate(s, base)),
        ),
    }
}

/// Finds the first non-zero staged duration.
fn find_nonzero_duration(samples: &Vec<StagedSample>) -> (r: Option<u32>)
    ensures
        r == first_nonzero_duration(samples@, 0),
{
    let mut i: usize = 0;
    while i < samples.len()
        invariant
            i <= samples@.len(),
            first_nonzero_duration(samples@, 0) == first_nonzero_duration(samples@, i as int),
        decreases samples.len() - i,
    {
        if samples[i].duration != 0 {
            return Some(samples[i].duration);
        }
        i = i + 1;
    }
    None
}

/// Times every MPEG-4 Part 2 sample on the fallback cadence.
fn mp4v_fallback_samples(samples: &Vec<StagedSample>, base: u32, spec: &str) -> (r: Result<Vec<CandidateSample>, MuxError>)
    ensures
        match convert_all(samples@, |s: StagedSample| mp4v_fallback_candidate(s, base)) {
            Ok(v) => r matches Ok(out) && out@ == v,
            Err(f) => r matches Err(e) && fails_as(e, f, spec@),
        },
{
    let ghost f = |s: StagedSample| mp4v_fallback_candidate(s, base);
    let mut out: Vec<CandidateSample> = Vec::new();
    let mut i: usize = 0;
    while i < samples.len()
        invariant
            i <= samples@.len(),
            f == (|s: StagedSample| mp4v_fallback_candidate(s, base)),
            convert_prefix(samples@, f, i as int) == Ok::<Seq<CandidateSample>, Failure>(out@),
        decreases samples.len() - i,
    {
        let s = samples[i];
        let duration = match transport_mp4v_fallback_time(s.duration as i64, base, spec) {
            Err(e) => {
                proof { lemma_convert_failure_persists(samples@, f, i + 1, samples@.len() as int); }
                return Err(e);
            },
            Ok(t) => {
                if t < 0 || t > 0xFFFF_FFFF {
                    proof { lemma_convert_failure_persists(samples@, f, i + 1, samples@.len() as int); }
                    return Err(overflow("transport-stream MPEG-4 Part 2 duration"));
                }
                t as u32
            },
        };
        let offset = match transport_mp4v_fallback_time(s.composition_time_offset as i64, base, spec) {
            Err(e) => {
                proof { lemma_convert_failure_persists(samples@, f, i + 1, samples@.len() as int); }
                return Err(e);
            },
            Ok(t) => {
                if t < -0x8000_0000 || t > 0x7FFF_FFFF {
                    proof { lemma_convert_failure_persists(samples@, f, i + 1, samples@.len() as int); }
                    return Err(overflow("transport-stream MPEG-4 Part 2 composition offset"));
                }
                t as i32
            },
        };
        out.push(CandidateSample {
            source_index: UNBOUND_SOURCE_INDEX,
            data_offset: s.data_offset,
            data_size: s.data_size,
            duration,
            composition_time_offset: offset,
            is_sync_sample: s.is_sync_sample,
        });
        i = i + 1;
    }
    Ok(out)
}

/// Times MPEG-4 Part 2 video samples from their PES timestamps, falling back to the retained
/// 30 fps cadence.
pub fn rescale_transport_mp4v_samples(
    samples: Vec<StagedSample>,
    _source_timescale: u32,
    pts_anchors: &[TransportTimestampAnchor],
    spec: &str,
) -> (r: Result<Vec<CandidateSample>, MuxError>)
    ensures
        match mp4v_samples_outcome(samples@, pts_anchors@) {
            Ok(v) => r matches Ok(out) && out@ == v,
            Err(f) => r matches Err(e) && fails_as(e, f, spec@),
        },
{
    let base = match find_nonzero_duration(&samples) {
        Some(b) => b,
        None => return Err(transport_error(spec, "MPEG-4 Part 2 video did not expose a non-zero frame cadence", "", "")),
    };
    if pts_anchors.len() == 0 {
        return mp4v_fallback_samples(&samples, base, spec);
    }
    let (keys, pts) = match build_anchor_index(pts_anchors) {
        Some(index) => index,
        None => return Err(transport_error(spec, "MPEG-4 Part 2 video carried multiple conflicting PES timestamps for the same sample boundary", "", "")),
    };
    if samples.len() == 0 || index_lookup(&keys, &pts, Ghost(pts_anchors@), samples[0].data_offset).is_none() {
        return mp4v_fallback_samples(&samples, base, spec);
    }
    if every_sample_anchored(&samples, &keys, &pts, Ghost(pts_anchors@)) {
        return anchored_samples(&samples, pts_anchors, &keys, &pts, true, Some(base), spec, "MPEG-4 Part 2 video", "transport-stream MPEG-4 Part 2 duration", "transport-stream MPEG-4 Part 2 composition offset");
    }
    if pts_anchors.len() == samples.len() {
        return anchored_samples(&samples, pts_anchors, &keys, &pts, false, Some(base), spec, "MPEG-4 Part 2 video", "transport-stream MPEG-4 Part 2 duration", "transport-stream MPEG-4 Part 2 composition offset");
    }
    mp4v_fallback_samples(&samples, base, spec)
}

/// The sum of the first `n` durations.
pub open spec fn total_duration(samples: Seq<CandidateSample>, n: int) -> int
    decreases n,
{
    if n <= 0 { 0 } else { total_duration(samples, n - 1) + samples[n - 1].duration }
}

/// The largest positive composition offset among the first `n` samples (0 when none).
pub open spec fn max_positive_offset(samples: Seq<CandidateSample>, n: int) -> int
    decreases n,
{
    if n <= 0 {
        0
    } else {
        let m = max_positive_offset(samples, n - 1);
        if samples[n - 1].composition_time_offset > m { samples[n - 1].composition_time_offset as int } else { m }
    }
}

/// Partial sums of non-negative durations never decrease.
proof fn lemma_total_duration_monotone(samples: Seq<CandidateSample>, i: int, n: int)
    requires
        0 <= i <= n,
    ensures
        total_duration(samples, i) <= total_duration(samples, n),
    decreases n - i,
{
    if n > i {
        lemma_total_duration_monotone(samples, i, n - 1);
    }
}

/// The whole presentation span of MPEG-4 Part 2 samples: all durations plus the largest
/// positive composition offset, or nothing when that does not fit 64 bits.
pub fn transport_mp4v_total_duration_override(samples: &[CandidateSample]) -> (r: Option<u64>)
    ensures
        total_duration(samples@, samples@.len() as int) + max_positive_offset(samples@, samples@.len() as int) <= u64::MAX
            ==> r == Some((total_duration(samples@, samples@.len() as int) + max_positive_offset(samples@, samples@.len() as int)) as u64),
        total_duration(samples@, samples@.len() as int) + max_positive_offset(samples@, samples@.len() as int) > u64::MAX ==> r is None,
{
    let n = samples.len();
    let mut total: u64 = 0;
    let mut max_offset: u64 = 0;
    let mut i: usize = 0;
    while i < n
        invariant
            n == samples@.len(),
            i <= n,
            total == total_duration(samples@, i as int),
            max_offset == max_positive_offset(samples@, i as int),
            0 <= max_positive_offset(samples@, i as int) <= i32::MAX,
        decreases n - i,
    {
        let s = samples[i];
        total = match total.checked_add(s.duration as u64) {
            Some(t) => t,
            None => {
                proof {
                    lemma_total_duration_monotone(samples@, i + 1, n as int);
                    assert(0 <= max_positive_offset(samples@, n as int)) by {
                        lemma_max_positive_offset_nonneg(samples@, n as int);
                    }
                }
                return None;
            },
        };
        if s.composition_time_offset > 0 && (s.composition_time_offset as u64) > max_offset {
            max_offset = s.composition_time_offset as u64;
        }
        i = i + 1;
    }
    total.checked_add(max_offset)
}

/// The largest positive offset is never negative.
proof fn lemma_max_positive_offset_nonneg(samples: Seq<CandidateSample>, n: int)
    ensures
        0 <= max_positive_offset(samples, n),
    decreases n,
{
    if n > 0 {
        lemma_max_positive_offset_nonneg(samples, n - 1);
    }
}

} // verus!
