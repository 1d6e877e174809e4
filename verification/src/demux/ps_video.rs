use vstd::prelude::*;
use crate::error::{Failure, MuxError, fails_as, import_error, overflow};
use crate::sample::{CandidateSample, StagedSample, UNBOUND_SOURCE_INDEX};
use crate::demux::ts_audio::first_at_or_after;
use crate::demux::ts_samples::transport_error;

verus! {

/// The media timescale of every program-stream track: the 90 kHz system clock.
pub const PROGRAM_STREAM_MEDIA_TIMESCALE: u32 = 90_000;


/// The two video codecs whose program-stream timing is normalized here.
#[derive(Clone, Copy, Debug, PartialEq, Eq, Structural)]
pub enum ProgramStreamVideoCodec {
    Mpeg2v,
    Mp4v,
}

/// A staged duration rescaled exactly onto the 90 kHz program-stream clock.
pub open spec fn ps_scaled_duration(elementary_timescale: u32, duration: u32) -> Result<u32, Failure> {
    let scaled = (duration as int) * 90_000;
    if elementary_timescale == 0 {
        Err(Failure::Rejected)
    } else if scaled % (elementary_timescale as int) != 0 {
        Err(Failure::Rejected)
    } else if scaled / (elementary_timescale as int) > u32::MAX {
        Err(Failure::Overflow)
    } else {
        Ok((scaled / (elementary_timescale as int)) as u32)
    }
}

/// Rescales a duration exactly; `subject` names the stream in rejections.
fn scale_duration(spec: &str, subject: &str, label: &str, elementary_timescale: u32, duration: u32) -> (r: Result<u32, MuxError>)
    ensures
        match ps_scaled_duration(elementary_timescale, duration) {
            Ok(d) => r == Ok::<u32, MuxError>(d),
            Err(f) => r matches Err(e) && fails_as(e, f, spec@),
        },
{
    if elementary_timescale == 0 {
        let message = String::from_str("program stream ").concat(subject).concat(" reported a zero media timescale");
        return Err(MuxError::UnsupportedTrackImport { spec: spec.to_owned(), message });
    }
    let scaled = (duration as u64) * 90_000;
    if scaled % (elementary_timescale as u64) != 0 {
        let message = String::from_str("program stream ").concat(subject).concat(" cadence does not rescale cleanly onto the 90_000 media clock");
        return Err(MuxError::UnsupportedTrackImport { spec: spec.to_owned(), message });
    }
    let normalized = scaled / (elementary_timescale as u64);
    if normalized > 0xFFFF_FFFF {
        return Err(overflow(label));
    }
    Ok(normalized as u32)
}

/// Rescales an MPEG-2 video duration onto the 90 kHz program-stream clock.
pub fn scale_mpeg2v_duration_to_program_stream_clock(spec: &str, elementary_timescale: u32, duration: u32) -> (r: Result<u32, MuxError>)
    ensures
        match ps_scaled_duration(elementary_timescale, duration) {
            Ok(d) => r == Ok::<u32, MuxError>(d),
            Err(f) => r matches Err(e) && fails_as(e, f, spec@),
        },
{
    scale_duration(spec, "MPEG-2 video", "program stream MPEG-2 video duration", elementary_timescale, duration)
}

/// Rescales an MPEG-4 Part 2 video duration onto the 90 kHz program-stream clock.
pub fn scale_mp4v_duration_to_program_stream_clock(spec: &str, elementary_timescale: u32, duration: u32) -> (r: Result<u32, MuxError>)
    ensures
        match ps_scaled_duration(elementary_timescale, duration) {
            Ok(d) => r == Ok::<u32, MuxError>(d),
            Err(f) => r matches Err(e) && fails_as(e, f, spec@),
        },
{
    scale_duration(spec, "MPEG-4 Part 2 video", "program stream MPEG-4 Part 2 video duration", elementary_timescale, duration)
}

/// The picture a PES anchor at payload offset `offset` times: the first picture, for offset
/// zero; otherwise the first picture starting at or after it, if any.
pub open spec fn anchor_picture(offset: u64, samples: Seq<StagedSample>) -> Option<usize> {
    if offset == 0 {
        Some(0usize)
    } else {
        let i = first_at_or_after(samples, offset, 0);
        if i < samples.len() { Some(i as usize) } else { None }
    }
}

/// Maps each PES anchor offset to the picture it times.
pub fn map_program_stream_mpeg2v_anchor_offsets_to_picture_samples(sample_offsets: &[u64], samples: &[StagedSample]) -> (r: Vec<Option<usize>>)
    ensures
        r@ == sample_offsets@.map_values(|o: u64| anchor_picture(o, samples@)),
{
    let mut out: Vec<Option<usize>> = Vec::new();
    let mut a: usize = 0;
    while a < sample_offsets.len()
        invariant
            a <= sample_offsets@.len(),
            out@ == sample_offsets@.take(a as int).map_values(|o: u64| anchor_picture(o, samples@)),
        decreases sample_offsets.len() - a,
    {
        let offset = sample_offsets[a];
        let picture = if offset == 0 {
            Some(0)
        } else {
            let mut i: usize = 0;
            while i < samples.len() && samples[i].data_offset < offset
                invariant
                    i <= samples@.len(),
                    first_at_or_after(samples@, offset, 0) == first_at_or_after(samples@, offset, i as int),
                decreases samples.len() - i,
            {
                i = i + 1;
            }
            if i < samples.len() { Some(i) } else { None }
        };
        out.push(picture);
        assert(sample_offsets@.take(a + 1) == sample_offsets@.take(a as int).push(offset));
        a = a + 1;
    }
    assert(sample_offsets@.take(sample_offsets@.len() as int) == sample_offsets@);
    out
}

/// For each of `count` pictures, the anchor that times it, after the first `n` anchors; two
/// anchors on one picture are rejected, and anchors past the last picture are ignored.
pub open spec fn sample_anchor_map(anchor_to_sample: Seq<Option<usize>>, count: nat, n: int) -> Result<Seq<Option<usize>>, Failure>
    decreases n,
{
    if n <= 0 {
        Ok(Seq::new(count, |i: int| None::<usize>))
    } else {
        match sample_anchor_map(anchor_to_sample, count, n - 1) {
            Err(f) => Err(f),
            Ok(m) => match anchor_to_sample[n - 1] {
                None => Ok(m),
                Some(i) => if i >= count {
                    Ok(m)
                } else if m[i as int] is Some {
                    Err(Failure::Rejected)
                } else {
                    Ok(m.update(i as int, Some((n - 1) as usize)))
                },
            },
        }
    }
}

/// Inverts the anchor-to-picture map.
pub fn build_program_stream_mpeg2v_sample_anchor_map(
    spec: &str,
    sample_offsets: &[u64],
    anchor_to_sample: &[Option<usize>],
    sample_count: usize,
) -> (r: Result<Vec<Option<usize>>, MuxError>)
    ensures
        match sample_anchor_map(anchor_to_sample@, sample_count as nat, anchor_to_sample@.len() as int) {
            Ok(m) => r matches Ok(v) && v@ == m,
            Err(f) => r matches Err(e) && fails_as(e, f, spec@),
        },
{
    let mut map: Vec<Option<usize>> = Vec::new();
    let mut i: usize = 0;
    while i < sample_count
        invariant
            i <= sample_count,
            map@ == Seq::new(i as nat, |k: int| None::<usize>),
        decreases sample_count - i,
    {
        map.push(None);
        i = i + 1;
    }
    let mut a: usize = 0;
    while a < anchor_to_sample.len()
        invariant
            a <= anchor_to_sample@.len(),
            map@.len() == sample_count,
            sample_anchor_map(anchor_to_sample@, sample_count as nat, a as int) == Ok::<Seq<Option<usize>>, Failure>(map@),
        decreases anchor_to_sample.len() - a,
    {
        match anchor_to_sample[a] {
            None => {},
            Some(s) => {
                if s < sample_count {
                    if map[s].is_some() {
                        proof { lemma_anchor_map_failure_persists(anchor_to_sample@, sample_count as nat, a + 1, anchor_to_sample@.len() as int); }
                        return Err(import_error(spec, "program stream MPEG-2 video carried multiple timing anchors for one parsed picture sample"));
                    }
                    map.set(s, Some(a));
                }
            },
        }
        a = a + 1;
    }
    Ok(map)
}

/// Once the anchor map fails, it fails the same way for more anchors.
proof fn lemma_anchor_map_failure_persists(a2s: Seq<Option<usize>>, count: nat, n: int, m: int)
    requires
        0 <= n <= m,
        sample_anchor_map(a2s, count, n) is Err,
    ensures
        sample_anchor_map(a2s, count, m) == sample_anchor_map(a2s, count, n),
    decreases m - n,
{
    if m > n {
        lemma_anchor_map_failure_persists(a2s, count, n, m - 1);
    }
}

/// A successful anchor map has one entry per picture.
proof fn lemma_anchor_map_len(a2s: Seq<Option<usize>>, count: nat, n: int)
    requires
        sample_anchor_map(a2s, count, n) is Ok,
    ensures
        sample_anchor_map(a2s, count, n)->Ok_0.len() == count,
    decreases n,
{
    if n > 0 {
        lemma_anchor_map_len(a2s, count, n - 1);
    }
}

/// The first picture after `index` that an anchor times, with that anchor.
pub open spec fn next_anchored(map: Seq<Option<usize>>, j: int) -> Option<(int, usize)>
    decreases map.len() - j,
{
    if j < 0 || j >= map.len() {
        None
    } else {
        match map[j] {
            Some(a) => Some((j, a)),
            None => next_anchored(map, j + 1),
        }
    }
}

/// The normalization state after some pictures: the samples so far, the edit-media time, and
/// the last anchored composition offset.
pub struct PsVideoState {
    pub samples: Seq<CandidateSample>,
    pub edit: Option<u64>,
    pub last_offset: i32,
}

/// One picture: its duration runs to the next anchored picture's decode time when that is
/// the very next picture, else is its staged duration rescaled (or, for MPEG-2 video with no
/// later anchor, kept as staged); its composition offset is its anchor's PTS minus DTS, or
/// the last such offset; a zero duration is rejected.
pub open spec fn ps_video_step(
    codec: ProgramStreamVideoCodec,
    elementary_timescale: u32,
    samples: Seq<StagedSample>,
    pts: Seq<u64>,
    dts: Seq<u64>,
    map: Seq<Option<usize>>,
    st: PsVideoState,
    i: int,
) -> Result<PsVideoState, Failure> {
    let s = samples[i];
    match ps_scaled_duration(elementary_timescale, s.duration) {
        Err(f) => Err(f),
        Ok(scaled) => {
            let timed: Result<(u32, i32, Option<u64>), Failure> = match map[i] {
                Some(a) => {
                    let p = pts[a as int];
                    let d = dts[a as int];
                    if p < d {
                        Err(Failure::Rejected)
                    } else {
                        let duration: Result<u32, Failure> = match next_anchored(map, i + 1) {
                            Some((j, b)) => if dts[b as int] <= d {
                                Err(Failure::Rejected)
                            } else if j == i + 1 {
                                if dts[b as int] - d > u32::MAX { Err(Failure::Overflow) } else { Ok((dts[b as int] - d) as u32) }
                            } else {
                                Ok(scaled)
                            },
                            None => Ok(scaled),
                        };
                        match duration {
                            Err(f) => Err(f),
                            Ok(du) => if p - d > i32::MAX {
                                Err(Failure::Overflow)
                            } else {
                                let offset = (p - d) as i32;
                                Ok((du, offset, if i == 0 && offset > 0 { Some(offset as u64) } else { st.edit }))
                            },
                        }
                    }
                },
                None => {
                    let du = if codec == ProgramStreamVideoCodec::Mp4v || next_anchored(map, i + 1) is Some { scaled } else { s.duration };
                    Ok((du, st.last_offset, st.edit))
                },
            };
            match timed {
                Err(f) => Err(f),
                Ok((du, offset, edit)) => if du == 0 {
                    Err(Failure::Rejected)
                } else {
                    Ok(PsVideoState {
                        samples: st.samples.push(CandidateSample {
                            source_index: usize::MAX,
                            data_offset: s.data_offset,
                            data_size: s.data_size,
                            duration: du,
                            composition_time_offset: offset,
                            is_sync_sample: s.is_sync_sample,
                        }),
                        edit,
                        last_offset: if map[i] is Some { offset } else { st.last_offset },
                    })
                },
            }
        },
    }
}

/// The normalization state after the first `n` pictures.
pub open spec fn ps_video_fold(
    codec: ProgramStreamVideoCodec,
    elementary_timescale: u32,
    samples: Seq<StagedSample>,
    pts: Seq<u64>,
    dts: Seq<u64>,
    map: Seq<Option<usize>>,
    n: int,
) -> Result<PsVideoState, Failure>
    decreases n,
{
    if n <= 0 {
        Ok(PsVideoState { samples: Seq::empty(), edit: None, last_offset: 0 })
    } else {
        match ps_video_fold(codec, elementary_timescale, samples, pts, dts, map, n - 1) {
            Err(f) => Err(f),
            Ok(st) => ps_video_step(codec, elementary_timescale, samples, pts, dts, map, st, n - 1),
        }
    }
}

/// A staged sample carried over unchanged.
pub open spec fn carried_candidate(s: StagedSample) -> CandidateSample {
    CandidateSample {
        source_index: usize::MAX,
        data_offset: s.data_offset,
        data_size: s.data_size,
        duration: s.duration,
        composition_time_offset: s.composition_time_offset,
        is_sync_sample: s.is_sync_sample,
    }
}

/// How program-stream video is timed: without PES timestamps the staged samples are kept on
/// their own timescale; otherwise the timestamps must pair up with the anchor offsets, a
/// trailing picture beyond the last anchor is dropped, and the pictures are timed on the
/// 90 kHz clock from the anchors that land on them.
pub open spec fn ps_video_outcome(
    codec: ProgramStreamVideoCodec,
    elementary_timescale: u32,
    samples: Seq<StagedSample>,
    offsets: Seq<u64>,
    pts: Seq<u64>,
    dts: Seq<u64>,
) -> Result<(u32, Option<u64>, Seq<CandidateSample>), Failure> {
    if pts.len() == 0 {
        Ok((elementary_timescale, None, samples.map_values(|s: StagedSample| carried_candidate(s))))
    } else if pts.len() != dts.len() || offsets.len() != pts.len() {
        Err(Failure::Rejected)
    } else {
        let trimmed = if pts.len() + 1 == samples.len() { samples.drop_last() } else { samples };
        if pts.len() > trimmed.len() + 1 {
            Err(Failure::Rejected)
        } else {
            let a2s = offsets.map_values(|o: u64| anchor_picture(o, trimmed));
            match sample_anchor_map(a2s, trimmed.len(), a2s.len() as int) {
                Err(f) => Err(f),
                Ok(map) => {
                    let drop_last = codec == ProgramStreamVideoCodec::Mp4v && map.len() > 1 && map.last() is Some
                        && pts.len() == trimmed.len();
                    let pictures = if drop_last { trimmed.drop_last() } else { trimmed };
                    let anchors = if drop_last { map.drop_last() } else { map };
                    match ps_video_fold(codec, elementary_timescale, pictures, pts, dts, anchors, pictures.len() as int) {
                        Err(f) => Err(f),
                        Ok(st) => Ok((90_000, st.edit, st.samples)),
                    }
                },
            }
        }
    }
}

/// For each position `j`, the first anchored picture at or after it, or the picture count.
fn next_anchor_table(map: &Vec<Option<usize>>) -> (r: Vec<usize>)
    ensures
        r@.len() == map@.len(),
        forall|j: int| 0 <= j < map@.len() ==> (#[trigger] r@[j]) as int == match next_anchored(map@, j) {
            Some((k, _)) => k,
            None => map@.len() as int,
        },
{
    let n = map.len();
    let mut table: Vec<usize> = Vec::new();
    let mut i: usize = 0;
    while i < n
        invariant
            i <= n,
            n == map@.len(),
            table@.len() == i,
            forall|k: int| 0 <= k < i ==> table@[k] == n,
        decreases n - i,
    {
        table.push(n);
        i = i + 1;
    }
    let mut j: usize = n;
    while j > 0
        invariant
            j <= n,
            n == map@.len(),
            table@.len() == n,
            forall|k: int| j <= k < n ==> (#[trigger] table@[k]) as int == match next_anchored(map@, k) {
                Some((q, _)) => q,
                None => n as int,
            },
        decreases j,
    {
        j = j - 1;
        let next = if map[j].is_some() { j } else if j + 1 < n { table[j + 1] } else { n };
        table.set(j, next);
    }
    table
}

/// Times the pictures from the anchor map.
fn ps_video_samples(
    spec: &str,
    codec: ProgramStreamVideoCodec,
    elementary_timescale: u32,
    samples: &Vec<StagedSample>,
    pts: &[u64],
    dts: &[u64],
    map: &Vec<Option<usize>>,
) -> (r: Result<(Option<u64>, Vec<CandidateSample>), MuxError>)
    requires
        map@.len() == samples@.len(),
        forall|i: int| 0 <= i < map@.len() ==> (#[trigger] map@[i] matches Some(a) ==> a < pts@.len() && a < dts@.len()),
    ensures
        match ps_video_fold(codec, elementary_timescale, samples@, pts@, dts@, map@, samples@.len() as int) {
            Ok(st) => r matches Ok((edit, out)) && edit == st.edit && out@ == st.samples,
            Err(f) => r matches Err(e) && fails_as(e, f, spec@),
        },
{
    let subject = if codec == ProgramStreamVideoCodec::Mpeg2v { "MPEG-2 video" } else { "MPEG-4 Part 2 video" };
    let table = next_anchor_table(map);
    let n = samples.len();
    let mut out: Vec<CandidateSample> = Vec::new();
    let mut edit: Option<u64> = None;
    let mut last_offset: i32 = 0;
    let mut i: usize = 0;
    while i < n
        invariant
            n == samples@.len(),
            map@.len() == n,
            table@.len() == n,
            forall|j: int| 0 <= j < map@.len() ==> (#[trigger] table@[j]) as int == match next_anchored(map@, j) {
                Some((k, _)) => k,
                None => map@.len() as int,
            },
            forall|q: int| 0 <= q < map@.len() ==> (#[trigger] map@[q] matches Some(a) ==> a < pts@.len() && a < dts@.len()),
            i <= n,
            ps_video_fold(codec, elementary_timescale, samples@, pts@, dts@, map@, i as int)
                == Ok::<PsVideoState, Failure>(PsVideoState { samples: out@, edit, last_offset }),
        decreases n - i,
    {
        let s = samples[i];
        let scaled = match scale_duration(spec, subject, "program stream video duration", elementary_timescale, s.duration) {
            Ok(d) => d,
            Err(e) => {
                proof { lemma_ps_video_failure_persists(codec, elementary_timescale, samples@, pts@, dts@, map@, i + 1, n as int); }
                return Err(e);
            },
        };
        let next = if i + 1 < n { table[i + 1] } else { n };
        proof {
            if i + 1 < n {
                assert(table@[i + 1] as int == match next_anchored(map@, i + 1) { Some((k, _)) => k, None => n as int });
            }
            lemma_next_anchored(map@, i + 1);
        }
        let (duration, offset) = match map[i] {
            Some(a) => {
                let p = pts[a];
                let d = dts[a];
                if p < d {
                    proof { lemma_ps_video_failure_persists(codec, elementary_timescale, samples@, pts@, dts@, map@, i + 1, n as int); }
                    return Err(transport_program_error(spec, subject, " presentation timestamps must not precede decode timestamps"));
                }
                let duration = if next < n {
                    let b = match map[next] {
                        Some(b) => b,
                        None => 0,
                    };
                    let next_dts = dts[b];
                    if next_dts <= d {
                        proof { lemma_ps_video_failure_persists(codec, elementary_timescale, samples@, pts@, dts@, map@, i + 1, n as int); }
                        return Err(transport_program_error(spec, subject, " decode timestamps must increase monotonically"));
                    }
                    if next == i + 1 {
                        if next_dts - d > 0xFFFF_FFFF {
                            proof { lemma_ps_video_failure_persists(codec, elementary_timescale, samples@, pts@, dts@, map@, i + 1, n as int); }
                            return Err(overflow("program stream video duration"));
                        }
                        (next_dts - d) as u32
                    } else {
                        scaled
                    }
                } else {
                    scaled
                };
                if p - d > 0x7FFF_FFFF {
                    proof { lemma_ps_video_failure_persists(codec, elementary_timescale, samples@, pts@, dts@, map@, i + 1, n as int); }
                    return Err(overflow("program stream video composition offset"));
                }
                let offset = (p - d) as i32;
                if i == 0 && offset > 0 {
                    edit = Some(offset as u64);
                }
                last_offset = offset;
                (duration, offset)
            },
            None => {
                let duration = if codec == ProgramStreamVideoCodec::Mp4v || next < n { scaled } else { s.duration };
                (duration, last_offset)
            },
        };
        if duration == 0 {
            proof { lemma_ps_video_failure_persists(codec, elementary_timescale, samples@, pts@, dts@, map@, i + 1, n as int); }
            return Err(transport_program_error(spec, subject, " frame duration underflowed after media-timescale normalization"));
        }
        out.push(CandidateSample {
            source_index: UNBOUND_SOURCE_INDEX,
            data_offset: s.data_offset,
            data_size: s.data_size,
            duration,
            composition_time_offset: offset,
            is_sync_sample: s.is_sync_sample,
        });
        i = i + 1;
    }
    Ok((edit, out))
}

/// The import error "program stream {subject}{rest}".
fn transport_program_error(spec: &str, subject: &str, rest: &str) -> (e: MuxError)
    ensures
        crate::error::is_import_error(e, spec@),
{
    let message = String::from_str("program stream ").concat(subject).concat(rest);
    MuxError::UnsupportedTrackImport { spec: spec.to_owned(), message }
}

/// The next anchored picture lies at or after `j`, within the map, and is anchored.
proof fn lemma_next_anchored(map: Seq<Option<usize>>, j: int)
    requires
        0 <= j,
    ensures
        next_anchored(map, j) matches Some((k, a)) ==> j <= k < map.len() && map[k] == Some(a),
    decreases map.len() - j,
{
    if j < map.len() && map[j] is None {
        lemma_next_anchored(map, j + 1);
    }
}

/// Once the fold fails, it fails the same way for more pictures.
proof fn lemma_ps_video_failure_persists(
    codec: ProgramStreamVideoCodec,
    ts: u32,
    samples: Seq<StagedSample>,
    pts: Seq<u64>,
    dts: Seq<u64>,
    map: Seq<Option<usize>>,
    n: int,
    m: int,
)
    requires
        0 <= n <= m,
        ps_video_fold(codec, ts, samples, pts, dts, map, n) is Err,
    ensures
        ps_video_fold(codec, ts, samples, pts, dts, map, m) == ps_video_fold(codec, ts, samples, pts, dts, map, n),
    decreases m - n,
{
    if m > n {
        lemma_ps_video_failure_persists(codec, ts, samples, pts, dts, map, n, m - 1);
    }
}

/// Every picture of a successful anchor map is timed by an anchor among the first `n`.
proof fn lemma_anchor_map_values(a2s: Seq<Option<usize>>, count: nat, n: int)
    requires
        0 <= n <= a2s.len(),
        sample_anchor_map(a2s, count, n) is Ok,
    ensures
        forall|i: int| 0 <= i < sample_anchor_map(a2s, count, n)->Ok_0.len()
            ==> (#[trigger] sample_anchor_map(a2s, count, n)->Ok_0[i] matches Some(a) ==> a < n),
    decreases n,
{
    if n > 0 {
        lemma_anchor_map_values(a2s, count, n - 1);
        lemma_anchor_map_len(a2s, count, n - 1);
        lemma_anchor_map_len(a2s, count, n);
        let prev = sample_anchor_map(a2s, count, n - 1)->Ok_0;
        let cur = sample_anchor_map(a2s, count, n)->Ok_0;
        assert forall|i: int| 0 <= i < cur.len() implies (#[trigger] cur[i] matches Some(a) ==> a < n) by {
            match a2s[n - 1] {
                None => {},
                Some(k) => {
                    if k < count && prev[k as int] is None {
                        if i != k {
                            assert(cur[i] == prev[i]);
                        }
                    }
                },
            }
        }
    }
}

/// Carries staged samples over unchanged.
fn carried_samples(samples: &Vec<StagedSample>) -> (r: Vec<CandidateSample>)
    ensures
        r@ == samples@.map_values(|s: StagedSample| carried_candidate(s)),
{
    let mut out: Vec<CandidateSample> = Vec::new();
    let mut i: usize = 0;
    while i < samples.len()
        invariant
            i <= samples@.len(),
            out@ == samples@.take(i as int).map_values(|s: StagedSample| carried_candidate(s)),
        decreases samples.len() - i,
    {
        let s = samples[i];
        out.push(CandidateSample {
            source_index: UNBOUND_SOURCE_INDEX,
            data_offset: s.data_offset,
            data_size: s.data_size,
            duration: s.duration,
            composition_time_offset: s.composition_time_offset,
            is_sync_sample: s.is_sync_sample,
        });
        assert(samples@.take(i + 1) == samples@.take(i as int).push(s));
        i = i + 1;
    }
    assert(samples@.take(samples@.len() as int) == samples@);
    out
}

/// Normalizes program-stream video timing for either codec.
fn normalize_ps_video(
    spec: &str,
    codec: ProgramStreamVideoCodec,
    elementary_timescale: u32,
    samples: Vec<StagedSample>,
    sample_offsets: &[u64],
    sample_pts: &[u64],
    sample_dts: &[u64],
) -> (r: Result<(u32, Option<u64>, Vec<CandidateSample>), MuxError>)
    ensures
        match ps_video_outcome(codec, elementary_timescale, samples@, sample_offsets@, sample_pts@, sample_dts@) {
            Ok((ts, edit, v)) => r matches Ok((t, e, out)) && t == ts && e == edit && out@ == v,
            Err(f) => r matches Err(e) && fails_as(e, f, spec@),
        },
{
    let subject = if codec == ProgramStreamVideoCodec::Mpeg2v { "MPEG-2 video" } else { "MPEG-4 Part 2 video" };
    if sample_pts.len() == 0 {
        return Ok((elementary_timescale, None, carried_samples(&samples)));
    }
    if sample_pts.len() != sample_dts.len() {
        return Err(transport_program_error(spec, subject, " timing anchors disagreed between presentation and decode timestamps"));
    }
    if sample_offsets.len() != sample_pts.len() {
        return Err(transport_program_error(spec, subject, " timing anchors disagreed between payload offsets and timestamps"));
    }
    let ghost original = samples@;
    let mut samples = samples;
    if samples.len() > 0 && sample_pts.len() == samples.len() - 1 {
        samples.pop();
    }
    assert(samples@ == (if sample_pts@.len() + 1 == original.len() { original.drop_last() } else { original }));
    if sample_pts.len() > samples.len() && sample_pts.len() - samples.len() > 1 {
        return Err(transport_program_error(spec, subject, " PES timing anchors did not match parsed picture count"));
    }
    let anchor_to_sample = map_program_stream_mpeg2v_anchor_offsets_to_picture_samples(sample_offsets, samples.as_slice());
    let mut map = match build_program_stream_mpeg2v_sample_anchor_map(spec, sample_offsets, anchor_to_sample.as_slice(), samples.len()) {
        Ok(m) => m,
        Err(e) => return Err(e),
    };
    proof {
        lemma_anchor_map_len(anchor_to_sample@, samples@.len(), anchor_to_sample@.len() as int);
        lemma_anchor_map_values(anchor_to_sample@, samples@.len(), anchor_to_sample@.len() as int);
    }
    let ghost full_map = map@;
    let ghost trimmed = samples@;
    if codec == ProgramStreamVideoCodec::Mp4v && map.len() > 1 && map[map.len() - 1].is_some()
        && sample_pts.len() == samples.len() {
        samples.pop();
        map.pop();
    }
    proof {
        assert forall|i: int| 0 <= i < map@.len() implies (#[trigger] map@[i] matches Some(a) ==> a < sample_pts@.len() && a < sample_dts@.len()) by {
            assert(map@[i] == full_map[i]);
        }
    }
    match ps_video_samples(spec, codec, elementary_timescale, &samples, sample_pts, sample_dts, &map) {
        Ok((edit, out)) => Ok((90_000, edit, out)),
        Err(e) => Err(e),
    }
}

/// Times program-stream MPEG-2 video pictures on the 90 kHz clock from their PES timestamps.
pub fn normalize_program_stream_mpeg2v_samples(
    spec: &str,
    elementary_timescale: u32,
    samples: Vec<StagedSample>,
    sample_offsets: &[u64],
    sample_pts: &[u64],
    sample_dts: &[u64],
) -> (r: Result<(u32, Option<u64>, Vec<CandidateSample>), MuxError>)
    ensures
        match ps_video_outcome(ProgramStreamVideoCodec::Mpeg2v, elementary_timescale, samples@, sample_offsets@, sample_pts@, sample_dts@) {
            Ok((ts, edit, v)) => r matches Ok((t, e, out)) && t == ts && e == edit && out@ == v,
            Err(f) => r matches Err(e) && fails_as(e, f, spec@),
        },
{
    normalize_ps_video(spec, ProgramStreamVideoCodec::Mpeg2v, elementary_timescale, samples, sample_offsets, sample_pts, sample_dts)
}

/// Times program-stream MPEG-4 Part 2 video pictures on the 90 kHz clock from their PES
/// timestamps.
pub fn normalize_program_stream_mp4v_samples(
    spec: &str,
    elementary_timescale: u32,
    samples: Vec<StagedSample>,
    sample_offsets: &[u64],
    sample_pts: &[u64],
    sample_dts: &[u64],
) -> (r: Result<(u32, Option<u64>, Vec<CandidateSample>), MuxError>)
    ensures
        match ps_video_outcome(ProgramStreamVideoCodec::Mp4v, elementary_timescale, samples@, sample_offsets@, sample_pts@, sample_dts@) {
            Ok((ts, edit, v)) => r matches Ok((t, e, out)) && t == ts && e == edit && out@ == v,
            Err(f) => r matches Err(e) && fails_as(e, f, spec@),
        },
{
    normalize_ps_video(spec, ProgramStreamVideoCodec::Mp4v, elementary_timescale, samples, sample_offsets, sample_pts, sample_dts)
}

} // verus!
