use vstd::prelude::*;

verus! {

/// A media item after interleaving: which track it belongs to, where its bytes land in the
/// output payload, and when its decode interval ends.
#[derive(Clone, Copy, Debug, PartialEq, Eq)]
pub struct MuxPlannedMediaItem {
    pub track_id: u32,
    pub decode_time: u64,
    pub decode_end_time: u64,
    pub output_offset: u64,
    pub output_end_offset: u64,
}

impl MuxPlannedMediaItem {
    pub fn track_id(&self) -> (r: u32)
        ensures
            r == self.track_id,
    {
        self.track_id
    }

    pub fn output_offset(&self) -> (r: u64)
        ensures
            r == self.output_offset,
    {
        self.output_offset
    }

    pub fn output_end_offset(&self) -> (r: u64)
        ensures
            r == self.output_end_offset,
    {
        self.output_end_offset
    }

    pub fn decode_end_time(&self) -> (r: u64)
        ensures
            r == self.decode_end_time,
    {
        self.decode_end_time
    }
}

/// The per-track summary the planner produced.
#[derive(Clone, Copy, Debug, PartialEq, Eq)]
pub struct MuxTrackPlan {
    pub track_id: u32,
    pub item_count: u32,
    pub first_decode_time: u64,
    pub end_decode_time: u64,
}

/// Which kind of duration boundary a coordination directive asks for.
#[derive(Clone, Copy, Debug, PartialEq, Eq, Structural)]
pub enum MuxDurationBoundaryKind {
    Segment,
    Fragment,
}

/// A boundary that follows the sample with index `sample_index` within track `track_id`.
#[derive(Clone, Copy, Debug, PartialEq, Eq)]
pub struct MuxDurationBoundary {
    pub track_id: u32,
    pub sample_index: u32,
    pub kind: MuxDurationBoundaryKind,
}

/// The duration boundaries that cross-track coordination placed.
#[derive(Clone, Debug, PartialEq, Eq)]
pub struct MuxCoordinationPlan {
    pub boundaries: Vec<MuxDurationBoundary>,
}

/// The first boundary listed after sample `sample_index` of `track_id`, looking from `i` on.
pub open spec fn boundary_from(b: Seq<MuxDurationBoundary>, track_id: u32, sample_index: u32, i: int) -> Option<MuxDurationBoundaryKind>
    decreases b.len() - i,
{
    if i < 0 || i >= b.len() {
        None
    } else if b[i].track_id == track_id && b[i].sample_index == sample_index {
        Some(b[i].kind)
    } else {
        boundary_from(b, track_id, sample_index, i + 1)
    }
}

impl MuxCoordinationPlan {
    /// The boundary, if any, that follows sample `sample_index` of `track_id`.
    pub open spec fn boundary_after(&self, track_id: u32, sample_index: u32) -> Option<MuxDurationBoundaryKind> {
        boundary_from(self.boundaries@, track_id, sample_index, 0)
    }

    /// Looks up the boundary that follows sample `sample_index` of `track_id`.
    pub fn duration_boundary_after_sample(&self, track_id: u32, sample_index: u32) -> (r: Option<MuxDurationBoundaryKind>)
        ensures
            r == self.boundary_after(track_id, sample_index),
    {
        let mut i: usize = 0;
        while i < self.boundaries.len()
            invariant
                i <= self.boundaries@.len(),
                self.boundary_after(track_id, sample_index) == boundary_from(self.boundaries@, track_id, sample_index, i as int),
            decreases self.boundaries.len() - i,
        {
            let b = self.boundaries[i];
            if b.track_id == track_id && b.sample_index == sample_index {
                return Some(b.kind);
            }
            i = i + 1;
        }
        None
    }
}

/// Describes one output stream before its samples.
#[derive(Clone, Copy, Debug, PartialEq, Eq)]
pub struct MuxStreamDescription {
    pub stream_index: usize,
    pub track_id: u32,
    pub item_count: u32,
    pub first_decode_time: u64,
    pub end_decode_time: u64,
    pub first_output_offset: u64,
    pub end_output_offset: u64,
}

/// One sample, with its stream and its position within that stream.
#[derive(Clone, Copy, Debug, PartialEq, Eq)]
pub struct MuxSampleEvent {
    pub stream_index: usize,
    pub sample_index_in_stream: u32,
    pub planned_item: MuxPlannedMediaItem,
}

impl MuxSampleEvent {
    /// The planned item this event carries.
    pub fn planned_item(&self) -> (r: &MuxPlannedMediaItem)
        ensures
            *r == self.planned_item,
    {
        &self.planned_item
    }
}

#[derive(Clone, Copy, Debug, PartialEq, Eq, Structural)]
pub enum MuxBoundaryEventKind {
    SegmentBoundary,
    FragmentBoundary,
    TrackDrain,
    PlanEnd,
}

#[derive(Clone, Copy, Debug, PartialEq, Eq)]
pub struct MuxBoundaryEvent {
    pub kind: MuxBoundaryEventKind,
    pub stream_index: Option<usize>,
    pub track_id: Option<u32>,
    pub output_offset: u64,
    pub decode_time: u64,
}

#[derive(Clone, Copy, Debug, PartialEq, Eq)]
pub enum MuxEvent {
    StreamDescription(MuxStreamDescription),
    Sample(MuxSampleEvent),
    Boundary(MuxBoundaryEvent),
}

/// The event kind a duration boundary produces.
pub open spec fn spec_boundary_kind(kind: MuxDurationBoundaryKind) -> MuxBoundaryEventKind {
    match kind {
        MuxDurationBoundaryKind::Segment => MuxBoundaryEventKind::SegmentBoundary,
        MuxDurationBoundaryKind::Fragment => MuxBoundaryEventKind::FragmentBoundary,
    }
}

/// Maps a duration boundary onto the event kind it produces.
pub fn boundary_kind_from_duration(kind: MuxDurationBoundaryKind) -> (r: MuxBoundaryEventKind)
    ensures
        r == spec_boundary_kind(kind),
{
    match kind {
        MuxDurationBoundaryKind::Segment => MuxBoundaryEventKind::SegmentBoundary,
        MuxDurationBoundaryKind::Fragment => MuxBoundaryEventKind::FragmentBoundary,
    }
}

/// The stream index of `track_id`: the last plan among the first `n` that carries it, or -1.
pub open spec fn stream_index_in(plans: Seq<MuxTrackPlan>, track_id: u32, n: int) -> int
    decreases n,
{
    if n <= 0 {
        -1
    } else if plans[n - 1].track_id == track_id {
        n - 1
    } else {
        stream_index_in(plans, track_id, n - 1)
    }
}

/// The stream index of `track_id` among all plans.
pub open spec fn stream_index_of(plans: Seq<MuxTrackPlan>, track_id: u32) -> int {
    stream_index_in(plans, track_id, plans.len() as int)
}

/// The first of the first `n` items that belongs to `track_id`.
pub open spec fn first_item_of(items: Seq<MuxPlannedMediaItem>, track_id: u32, n: int) -> Option<int>
    decreases n,
{
    if n <= 0 {
        None
    } else {
        match first_item_of(items, track_id, n - 1) {
            Some(k) => Some(k),
            None => if items[n - 1].track_id == track_id { Some(n - 1) } else { None },
        }
    }
}

/// The last of the first `n` items that belongs to `track_id`.
pub open spec fn last_item_of(items: Seq<MuxPlannedMediaItem>, track_id: u32, n: int) -> Option<int>
    decreases n,
{
    if n <= 0 {
        None
    } else if items[n - 1].track_id == track_id {
        Some(n - 1)
    } else {
        last_item_of(items, track_id, n - 1)
    }
}

/// How many of the first `n` items belong to `track_id`.
pub open spec fn count_of_track(items: Seq<MuxPlannedMediaItem>, track_id: u32, n: int) -> nat
    decreases n,
{
    if n <= 0 {
        0
    } else {
        count_of_track(items, track_id, n - 1) + if items[n - 1].track_id == track_id { 1nat } else { 0nat }
    }
}

/// The latest decode end among the first `n` items (0 when there are none).
pub open spec fn max_decode_end(items: Seq<MuxPlannedMediaItem>, n: int) -> u64
    decreases n,
{
    if n <= 0 {
        0
    } else {
        let m = max_decode_end(items, n - 1);
        if items[n - 1].decode_end_time > m { items[n - 1].decode_end_time } else { m }
    }
}

/// The description of stream `j`.
pub open spec fn description_event(plans: Seq<MuxTrackPlan>, items: Seq<MuxPlannedMediaItem>, total: u64, j: int) -> MuxEvent {
    let p = plans[j];
    MuxEvent::StreamDescription(MuxStreamDescription {
        stream_index: j as usize,
        track_id: p.track_id,
        item_count: p.item_count,
        first_decode_time: p.first_decode_time,
        end_decode_time: p.end_decode_time,
        first_output_offset: match first_item_of(items, p.track_id, items.len() as int) {
            Some(k) => items[k].output_offset,
            None => total,
        },
        end_output_offset: match last_item_of(items, p.track_id, items.len() as int) {
            Some(k) => items[k].output_end_offset,
            None => total,
        },
    })
}

/// The descriptions of the first `n` streams.
pub open spec fn description_events(plans: Seq<MuxTrackPlan>, items: Seq<MuxPlannedMediaItem>, total: u64, n: int) -> Seq<MuxEvent>
    decreases n,
{
    if n <= 0 {
        Seq::empty()
    } else {
        description_events(plans, items, total, n - 1).push(description_event(plans, items, total, n - 1))
    }
}

/// The events item `i` produces: its sample, a duration boundary where coordination places
/// one after it, and a track drain when it is the last item of its track.
pub open spec fn item_events(
    plans: Seq<MuxTrackPlan>,
    items: Seq<MuxPlannedMediaItem>,
    coordination: MuxCoordinationPlan,
    i: int,
) -> Seq<MuxEvent> {
    let item = items[i];
    let t = item.track_id;
    let s = stream_index_of(plans, t);
    let k = count_of_track(items, t, i);
    let sample = seq![MuxEvent::Sample(MuxSampleEvent { stream_index: s as usize, sample_index_in_stream: k as u32, planned_item: item })];
    let boundary = match coordination.boundary_after(t, k as u32) {
        Some(kind) => seq![MuxEvent::Boundary(MuxBoundaryEvent {
            kind: spec_boundary_kind(kind),
            stream_index: Some(s as usize),
            track_id: Some(t),
            output_offset: item.output_end_offset,
            decode_time: item.decode_end_time,
        })],
        None => Seq::empty(),
    };
    let drain = if last_item_of(items, t, items.len() as int) == Some(i) {
        seq![MuxEvent::Boundary(MuxBoundaryEvent {
            kind: MuxBoundaryEventKind::TrackDrain,
            stream_index: Some(s as usize),
            track_id: Some(t),
            output_offset: item.output_end_offset,
            decode_time: item.decode_end_time,
        })]
    } else {
        Seq::empty()
    };
    sample + boundary + drain
}

/// The events of the first `n` items, in order.
pub open spec fn items_events(
    plans: Seq<MuxTrackPlan>,
    items: Seq<MuxPlannedMediaItem>,
    coordination: MuxCoordinationPlan,
    n: int,
) -> Seq<MuxEvent>
    decreases n,
{
    if n <= 0 {
        Seq::empty()
    } else {
        items_events(plans, items, coordination, n - 1) + item_events(plans, items, coordination, n - 1)
    }
}

/// The whole event graph: stream descriptions, then each item's events, then the plan end.
pub open spec fn event_graph(
    plans: Seq<MuxTrackPlan>,
    items: Seq<MuxPlannedMediaItem>,
    total: u64,
    coordination: MuxCoordinationPlan,
) -> Seq<MuxEvent> {
    description_events(plans, items, total, plans.len() as int) + items_events(plans, items, coordination, items.len() as int).push(
        MuxEvent::Boundary(MuxBoundaryEvent {
            kind: MuxBoundaryEventKind::PlanEnd,
            stream_index: None,
            track_id: None,
            output_offset: total,
            decode_time: max_decode_end(items, items.len() as int),
        }),
    )
}

/// Every item belongs to a planned track.
pub open spec fn items_have_plans(plans: Seq<MuxTrackPlan>, items: Seq<MuxPlannedMediaItem>) -> bool {
    forall|i: int| 0 <= i < items.len() ==> stream_index_of(plans, #[trigger] items[i].track_id) >= 0
}

/// The stream index found is a plan of that track, among the first `n`.
pub proof fn lemma_stream_index_in(plans: Seq<MuxTrackPlan>, track_id: u32, n: int)
    requires
        0 <= n <= plans.len(),
    ensures
        -1 <= stream_index_in(plans, track_id, n) < n,
        stream_index_in(plans, track_id, n) >= 0 ==> plans[stream_index_in(plans, track_id, n)].track_id == track_id,
    decreases n,
{
    if n > 0 {
        lemma_stream_index_in(plans, track_id, n - 1);
    }
}

/// No more items of a track than items.
pub proof fn lemma_count_of_track_le(items: Seq<MuxPlannedMediaItem>, track_id: u32, n: int)
    requires
        0 <= n,
    ensures
        count_of_track(items, track_id, n) <= n,
    decreases n,
{
    if n > 0 {
        lemma_count_of_track_le(items, track_id, n - 1);
    }
}

/// The found first and last items lie in range and belong to the track.
pub proof fn lemma_first_last_item(items: Seq<MuxPlannedMediaItem>, track_id: u32, n: int)
    requires
        0 <= n <= items.len(),
    ensures
        first_item_of(items, track_id, n) matches Some(k) ==> 0 <= k < n && items[k].track_id == track_id,
        last_item_of(items, track_id, n) matches Some(k) ==> 0 <= k < n && items[k].track_id == track_id,
    decreases n,
{
    if n > 0 {
        lemma_first_last_item(items, track_id, n - 1);
    }
}

/// Finds the stream index of `track_id`.
fn find_stream_index(plans: &[MuxTrackPlan], track_id: u32) -> (r: Option<usize>)
    ensures
        match r {
            Some(k) => k as int == stream_index_of(plans@, track_id),
            None => stream_index_of(plans@, track_id) == -1,
        },
{
    let mut found: Option<usize> = None;
    let mut i: usize = 0;
    while i < plans.len()
        invariant
            i <= plans@.len(),
            match found {
                Some(k) => k as int == stream_index_in(plans@, track_id, i as int),
                None => stream_index_in(plans@, track_id, i as int) == -1,
            },
        decreases plans.len() - i,
    {
        if plans[i].track_id == track_id {
            found = Some(i);
        }
        i = i + 1;
    }
    found
}

/// The output offset of the first item of `track_id`, or `total` when it has none.
fn first_output_offset_for(items: &[MuxPlannedMediaItem], track_id: u32, total: u64) -> (r: u64)
    ensures
        r == match first_item_of(items@, track_id, items@.len() as int) {
            Some(k) => items@[k].output_offset,
            None => total,
        },
{
    let mut i: usize = 0;
    while i < items.len()
        invariant
            i <= items@.len(),
            first_item_of(items@, track_id, i as int) is None,
        decreases items.len() - i,
    {
        if items[i].track_id == track_id {
            proof { lemma_first_item_stable(items@, track_id, i + 1, items@.len() as int); }
            return items[i].output_offset;
        }
        i = i + 1;
    }
    total
}

/// Once the first item is found within a prefix, longer prefixes agree.
pub proof fn lemma_first_item_stable(items: Seq<MuxPlannedMediaItem>, track_id: u32, n: int, m: int)
    requires
        0 <= n <= m <= items.len(),
        first_item_of(items, track_id, n) is Some,
    ensures
        first_item_of(items, track_id, m) == first_item_of(items, track_id, n),
    decreases m - n,
{
    if m > n {
        lemma_first_item_stable(items, track_id, n, m - 1);
    }
}

/// The last item of `track_id`, if any.
fn last_item_for(items: &[MuxPlannedMediaItem], track_id: u32) -> (r: Option<usize>)
    ensures
        match r {
            Some(k) => last_item_of(items@, track_id, items@.len() as int) == Some(k as int),
            None => last_item_of(items@, track_id, items@.len() as int) is None,
        },
{
    let mut found: Option<usize> = None;
    let mut i: usize = 0;
    while i < items.len()
        invariant
            i <= items@.len(),
            match found {
                Some(k) => last_item_of(items@, track_id, i as int) == Some(k as int),
                None => last_item_of(items@, track_id, i as int) is None,
            },
        decreases items.len() - i,
    {
        if items[i].track_id == track_id {
            found = Some(i);
        }
        i = i + 1;
    }
    found
}

/// The ordered stream of events a muxer consumes to write its output.
#[derive(Clone, Debug, PartialEq, Eq)]
pub struct MuxEventGraph {
    pub events: Vec<MuxEvent>,
}

impl MuxEventGraph {
    /// Builds the event graph of a plan: one description per track plan, then for each
    /// planned item its sample event, any duration boundary coordination places after it, and
    /// a track drain after the last item of each track, then the plan end at `total_payload_size`
    /// and the latest decode end.
    pub fn from_plan(
        planned_items: &[MuxPlannedMediaItem],
        track_plans: &[MuxTrackPlan],
        total_payload_size: u64,
        coordination: &MuxCoordinationPlan,
    ) -> (r: Self)
        requires
            items_have_plans(track_plans@, planned_items@),
            planned_items@.len() <= u32::MAX,
        ensures
            r.events@ == event_graph(track_plans@, planned_items@, total_payload_size, *coordination),
    {
        let ghost plans = track_plans@;
        let ghost items = planned_items@;
        let mut events: Vec<MuxEvent> = Vec::new();
        let mut j: usize = 0;
        while j < track_plans.len()
            invariant
                j <= plans.len(),
                plans == track_plans@,
                items == planned_items@,
                events@ == description_events(plans, items, total_payload_size, j as int),
            decreases track_plans.len() - j,
        {
            let plan = track_plans[j];
            let first_output_offset = first_output_offset_for(planned_items, plan.track_id, total_payload_size);
            proof { lemma_first_last_item(items, plan.track_id, items.len() as int); }
            let end_output_offset = match last_item_for(planned_items, plan.track_id) {
                Some(k) => planned_items[k].output_end_offset,
                None => total_payload_size,
            };
            events.push(MuxEvent::StreamDescription(MuxStreamDescription {
                stream_index: j,
                track_id: plan.track_id,
                item_count: plan.item_count,
                first_decode_time: plan.first_decode_time,
                end_decode_time: plan.end_decode_time,
                first_output_offset,
                end_output_offset,
            }));
            j = j + 1;
        }
        let mut counts: Vec<u32> = Vec::new();
        let mut c: usize = 0;
        while c < track_plans.len()
            invariant
                c <= plans.len(),
                plans == track_plans@,
                counts@.len() == c,
                forall|s: int| 0 <= s < c ==> counts@[s] == 0,
            decreases track_plans.len() - c,
        {
            counts.push(0);
            c = c + 1;
        }
        let mut max_decode_end_time: u64 = 0;
        let mut i: usize = 0;
        while i < planned_items.len()
            invariant
                i <= items.len(),
                plans == track_plans@,
                items == planned_items@,
                items_have_plans(plans, items),
                items.len() <= u32::MAX,
                counts@.len() == plans.len(),
                forall|s: int| 0 <= s < plans.len() && s == stream_index_of(plans, plans[s].track_id)
                    ==> #[trigger] counts@[s] == count_of_track(items, plans[s].track_id, i as int),
                max_decode_end_time == max_decode_end(items, i as int),
                events@ == description_events(plans, items, total_payload_size, plans.len() as int) + items_events(
                    plans,
                    items,
                    *coordination,
                    i as int,
                ),
            decreases planned_items.len() - i,
        {
            let item = planned_items[i];
            let track_id = item.track_id;
            assert(stream_index_of(plans, items[i as int].track_id) >= 0);
            proof { lemma_stream_index_in(plans, track_id, plans.len() as int); }
            let stream_index = match find_stream_index(track_plans, track_id) {
                Some(k) => k,
                None => { assert(false); 0 },
            };
            proof { lemma_count_of_track_le(items, track_id, i as int); }
            let current_sample_index = counts[stream_index];
            let ghost before = events@;
            events.push(MuxEvent::Sample(MuxSampleEvent {
                stream_index,
                sample_index_in_stream: current_sample_index,
                planned_item: item,
            }));
            let mut new_counts = counts;
            new_counts.set(stream_index, current_sample_index + 1);
            counts = new_counts;
            proof {
                assert forall|s: int| 0 <= s < plans.len() && s == stream_index_of(plans, plans[s].track_id)
                    implies #[trigger] counts@[s] == count_of_track(items, plans[s].track_id, i + 1) by {
                    if s != stream_index {
                        lemma_stream_index_in(plans, plans[s].track_id, plans.len() as int);
                    }
                }
            }
            match coordination.duration_boundary_after_sample(track_id, current_sample_index) {
                Some(kind) => {
                    events.push(MuxEvent::Boundary(MuxBoundaryEvent {
                        kind: boundary_kind_from_duration(kind),
                        stream_index: Some(stream_index),
                        track_id: Some(track_id),
                        output_offset: item.output_end_offset,
                        decode_time: item.decode_end_time,
                    }));
                },
                None => {},
            }
            let last = last_item_for(planned_items, track_id);
            let is_last = match last {
                Some(k) => k == i,
                None => false,
            };
            if is_last {
                events.push(MuxEvent::Boundary(MuxBoundaryEvent {
                    kind: MuxBoundaryEventKind::TrackDrain,
                    stream_index: Some(stream_index),
                    track_id: Some(track_id),
                    output_offset: item.output_end_offset,
                    decode_time: item.decode_end_time,
                }));
            }
            if item.decode_end_time > max_decode_end_time {
                max_decode_end_time = item.decode_end_time;
            }
            proof {
                assert(events@ =~= before + item_events(plans, items, *coordination, i as int));
            }
            i = i + 1;
        }
        events.push(MuxEvent::Boundary(MuxBoundaryEvent {
            kind: MuxBoundaryEventKind::PlanEnd,
            stream_index: None,
            track_id: None,
            output_offset: total_payload_size,
            decode_time: max_decode_end_time,
        }));
        MuxEventGraph { events }
    }

    /// A cursor at the first event.
    pub fn cursor(&self) -> (r: MuxEventCursor<'_>)
        ensures
            r.events@ == self.events@,
            r.index == 0,
    {
        MuxEventCursor { events: self.events.as_slice(), index: 0 }
    }

    /// All events, in order.
    pub fn events(&self) -> (r: &[MuxEvent])
        ensures
            r@ == self.events@,
    {
        self.events.as_slice()
    }
}

/// The position of the first sample event at or after `i`.
pub open spec fn next_sample_from(events: Seq<MuxEvent>, i: int) -> Option<int>
    decreases events.len() - i,
{
    if i < 0 || i >= events.len() {
        None
    } else if events[i] is Sample {
        Some(i)
    } else {
        next_sample_from(events, i + 1)
    }
}

/// A position in an event graph.
pub struct MuxEventCursor<'a> {
    pub events: &'a [MuxEvent],
    pub index: usize,
}

impl<'a> MuxEventCursor<'a> {
    /// Advances past the next sample event and returns it; non-sample events are skipped.
    /// At the end of the graph nothing is returned and the cursor rests at the end.
    pub fn next_sample(&mut self) -> (r: Option<&'a MuxSampleEvent>)
        ensures
            final(self).events@ == old(self).events@,
            match next_sample_from(old(self).events@, old(self).index as int) {
                Some(k) => r matches Some(s) && old(self).events@[k] == MuxEvent::Sample(*s)
                    && final(self).index == k + 1,
                None => r is None && (old(self).index <= old(self).events@.len() ==> final(self).index == old(self).events@.len())
                    && (old(self).index > old(self).events@.len() ==> final(self).index == old(self).index),
            },
    {
        let ghost start = self.index as int;
        while self.index < self.events.len()
            invariant
                self.events@ == old(self).events@,
                start == old(self).index,
                start <= self.index,
                start <= self.events@.len() ==> self.index <= self.events@.len(),
                start > self.events@.len() ==> self.index == start,
                next_sample_from(self.events@, start) == next_sample_from(self.events@, self.index as int),
            decreases self.events.len() - self.index,
        {
            let event = &self.events[self.index];
            self.index = self.index + 1;
            match event {
                MuxEvent::Sample(sample) => return Some(sample),
                _ => {},
            }
        }
        None
    }
}

/// Every event graph ends with the plan-end boundary at the total payload size and the latest
/// decode end of all items.
pub proof fn lemma_event_graph_ends_with_plan_end(
    plans: Seq<MuxTrackPlan>,
    items: Seq<MuxPlannedMediaItem>,
    total: u64,
    coordination: MuxCoordinationPlan,
)
    ensures
        event_graph(plans, items, total, coordination).last() == MuxEvent::Boundary(MuxBoundaryEvent {
            kind: MuxBoundaryEventKind::PlanEnd,
            stream_index: None,
            track_id: None,
            output_offset: total,
            decode_time: max_decode_end(items, items.len() as int),
        }),
{
}

/// The planned items carried by the sample events of `events`, in order.
pub open spec fn sample_items(events: Seq<MuxEvent>) -> Seq<MuxPlannedMediaItem>
    decreases events.len(),
{
    if events.len() == 0 {
        Seq::empty()
    } else {
        let rest = sample_items(events.drop_last());
        match events.last() {
            MuxEvent::Sample(s) => rest.push(s.planned_item),
            _ => rest,
        }
    }
}

proof fn lemma_sample_items_concat(a: Seq<MuxEvent>, b: Seq<MuxEvent>)
    ensures
        sample_items(a + b) == sample_items(a) + sample_items(b),
    decreases b.len(),
{
    if b.len() == 0 {
        assert(a + b =~= a);
        assert(sample_items(a) + sample_items(b) =~= sample_items(a));
    } else {
        assert((a + b).drop_last() =~= a + b.drop_last());
        lemma_sample_items_concat(a, b.drop_last());
        match b.last() {
            MuxEvent::Sample(s) => {
                assert(sample_items(a) + sample_items(b.drop_last()).push(s.planned_item)
                    =~= (sample_items(a) + sample_items(b.drop_last())).push(s.planned_item));
            },
            _ => {},
        }
    }
}

proof fn lemma_description_events_no_samples(plans: Seq<MuxTrackPlan>, items: Seq<MuxPlannedMediaItem>, total: u64, n: int)
    ensures
        sample_items(description_events(plans, items, total, n)) =~= Seq::<MuxPlannedMediaItem>::empty(),
    decreases n,
{
    if n > 0 {
        lemma_description_events_no_samples(plans, items, total, n - 1);
        let d = description_events(plans, items, total, n);
        assert(d.drop_last() =~= description_events(plans, items, total, n - 1));
    }
}

proof fn lemma_item_events_sample(
    plans: Seq<MuxTrackPlan>,
    items: Seq<MuxPlannedMediaItem>,
    coordination: MuxCoordinationPlan,
    i: int,
)
    requires
        0 <= i < items.len(),
    ensures
        sample_items(item_events(plans, items, coordination, i)) =~= seq![items[i]],
{
    let e = item_events(plans, items, coordination, i);
    let first = e.subrange(0, 1);
    let tail = e.subrange(1, e.len() as int);
    assert(e =~= first + tail);
    lemma_sample_items_concat(first, tail);
    let item = items[i];
    let t = item.track_id;
    let sample = MuxEvent::Sample(MuxSampleEvent {
        stream_index: stream_index_of(plans, t) as usize,
        sample_index_in_stream: count_of_track(items, t, i) as u32,
        planned_item: item,
    });
    assert(e[0] == sample);
    assert(first.drop_last() =~= Seq::<MuxEvent>::empty());
    assert(first.last() == sample);
    assert(sample_items(Seq::<MuxEvent>::empty()) =~= Seq::<MuxPlannedMediaItem>::empty());
    assert(sample_items(first) =~= seq![item]);
    assert(forall|j: int| 0 <= j < tail.len() ==> #[trigger] tail[j] is Boundary);
    lemma_no_samples(tail);
}

proof fn lemma_no_samples(events: Seq<MuxEvent>)
    requires
        forall|j: int| 0 <= j < events.len() ==> #[trigger] events[j] is Boundary,
    ensures
        sample_items(events) =~= Seq::<MuxPlannedMediaItem>::empty(),
    decreases events.len(),
{
    if events.len() > 0 {
        let d = events.drop_last();
        assert forall|j: int| 0 <= j < d.len() implies #[trigger] d[j] is Boundary by {
            assert(d[j] == events[j]);
        }
        lemma_no_samples(d);
    }
}

proof fn lemma_items_events_samples(
    plans: Seq<MuxTrackPlan>,
    items: Seq<MuxPlannedMediaItem>,
    coordination: MuxCoordinationPlan,
    n: int,
)
    requires
        0 <= n <= items.len(),
    ensures
        sample_items(items_events(plans, items, coordination, n)) =~= items.subrange(0, n),
    decreases n,
{
    if n > 0 {
        lemma_items_events_samples(plans, items, coordination, n - 1);
        lemma_sample_items_concat(items_events(plans, items, coordination, n - 1), item_events(plans, items, coordination, n - 1));
        lemma_item_events_sample(plans, items, coordination, n - 1);
        assert(items.subrange(0, n - 1) + seq![items[n - 1]] =~= items.subrange(0, n));
    }
}

/// The sample events of an event graph carry exactly the planned items, each once and in plan
/// order, whatever the track plans and the coordination add around them.
pub proof fn lemma_event_graph_samples_are_plan(
    plans: Seq<MuxTrackPlan>,
    items: Seq<MuxPlannedMediaItem>,
    total: u64,
    coordination: MuxCoordinationPlan,
)
    ensures
        sample_items(event_graph(plans, items, total, coordination)) == items,
{
    let d = description_events(plans, items, total, plans.len() as int);
    let body = items_events(plans, items, coordination, items.len() as int);
    let g = event_graph(plans, items, total, coordination);
    assert(g.drop_last() =~= d + body);
    lemma_sample_items_concat(d, body);
    lemma_description_events_no_samples(plans, items, total, plans.len() as int);
    lemma_items_events_samples(plans, items, coordination, items.len() as int);
    assert(items.subrange(0, items.len() as int) =~= items);
    assert(Seq::<MuxPlannedMediaItem>::empty() + items =~= items);
}

} // verus!
