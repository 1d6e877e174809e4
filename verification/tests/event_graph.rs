use mux_demux::event::{
    MuxBoundaryEvent, MuxBoundaryEventKind, MuxCoordinationPlan, MuxDurationBoundary,
    MuxDurationBoundaryKind, MuxEvent, MuxEventGraph, MuxPlannedMediaItem, MuxSampleEvent,
    MuxStreamDescription, MuxTrackPlan,
};

fn item(track_id: u32, decode_time: u64, decode_end_time: u64, output_offset: u64, output_end_offset: u64) -> MuxPlannedMediaItem {
    MuxPlannedMediaItem { track_id, decode_time, decode_end_time, output_offset, output_end_offset }
}

fn plan(track_id: u32, item_count: u32, first_decode_time: u64, end_decode_time: u64) -> MuxTrackPlan {
    MuxTrackPlan { track_id, item_count, first_decode_time, end_decode_time }
}

fn no_coordination() -> MuxCoordinationPlan {
    MuxCoordinationPlan { boundaries: vec![] }
}

#[test]
fn event_graph_emits_streams_samples_track_drains_and_plan_end() {
    let items = vec![item(2, 0, 4, 0, 5), item(1, 0, 5, 5, 9), item(2, 10, 14, 9, 11)];
    let plans = vec![plan(1, 1, 0, 5), plan(2, 2, 0, 14)];
    let graph = MuxEventGraph::from_plan(&items, &plans, 11, &no_coordination());
    let events = graph.events();
    assert!(matches!(
        &events[0],
        MuxEvent::StreamDescription(MuxStreamDescription {
            stream_index: 0,
            track_id: 1,
            item_count: 1,
            first_decode_time: 0,
            end_decode_time: 5,
            first_output_offset: 5,
            end_output_offset: 9,
        })
    ));
    assert!(matches!(
        &events[1],
        MuxEvent::StreamDescription(MuxStreamDescription {
            stream_index: 1,
            track_id: 2,
            item_count: 2,
            first_decode_time: 0,
            end_decode_time: 14,
            first_output_offset: 0,
            end_output_offset: 11,
        })
    ));
    assert!(matches!(
        &events[2],
        MuxEvent::Sample(MuxSampleEvent {
            stream_index: 1,
            sample_index_in_stream: 0,
            planned_item,
        }) if planned_item.output_offset() == 0
    ));
    assert!(matches!(
        &events[3],
        MuxEvent::Sample(MuxSampleEvent {
            stream_index: 0,
            sample_index_in_stream: 0,
            planned_item,
        }) if planned_item.output_offset() == 5
    ));
    assert!(matches!(
        &events[4],
        MuxEvent::Boundary(MuxBoundaryEvent {
            kind: MuxBoundaryEventKind::TrackDrain,
            stream_index: Some(0),
            track_id: Some(1),
            output_offset: 9,
            decode_time: 5,
        })
    ));
    assert!(matches!(
        &events[5],
        MuxEvent::Sample(MuxSampleEvent {
            stream_index: 1,
            sample_index_in_stream: 1,
            planned_item,
        }) if planned_item.output_offset() == 9
    ));
    assert!(matches!(
        &events[6],
        MuxEvent::Boundary(MuxBoundaryEvent {
            kind: MuxBoundaryEventKind::TrackDrain,
            stream_index: Some(1),
            track_id: Some(2),
            output_offset: 11,
            decode_time: 14,
        })
    ));
    assert!(matches!(
        &events[7],
        MuxEvent::Boundary(MuxBoundaryEvent {
            kind: MuxBoundaryEventKind::PlanEnd,
            stream_index: None,
            track_id: None,
            output_offset: 11,
            decode_time: 14,
        })
    ));
    assert_eq!(events.len(), 8);
}

#[test]
fn event_cursor_skips_non_sample_events_when_asked_for_samples() {
    let items = vec![item(1, 0, 4, 0, 5), item(2, 5, 9, 5, 9)];
    let plans = vec![plan(1, 1, 0, 4), plan(2, 1, 5, 9)];
    let graph = MuxEventGraph::from_plan(&items, &plans, 9, &no_coordination());

    let mut cursor = graph.cursor();

    let first = cursor.next_sample().unwrap();
    assert_eq!(first.stream_index, 0);
    assert_eq!(first.sample_index_in_stream, 0);
    assert_eq!(first.planned_item.output_offset(), 0);

    let second = cursor.next_sample().unwrap();
    assert_eq!(second.stream_index, 1);
    assert_eq!(second.sample_index_in_stream, 0);
    assert_eq!(second.planned_item.output_offset(), 5);

    assert!(cursor.next_sample().is_none());
}

#[test]
fn event_graph_emits_duration_boundaries_from_coordination() {
    let items = vec![item(7, 0, 10, 0, 3), item(7, 10, 20, 3, 6), item(7, 20, 30, 6, 9)];
    let plans = vec![plan(7, 3, 0, 30)];
    let coordination = MuxCoordinationPlan {
        boundaries: vec![
            MuxDurationBoundary { track_id: 7, sample_index: 1, kind: MuxDurationBoundaryKind::Fragment },
            MuxDurationBoundary { track_id: 7, sample_index: 2, kind: MuxDurationBoundaryKind::Fragment },
        ],
    };
    let graph = MuxEventGraph::from_plan(&items, &plans, 9, &coordination);
    let events = graph.events();
    assert!(matches!(
        &events[3],
        MuxEvent::Boundary(MuxBoundaryEvent {
            kind: MuxBoundaryEventKind::FragmentBoundary,
            stream_index: Some(0),
            track_id: Some(7),
            output_offset: 6,
            decode_time: 20,
        })
    ));
    assert!(matches!(
        &events[5],
        MuxEvent::Boundary(MuxBoundaryEvent {
            kind: MuxBoundaryEventKind::FragmentBoundary,
            stream_index: Some(0),
            track_id: Some(7),
            output_offset: 9,
            decode_time: 30,
        })
    ));
    assert!(matches!(
        &events[6],
        MuxEvent::Boundary(MuxBoundaryEvent {
            kind: MuxBoundaryEventKind::TrackDrain,
            stream_index: Some(0),
            track_id: Some(7),
            output_offset: 9,
            decode_time: 30,
        })
    ));
}

#[test]
fn coordination_lookup_finds_first_listed_boundary() {
    let coordination = MuxCoordinationPlan {
        boundaries: vec![
            MuxDurationBoundary { track_id: 3, sample_index: 4, kind: MuxDurationBoundaryKind::Segment },
            MuxDurationBoundary { track_id: 3, sample_index: 4, kind: MuxDurationBoundaryKind::Fragment },
        ],
    };
    assert_eq!(coordination.duration_boundary_after_sample(3, 4), Some(MuxDurationBoundaryKind::Segment));
    assert_eq!(coordination.duration_boundary_after_sample(3, 5), None);
    assert_eq!(coordination.duration_boundary_after_sample(2, 4), None);
}

#[test]
fn empty_plan_emits_only_plan_end() {
    let graph = MuxEventGraph::from_plan(&[], &[], 0, &no_coordination());
    assert_eq!(graph.events().len(), 1);
    assert!(matches!(
        &graph.events()[0],
        MuxEvent::Boundary(MuxBoundaryEvent { kind: MuxBoundaryEventKind::PlanEnd, output_offset: 0, decode_time: 0, .. })
    ));
    let mut cursor = graph.cursor();
    assert!(cursor.next_sample().is_none());
    assert!(cursor.next_sample().is_none());
}
