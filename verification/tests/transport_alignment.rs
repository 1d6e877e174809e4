use mux_demux::demux::ts_samples::{align_transport_h264_presentation_time, TransportTimestampAnchor, TRANSPORT_MAX_PCR_90K};
use mux_demux::sample::CandidateSample;

#[test]
fn align_transport_h264_presentation_time_normalizes_pts_wrap_delta() {
    let mut samples = vec![CandidateSample {
        source_index: 0,
        data_offset: 100,
        data_size: 10,
        duration: 3_003,
        composition_time_offset: 0,
        is_sync_sample: true,
    }];
    let mut source_edit_media_time = Some(TRANSPORT_MAX_PCR_90K - 9_009);
    let pts_anchors = vec![TransportTimestampAnchor { sample_offset: 100, pts_90k: 9_009 }];

    align_transport_h264_presentation_time(&mut samples, &mut source_edit_media_time, &pts_anchors).unwrap();

    assert_eq!(samples[0].composition_time_offset, 18_018);
    assert_eq!(source_edit_media_time, Some(9_009));
}

#[test]
fn align_transport_h264_presentation_time_shifts_negative_offsets_positive() {
    let mut samples = vec![CandidateSample {
        source_index: 0,
        data_offset: 100,
        data_size: 10,
        duration: 3_003,
        composition_time_offset: -2_167,
        is_sync_sample: true,
    }];
    let mut source_edit_media_time = Some(1_433);
    let pts_anchors = vec![TransportTimestampAnchor { sample_offset: 100, pts_90k: 1_433 }];

    align_transport_h264_presentation_time(&mut samples, &mut source_edit_media_time, &pts_anchors).unwrap();

    assert_eq!(samples[0].composition_time_offset, 0);
    assert_eq!(source_edit_media_time, Some(3_600));
}

#[test]
fn align_transport_h264_presentation_time_leaves_unanchored_samples() {
    let original = CandidateSample {
        source_index: 0,
        data_offset: 100,
        data_size: 10,
        duration: 3_003,
        composition_time_offset: -5,
        is_sync_sample: true,
    };
    let mut samples = vec![original];
    let mut source_edit_media_time = Some(7);
    let pts_anchors = vec![TransportTimestampAnchor { sample_offset: 200, pts_90k: 1_433 }];
    align_transport_h264_presentation_time(&mut samples, &mut source_edit_media_time, &pts_anchors).unwrap();
    assert_eq!(samples, vec![original]);
    assert_eq!(source_edit_media_time, Some(7));
}
