use mux_demux::demux::ps_video::{normalize_program_stream_mpeg2v_samples, PROGRAM_STREAM_MEDIA_TIMESCALE};
use mux_demux::sample::StagedSample;

fn staged(data_offset: u64, data_size: u32, is_sync_sample: bool) -> StagedSample {
    StagedSample { data_offset, data_size, duration: 1000, composition_time_offset: 0, is_sync_sample }
}

#[test]
fn normalize_program_stream_mpeg2v_samples_maps_timed_pes_offsets_to_picture_samples() {
    let samples = vec![
        staged(0, 7032, true),
        staged(7032, 3242, false),
        staged(10274, 1283, false),
        staged(11557, 1259, false),
        staged(12816, 1261, false),
    ];

    let (timescale, source_edit_media_time, normalized) = normalize_program_stream_mpeg2v_samples(
        "test",
        25_000,
        samples,
        &[0, 6059, 10097, 12111],
        &[48_600, 52_200, 55_800, 63_000],
        &[45_000, 48_600, 52_200, 59_400],
    )
    .unwrap();

    assert_eq!(timescale, PROGRAM_STREAM_MEDIA_TIMESCALE);
    assert_eq!(source_edit_media_time, Some(3600));
    assert_eq!(
        normalized
            .iter()
            .map(|sample| (sample.data_offset, sample.data_size, sample.duration))
            .collect::<Vec<_>>(),
        vec![(0, 7032, 3600), (7032, 3242, 3600), (10274, 1283, 3600), (11557, 1259, 1000)]
    );
    assert_eq!(
        normalized.iter().map(|sample| sample.composition_time_offset).collect::<Vec<_>>(),
        vec![3600, 3600, 3600, 3600]
    );
    assert!(normalized[0].is_sync_sample);
}
