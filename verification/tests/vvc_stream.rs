use mux_demux::demux::vvc::{
    is_vvc_sync_nal_type, is_vvc_vcl_nal_type, nal_to_rbsp, push_unique_nal, stage_vvc_nal, vvc_ceil_log2,
    vvc_nal_type, AnnexBNal, VvcBitWriter, VvcStageState,
};
use mux_demux::error::MuxError;
use mux_demux::sample::SegmentData;

fn nal(nal_type: u8, len: usize, source_offset: u64) -> AnnexBNal {
    let mut bytes = vec![0_u8, (nal_type << 3) | 1];
    bytes.resize(len, 0x55);
    AnnexBNal { bytes, source_offset }
}

#[test]
fn vvc_ceil_log2_values() {
    assert_eq!(vvc_ceil_log2(0), 0);
    assert_eq!(vvc_ceil_log2(1), 0);
    assert_eq!(vvc_ceil_log2(2), 1);
    assert_eq!(vvc_ceil_log2(3), 2);
    assert_eq!(vvc_ceil_log2(4), 2);
    assert_eq!(vvc_ceil_log2(5), 3);
    assert_eq!(vvc_ceil_log2(1_920), 11);
}

#[test]
fn vvc_nal_header_fields() {
    assert_eq!(vvc_nal_type(&[0x00, 0x79]), 15);
    assert_eq!(vvc_nal_type(&[0x00, 0xA1]), 20);
    assert!(is_vvc_vcl_nal_type(0));
    assert!(is_vvc_vcl_nal_type(11));
    assert!(!is_vvc_vcl_nal_type(12));
    assert!(is_vvc_sync_nal_type(7));
    assert!(is_vvc_sync_nal_type(10));
    assert!(!is_vvc_sync_nal_type(6));
    assert!(!is_vvc_sync_nal_type(12));
}

#[test]
fn vvc_rbsp_drops_emulation_prevention_bytes() {
    assert_eq!(nal_to_rbsp(&[0x00, 0x00, 0x03, 0x01, 0x02]), vec![0x00, 0x00, 0x01, 0x02]);
    assert_eq!(nal_to_rbsp(&[0x00, 0x03, 0x00, 0x00, 0x03]), vec![0x00, 0x03, 0x00, 0x00]);
    assert_eq!(nal_to_rbsp(&[0x11, 0x22]), vec![0x11, 0x22]);
}

#[test]
fn vvc_bit_writer_packs_msb_first() {
    let mut writer = VvcBitWriter::new();
    writer.write_bits(0b101, 3);
    writer.write_bit(true);
    writer.write_bits(0xFF, 8);
    writer.write_bits(0, 1);
    assert_eq!(writer.into_bytes(), vec![0b1011_1111, 0b1111_0000]);
}

#[test]
fn vvc_parameter_sets_are_kept_once() {
    let mut list = Vec::new();
    push_unique_nal(&mut list, vec![1, 2, 3]);
    push_unique_nal(&mut list, vec![1, 2, 3]);
    push_unique_nal(&mut list, vec![1, 2]);
    assert_eq!(list, vec![vec![1, 2, 3], vec![1, 2]]);
}

#[test]
fn vvc_access_units_split_at_delimiters() {
    let mut state = VvcStageState::new();
    stage_vvc_nal(&mut state, nal(14, 6, 0), "clip.266").unwrap();
    stage_vvc_nal(&mut state, nal(15, 8, 10), "clip.266").unwrap();
    stage_vvc_nal(&mut state, nal(15, 8, 20), "clip.266").unwrap();
    stage_vvc_nal(&mut state, nal(20, 3, 30), "clip.266").unwrap();
    stage_vvc_nal(&mut state, nal(7, 40, 40), "clip.266").unwrap();
    stage_vvc_nal(&mut state, nal(20, 3, 90), "clip.266").unwrap();
    stage_vvc_nal(&mut state, nal(1, 25, 100), "clip.266").unwrap();
    state.finish_current_sample();

    assert_eq!(state.vps_list.len(), 1);
    assert_eq!(state.sps_list.len(), 1);
    assert_eq!(state.samples.len(), 2);
    assert_eq!(state.samples[0].data_offset, 0);
    assert_eq!(state.samples[0].data_size, 4 + 3 + 4 + 40);
    assert!(state.samples[0].is_sync_sample);
    assert_eq!(state.samples[1].data_offset, 51);
    assert_eq!(state.samples[1].data_size, 4 + 3 + 4 + 25);
    assert!(!state.samples[1].is_sync_sample);
    assert_eq!(state.logical_size, 87);
    assert_eq!(state.segments.len(), 8);
    assert!(matches!(state.segments[0].data, SegmentData::Prefix([0, 0, 0, 3])));
    assert!(matches!(state.segments[3].data, SegmentData::FileRange { source_offset: 40, size: 40 }));
    assert_eq!(state.segments[3].logical_offset, 11);
}

#[test]
fn vvc_nal_shorter_than_its_header_is_rejected() {
    let mut state = VvcStageState::new();
    let short = AnnexBNal { bytes: vec![0x00], source_offset: 0 };
    assert!(matches!(
        stage_vvc_nal(&mut state, short, "clip.266"),
        Err(MuxError::UnsupportedTrackImport { .. })
    ));
}

#[test]
fn vvc_staged_samples_stay_back_to_back() {
    let mut state = VvcStageState::new();
    let units = [(7, 10, 0), (1, 6, 20), (20, 3, 40), (15, 9, 50), (8, 12, 60), (20, 4, 80), (20, 5, 90), (2, 7, 100)];
    for (nal_type, len, offset) in units {
        stage_vvc_nal(&mut state, nal(nal_type, len, offset), "clip.266").unwrap();
        let end = match state.samples.last() {
            Some(last) => last.data_offset + u64::from(last.data_size),
            None => 0,
        };
        if let Some(open) = state.current_sample_offset {
            assert_eq!(open, end);
        } else {
            assert_eq!(state.current_sample_size, 0);
        }
        assert_eq!(state.logical_size, end + u64::from(state.current_sample_size));
        for pair in state.samples.windows(2) {
            assert_eq!(pair[1].data_offset, pair[0].data_offset + u64::from(pair[0].data_size));
        }
    }
    assert_eq!(state.samples.len(), 3);
    assert_eq!(state.samples[0].data_offset, 0);
    assert_eq!(state.samples[0].data_size, 4 + 10 + 4 + 6);
    assert_eq!(state.samples[1].data_offset, 24);
    assert_eq!(state.samples[2].data_offset, 24 + 4 + 3 + 4 + 12);
    assert_eq!(state.current_sample_offset, Some(24 + 23 + 8));
    assert_eq!(state.logical_size, 24 + 23 + 8 + 4 + 5 + 4 + 7);
}
