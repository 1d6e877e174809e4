use mux_demux::demux::ps_audio::{
    find_program_stream_packet_start_in_bytes, is_supported_program_stream_packet_id,
    parse_program_stream_pes_timestamp_bytes, program_stream_track_id,
};
use mux_demux::demux::truehd::{ac3_frame_size_bytes, truehd_frame_duration, truehd_sample_rate};
use mux_demux::demux::ts_clock::TransportProgramClockState;
use mux_demux::demux::ts_psi::{mpeg2ts_section_crc32, parse_ts_pes_timestamp, validate_transport_section_crc, TransportTrackKind};
use mux_demux::demux::ts_tracks::{parse_pmt_section, TransportTrackBuilder};
use mux_demux::error::MuxError;

const PTS_90000: [u8; 5] = [0x21, 0x00, 0x05, 0xBF, 0x21];

#[test]
fn transport_pes_timestamps_decode_33_bits() {
    assert_eq!(parse_ts_pes_timestamp("a.ts", &PTS_90000).unwrap(), 90_000);
    assert_eq!(parse_ts_pes_timestamp("a.ts", &[0x0F, 0xFF, 0xFF, 0xFF, 0xFF]).unwrap(), (1_u64 << 33) - 1);
    assert!(matches!(
        parse_ts_pes_timestamp("a.ts", &[0x20, 0x00, 0x05, 0xBF, 0x21]),
        Err(MuxError::UnsupportedTrackImport { .. })
    ));
    assert!(parse_ts_pes_timestamp("a.ts", &PTS_90000[..4]).is_err());
}

#[test]
fn program_stream_timestamps_check_their_prefix() {
    assert_eq!(parse_program_stream_pes_timestamp_bytes(&PTS_90000, "a.mpg").unwrap(), 90_000);
    assert!(parse_program_stream_pes_timestamp_bytes(&[0x41, 0x00, 0x05, 0xBF, 0x21], "a.mpg").is_err());
    assert!(parse_program_stream_pes_timestamp_bytes(&[0x21, 0x00, 0x04, 0xBF, 0x21], "a.mpg").is_err());
}

#[test]
fn section_crc_matches_the_mpeg2_polynomial() {
    let pat = [0x00, 0xB0, 0x0D, 0x00, 0x01, 0xC1, 0x00, 0x00, 0x00, 0x01, 0xF0, 0x00];
    assert_eq!(mpeg2ts_section_crc32(&[]), 0xFFFF_FFFF);
    assert_eq!(mpeg2ts_section_crc32(&pat), 0x2AB1_04B2);
    let mut section = pat.to_vec();
    section.extend_from_slice(&[0x2A, 0xB1, 0x04, 0xB2]);
    assert!(validate_transport_section_crc("a.ts", "PAT", &section).is_ok());
    section[3] = 0x02;
    assert!(validate_transport_section_crc("a.ts", "PAT", &section).is_err());
}

#[test]
fn program_stream_packet_ids_and_start_codes() {
    assert_eq!(program_stream_track_id(0xE0), 0x1E0);
    assert!(is_supported_program_stream_packet_id(0xBA));
    assert!(is_supported_program_stream_packet_id(0xC0));
    assert!(!is_supported_program_stream_packet_id(0xB8));
    assert!(!is_supported_program_stream_packet_id(0xF0));
    assert_eq!(find_program_stream_packet_start_in_bytes(&[0, 0, 1, 0xB3, 0, 0, 1, 0xE0]), Some(4));
    assert_eq!(find_program_stream_packet_start_in_bytes(&[0, 0, 1]), None);
}

#[test]
fn truehd_rates_and_frame_durations() {
    assert_eq!(truehd_sample_rate(0), Some(48_000));
    assert_eq!(truehd_sample_rate(8), Some(44_100));
    assert_eq!(truehd_sample_rate(3), None);
    assert_eq!(truehd_frame_duration(48_000), Some(40));
    assert_eq!(truehd_frame_duration(192_000), Some(160));
    assert_eq!(truehd_frame_duration(44_100), Some(40));
    assert_eq!(truehd_frame_duration(32_000), None);
}

#[test]
fn ac3_frame_sizes_come_from_the_rate_table() {
    assert_eq!(ac3_frame_size_bytes(0, 0), Some(128));
    assert_eq!(ac3_frame_size_bytes(1, 0), Some(138));
    assert_eq!(ac3_frame_size_bytes(2, 37), Some(3_840));
    assert_eq!(ac3_frame_size_bytes(3, 0), None);
    assert_eq!(ac3_frame_size_bytes(0, 38), None);
}

#[test]
fn section_carrying_its_own_crc_passes_and_catches_every_bit_flip() {
    let pat = [0x00, 0xB0, 0x0D, 0x00, 0x01, 0xC1, 0x00, 0x00, 0x00, 0x01, 0xF0, 0x00];
    let mut section = pat.to_vec();
    section.extend_from_slice(&mpeg2ts_section_crc32(&pat).to_be_bytes());
    assert!(validate_transport_section_crc("a.ts", "PAT", &section).is_ok());
    assert_eq!(mpeg2ts_section_crc32(&section), 0);
    for byte in 0..section.len() {
        for bit in 0..8 {
            let mut flipped = section.clone();
            flipped[byte] ^= 1 << bit;
            assert!(validate_transport_section_crc("a.ts", "PAT", &flipped).is_err());
        }
    }
    assert!(validate_transport_section_crc("a.ts", "PAT", &section[..3]).is_err());
}

fn clock() -> TransportProgramClockState {
    TransportProgramClockState {
        pcr_pid: None,
        before_last_pcr_value: Some(7),
        last_pcr_value: Some(9),
        pcr_base_offset_27m: 3,
        last_continuity_counter: Some(2),
    }
}

/// A PMT naming PCR PID 0x100 and two streams: H.264 on PID 0x100, then an unknown stream
/// type 0x99 on PID 0x101.
const PMT_WITH_UNKNOWN_STREAM: [u8; 27] = [
    0x00, 0x02, 0xB0, 0x17, 0x00, 0x01, 0xC1, 0x00, 0x00, 0xE1, 0x00, 0xF0, 0x00, 0x1B, 0xE1, 0x00, 0xF0, 0x00,
    0x99, 0xE1, 0x01, 0xF0, 0x00, 0x13, 0xEC, 0xFD, 0xB2,
];

#[test]
fn pmt_rejection_after_its_crc_keeps_the_pcr_pid_and_earlier_streams() {
    let mut builders: Vec<TransportTrackBuilder> = Vec::new();
    let mut program_clock = clock();
    let result = parse_pmt_section("a.ts", &PMT_WITH_UNKNOWN_STREAM, &mut builders, &mut program_clock);
    match result {
        Err(MuxError::UnsupportedTrackImport { spec, message }) => {
            assert_eq!(spec, "a.ts");
            assert!(message.contains("0x99"));
        }
        other => panic!("unexpected result {other:?}"),
    }
    assert_eq!(program_clock.pcr_pid, Some(0x100));
    assert_eq!(program_clock.before_last_pcr_value, Some(7));
    assert_eq!(program_clock.last_pcr_value, Some(9));
    assert_eq!(program_clock.pcr_base_offset_27m, 3);
    assert_eq!(builders.len(), 1);
    assert_eq!(builders[0].pid, 0x100);
    assert_eq!(builders[0].kind, TransportTrackKind::H264);
}

#[test]
fn pmt_with_a_bad_crc_changes_nothing() {
    let mut builders: Vec<TransportTrackBuilder> = Vec::new();
    let mut program_clock = clock();
    let mut payload = PMT_WITH_UNKNOWN_STREAM;
    payload[26] ^= 1;
    assert!(parse_pmt_section("a.ts", &payload, &mut builders, &mut program_clock).is_err());
    assert_eq!(program_clock.pcr_pid, None);
    assert!(builders.is_empty());
}
