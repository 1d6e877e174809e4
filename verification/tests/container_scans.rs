use mux_demux::demux::ps_audio::{ProgramStreamLpcmFormat, ProgramStreamTrackKind};
use mux_demux::demux::ps_scan::scan_program_stream_bytes;
use mux_demux::demux::rawvid::parse_y4m_bytes;
use mux_demux::demux::truehd::parse_truehd_stream_bytes;
use mux_demux::demux::ts_packet::{scan_transport_stream_bytes, validate_transport_stream_bytes};
use mux_demux::demux::ts_psi::{mpeg2ts_section_crc32, TransportTrackKind};
use mux_demux::demux::ts_tracks::FileRangeSegment;
use mux_demux::error::MuxError;

const PTS_90000: [u8; 5] = [0x21, 0x00, 0x05, 0xBF, 0x21];

fn program_stream(end_code: u8) -> Vec<u8> {
    let mut file = vec![0x00, 0x00, 0x01, 0xBA, 0x44, 0, 0, 0, 0, 0, 0, 0, 0, 0xF8];
    file.extend_from_slice(&[0x00, 0x00, 0x01, 0xE0, 0x00, 0x12, 0x80, 0x80, 0x05]);
    file.extend_from_slice(&PTS_90000);
    file.extend_from_slice(&[0xEE; 10]);
    file.extend_from_slice(&[0x00, 0x00, 0x01, 0xC0, 0x00, 0x07, 0x80, 0x00, 0x00]);
    file.extend_from_slice(&[0xCC; 4]);
    file.extend_from_slice(&[0x00, 0x00, 0x01, 0xBD, 0x00, 0x14, 0x80, 0x80, 0x05]);
    file.extend_from_slice(&PTS_90000);
    file.extend_from_slice(&[0xA0, 0x01, 0x00, 0x01]);
    file.extend_from_slice(&[0xAA; 8]);
    file.extend_from_slice(&[0x00, 0x00, 0x01, end_code]);
    file
}

#[test]
fn program_stream_scan_files_each_stream_in_id_order() {
    let builders = scan_program_stream_bytes(&program_stream(0xB9), "movie.mpg").unwrap();
    let ids: Vec<u8> = builders.iter().map(|b| b.stream_id).collect();
    assert_eq!(ids, vec![0xA0, 0xC0, 0xE0]);

    let lpcm = &builders[0];
    assert_eq!(lpcm.kind, ProgramStreamTrackKind::Lpcm);
    assert_eq!(
        lpcm.lpcm_format,
        Some(ProgramStreamLpcmFormat { sample_rate: 48_000, channel_count: 2, bits_per_sample: 16, block_align: 4 })
    );
    assert_eq!(lpcm.segments, vec![FileRangeSegment { file_offset: 69, size: 8 }]);
    assert_eq!(lpcm.sample_offsets, vec![0]);

    let audio = &builders[1];
    assert_eq!(audio.kind, ProgramStreamTrackKind::Mp3);
    assert_eq!(audio.segments, vec![FileRangeSegment { file_offset: 47, size: 4 }]);
    assert_eq!(audio.total_size, 4);

    let video = &builders[2];
    assert_eq!(video.kind, ProgramStreamTrackKind::Video);
    assert_eq!(video.segments, vec![FileRangeSegment { file_offset: 28, size: 10 }]);
    assert_eq!(video.sample_offsets, vec![0]);
    assert_eq!(video.sample_pts, vec![90_000]);
    assert_eq!(video.sample_dts, vec![90_000]);
}

#[test]
fn program_stream_scan_rejects_unknown_start_codes_and_headers() {
    assert!(matches!(
        scan_program_stream_bytes(&program_stream(0xB8), "movie.mpg"),
        Err(MuxError::UnsupportedTrackImport { .. })
    ));
    let mut not_a_pack = program_stream(0xB9);
    not_a_pack[3] = 0xB3;
    assert!(scan_program_stream_bytes(&not_a_pack, "movie.mpg").is_err());
    let only_pack = vec![0x00, 0x00, 0x01, 0xBA, 0x44, 0, 0, 0, 0, 0, 0, 0, 0, 0xF8, 0x00, 0x00, 0x01, 0xB9];
    assert!(scan_program_stream_bytes(&only_pack, "movie.mpg").is_err());
}

fn truehd_frame() -> Vec<u8> {
    let mut frame = vec![0_u8; 40];
    frame[1] = 0x14;
    frame[3] = 0x10;
    frame[4..8].copy_from_slice(&[0xF8, 0x72, 0x6F, 0xBA]);
    frame[12..14].copy_from_slice(&[0xB7, 0x52]);
    frame
}

#[test]
fn truehd_stream_skips_embedded_ac3_frames() {
    let mut file = truehd_frame();
    let mut ac3 = vec![0_u8; 128];
    ac3[0] = 0x0B;
    ac3[1] = 0x77;
    ac3[5] = 0x40;
    file.extend(ac3);
    file.extend(truehd_frame());
    let track = parse_truehd_stream_bytes(&file, "audio.thd").unwrap();
    assert_eq!(track.sample_rate, 48_000);
    let offsets: Vec<u64> = track.samples.iter().map(|s| s.data_offset).collect();
    assert_eq!(offsets, vec![0, 168]);
    assert!(track.samples.iter().all(|s| s.data_size == 40 && s.duration == 40 && s.is_sync_sample));
}

#[test]
fn truehd_stream_rejects_changed_parameters_and_truncation() {
    let mut file = truehd_frame();
    let mut other = truehd_frame();
    other[8] = 0x80;
    file.extend(other);
    assert!(parse_truehd_stream_bytes(&file, "audio.thd").is_err());
    assert!(parse_truehd_stream_bytes(&truehd_frame()[..30], "audio.thd").is_err());
}

#[test]
fn y4m_frames_are_staged_without_their_headers() {
    let mut file = b"YUV4MPEG2 W4 H2 F25:1 C420jpeg\n".to_vec();
    for value in [1_u8, 2] {
        file.extend_from_slice(b"FRAME\n");
        file.extend_from_slice(&[value; 12]);
    }
    let track = parse_y4m_bytes("clip.y4m", &file).unwrap();
    assert_eq!((track.width, track.height, track.timescale), (4, 2, 25));
    let layout: Vec<(u64, u32, u32)> = track.samples.iter().map(|s| (s.data_offset, s.data_size, s.duration)).collect();
    assert_eq!(layout, vec![(0, 12, 1), (12, 12, 1)]);
}

#[test]
fn y4m_payloads_must_fit_and_carry_frame_markers() {
    let mut short = b"YUV4MPEG2 W4 H2 F25:1 C420jpeg\nFRAME\n".to_vec();
    short.extend_from_slice(&[0; 11]);
    assert!(parse_y4m_bytes("clip.y4m", &short).is_err());
    let mut unmarked = b"YUV4MPEG2 W4 H2 F25:1 C420jpeg\nFRAMX\n".to_vec();
    unmarked.extend_from_slice(&[0; 12]);
    assert!(parse_y4m_bytes("clip.y4m", &unmarked).is_err());
    assert!(parse_y4m_bytes("clip.y4m", b"YUV4MPEG2 W4 H2 F25:1 C420jpeg\n").is_err());
}

fn ts_packet(pid: u16, unit_start: bool, payload: &[u8]) -> Vec<u8> {
    let mut packet = vec![0x47, (u8::from(unit_start) << 6) | (pid >> 8) as u8, pid as u8, 0x10];
    packet.extend_from_slice(payload);
    packet.resize(188, 0xFF);
    packet
}

fn psi_payload(section: &[u8]) -> Vec<u8> {
    let mut payload = vec![0];
    payload.extend_from_slice(section);
    payload.extend_from_slice(&mpeg2ts_section_crc32(section).to_be_bytes());
    payload
}

fn small_transport_stream() -> Vec<u8> {
    let pat = [0x00, 0xB0, 0x0D, 0x00, 0x01, 0xC1, 0x00, 0x00, 0x00, 0x01, 0xF0, 0x00];
    let pmt = [0x02, 0xB0, 0x12, 0x00, 0x01, 0xC1, 0x00, 0x00, 0xE1, 0x00, 0xF0, 0x00, 0x1B, 0xE1, 0x00, 0xF0, 0x00];
    let pes = [0x00, 0x00, 0x01, 0xE0, 0x00, 0x00, 0x80, 0x80, 0x05, 0x21, 0x00, 0x05, 0xBF, 0x21];
    let mut stream = ts_packet(0x0000, true, &psi_payload(&pat));
    stream.extend(ts_packet(0x1000, true, &psi_payload(&pmt)));
    stream.extend(ts_packet(0x0100, true, &pes));
    stream.extend_from_slice(&[0x47, 0x00]);
    stream
}

#[test]
fn transport_stream_scan_follows_pat_and_pmt_to_the_streams() {
    let (builders, clock) = scan_transport_stream_bytes(&small_transport_stream(), "a.ts").unwrap();
    assert_eq!(builders.len(), 1);
    assert_eq!(builders[0].pid, 0x100);
    assert_eq!(builders[0].kind, TransportTrackKind::H264);
    assert_eq!(builders[0].total_size, 170);
    assert_eq!(clock.pcr_pid, Some(0x100));
}

#[test]
fn transport_stream_scan_needs_two_synchronised_packets() {
    let stream = small_transport_stream();
    assert!(matches!(scan_transport_stream_bytes(&stream[..300], "a.ts"), Err(MuxError::UnsupportedTrackImport { .. })));
    let mut shifted = stream.clone();
    shifted[188] = 0x00;
    assert!(scan_transport_stream_bytes(&shifted, "a.ts").is_err());
    assert!(validate_transport_stream_bytes(&stream, "a.ts").is_ok());
}
