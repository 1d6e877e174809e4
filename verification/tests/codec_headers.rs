use mux_demux::demux::saf::{
    aac_sample_rate, candidate_samples_from_pending, parse_aac_audio_specific_config, parse_saf_au_header,
    PendingSafSample, SafTrackTemplate,
};
use mux_demux::demux::saf_scan::{scan_declared_saf_tracks, scan_saf_media_tracks};
use mux_demux::demux::speex::{parse_ogg_speex_bytes, parse_speex_header, SpeexConfig};
use mux_demux::demux::theora::{parse_ogg_theora_bytes, parse_theora_identification_header, validate_theora_header_packet};
use mux_demux::error::MuxError;

fn speex_header(rate: u32) -> Vec<u8> {
    let mut header = vec![0_u8; 80];
    header[..8].copy_from_slice(b"Speex   ");
    header[28..32].copy_from_slice(&1_u32.to_le_bytes());
    header[32..36].copy_from_slice(&80_u32.to_le_bytes());
    header[36..40].copy_from_slice(&rate.to_le_bytes());
    header[48..52].copy_from_slice(&1_u32.to_le_bytes());
    header[56..60].copy_from_slice(&320_u32.to_le_bytes());
    header[64..68].copy_from_slice(&1_u32.to_le_bytes());
    header
}

#[test]
fn speex_header_gives_the_sample_rate() {
    assert_eq!(parse_speex_header(&speex_header(16_000), "a.spx").unwrap(), SpeexConfig { sample_rate: 16_000 });
    let mut zero_channels = speex_header(16_000);
    zero_channels[48] = 0;
    assert!(parse_speex_header(&zero_channels, "a.spx").is_err());
    let mut small = speex_header(16_000);
    small[32] = 79;
    assert!(parse_speex_header(&small, "a.spx").is_err());
    assert!(parse_speex_header(&speex_header(16_000)[..79], "a.spx").is_err());
}

fn theora_identification() -> Vec<u8> {
    let mut header = vec![0_u8; 42];
    header[0] = 0x80;
    header[1..7].copy_from_slice(b"theora");
    header[10..12].copy_from_slice(&40_u16.to_be_bytes());
    header[12..14].copy_from_slice(&30_u16.to_be_bytes());
    header[22..26].copy_from_slice(&30_000_u32.to_be_bytes());
    header[26..30].copy_from_slice(&1_001_u32.to_be_bytes());
    header[30..33].copy_from_slice(&[0, 0, 1]);
    header[33..36].copy_from_slice(&[0, 0, 1]);
    header
}

#[test]
fn theora_identification_header_fields() {
    let config = parse_theora_identification_header(&theora_identification(), "a.ogv").unwrap();
    assert_eq!((config.width, config.height), (640, 480));
    assert_eq!((config.timescale, config.frame_duration), (30_000, 1_001));
    assert_eq!((config.sar_num, config.sar_den), (1, 1));
    let mut zero_rate = theora_identification();
    zero_rate[22..26].copy_from_slice(&[0, 0, 0, 0]);
    assert!(parse_theora_identification_header(&zero_rate, "a.ogv").is_err());
}

#[test]
fn theora_header_packets_need_type_and_signature() {
    assert!(validate_theora_header_packet(b"\x81theora", 0x81, "a.ogv").is_ok());
    assert!(validate_theora_header_packet(b"\x81theora", 0x82, "a.ogv").is_err());
    assert!(validate_theora_header_packet(b"\x81theorb", 0x81, "a.ogv").is_err());
}

#[test]
fn aac_sampling_frequency_indexes() {
    assert_eq!(aac_sample_rate(3), Some(48_000));
    assert_eq!(aac_sample_rate(4), Some(44_100));
    assert_eq!(aac_sample_rate(12), Some(7_350));
    assert_eq!(aac_sample_rate(13), None);
}

#[test]
fn aac_audio_specific_config_gives_rate_and_channels() {
    assert_eq!(parse_aac_audio_specific_config("a.saf", &[0x12, 0x10]).unwrap(), (44_100, 2));
    assert_eq!(parse_aac_audio_specific_config("a.saf", &[0x11, 0x88]).unwrap(), (48_000, 1));
    assert!(parse_aac_audio_specific_config("a.saf", &[0x12, 0x00]).is_err());
    assert!(parse_aac_audio_specific_config("a.saf", &[0x00, 0x10]).is_err());
    assert!(parse_aac_audio_specific_config("a.saf", &[0x12]).is_err());
}

#[test]
fn saf_access_unit_header_fields() {
    let header = parse_saf_au_header([0x80, 0x00, 0x40, 0x00, 0x01, 0x2C, 0x00, 0x0A], [0x41, 0x02], "a.saf").unwrap();
    assert!(header.is_rap);
    assert_eq!(header.cts, 300);
    assert_eq!(header.payload_size, 8);
    assert_eq!(header.au_type, 4);
    assert_eq!(header.stream_id, 0x102);
    assert!(matches!(
        parse_saf_au_header([0; 8], [0; 2], "a.saf"),
        Err(MuxError::UnsupportedTrackImport { .. })
    ));
}

#[test]
fn saf_durations_follow_composition_gaps() {
    let pending = |cts: u32| PendingSafSample { data_offset: u64::from(cts), data_size: 4, cts, is_sync_sample: true };
    let samples = candidate_samples_from_pending("a.saf", &[pending(0), pending(1_000), pending(2_500)]).unwrap();
    let durations: Vec<u32> = samples.iter().map(|s| s.duration).collect();
    assert_eq!(durations, vec![1_000, 1_500, 1_500]);
    let single = candidate_samples_from_pending("a.saf", &[pending(7)]).unwrap();
    assert_eq!(single[0].duration, 1);
    assert!(candidate_samples_from_pending("a.saf", &[pending(5), pending(4)]).is_err());
}

fn saf_au(rap: bool, cts: u32, au_type: u8, stream_id: u16, payload: &[u8]) -> Vec<u8> {
    let size = (payload.len() + 2) as u16;
    let mut au = vec![
        if rap { 0x80 } else { 0x00 },
        0x00,
        ((cts >> 24) & 0x3F) as u8,
        (cts >> 16) as u8,
        (cts >> 8) as u8,
        cts as u8,
        (size >> 8) as u8,
        size as u8,
        (au_type << 4) | ((stream_id >> 8) as u8 & 0x0F),
        stream_id as u8,
    ];
    au.extend_from_slice(payload);
    au
}

fn saf_file() -> Vec<u8> {
    let aac_declaration = [0x40, 0x05, 0x00, 0xAC, 0x44, 0x00, 0x00, 0x12, 0x10];
    let scene_declaration = [0x01, 0x03, 0x00, 0x03, 0xE8, 0x00, 0x00];
    let mut file = saf_au(true, 0, 1, 1, &aac_declaration);
    file.extend(saf_au(true, 0, 4, 1, &[1, 2, 3, 4]));
    file.extend(saf_au(false, 1_024, 4, 1, &[5, 6, 7, 8]));
    file.extend(saf_au(true, 0, 1, 1, &aac_declaration));
    file.extend(saf_au(true, 0, 1, 2, &scene_declaration));
    file
}

#[test]
fn saf_scan_files_media_under_declarations() {
    let declared = scan_declared_saf_tracks(&saf_file(), "a.saf").unwrap();
    assert_eq!(declared.len(), 2);
    assert_eq!(declared[1].stream_id, 2);
    assert!(declared[1].samples.is_empty());

    let tracks = scan_saf_media_tracks(&saf_file(), "a.saf").unwrap();
    assert_eq!(tracks.len(), 1);
    let track = &tracks[0];
    assert_eq!((track.stream_id, track.timescale), (1, 44_100));
    assert!(matches!(track.template, SafTrackTemplate::Aac { sample_rate: 44_100, channel_configuration: 2, .. }));
    let samples: Vec<(u64, u32, u32, bool)> =
        track.samples.iter().map(|s| (s.data_offset, s.data_size, s.cts, s.is_sync_sample)).collect();
    assert_eq!(samples, vec![(29, 4, 0, true), (43, 4, 1_024, false)]);
}

#[test]
fn saf_media_before_its_declaration_is_rejected() {
    let orphan = saf_au(true, 0, 4, 3, &[1, 2]);
    assert!(matches!(scan_declared_saf_tracks(&orphan, "a.saf"), Err(MuxError::UnsupportedTrackImport { .. })));
    assert!(scan_declared_saf_tracks(&saf_file()[..5], "a.saf").is_err());
    let declaration_only = saf_au(true, 0, 1, 2, &[0x01, 0x03, 0x00, 0x03, 0xE8, 0x00, 0x00]);
    assert!(scan_saf_media_tracks(&declaration_only, "a.saf").is_err());
}

fn ogg_page(header_type: u8, lacing: &[u8], payload: &[u8]) -> Vec<u8> {
    let mut page = b"OggS".to_vec();
    page.push(0);
    page.push(header_type);
    page.extend_from_slice(&[0; 8]);
    page.extend_from_slice(&7_u32.to_le_bytes());
    page.extend_from_slice(&[0; 8]);
    page.push(lacing.len() as u8);
    page.extend_from_slice(lacing);
    page.extend_from_slice(payload);
    page
}

#[test]
fn ogg_speex_stream_stages_one_sample_per_audio_packet() {
    let mut file = ogg_page(0x02, &[80], &speex_header(8_000));
    file.extend(ogg_page(0x00, &[9], b"SpeexTags"));
    let first_audio = file.len() as u64 + 27 + 2;
    file.extend(ogg_page(0x04, &[3, 5], &[1, 1, 1, 2, 2, 2, 2, 2]));
    let track = parse_ogg_speex_bytes(&file, "a.spx").unwrap();
    assert_eq!(track.config.sample_rate, 8_000);
    assert_eq!(track.logical_size, 8);
    let samples: Vec<(u64, u32, u32)> = track.samples.iter().map(|s| (s.data_offset, s.data_size, s.duration)).collect();
    assert_eq!(samples, vec![(0, 3, 1), (3, 5, 0)]);
    assert_eq!(track.segments.len(), 2);
    assert!(matches!(
        track.segments[1].data,
        mux_demux::sample::SegmentData::FileRange { size: 5, .. }
    ));
    assert!(matches!(
        track.segments[0].data,
        mux_demux::sample::SegmentData::FileRange { source_offset, size: 3 } if source_offset == first_audio
    ));
}

#[test]
fn ogg_speex_stream_may_not_open_on_a_continued_packet() {
    let file = ogg_page(0x01, &[80], &speex_header(8_000));
    assert!(parse_ogg_speex_bytes(&file, "a.spx").is_err());
    assert!(parse_ogg_speex_bytes(b"OggT", "a.spx").is_err());
}

fn ogg_page_of_stream(serial: u32, header_type: u8, lacing: &[u8], payload: &[u8]) -> Vec<u8> {
    let mut page = b"OggS".to_vec();
    page.push(0);
    page.push(header_type);
    page.extend_from_slice(&[0; 8]);
    page.extend_from_slice(&serial.to_le_bytes());
    page.extend_from_slice(&[0; 8]);
    page.push(lacing.len() as u8);
    page.extend_from_slice(lacing);
    page.extend_from_slice(payload);
    page
}

#[test]
fn ogg_theora_stream_follows_the_first_theora_stream() {
    let other = b"\x01vorbis-other-stream".to_vec();
    let identification = theora_identification();
    let mut headers_and_frames = b"\x81theora".to_vec();
    headers_and_frames.extend_from_slice(b"\x82theora");
    headers_and_frames.extend_from_slice(&[0x00, 1, 2, 0x40, 5, 0x80, 9]);
    let mut file = ogg_page_of_stream(3, 0x02, &[other.len() as u8], &other);
    file.extend(ogg_page_of_stream(7, 0x02, &[42], &identification));
    file.extend(ogg_page_of_stream(3, 0x00, &[4], &[1, 2, 3, 4]));
    file.extend(ogg_page_of_stream(7, 0x04, &[7, 7, 3, 2, 2], &headers_and_frames));
    let track = parse_ogg_theora_bytes(&file, "a.ogv").unwrap();
    assert_eq!((track.config.width, track.config.height), (640, 480));
    let mut dsi = vec![0, 42];
    dsi.extend(identification);
    dsi.extend_from_slice(&[0, 7]);
    dsi.extend_from_slice(b"\x81theora");
    dsi.extend_from_slice(&[0, 7]);
    dsi.extend_from_slice(b"\x82theora");
    assert_eq!(track.decoder_specific_info, dsi);
    assert_eq!(track.logical_size, 5);
    assert_eq!(track.samples.len(), 2);
    assert_eq!((track.samples[0].data_offset, track.samples[0].data_size), (0, 3));
    assert_eq!((track.samples[1].data_offset, track.samples[1].data_size), (3, 2));
    assert!(track.samples[0].is_sync_sample);
    assert!(!track.samples[1].is_sync_sample);
    assert!(track.samples.iter().all(|sample| sample.duration == 1_001));
    assert_eq!(track.segments.len(), 2);
}

#[test]
fn ogg_theora_stream_rejects_a_continued_first_page_and_missing_headers() {
    let identification = theora_identification();
    let mut file = ogg_page_of_stream(7, 0x02, &[42], &identification);
    file.extend(ogg_page_of_stream(7, 0x01, &[3], &[1, 2, 3]));
    assert!(matches!(parse_ogg_theora_bytes(&file, "a.ogv"), Err(MuxError::UnsupportedTrackImport { .. })));
    let only_identification = ogg_page_of_stream(7, 0x02, &[42], &identification);
    assert!(parse_ogg_theora_bytes(&only_identification, "a.ogv").is_err());
    let no_theora = ogg_page_of_stream(7, 0x02, &[5], &[1, 2, 3, 4, 5]);
    assert!(parse_ogg_theora_bytes(&no_theora, "a.ogv").is_err());
}
