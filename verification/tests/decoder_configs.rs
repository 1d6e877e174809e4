use mux_demux::demux::mp4v::parse_mp4v_decoder_specific_info;
use mux_demux::demux::saf::{build_declared_saf_track, SafTrackKind, SafTrackTemplate};
use mux_demux::demux::vorbis::{parse_ogg_vorbis_bytes, VorbisParser};
use mux_demux::sample::SegmentData;
use mux_demux::error::MuxError;

/// A visual object sequence and visual object ahead of a video object layer declaring a
/// 352x288 rectangular frame.
const CIF_CONFIG: [u8; 27] = [
    0x00, 0x00, 0x01, 0xB0, 0x01, 0x00, 0x00, 0x01, 0xB5, 0x09, 0x00, 0x00, 0x01, 0x00, 0x00, 0x00, 0x01, 0x20,
    0x00, 0x84, 0x5D, 0x4C, 0x28, 0x58, 0x21, 0x20, 0x80,
];

/// A video object layer with a layer identifier, an extended pixel aspect ratio, control and
/// VBV parameters and a fixed frame rate, declaring a 720x576 frame.
const PAL_CONFIG: [u8; 28] = [
    0x00, 0x00, 0x01, 0x21, 0x82, 0x48, 0xF8, 0x60, 0x5D, 0xC0, 0x00, 0x00, 0x00, 0x00, 0x00, 0x00, 0x00, 0x00,
    0x00, 0x17, 0x53, 0x0C, 0x1F, 0x4C, 0x5A, 0x11, 0x20, 0x40,
];

/// A video object layer with a binary-only shape.
const SHAPE_ONLY_CONFIG: [u8; 12] = [0x00, 0x00, 0x01, 0x20, 0x00, 0x85, 0x40, 0x00, 0x00, 0x00, 0x00, 0x00];

#[test]
fn mp4v_config_gives_the_frame_size() {
    assert_eq!(parse_mp4v_decoder_specific_info(&CIF_CONFIG, "a.saf").unwrap(), (352, 288));
    assert_eq!(parse_mp4v_decoder_specific_info(&PAL_CONFIG, "a.saf").unwrap(), (720, 576));
}

#[test]
fn mp4v_config_without_a_rectangular_layer_is_rejected() {
    assert!(matches!(parse_mp4v_decoder_specific_info(&[], "a.saf"), Err(MuxError::UnsupportedTrackImport { .. })));
    assert!(parse_mp4v_decoder_specific_info(&CIF_CONFIG[..18], "a.saf").is_err());
    assert!(parse_mp4v_decoder_specific_info(&CIF_CONFIG[..24], "a.saf").is_err());
    assert!(parse_mp4v_decoder_specific_info(&SHAPE_ONLY_CONFIG, "a.saf").is_err());
    assert!(parse_mp4v_decoder_specific_info(&[0x00, 0x00, 0x01, 0xB0, 0x01], "a.saf").is_err());
}

#[test]
fn saf_mpeg4_visual_declaration_keeps_its_frame_size() {
    let track = build_declared_saf_track("a.saf", 3, 0x20, 0x04, 90_000, CIF_CONFIG.to_vec()).unwrap();
    assert_eq!(track.stream_id, 3);
    assert_eq!(track.kind, SafTrackKind::Video);
    assert_eq!(track.timescale, 90_000);
    assert!(track.samples.is_empty());
    match track.template {
        SafTrackTemplate::Mp4v { width, height, decoder_specific_info } => {
            assert_eq!((width, height), (352, 288));
            assert_eq!(decoder_specific_info, CIF_CONFIG.to_vec());
        }
        _ => panic!("expected an MPEG-4 visual template"),
    }
    assert!(matches!(
        build_declared_saf_track("a.saf", 3, 0x20, 0x04, 90_000, Vec::new()),
        Err(MuxError::UnsupportedTrackImport { .. })
    ));
    assert!(build_declared_saf_track("a.saf", 3, 0x6C, 0x04, 90_000, Vec::new()).is_ok());
}

fn vorbis_identification() -> Vec<u8> {
    let mut packet = vec![0x01, b'v', b'o', b'r', b'b', b'i', b's', 0, 0, 0, 0, 2];
    packet.extend_from_slice(&44_100_u32.to_le_bytes());
    packet.extend_from_slice(&[0; 12]);
    packet.extend_from_slice(&[0xB8, 0x01]);
    packet
}

fn vorbis_setup(body_len: usize) -> Vec<u8> {
    let mut packet = vec![0x05, b'v', b'o', b'r', b'b', b'i', b's'];
    packet.resize(7 + body_len, 0);
    packet
}

fn identified_parser() -> VorbisParser {
    let mut parser = VorbisParser::new();
    parser.parse_identification_header(&vorbis_identification(), "a.ogg").unwrap();
    parser
}

#[test]
fn vorbis_setup_truncation_is_reported_and_keeps_the_parser() {
    let mut parser = identified_parser();
    let before_bits = parser.mode_bits;
    let before_flags = parser.mode_flags;
    match parser.parse_setup_header(&vorbis_setup(49), "a.ogg") {
        Err(MuxError::UnsupportedTrackImport { spec, message }) => {
            assert_eq!(spec, "a.ogg");
            assert_eq!(message, "Ogg Vorbis setup header is truncated");
        }
        other => panic!("unexpected result {other:?}"),
    }
    assert_eq!(parser.mode_bits, before_bits);
    assert_eq!(parser.mode_flags, before_flags);
    assert!(parser.saw_identification);
}

#[test]
fn vorbis_setup_with_an_unknown_codebook_map_type_is_rejected() {
    let mut parser = identified_parser();
    let mut packet = vorbis_setup(53);
    packet[16] = 0x0C;
    match parser.parse_setup_header(&packet, "a.ogg") {
        Err(MuxError::UnsupportedTrackImport { message, .. }) => {
            assert_eq!(message, "Ogg Vorbis setup header used an unsupported codebook map type");
        }
        other => panic!("unexpected result {other:?}"),
    }
}

#[test]
fn vorbis_minimal_setup_declares_one_short_block_mode() {
    let mut parser = identified_parser();
    parser.parse_setup_header(&vorbis_setup(50), "a.ogg").unwrap();
    assert_eq!(parser.mode_bits, 0);
    assert!(!parser.mode_flags[0]);
    assert_eq!(parser.channels, 2);
    assert_eq!(parser.sample_rate, 44_100);
}

/// A setup header declaring two modes, the second with long blocks, with every other field
/// zero.
fn two_mode_vorbis_setup() -> Vec<u8> {
    let mut packet = vorbis_setup(55);
    packet[406 / 8] |= 1 << (406 % 8);
    packet[453 / 8] |= 1 << (453 % 8);
    packet
}

#[test]
fn vorbis_setup_with_two_modes_uses_one_mode_bit() {
    let mut parser = identified_parser();
    parser.parse_setup_header(&two_mode_vorbis_setup(), "a.ogg").unwrap();
    assert_eq!(parser.mode_bits, 1);
    assert!(!parser.mode_flags[0]);
    assert!(parser.mode_flags[1]);
    assert_eq!(parser.packet_duration(&[0x00], "a.ogg").unwrap(), 128);
    assert_eq!(parser.packet_duration(&[0x02], "a.ogg").unwrap(), 1024);
}

fn ogg_page_at_granule(header_type: u8, granule: u64, lacing: &[u8], payload: &[u8]) -> Vec<u8> {
    let mut page = b"OggS".to_vec();
    page.push(0);
    page.push(header_type);
    page.extend_from_slice(&granule.to_le_bytes());
    page.extend_from_slice(&9_u32.to_le_bytes());
    page.extend_from_slice(&[0; 8]);
    page.push(lacing.len() as u8);
    page.extend_from_slice(lacing);
    page.extend_from_slice(payload);
    page
}

fn vorbis_comment() -> Vec<u8> {
    let mut packet = vec![0x03, b'v', b'o', b'r', b'b', b'i', b's'];
    packet.extend_from_slice(&[0; 9]);
    packet
}

fn vorbis_file(final_granule: u64) -> Vec<u8> {
    let identification = vorbis_identification();
    let comment = vorbis_comment();
    let setup = two_mode_vorbis_setup();
    let mut file = ogg_page_at_granule(0x02, 0, &[identification.len() as u8], &identification);
    let mut headers = comment.clone();
    headers.extend_from_slice(&setup);
    file.extend(ogg_page_at_granule(0x00, 0, &[comment.len() as u8, setup.len() as u8], &headers));
    file.extend(ogg_page_at_granule(0x04, final_granule, &[2, 3, 1], &[0x00, 0xAA, 0x02, 0xBB, 0xCC, 0x00]));
    file
}

#[test]
fn ogg_vorbis_stream_stages_its_audio_packets() {
    let file = vorbis_file(2_400);
    let track = parse_ogg_vorbis_bytes(&file, "a.ogg").unwrap();
    assert_eq!(track.sample_rate, 44_100);
    assert_eq!(track.channels, 2);
    let mut dsi = vec![0, 30];
    dsi.extend(vorbis_identification());
    dsi.extend_from_slice(&[0, 16]);
    dsi.extend(vorbis_comment());
    dsi.extend_from_slice(&[0, 62]);
    dsi.extend(two_mode_vorbis_setup());
    assert_eq!(track.decoder_specific_info, dsi);
    assert_eq!(track.logical_size, 6);
    let audio_start = (file.len() - 6) as u64;
    assert_eq!(track.segments.len(), 3);
    assert!(matches!(track.segments[1].data, SegmentData::FileRange { source_offset, size: 3 } if source_offset == audio_start + 2));
    assert_eq!(track.segments[1].logical_offset, 2);
    let durations: Vec<u32> = track.samples.iter().map(|sample| sample.duration).collect();
    assert_eq!(durations, vec![128, 1024, 96]);
    let offsets: Vec<u64> = track.samples.iter().map(|sample| sample.data_offset).collect();
    assert_eq!(offsets, vec![0, 2, 5]);
    assert!(track.samples.iter().all(|sample| sample.is_sync_sample));
}

#[test]
fn ogg_vorbis_stream_needs_its_headers_and_audio() {
    let file = vorbis_file(u64::MAX);
    let untrimmed = parse_ogg_vorbis_bytes(&file, "a.ogg").unwrap();
    assert_eq!(untrimmed.samples[2].duration, 128);
    let identification = vorbis_identification();
    let only_identification = ogg_page_at_granule(0x02, 0, &[identification.len() as u8], &identification);
    match parse_ogg_vorbis_bytes(&only_identification, "a.ogg") {
        Err(MuxError::UnsupportedTrackImport { message, .. }) => {
            assert_eq!(message, "Ogg Vorbis input did not contain the full three-header setup");
        }
        Err(other) => panic!("unexpected error {other:?}"),
        Ok(_) => panic!("a stream without setup was accepted"),
    }
    let continued = ogg_page_at_granule(0x01, 0, &[identification.len() as u8], &identification);
    assert!(parse_ogg_vorbis_bytes(&continued, "a.ogg").is_err());
    assert!(parse_ogg_vorbis_bytes(&file[..file.len() - 1], "a.ogg").is_err());
}
