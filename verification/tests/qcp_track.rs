use mux_demux::demux::qcp::{
    parse_qcp_codec_kind, parse_qcp_track, validate_qcp_file_header_bytes, QcpCodecKind,
};
use mux_demux::error::MuxError;

const EVRC_GUID: [u8; 16] = [
    0x8D, 0xD4, 0x89, 0xE6, 0x76, 0x90, 0xB5, 0x46, 0x91, 0xEF, 0x73, 0x6A, 0x51, 0x00, 0xCE, 0xB4,
];

fn chunk(kind: &[u8; 4], payload: &[u8]) -> Vec<u8> {
    let mut out = kind.to_vec();
    out.extend_from_slice(&(payload.len() as u32).to_le_bytes());
    out.extend_from_slice(payload);
    if payload.len() % 2 == 1 {
        out.push(0);
    }
    out
}

fn fmt_payload(packet_size: u16, rate_table: &[(u8, u8)]) -> Vec<u8> {
    let mut fmt = vec![0_u8; 150];
    fmt[2..18].copy_from_slice(&EVRC_GUID);
    fmt[102..104].copy_from_slice(&packet_size.to_le_bytes());
    fmt[104..106].copy_from_slice(&160_u16.to_le_bytes());
    fmt[106..108].copy_from_slice(&8_000_u16.to_le_bytes());
    fmt[110..114].copy_from_slice(&(rate_table.len() as u32).to_le_bytes());
    for (index, (size, rate)) in rate_table.iter().enumerate() {
        fmt[114 + index * 2] = *size;
        fmt[115 + index * 2] = *rate;
    }
    fmt
}

fn qcp_file(fmt: &[u8], vrat_flag: u32, data: &[u8]) -> Vec<u8> {
    let mut body = b"QLCM".to_vec();
    body.extend(chunk(b"fmt ", fmt));
    let mut vrat = vrat_flag.to_le_bytes().to_vec();
    vrat.extend_from_slice(&[0, 0, 0, 0]);
    body.extend(chunk(b"vrat", &vrat));
    body.extend(chunk(b"data", data));
    let mut file = b"RIFF".to_vec();
    file.extend_from_slice(&(body.len() as u32).to_le_bytes());
    file.extend(body);
    file
}

#[test]
fn constant_rate_qcp_packets_cover_the_data_chunk() {
    let data = vec![0xAA_u8; 46];
    let file = qcp_file(&fmt_payload(23, &[]), 0, &data);
    let track = parse_qcp_track(&file, "voice.qcp").unwrap();
    assert_eq!(track.sample_rate, 8_000);
    assert_eq!(track.handler_label, "evrc");
    assert_eq!(track.samples.len(), 2);
    let data_offset = (file.len() - data.len()) as u64;
    assert_eq!(track.samples[0].data_offset, data_offset);
    assert_eq!(track.samples[0].data_size, 23);
    assert_eq!(track.samples[1].data_offset, data_offset + 23);
    assert_eq!(track.samples[1].data_size, 23);
    assert!(track.samples.iter().all(|s| s.duration == 160 && s.is_sync_sample));
    assert_eq!(&track.sample_entry_box[4..8], b"sevc");
}

#[test]
fn variable_rate_qcp_packets_take_their_size_from_the_rate_byte() {
    let mut data = vec![4_u8];
    data.extend(vec![1_u8; 22]);
    data.push(3);
    data.extend(vec![2_u8; 10]);
    let file = qcp_file(&fmt_payload(0, &[(22, 4), (10, 3)]), 1, &data);
    let track = parse_qcp_track(&file, "voice.qcp").unwrap();
    let sizes: Vec<u32> = track.samples.iter().map(|s| s.data_size).collect();
    assert_eq!(sizes, vec![23, 11]);
    assert_eq!(track.samples[1].data_offset, track.samples[0].data_offset + 23);
}

#[test]
fn qcp_packet_running_past_the_data_chunk_is_rejected() {
    let data = vec![0_u8; 30];
    let file = qcp_file(&fmt_payload(23, &[]), 0, &data);
    match parse_qcp_track(&file, "voice.qcp") {
        Err(MuxError::UnsupportedTrackImport { spec, .. }) => assert_eq!(spec, "voice.qcp"),
        other => panic!("unexpected result {:?}", other.map(|t| t.samples.len())),
    }
}

#[test]
fn qcp_unknown_rate_index_is_rejected() {
    let data = vec![9_u8; 12];
    let file = qcp_file(&fmt_payload(0, &[(10, 3)]), 1, &data);
    assert!(matches!(
        parse_qcp_track(&file, "voice.qcp"),
        Err(MuxError::UnsupportedTrackImport { .. })
    ));
}

#[test]
fn qcp_header_must_be_riff_qlcm_within_the_file() {
    let mut header = [0_u8; 12];
    header[..4].copy_from_slice(b"RIFF");
    header[4..8].copy_from_slice(&100_u32.to_le_bytes());
    header[8..].copy_from_slice(b"QLCM");
    assert!(validate_qcp_file_header_bytes(&header, 108, "a.qcp").is_ok());
    assert!(validate_qcp_file_header_bytes(&header, 107, "a.qcp").is_err());
    header[8] = b'X';
    assert!(validate_qcp_file_header_bytes(&header, 108, "a.qcp").is_err());
}

#[test]
fn qcp_codec_guids_map_to_codecs() {
    assert_eq!(parse_qcp_codec_kind(EVRC_GUID, "a.qcp").unwrap(), QcpCodecKind::Evrc);
    assert!(parse_qcp_codec_kind([0_u8; 16], "a.qcp").is_err());
}
