use mux_demux::demux::vobsub::{VobSubPosition, VobSubTrack};
use mux_demux::demux::vobsub_media::{build_vobsub_track_payload, collect_vobsub_packet};
use mux_demux::error::MuxError;
use mux_demux::sample::SegmentData;

const SHORT_PACKET: [u8; 16] = [
    0x00, 0x10, 0x00, 0x04, 0x00, 0x00, 0x00, 0x0A, 0x01, 0xFF, 0x00, 0x64, 0x00, 0x0A, 0x02, 0xFF,
];

fn sector(substream: u8, payload: &[u8]) -> Vec<u8> {
    let mut s = vec![0_u8; 2048];
    s[..4].copy_from_slice(&[0x00, 0x00, 0x01, 0xBA]);
    s[14..18].copy_from_slice(&[0x00, 0x00, 0x01, 0xBD]);
    s[21] = 0x80;
    s[22] = 5;
    s[23] = 0x21;
    s[28] = substream;
    s[29..29 + payload.len()].copy_from_slice(payload);
    s
}

fn track(start_pts: u64) -> VobSubTrack {
    VobSubTrack { index: 0, language: *b"eng", positions: vec![VobSubPosition { start_pts, filepos: 0 }] }
}

#[test]
fn vobsub_packet_duration_comes_from_its_control_sequences() {
    let file = sector(0x20, &SHORT_PACKET);
    let packet = collect_vobsub_packet(&file, VobSubPosition { start_pts: 0, filepos: 0 }, 0, "movie.sub").unwrap();
    assert_eq!(packet.packet_bytes, SHORT_PACKET.to_vec());
    assert_eq!(packet.duration, 102_400);
    assert_eq!(packet.spans, vec![(29, 16)]);
}

#[test]
fn vobsub_packet_continues_in_the_next_sector_of_its_substream() {
    let mut packet = vec![0_u8; 3_000];
    packet[..4].copy_from_slice(&[0x0B, 0xB8, 0x0B, 0xAE]);
    packet[2_990..2_996].copy_from_slice(&[0x00, 0x00, 0x0B, 0xAE, 0x01, 0xFF]);
    packet[2_019..2_023].copy_from_slice(&[0x00, 0x10, 0x00, 0x04]);
    let mut file = sector(0x20, &packet[..2_019]);
    file.extend(sector(0x21, &[0x55; 8]));
    let mut continuation = sector(0x20, &[]);
    continuation[29..29 + 981].copy_from_slice(&packet[2_019..]);
    file.extend(continuation);
    let collected = collect_vobsub_packet(&file, VobSubPosition { start_pts: 0, filepos: 0 }, 0, "movie.sub").unwrap();
    assert_eq!(collected.packet_bytes, packet);
    assert_eq!(collected.spans, vec![(29, 2_019), (4_096 + 29, 981)]);
    assert_eq!(collected.duration, 0);
}

#[test]
fn vobsub_packet_of_another_substream_is_rejected() {
    let file = sector(0x21, &SHORT_PACKET);
    assert!(matches!(
        collect_vobsub_packet(&file, VobSubPosition { start_pts: 0, filepos: 0 }, 0, "movie.sub"),
        Err(MuxError::UnsupportedTrackImport { .. })
    ));
    assert!(collect_vobsub_packet(&file[..2_000], VobSubPosition { start_pts: 0, filepos: 0 }, 1, "movie.sub").is_err());
}

#[test]
fn vobsub_track_payload_points_at_the_packet_bytes() {
    let file = sector(0x20, &SHORT_PACKET);
    let payload = build_vobsub_track_payload(&file, &track(0), "movie.sub").unwrap();
    assert_eq!(payload.total_size, 16);
    assert_eq!(payload.segments.len(), 1);
    assert_eq!(payload.segments[0].logical_offset, 0);
    assert!(matches!(payload.segments[0].data, SegmentData::FileRange { source_offset: 29, size: 16 }));
    assert_eq!(payload.samples.len(), 1);
    assert_eq!((payload.samples[0].data_offset, payload.samples[0].data_size, payload.samples[0].duration), (0, 16, 102_400));
}

#[test]
fn vobsub_track_starting_late_leads_with_a_blank_subpicture() {
    let file = sector(0x20, &SHORT_PACKET);
    let payload = build_vobsub_track_payload(&file, &track(9_000), "movie.sub").unwrap();
    assert_eq!(payload.total_size, 25);
    match &payload.segments[0].data {
        SegmentData::Bytes(bytes) => assert_eq!(bytes, &vec![0x00, 0x09, 0x00, 0x04, 0x00, 0x00, 0x00, 0x04, 0xFF]),
        _ => panic!("expected the blank subpicture first"),
    }
    assert_eq!(payload.segments[1].logical_offset, 9);
    let timing: Vec<(u64, u32, u32)> = payload.samples.iter().map(|s| (s.data_offset, s.data_size, s.duration)).collect();
    assert_eq!(timing, vec![(0, 9, 9_000), (9, 16, 102_400)]);
}
