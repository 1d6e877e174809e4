use mux_demux::demux::vobsub::{
    effective_vobsub_duration, ensure_vobsub_idx_signature, parse_vobsub_id, parse_vobsub_index_reader,
    parse_vobsub_palette, parse_vobsub_size, parse_vobsub_timestamp_entry, parse_vobsub_timestamp_ms,
    vobsub_decoder_specific_info, vobsub_language_from_two_letter,
};
use mux_demux::error::MuxError;

fn lines(text: &str) -> Vec<Vec<u8>> {
    text.lines().map(|line| line.as_bytes().to_vec()).collect()
}

const PALETTE: &str = "palette: ffffff, 000000, 808080, 000000, 000000, 000000, 000000, 000000, \
000000, 000000, 000000, 000000, 000000, 000000, 000000, 000000";

#[test]
fn vobsub_timestamps_parse_to_milliseconds() {
    assert_eq!(parse_vobsub_timestamp_ms(b"00:00:01:500", "s", "movie.idx", 4).unwrap(), 1_500);
    assert_eq!(parse_vobsub_timestamp_ms(b" 01:02:03:004 ", "s", "movie.idx", 4).unwrap(), 3_723_004);
    assert_eq!(parse_vobsub_timestamp_ms(b"-00:00:00:250", "s", "movie.idx", 4).unwrap(), -250);
    assert_eq!(parse_vobsub_timestamp_ms(b"+00:00:02:000", "s", "movie.idx", 4).unwrap(), 2_000);
    assert!(parse_vobsub_timestamp_ms(b"00:00:01", "s", "movie.idx", 4).is_err());
    assert!(parse_vobsub_timestamp_ms(b"00:xx:01:000", "s", "movie.idx", 4).is_err());
}

#[test]
fn vobsub_timestamp_entry_carries_hex_filepos() {
    let (start, filepos) = parse_vobsub_timestamp_entry(b"00:00:10:000, filepos: 00001800", "s", "movie.idx", 4).unwrap();
    assert_eq!(start, 10_000);
    assert_eq!(filepos, 0x1800);
    assert!(parse_vobsub_timestamp_entry(b"00:00:10:000", "s", "movie.idx", 4).is_err());
}

#[test]
fn vobsub_size_and_id_fields() {
    assert_eq!(parse_vobsub_size(b"720x480", "s", "movie.idx", 4).unwrap(), (720, 480));
    assert!(parse_vobsub_size(b"720 480", "s", "movie.idx", 4).is_err());
    assert_eq!(parse_vobsub_id(b"en, index: 3", "s", "movie.idx", 4).unwrap(), (3, *b"eng"));
    assert_eq!(parse_vobsub_id(b"FR, index: 0", "s", "movie.idx", 4).unwrap(), (0, *b"fra"));
    assert!(parse_vobsub_id(b"en, index: 32", "s", "movie.idx", 4).is_err());
    assert!(parse_vobsub_id(b"en", "s", "movie.idx", 4).is_err());
}

#[test]
fn vobsub_languages_map_to_three_letters() {
    assert_eq!(vobsub_language_from_two_letter(*b"de"), *b"deu");
    assert_eq!(vobsub_language_from_two_letter(*b"ja"), *b"jpn");
    assert_eq!(vobsub_language_from_two_letter(*b"qq"), *b"und");
}

#[test]
fn vobsub_palette_converts_rgb_to_ycbcr() {
    let palette = parse_vobsub_palette(&PALETTE.as_bytes()[9..], "s", "movie.idx", 4).unwrap();
    assert_eq!(palette.len(), 16);
    assert_eq!(palette[0], [0, 235, 128, 128]);
    assert_eq!(palette[1], [0, 16, 128, 128]);
    assert!(parse_vobsub_palette(b"ffffff, 000000", "s", "movie.idx", 4).is_err());
    let dsi = vobsub_decoder_specific_info(&palette);
    assert_eq!(dsi.len(), 64);
    assert_eq!(&dsi[..4], &[0, 235, 128, 128]);
}

#[test]
fn vobsub_duration_falls_back_to_the_gap() {
    assert_eq!(effective_vobsub_duration(40, 0, Some(900)).unwrap(), 40);
    assert_eq!(effective_vobsub_duration(0, 100, Some(900)).unwrap(), 800);
    assert_eq!(effective_vobsub_duration(0, 900, Some(100)).unwrap(), 0);
    assert_eq!(effective_vobsub_duration(0, 900, None).unwrap(), 0);
    assert!(matches!(
        effective_vobsub_duration(0, 0, Some(u64::from(u32::MAX) + 1)),
        Err(MuxError::LayoutOverflow(_))
    ));
}

#[test]
fn vobsub_signature_is_checked() {
    assert!(ensure_vobsub_idx_signature(b"# VobSub index file, v7", "s").is_ok());
    assert!(ensure_vobsub_idx_signature(b"WEBVTT", "s").is_err());
}

#[test]
fn vobsub_index_lists_tracks_in_track_order() {
    let text = format!(
        "# VobSub index file, v7 (do not modify this line!)\n\
size: 720x480\n\
{PALETTE}\n\
id: fr, index: 5\n\
timestamp: 00:00:02:000, filepos: 000000800\n\
id: en, index: 1\n\
timestamp: 00:00:01:000, filepos: 000000000\n\
timestamp: 00:00:03:000, filepos: 000001000\n\
id: de, index: 2\n"
    );
    let index = parse_vobsub_index_reader(&lines(&text), "movie.idx", "movie.idx").unwrap();
    assert_eq!((index.width, index.height), (720, 480));
    assert_eq!(index.tracks.len(), 2);
    assert_eq!(index.tracks[0].index, 1);
    assert_eq!(index.tracks[0].language, *b"eng");
    assert_eq!(index.tracks[0].positions.len(), 2);
    assert_eq!(index.tracks[0].positions[1].start_pts, 270_000);
    assert_eq!(index.tracks[0].positions[1].filepos, 0x1000);
    assert_eq!(index.tracks[1].index, 5);
    assert_eq!(index.tracks[1].language, *b"fra");
}

#[test]
fn vobsub_negative_delay_never_moves_a_subtitle_before_the_previous_one() {
    let text = format!(
        "# VobSub index file, v7\n\
size: 720x480\n\
{PALETTE}\n\
id: en, index: 0\n\
timestamp: 00:00:05:000, filepos: 000000000\n\
delay: -00:00:03:000\n\
timestamp: 00:00:06:000, filepos: 000000800\n"
    );
    let index = parse_vobsub_index_reader(&lines(&text), "movie.idx", "movie.idx").unwrap();
    let positions = &index.tracks[0].positions;
    assert_eq!(positions[0].start_pts, 450_000);
    assert_eq!(positions[1].start_pts, 450_000);
}

#[test]
fn vobsub_index_without_header_or_subtitles_is_rejected() {
    let missing_header = lines("size: 720x480\n");
    assert!(matches!(
        parse_vobsub_index_reader(&missing_header, "movie.idx", "movie.idx"),
        Err(MuxError::UnsupportedTrackImport { .. })
    ));
    let text = format!("# VobSub index file, v7\nsize: 720x480\n{PALETTE}\nid: en, index: 0\n");
    assert!(parse_vobsub_index_reader(&lines(&text), "movie.idx", "movie.idx").is_err());
}

#[test]
fn vobsub_line_errors_name_the_file_and_line() {
    match parse_vobsub_size(b"720 480", "s", "movie.idx", 12) {
        Err(MuxError::UnsupportedTrackImport { spec, message }) => {
            assert_eq!(spec, "s");
            assert_eq!(message, "expected `size: WIDTHxHEIGHT` in VobSub index file `movie.idx` on line 12");
        }
        other => panic!("unexpected result {other:?}"),
    }
    let text = format!("# VobSub index file, v7\nsize: 720x480\n{PALETTE}\nid: english\n");
    match parse_vobsub_index_reader(&lines(&text), "subs/movie.idx", "movie") {
        Err(MuxError::UnsupportedTrackImport { message, .. }) => {
            assert_eq!(message, "expected `id: xx, index: N` in VobSub index file `subs/movie.idx` on line 4");
        }
        Err(other) => panic!("unexpected error {other:?}"),
        Ok(_) => panic!("a malformed id line was accepted"),
    }
    let text = format!("# VobSub index file, v7\nsize: 720x480\n{PALETTE}\nid: en, index: 0\n");
    match parse_vobsub_index_reader(&lines(&text), "movie.idx", "movie") {
        Err(MuxError::UnsupportedTrackImport { message, .. }) => {
            assert_eq!(message, "VobSub index file `movie.idx` did not declare any subtitle positions");
        }
        Err(other) => panic!("unexpected error {other:?}"),
        Ok(_) => panic!("an index without positions was accepted"),
    }
}

#[test]
fn vobsub_values_shed_unicode_white_space_like_str_trim() {
    assert_eq!(parse_vobsub_size("\u{a0}720x480\u{3000}".as_bytes(), "s", "movie.idx", 2).unwrap(), (720, 480));
    assert_eq!(parse_vobsub_size("720\u{2003}x 480\u{85}".as_bytes(), "s", "movie.idx", 2).unwrap(), (720, 480));
    assert_eq!(parse_vobsub_timestamp_ms("\u{202f}00:00:01:500".as_bytes(), "s", "movie.idx", 2).unwrap(), 1_500);
    assert!(parse_vobsub_size("\u{200b}720x480".as_bytes(), "s", "movie.idx", 2).is_err());
}
