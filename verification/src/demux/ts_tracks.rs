use vstd::prelude::*;
use crate::error::{Failure, MuxError, fails_as, import_error};
use crate::demux::ts_samples::TransportTimestampAnchor;
use crate::demux::ts_psi::{
    DvbSubtitleConfig, TransportTrackKind, av1_descriptor_outcome, avs3_step, descriptor_scan,
    parse_transport_av1_video_descriptor, parse_transport_avs3_video_descriptor, parse_transport_private_data_track,
    private_data_step, section_crc_ok, section_length_at, validate_transport_section_crc,
};
use crate::demux::ts_clock::TransportProgramClockState;

verus! {

/// A run of payload bytes at `file_offset` in the input file, `size` bytes long.
#[derive(Clone, Copy, Debug, PartialEq, Eq)]
pub struct FileRangeSegment {
    pub file_offset: u64,
    pub size: u32,
}

/// The payload of one elementary stream as the packets deliver it.
pub struct TransportTrackBuilder {
    pub pid: u16,
    pub kind: TransportTrackKind,
    pub segments: Vec<FileRangeSegment>,
    pub total_size: u64,
    pub sample_offsets: Vec<u64>,
    pub pts_anchors: Vec<TransportTimestampAnchor>,
    pub language: [u8; 3],
    pub dvb_subtitle: Option<DvbSubtitleConfig>,
    pub av1_descriptor: Option<[u8; 4]>,
    pub avs3_config: Option<Vec<u8>>,
}

/// The contents of a [`TransportTrackBuilder`].
pub struct TransportTrackView {
    pub pid: u16,
    pub kind: TransportTrackKind,
    pub segments: Seq<FileRangeSegment>,
    pub total_size: u64,
    pub sample_offsets: Seq<u64>,
    pub pts_anchors: Seq<TransportTimestampAnchor>,
    pub language: [u8; 3],
    pub dvb_subtitle: Option<DvbSubtitleConfig>,
    pub av1_descriptor: Option<Seq<u8>>,
    pub avs3_config: Option<Seq<u8>>,
}

impl View for TransportTrackBuilder {
    type V = TransportTrackView;

    open spec fn view(&self) -> TransportTrackView {
        TransportTrackView {
            pid: self.pid,
            kind: self.kind,
            segments: self.segments@,
            total_size: self.total_size,
            sample_offsets: self.sample_offsets@,
            pts_anchors: self.pts_anchors@,
            language: self.language,
            dvb_subtitle: self.dvb_subtitle,
            av1_descriptor: match self.av1_descriptor { Some(a) => Some(a@), None => None },
            avs3_config: match self.avs3_config { Some(c) => Some(c@), None => None },
        }
    }
}

/// A fresh builder for `pid`: no payload, undetermined language, no descriptors.
pub open spec fn fresh_track(pid: u16, kind: TransportTrackKind) -> TransportTrackView {
    TransportTrackView {
        pid,
        kind,
        segments: Seq::empty(),
        total_size: 0,
        sample_offsets: Seq::empty(),
        pts_anchors: Seq::empty(),
        language: [0x75u8, 0x6E, 0x64],
        dvb_subtitle: None,
        av1_descriptor: None,
        avs3_config: None,
    }
}

/// Starts a builder for an elementary stream.
pub fn new_transport_track_builder(pid: u16, kind: TransportTrackKind) -> (r: TransportTrackBuilder)
    ensures
        r@ == fresh_track(pid, kind),
{
    TransportTrackBuilder {
        pid,
        kind,
        segments: Vec::new(),
        total_size: 0,
        sample_offsets: Vec::new(),
        pts_anchors: Vec::new(),
        language: [0x75u8, 0x6E, 0x64],
        dvb_subtitle: None,
        av1_descriptor: None,
        avs3_config: None,
    }
}

/// Whether each PES packet of the stream is one whole sample.
pub open spec fn uses_full_au(kind: TransportTrackKind) -> bool {
    kind == TransportTrackKind::Av1 || kind == TransportTrackKind::Avs3 || kind == TransportTrackKind::DvbSubtitle
        || kind == TransportTrackKind::DvbTeletext
}

/// Whether the stream's PES timestamps are translated onto the program clock.
pub open spec fn uses_program_clock(kind: TransportTrackKind) -> bool {
    kind == TransportTrackKind::Mp3 || kind == TransportTrackKind::Aac || kind == TransportTrackKind::Latm
        || kind == TransportTrackKind::Mhas || kind == TransportTrackKind::Ac3 || kind == TransportTrackKind::Truehd
        || kind == TransportTrackKind::Eac3 || kind == TransportTrackKind::Ac4 || kind == TransportTrackKind::Dts
}

/// AV1, AVS3 and DVB subtitle and teletext streams carry one sample per PES packet.
pub fn transport_track_uses_full_au(kind: TransportTrackKind) -> (r: bool)
    ensures
        r == uses_full_au(kind),
{
    match kind {
        TransportTrackKind::Av1 | TransportTrackKind::Avs3 | TransportTrackKind::DvbSubtitle | TransportTrackKind::DvbTeletext => true,
        _ => false,
    }
}

/// Audio streams have their PES timestamps translated onto the program clock.
pub fn transport_track_uses_program_clock_translation(kind: TransportTrackKind) -> (r: bool)
    ensures
        r == uses_program_clock(kind),
{
    match kind {
        TransportTrackKind::Mp3 | TransportTrackKind::Aac | TransportTrackKind::Latm | TransportTrackKind::Mhas
        | TransportTrackKind::Ac3 | TransportTrackKind::Truehd | TransportTrackKind::Eac3 | TransportTrackKind::Ac4
        | TransportTrackKind::Dts => true,
        _ => false,
    }
}

/// The first position from `i` on whose builder's PID is at least `pid`.
pub open spec fn pid_position(s: Seq<TransportTrackView>, pid: u16, i: int) -> int
    decreases s.len() - i,
{
    if i < 0 || i >= s.len() {
        s.len() as int
    } else if s[i].pid >= pid {
        i
    } else {
        pid_position(s, pid, i + 1)
    }
}

/// `s` with `t` added in PID order, unless a builder for its PID is already there.
pub open spec fn insert_track(s: Seq<TransportTrackView>, t: TransportTrackView) -> Seq<TransportTrackView> {
    let p = pid_position(s, t.pid, 0);
    if p < s.len() && s[p].pid == t.pid { s } else { s.insert(p, t) }
}

/// The builders are in strictly increasing PID order.
pub open spec fn pids_increasing(s: Seq<TransportTrackView>) -> bool {
    forall|i: int, j: int| 0 <= i < j < s.len() ==> s[i].pid < s[j].pid
}

/// The views of builders.
pub open spec fn track_views(v: Seq<TransportTrackBuilder>) -> Seq<TransportTrackView> {
    v.map_values(|b: TransportTrackBuilder| b@)
}

/// Where `pid_position` lands: every builder before it has a smaller PID.
proof fn lemma_pid_position(s: Seq<TransportTrackView>, pid: u16, i: int)
    requires
        0 <= i <= s.len(),
        forall|k: int| 0 <= k < i ==> s[k].pid < pid,
    ensures
        i <= pid_position(s, pid, i) <= s.len(),
        forall|k: int| 0 <= k < pid_position(s, pid, i) ==> s[k].pid < pid,
        pid_position(s, pid, i) < s.len() ==> s[pid_position(s, pid, i)].pid >= pid,
        pid_position(s, pid, i) == pid_position(s, pid, 0),
    decreases s.len() - i,
{
    if i < s.len() && s[i].pid < pid {
        lemma_pid_position(s, pid, i + 1);
    }
    if i > 0 {
        lemma_pid_position_prefix(s, pid, i);
    }
}

/// Starting later past smaller PIDs lands in the same place.
proof fn lemma_pid_position_prefix(s: Seq<TransportTrackView>, pid: u16, i: int)
    requires
        0 <= i <= s.len(),
        forall|k: int| 0 <= k < i ==> s[k].pid < pid,
    ensures
        pid_position(s, pid, i) == pid_position(s, pid, 0),
    decreases i,
{
    if i > 0 {
        lemma_pid_position_prefix(s, pid, i - 1);
    }
}

/// Adds a builder in PID order unless one for its PID exists.
pub fn insert_transport_track(builders: &mut Vec<TransportTrackBuilder>, track: TransportTrackBuilder)
    requires
        pids_increasing(track_views(old(builders)@)),
    ensures
        track_views(final(builders)@) == insert_track(track_views(old(builders)@), track@),
        pids_increasing(track_views(final(builders)@)),
{
    let ghost before = track_views(builders@);
    let mut p: usize = 0;
    while p < builders.len() && builders[p].pid < track.pid
        invariant
            p <= builders@.len(),
            before == track_views(builders@),
            forall|k: int| 0 <= k < p ==> before[k].pid < track.pid,
        decreases builders.len() - p,
    {
        p = p + 1;
    }
    proof { lemma_pid_position(before, track.pid, p as int); }
    if p < builders.len() && builders[p].pid == track.pid {
        return;
    }
    let ghost t = track@;
    builders.insert(p, track);
    proof {
        assert(track_views(builders@) =~= before.insert(p as int, t));
        assert forall|i: int, j: int| 0 <= i < j < builders@.len() implies track_views(builders@)[i].pid < track_views(builders@)[j].pid by {
            let s = track_views(builders@);
            if j < p {
                assert(s[i] == before[i] && s[j] == before[j]);
            } else if j == p {
                assert(s[i] == before[i]);
            } else if i < p {
                assert(s[i] == before[i] && s[j] == before[j - 1]);
            } else if i == p {
                assert(s[j] == before[j - 1]);
                assert(before[j - 1].pid >= t.pid);
            } else {
                assert(s[i] == before[i - 1] && s[j] == before[j - 1]);
            }
        }
    }
}

/// The builder a PMT entry of `stream_type` declares, if any, or a rejection.
pub open spec fn pmt_entry_track(stream_type: u8, pid: u16, es_info: Seq<u8>) -> Result<Option<TransportTrackView>, Failure> {
    let plain = |k: TransportTrackKind| Ok::<Option<TransportTrackView>, Failure>(Some(fresh_track(pid, k)));
    if stream_type == 0x03 || stream_type == 0x04 {
        plain(TransportTrackKind::Mp3)
    } else if stream_type == 0x0F {
        plain(TransportTrackKind::Aac)
    } else if stream_type == 0x11 {
        plain(TransportTrackKind::Latm)
    } else if stream_type == 0x2D || stream_type == 0x2E {
        plain(TransportTrackKind::Mhas)
    } else if stream_type == 0x81 {
        plain(TransportTrackKind::Ac3)
    } else if stream_type == 0x82 {
        plain(TransportTrackKind::Dts)
    } else if stream_type == 0x83 {
        plain(TransportTrackKind::Truehd)
    } else if stream_type == 0x84 {
        plain(TransportTrackKind::Eac3)
    } else if stream_type == 0x02 {
        plain(TransportTrackKind::Mpeg2v)
    } else if stream_type == 0x10 {
        plain(TransportTrackKind::Mp4v)
    } else if stream_type == 0x1B {
        plain(TransportTrackKind::H264)
    } else if stream_type == 0x24 {
        plain(TransportTrackKind::H265)
    } else if stream_type == 0x33 || stream_type == 0x34 {
        plain(TransportTrackKind::Vvc)
    } else if stream_type == 0x06 {
        match av1_descriptor_outcome(es_info) {
            Err(f) => Err(f),
            Ok(Some(d)) => Ok(Some(TransportTrackView { av1_descriptor: Some(d), ..fresh_track(pid, TransportTrackKind::Av1) })),
            Ok(None) => match descriptor_scan(es_info, 0, None, |st: Option<crate::demux::ts_psi::TransportPrivateDataTrack>, tag: u8, p: Seq<u8>| private_data_step(st, tag, p)) {
                Err(f) => Err(f),
                Ok(None) => Ok(None),
                Ok(Some(t)) => Ok(Some(TransportTrackView { language: t.language, dvb_subtitle: t.dvb_subtitle, ..fresh_track(pid, t.kind) })),
            },
        }
    } else if stream_type == 0xD4 {
        match descriptor_scan(es_info, 0, None, |st: Option<Seq<u8>>, tag: u8, p: Seq<u8>| avs3_step(st, tag, p)) {
            Err(f) => Err(f),
            Ok(None) => Err(Failure::Rejected),
            Ok(Some(c)) => Ok(Some(TransportTrackView { avs3_config: Some(c), ..fresh_track(pid, TransportTrackKind::Avs3) })),
        }
    } else {
        Err(Failure::Rejected)
    }
}

/// The builders that the elementary-stream loop of a PMT, from `e` to `end`, declares.
pub open spec fn pmt_entries(payload: Seq<u8>, e: int, end: int) -> Result<Seq<TransportTrackView>, Failure>
    decreases end - e,
{
    if e + 5 > end {
        Ok(Seq::empty())
    } else {
        let pid = ((payload[e + 1] as int % 32) * 256 + payload[e + 2] as int) as u16;
        let es_end = e + 5 + (payload[e + 3] as int % 16) * 256 + payload[e + 4] as int;
        if es_end > end {
            Err(Failure::Rejected)
        } else {
            match pmt_entry_track(payload[e], pid, payload.subrange(e + 5, es_end)) {
                Err(f) => Err(f),
                Ok(declared) => match pmt_entries(payload, es_end, end) {
                    Err(f) => Err(f),
                    Ok(rest) => Ok(match declared { Some(t) => seq![t] + rest, None => rest }),
                },
            }
        }
    }
}

/// The builders after adding each declared builder in turn.
pub open spec fn insert_tracks(s: Seq<TransportTrackView>, declared: Seq<TransportTrackView>) -> Seq<TransportTrackView>
    decreases declared.len(),
{
    if declared.len() == 0 {
        s
    } else {
        insert_track(insert_tracks(s, declared.drop_last()), declared.last())
    }
}

/// The builders that the elementary-stream loop of a PMT, from `e` to `end`, declares before
/// its first malformed or unsupported entry (all of them when there is none).
pub open spec fn pmt_entries_until_failure(payload: Seq<u8>, e: int, end: int) -> Seq<TransportTrackView>
    decreases end - e,
{
    if e + 5 > end {
        Seq::empty()
    } else {
        let pid = ((payload[e + 1] as int % 32) * 256 + payload[e + 2] as int) as u16;
        let es_end = e + 5 + (payload[e + 3] as int % 16) * 256 + payload[e + 4] as int;
        if es_end > end {
            Seq::empty()
        } else {
            match pmt_entry_track(payload[e], pid, payload.subrange(e + 5, es_end)) {
                Err(f) => Seq::empty(),
                Ok(declared) => {
                    let rest = pmt_entries_until_failure(payload, es_end, end);
                    match declared { Some(t) => seq![t] + rest, None => rest }
                },
            }
        }
    }
}

/// Whether a PMT payload carries a whole section with table id 2 and a sound CRC: the point
/// from which its PCR PID is taken.
pub open spec fn pmt_header_ok(payload: Seq<u8>) -> bool {
    &&& payload.len() > 0
    &&& payload.len() >= 1 + payload[0] as int + 12
    &&& payload[1 + payload[0] as int] == 2
    &&& payload.len() >= 1 + payload[0] as int + 3 + section_length_at(payload, 1 + payload[0] as int)
    &&& section_crc_ok(payload.subrange(1 + payload[0] as int,
        1 + payload[0] as int + 3 + section_length_at(payload, 1 + payload[0] as int)))
}

/// The PCR PID a PMT section names.
pub open spec fn pmt_pcr_pid(payload: Seq<u8>) -> u16 {
    let start = 1 + payload[0] as int;
    ((payload[start + 8] as int % 32) * 256 + payload[start + 9] as int) as u16
}

/// The builders a PMT section declares before its first malformed or unsupported entry.
pub open spec fn pmt_declared_until_failure(payload: Seq<u8>) -> Seq<TransportTrackView> {
    let start = 1 + payload[0] as int;
    let info_length = (payload[start + 10] as int % 16) * 256 + payload[start + 11] as int;
    pmt_entries_until_failure(payload, start + 12 + info_length, start + 3 + section_length_at(payload, start) - 4)
}

/// The outcome of a PMT payload: nothing to do when empty; otherwise its PCR PID and the
/// builders its elementary streams declare, or a rejection.
pub open spec fn pmt_outcome(payload: Seq<u8>) -> Result<Option<(u16, Seq<TransportTrackView>)>, Failure> {
    if payload.len() == 0 {
        Ok(None)
    } else {
        let start = 1 + payload[0] as int;
        if payload.len() < start + 12 {
            Err(Failure::Rejected)
        } else if payload[start] != 2 {
            Err(Failure::Rejected)
        } else {
            let length = section_length_at(payload, start);
            if payload.len() < start + 3 + length {
                Err(Failure::Rejected)
            } else if !section_crc_ok(payload.subrange(start, start + 3 + length)) {
                Err(Failure::Rejected)
            } else {
                let pcr_pid = ((payload[start + 8] as int % 32) * 256 + payload[start + 9] as int) as u16;
                let info_length = (payload[start + 10] as int % 16) * 256 + payload[start + 11] as int;
                match pmt_entries(payload, start + 12 + info_length, start + 3 + length - 4) {
                    Err(f) => Err(f),
                    Ok(declared) => Ok(Some((pcr_pid, declared))),
                }
            }
        }
    }
}

/// Reads the builder that one PMT entry declares.
fn pmt_entry_builder(spec: &str, stream_type: u8, pid: u16, es_info: &[u8]) -> (r: Result<Option<TransportTrackBuilder>, MuxError>)
    ensures
        match pmt_entry_track(stream_type, pid, es_info@) {
            Ok(None) => r matches Ok(None),
            Ok(Some(t)) => r matches Ok(Some(b)) && b@ == t,
            Err(f) => r matches Err(e) && fails_as(e, f, spec@),
        },
{
    let kind = if stream_type == 0x03 || stream_type == 0x04 {
        TransportTrackKind::Mp3
    } else if stream_type == 0x0F {
        TransportTrackKind::Aac
    } else if stream_type == 0x11 {
        TransportTrackKind::Latm
    } else if stream_type == 0x2D || stream_type == 0x2E {
        TransportTrackKind::Mhas
    } else if stream_type == 0x81 {
        TransportTrackKind::Ac3
    } else if stream_type == 0x82 {
        TransportTrackKind::Dts
    } else if stream_type == 0x83 {
        TransportTrackKind::Truehd
    } else if stream_type == 0x84 {
        TransportTrackKind::Eac3
    } else if stream_type == 0x02 {
        TransportTrackKind::Mpeg2v
    } else if stream_type == 0x10 {
        TransportTrackKind::Mp4v
    } else if stream_type == 0x1B {
        TransportTrackKind::H264
    } else if stream_type == 0x24 {
        TransportTrackKind::H265
    } else if stream_type == 0x33 || stream_type == 0x34 {
        TransportTrackKind::Vvc
    } else if stream_type == 0x06 {
        match parse_transport_av1_video_descriptor(spec, es_info) {
            Err(e) => return Err(e),
            Ok(Some(d)) => {
                let mut b = new_transport_track_builder(pid, TransportTrackKind::Av1);
                b.av1_descriptor = Some(d);
                return Ok(Some(b));
            },
            Ok(None) => {},
        }
        return match parse_transport_private_data_track(spec, es_info) {
            Err(e) => Err(e),
            Ok(None) => Ok(None),
            Ok(Some(t)) => {
                let mut b = new_transport_track_builder(pid, t.kind);
                b.language = t.language;
                b.dvb_subtitle = t.dvb_subtitle;
                Ok(Some(b))
            },
        };
    } else if stream_type == 0xD4 {
        return match parse_transport_avs3_video_descriptor(spec, es_info) {
            Err(e) => Err(e),
            Ok(c) => {
                let mut b = new_transport_track_builder(pid, TransportTrackKind::Avs3);
                b.avs3_config = Some(c);
                Ok(Some(b))
            },
        };
    } else {
        let message = String::from_str("transport-stream stream type 0x").concat(hex_byte(stream_type).as_str())
            .concat(" is not supported on the native direct-ingest path yet");
        return Err(MuxError::UnsupportedTrackImport { spec: spec.to_owned(), message });
    };
    Ok(Some(new_transport_track_builder(pid, kind)))
}

/// The upper-case hexadecimal digit of a nibble (`F` for anything above 15).
pub open spec fn hex_char(n: u8) -> char {
    if n < 10 { (0x30 + n) as char } else if n < 16 { (0x41 + n - 10) as char } else { 'F' }
}

/// The upper-case hexadecimal digit of a nibble.
pub(crate) fn hex_digit(n: u8) -> (r: &'static str)
    ensures
        r@ == seq![hex_char(n)],
{
    match n {
        0 => { proof { reveal_strlit("0"); } "0" },
        1 => { proof { reveal_strlit("1"); } "1" },
        2 => { proof { reveal_strlit("2"); } "2" },
        3 => { proof { reveal_strlit("3"); } "3" },
        4 => { proof { reveal_strlit("4"); } "4" },
        5 => { proof { reveal_strlit("5"); } "5" },
        6 => { proof { reveal_strlit("6"); } "6" },
        7 => { proof { reveal_strlit("7"); } "7" },
        8 => { proof { reveal_strlit("8"); } "8" },
        9 => { proof { reveal_strlit("9"); } "9" },
        10 => { proof { reveal_strlit("A"); } "A" },
        11 => { proof { reveal_strlit("B"); } "B" },
        12 => { proof { reveal_strlit("C"); } "C" },
        13 => { proof { reveal_strlit("D"); } "D" },
        14 => { proof { reveal_strlit("E"); } "E" },
        _ => { proof { reveal_strlit("F"); } "F" },
    }
}

/// Two upper-case hexadecimal digits for a byte.
pub(crate) fn hex_byte(b: u8) -> (r: String)
    ensures
        r@ == seq![hex_char(b / 16), hex_char(b % 16)],
{
    let r = String::from_str(hex_digit(b / 16)).concat(hex_digit(b % 16));
    assert(r@ =~= seq![hex_char(b / 16), hex_char(b % 16)]);
    r
}

/// Parses a PMT section: records the program's PCR PID and adds a builder for every carried
/// elementary stream that has none yet.
pub fn parse_pmt_section(
    spec: &str,
    payload: &[u8],
    builders: &mut Vec<TransportTrackBuilder>,
    program_clock: &mut TransportProgramClockState,
) -> (r: Result<(), MuxError>)
    requires
        pids_increasing(track_views(old(builders)@)),
    ensures
        pids_increasing(track_views(final(builders)@)),
        final(program_clock).before_last_pcr_value == old(program_clock).before_last_pcr_value,
        final(program_clock).last_pcr_value == old(program_clock).last_pcr_value,
        match pmt_outcome(payload@) {
            Ok(None) => r is Ok && final(builders)@ == old(builders)@ && *final(program_clock) == *old(program_clock),
            Ok(Some((pcr_pid, declared))) => r is Ok
                && track_views(final(builders)@) == insert_tracks(track_views(old(builders)@), declared)
                && *final(program_clock) == (TransportProgramClockState { pcr_pid: Some(pcr_pid), ..*old(program_clock) }),
            Err(f) => r matches Err(e) && fails_as(e, f, spec@),
        },
        pmt_header_ok(payload@) ==> *final(program_clock) == (TransportProgramClockState {
            pcr_pid: Some(pmt_pcr_pid(payload@)),
            ..*old(program_clock)
        }) && track_views(final(builders)@) == insert_tracks(track_views(old(builders)@), pmt_declared_until_failure(payload@)),
        !pmt_header_ok(payload@) ==> final(builders)@ == old(builders)@ && *final(program_clock) == *old(program_clock),
{
    if payload.len() == 0 {
        return Ok(());
    }
    let start = 1 + payload[0] as usize;
    if payload.len() < start + 12 {
        return Err(import_error(spec, "truncated PMT section"));
    }
    if payload[start] != 2 {
        return Err(import_error(spec, "unsupported PMT table id"));
    }
    let length = (payload[start + 1] % 16) as usize * 256 + payload[start + 2] as usize;
    if payload.len() < start + 3 + length {
        return Err(import_error(spec, "truncated PMT payload"));
    }
    match validate_transport_section_crc(spec, "PMT", &payload[start..start + 3 + length]) {
        Err(e) => return Err(e),
        Ok(()) => {},
    }
    let pcr_pid = (payload[start + 8] % 32) as u16 * 256 + payload[start + 9] as u16;
    program_clock.pcr_pid = Some(pcr_pid);
    let info_length = (payload[start + 10] % 16) as usize * 256 + payload[start + 11] as usize;
    let section_end = start + 3 + length - 4;
    let ghost first = start + 12 + info_length;
    let ghost original = track_views(builders@);
    let ghost mut declared: Seq<TransportTrackView> = Seq::empty();
    let mut e = start + 12 + info_length;
    proof {
        assert(pmt_header_ok(payload@));
        assert(declared + pmt_entries_until_failure(payload@, e as int, section_end as int)
            == pmt_entries_until_failure(payload@, e as int, section_end as int));
        match pmt_entries(payload@, e as int, section_end as int) {
            Err(f) => {},
            Ok(rest) => {
                assert(declared + rest == rest);
            },
        }
    }
    while e <= section_end && section_end - e >= 5
        invariant
            section_end + 4 <= payload@.len(),
            pids_increasing(track_views(builders@)),
            original == track_views(old(builders)@),
            track_views(builders@) == insert_tracks(original, declared),
            *program_clock == (TransportProgramClockState { pcr_pid: Some(pcr_pid), ..*old(program_clock) }),
            pmt_header_ok(payload@),
            pcr_pid == pmt_pcr_pid(payload@),
            section_end as int == 1 + payload@[0] as int + 3 + section_length_at(payload@, 1 + payload@[0] as int) - 4,
            pmt_declared_until_failure(payload@) == declared + pmt_entries_until_failure(payload@, e as int, section_end as int),
            pmt_outcome(payload@) == match pmt_entries(payload@, e as int, section_end as int) {
                Err(f) => Err(f),
                Ok(rest) => Ok::<Option<(u16, Seq<TransportTrackView>)>, Failure>(Some((pcr_pid, declared + rest))),
            },
        decreases section_end - e,
    {
        let stream_type = payload[e];
        let pid = (payload[e + 1] % 32) as u16 * 256 + payload[e + 2] as u16;
        let es_length = (payload[e + 3] % 16) as usize * 256 + payload[e + 4] as usize;
        if es_length > section_end - e - 5 {
            proof {
                assert(pmt_entries_until_failure(payload@, e as int, section_end as int) == Seq::<TransportTrackView>::empty());
                assert(declared + Seq::<TransportTrackView>::empty() == declared);
            }
            return Err(import_error(spec, "truncated PMT elementary-stream descriptor payload"));
        }
        let es_end = e + 5 + es_length;
        match pmt_entry_builder(spec, stream_type, pid, &payload[e + 5..es_end]) {
            Err(err) => {
                proof {
                    assert(pmt_entries_until_failure(payload@, e as int, section_end as int) == Seq::<TransportTrackView>::empty());
                    assert(declared + Seq::<TransportTrackView>::empty() == declared);
                }
                return Err(err);
            },
            Ok(None) => {
                proof {
                    assert(pmt_entries(payload@, e as int, section_end as int) == match pmt_entries(payload@, es_end as int, section_end as int) {
                        Err(f) => Err(f),
                        Ok(rest) => Ok::<Seq<TransportTrackView>, Failure>(rest),
                    });
                    assert(pmt_entries_until_failure(payload@, e as int, section_end as int)
                        == pmt_entries_until_failure(payload@, es_end as int, section_end as int));
                }
            },
            Ok(Some(b)) => {
                let ghost t = b@;
                insert_transport_track(builders, b);
                proof {
                    assert(declared.push(t).drop_last() == declared);
                    match pmt_entries(payload@, es_end as int, section_end as int) {
                        Err(f) => {},
                        Ok(rest) => {
                            assert(declared + (seq![t] + rest) == declared.push(t) + rest);
                        },
                    }
                    let later = pmt_entries_until_failure(payload@, es_end as int, section_end as int);
                    assert(pmt_entries_until_failure(payload@, e as int, section_end as int) == seq![t] + later);
                    assert(declared + (seq![t] + later) == declared.push(t) + later);
                    declared = declared.push(t);
                }
            },
        }
        e = es_end;
    }
    proof {
        assert(declared + Seq::<TransportTrackView>::empty() == declared);
        assert(pmt_entries_until_failure(payload@, e as int, section_end as int) == Seq::<TransportTrackView>::empty());
    }
    Ok(())
}


/// A PMT entry's outcome is a builder of `kind` on `pid`.
pub open spec fn declares_builder(r: Result<Option<TransportTrackView>, Failure>, pid: u16, kind: TransportTrackKind) -> bool {
    r matches Ok(Some(t)) && t.pid == pid && t.kind == kind
}

/// The stream types a PMT entry may carry and what each declares, as in the ISO/IEC 13818-1
/// stream-type table and its registered private assignments: MPEG-1 and MPEG-2 audio (0x03,
/// 0x04) are MP3, ADTS AAC (0x0F) is AAC, LATM AAC (0x11) is LATM, MPEG-H 3D audio (0x2D,
/// 0x2E) is MHAS, 0x81 AC-3, 0x82 DTS, 0x83 TrueHD, 0x84 E-AC-3, 0x02 MPEG-2 video, 0x10
/// MPEG-4 visual, 0x1B H.264, 0x24 H.265, 0x33 and 0x34 VVC; whatever descriptors follow, the
/// builder is of that codec on the entry's PID. Private data (0x06) and AVS3 (0xD4) are read
/// from their descriptors, and any other stream type is rejected.
pub proof fn lemma_pmt_stream_type_table(stream_type: u8, pid: u16, es_info: Seq<u8>)
    ensures
        stream_type == 0x03 || stream_type == 0x04 ==> declares_builder(pmt_entry_track(stream_type, pid, es_info), pid, TransportTrackKind::Mp3),
        stream_type == 0x0F ==> declares_builder(pmt_entry_track(stream_type, pid, es_info), pid, TransportTrackKind::Aac),
        stream_type == 0x11 ==> declares_builder(pmt_entry_track(stream_type, pid, es_info), pid, TransportTrackKind::Latm),
        stream_type == 0x2D || stream_type == 0x2E ==> declares_builder(pmt_entry_track(stream_type, pid, es_info), pid, TransportTrackKind::Mhas),
        stream_type == 0x81 ==> declares_builder(pmt_entry_track(stream_type, pid, es_info), pid, TransportTrackKind::Ac3),
        stream_type == 0x82 ==> declares_builder(pmt_entry_track(stream_type, pid, es_info), pid, TransportTrackKind::Dts),
        stream_type == 0x83 ==> declares_builder(pmt_entry_track(stream_type, pid, es_info), pid, TransportTrackKind::Truehd),
        stream_type == 0x84 ==> declares_builder(pmt_entry_track(stream_type, pid, es_info), pid, TransportTrackKind::Eac3),
        stream_type == 0x02 ==> declares_builder(pmt_entry_track(stream_type, pid, es_info), pid, TransportTrackKind::Mpeg2v),
        stream_type == 0x10 ==> declares_builder(pmt_entry_track(stream_type, pid, es_info), pid, TransportTrackKind::Mp4v),
        stream_type == 0x1B ==> declares_builder(pmt_entry_track(stream_type, pid, es_info), pid, TransportTrackKind::H264),
        stream_type == 0x24 ==> declares_builder(pmt_entry_track(stream_type, pid, es_info), pid, TransportTrackKind::H265),
        stream_type == 0x33 || stream_type == 0x34 ==> declares_builder(pmt_entry_track(stream_type, pid, es_info), pid, TransportTrackKind::Vvc),
        !(stream_type == 0x02 || stream_type == 0x03 || stream_type == 0x04 || stream_type == 0x06 || stream_type == 0x0F
            || stream_type == 0x10 || stream_type == 0x11 || stream_type == 0x1B || stream_type == 0x24 || stream_type == 0x2D
            || stream_type == 0x2E || stream_type == 0x33 || stream_type == 0x34 || (0x81 <= stream_type <= 0x84)
            || stream_type == 0xD4) ==> pmt_entry_track(stream_type, pid, es_info) is Err,
        pmt_entry_track(stream_type, pid, es_info) matches Ok(Some(t)) ==> t.pid == pid,
{
}
} // verus!
