use vstd::prelude::*;
use crate::error::{Failure, MuxError, fails_as, import_error};
use crate::sample::CandidateSample;
use crate::demux::vp9::BitCursor;
use crate::demux::vvc::{rb, read_n, lemma_bits_value_bound};
use crate::demux::mp4v::{mp4v_frame_size, parse_mp4v_decoder_specific_info};

verus! {

/// A media access unit of a declared SAF stream, before durations are known.
#[derive(Clone, Copy, Debug, PartialEq, Eq)]
pub struct PendingSafSample {
    pub data_offset: u64,
    pub data_size: u32,
    pub cts: u32,
    pub is_sync_sample: bool,
}

/// An import rejection naming the SAF input.
pub fn invalid_saf(spec: &str, message: &str) -> (e: MuxError)
    ensures
        fails_as(e, Failure::Rejected, spec@),
{
    import_error(spec, message)
}

/// The rejection a failed read of the SAF input becomes, naming the operation.
pub fn saf_io_error(spec: &str, operation: &str) -> (e: MuxError)
    ensures
        fails_as(e, Failure::Rejected, spec@),
{
    import_error(spec, operation)
}

/// The duration of pending sample `i`: the time to the next sample, or for the last one the
/// duration before it (1 when it is alone); nothing when time runs backwards.
pub open spec fn pending_durations_ok(s: Seq<PendingSafSample>) -> bool {
    forall|i: int| 0 <= i < s.len() - 1 ==> s[i].cts <= #[trigger] s[i + 1].cts
}

/// The duration of pending sample `i` of a well-ordered list.
pub open spec fn pending_duration(s: Seq<PendingSafSample>, i: int) -> u32 {
    if i + 1 < s.len() {
        (s[i + 1].cts - s[i].cts) as u32
    } else if s.len() >= 2 {
        (s[s.len() - 1].cts - s[s.len() - 2].cts) as u32
    } else {
        1
    }
}

/// Times pending SAF access units by the gaps between their composition times.
pub fn candidate_samples_from_pending(spec: &str, samples: &[PendingSafSample]) -> (r: Result<Vec<CandidateSample>, MuxError>)
    ensures
        pending_durations_ok(samples@) ==> (r matches Ok(v) && v@.len() == samples@.len()
            && forall|i: int| 0 <= i < samples@.len() ==> #[trigger] v@[i] == (CandidateSample {
                source_index: 0,
                data_offset: samples@[i].data_offset,
                data_size: samples@[i].data_size,
                duration: pending_duration(samples@, i),
                composition_time_offset: 0,
                is_sync_sample: samples@[i].is_sync_sample,
            })),
        !pending_durations_ok(samples@) ==> (r matches Err(e) && fails_as(e, Failure::Rejected, spec@)),
{
    let n = samples.len();
    let mut result: Vec<CandidateSample> = Vec::new();
    let mut last_delta: Option<u32> = None;
    let mut i: usize = 0;
    while i < n
        invariant
            n == samples@.len(),
            i <= n,
            result@.len() == i,
            forall|j: int| 0 <= j < i - 1 ==> samples@[j].cts <= #[trigger] samples@[j + 1].cts,
            i >= 1 && i < n ==> samples@[i as int - 1].cts <= samples@[i as int].cts,
            last_delta matches Some(d) ==> i >= 1 && n >= 2 && (i < n ==> d == samples@[i as int].cts - samples@[i as int - 1].cts),
            last_delta is None ==> i == 0 || n <= 1 || i == n,
            forall|j: int| 0 <= j < i ==> #[trigger] result@[j] == (CandidateSample {
                source_index: 0,
                data_offset: samples@[j].data_offset,
                data_size: samples@[j].data_size,
                duration: pending_duration(samples@, j),
                composition_time_offset: 0,
                is_sync_sample: samples@[j].is_sync_sample,
            }),
        decreases n - i,
    {
        let sample = samples[i];
        let duration = if i + 1 < n {
            let next = samples[i + 1];
            if next.cts < sample.cts {
                return Err(invalid_saf(spec, "SAF stream carried a decode-time regression between successive AUs"));
            }
            let delta = next.cts - sample.cts;
            last_delta = Some(delta);
            delta
        } else if n == 1 {
            1
        } else {
            match last_delta {
                Some(d) => d,
                None => 1,
            }
        };
        result.push(CandidateSample {
            source_index: 0,
            data_offset: sample.data_offset,
            data_size: sample.data_size,
            duration,
            composition_time_offset: 0,
            is_sync_sample: sample.is_sync_sample,
        });
        i = i + 1;
    }
    Ok(result)
}

/// The sample rate of each AAC sampling-frequency index.
pub open spec fn spec_aac_sample_rate(index: u8) -> Option<u32> {
    if index == 0 { Some(96_000) } else if index == 1 { Some(88_200) } else if index == 2 { Some(64_000) }
    else if index == 3 { Some(48_000) } else if index == 4 { Some(44_100) } else if index == 5 { Some(32_000) }
    else if index == 6 { Some(24_000) } else if index == 7 { Some(22_050) } else if index == 8 { Some(16_000) }
    else if index == 9 { Some(12_000) } else if index == 10 { Some(11_025) } else if index == 11 { Some(8_000) }
    else if index == 12 { Some(7_350) } else { None }
}

/// Maps an AAC sampling-frequency index to its rate.
pub fn aac_sample_rate(index: u8) -> (r: Option<u32>)
    ensures
        r == spec_aac_sample_rate(index),
{
    match index {
        0 => Some(96_000),
        1 => Some(88_200),
        2 => Some(64_000),
        3 => Some(48_000),
        4 => Some(44_100),
        5 => Some(32_000),
        6 => Some(24_000),
        7 => Some(22_050),
        8 => Some(16_000),
        9 => Some(12_000),
        10 => Some(11_025),
        11 => Some(8_000),
        12 => Some(7_350),
        _ => None,
    }
}

/// The audio object type at the start of an AudioSpecificConfig: five bits, with 31 escaping
/// to 32 plus six more bits; and the position after it.
pub open spec fn audio_object_type_at(d: Seq<u8>, p: int) -> Option<(u8, int)> {
    match rb(d, p, 5) {
        None => None,
        Some((v, q)) => if v == 31 {
            match rb(d, q, 6) {
                None => None,
                Some((w, q2)) => Some(((32 + w) as u8, q2)),
            }
        } else {
            Some((v as u8, q))
        },
    }
}

/// Reads an AAC audio object type.
pub fn read_audio_object_type(reader: &mut BitCursor, spec: &str) -> (r: Result<u8, MuxError>)
    requires
        old(reader).wf(),
    ensures
        final(reader).wf(),
        final(reader).data@ == old(reader).data@,
        match audio_object_type_at(old(reader).data@, old(reader).bit_offset as int) {
            Some((v, q)) => r == Ok::<u8, MuxError>(v) && final(reader).bit_offset == q,
            None => r matches Err(e) && fails_as(e, Failure::Rejected, spec@),
        },
{
    let ghost d = reader.data@;
    let ghost p = reader.bit_offset as int;
    proof {
        lemma_bits_value_bound(d, p, 5);
        lemma_bits_value_bound(d, p + 5, 6);
        vstd::arithmetic::power2::lemma2_to64();
    }
    let v = match read_n(reader, 5) {
        Some(v) => v,
        None => return Err(invalid_saf(spec, "SAF AAC audio object type is truncated")),
    };
    if v == 31 {
        let w = match read_n(reader, 6) {
            Some(w) => w,
            None => return Err(invalid_saf(spec, "SAF AAC extended audio object type is truncated")),
        };
        Ok((32 + w) as u8)
    } else {
        Ok(v as u8)
    }
}

/// What an AAC AudioSpecificConfig gives: the sample rate (indexed, or explicit 24-bit) and a
/// non-zero channel configuration; the object type must not be zero.
pub open spec fn aac_config(d: Seq<u8>) -> Option<(u32, u16)> {
    match audio_object_type_at(d, 0) {
        None => None,
        Some((aot, p)) => if aot == 0 {
            None
        } else {
            match rb(d, p, 4) {
                None => None,
                Some((sfi, p2)) => {
                    let rate: Option<(u32, int)> = if sfi == 15 {
                        match rb(d, p2, 24) {
                            None => None,
                            Some((r, p3)) => Some((r as u32, p3)),
                        }
                    } else {
                        match spec_aac_sample_rate(sfi as u8) {
                            None => None,
                            Some(r) => Some((r, p2)),
                        }
                    };
                    match rate {
                        None => None,
                        Some((r, p3)) => match rb(d, p3, 4) {
                            None => None,
                            Some((ch, _)) => if ch == 0 { None } else { Some((r, ch as u16)) },
                        },
                    }
                },
            }
        },
    }
}

/// Parses the sample rate and channel configuration of an AAC AudioSpecificConfig.
pub fn parse_aac_audio_specific_config(spec: &str, audio_specific_config: &[u8]) -> (r: Result<(u32, u16), MuxError>)
    requires
        audio_specific_config@.len() * 8 <= usize::MAX,
    ensures
        match aac_config(audio_specific_config@) {
            Some((rate, ch)) => r matches Ok((a, b)) && a == rate && b == ch,
            None => r matches Err(e) && fails_as(e, Failure::Rejected, spec@),
        },
{
    let ghost d = audio_specific_config@;
    let mut reader = BitCursor::new(audio_specific_config);
    let aot = read_audio_object_type(&mut reader, spec)?;
    if aot == 0 {
        return Err(invalid_saf(spec, "SAF AAC declaration carried an invalid audio object type of zero"));
    }
    let p = reader.bit_offset;
    proof {
        lemma_bits_value_bound(d, p as int, 4);
        lemma_bits_value_bound(d, p + 4, 24);
        vstd::arithmetic::power2::lemma2_to64();
    }
    let sfi = match read_n(&mut reader, 4) {
        Some(v) => v as u8,
        None => return Err(invalid_saf(spec, "SAF AAC sample rate is truncated")),
    };
    let sample_rate = if sfi == 15 {
        match read_n(&mut reader, 24) {
            Some(v) => v,
            None => return Err(invalid_saf(spec, "SAF AAC explicit sample rate is truncated")),
        }
    } else {
        match aac_sample_rate(sfi) {
            Some(r) => r,
            None => return Err(invalid_saf(spec, "SAF AAC declaration carried an unsupported sample-rate index")),
        }
    };
    let q = reader.bit_offset;
    proof { lemma_bits_value_bound(d, q as int, 4); }
    let ch = match read_n(&mut reader, 4) {
        Some(v) => v as u16,
        None => return Err(invalid_saf(spec, "SAF AAC channel configuration is truncated")),
    };
    if ch == 0 {
        return Err(invalid_saf(spec, "SAF AAC declarations that rely on program-config channel signaling are not supported"));
    }
    Ok((sample_rate, ch))
}


/// The media kind of a declared SAF stream.
#[derive(Clone, Copy, Debug, PartialEq, Eq, Structural)]
pub enum SafTrackKind {
    Audio,
    Video,
}

/// How a declared SAF stream is turned into a sample entry.
pub enum SafTrackTemplate {
    Aac { sample_rate: u32, channel_configuration: u16, audio_specific_config: Vec<u8> },
    Mp4v { width: u16, height: u16, decoder_specific_info: Vec<u8> },
    Jpeg,
    Png,
    Scene { object_type_indication: u8, decoder_specific_info: Vec<u8> },
}

/// A SAF stream with a supported declaration, and its media access units so far.
pub struct DeclaredSafTrack {
    pub stream_id: u16,
    pub kind: SafTrackKind,
    pub codec_label: &'static str,
    pub timescale: u32,
    pub template: SafTrackTemplate,
    pub samples: Vec<PendingSafSample>,
}

/// The object types a scene stream may declare.
pub open spec fn scene_object_type(oti: u8) -> bool {
    oti == 0x01 || oti == 0x02 || oti == 0x04 || oti == 0x09 || oti == 0x0A
}

/// Whether a declaration is supported: AAC audio with a usable AudioSpecificConfig, MPEG-4
/// visual whose configuration declares a frame size, JPEG or PNG pictures, or a scene stream
/// of a known object type.
pub open spec fn saf_declaration_ok(oti: u8, stream_type: u8, dsi: Seq<u8>) -> bool {
    if stream_type == 0x05 {
        oti == 0x40 && aac_config(dsi) is Some
    } else if stream_type == 0x04 {
        (oti == 0x20 && mp4v_frame_size(dsi) is Some) || oti == 0x6C || oti == 0x6D
    } else if stream_type == 0x03 {
        scene_object_type(oti)
    } else {
        false
    }
}

/// A declared track's kind, codec and sample-entry template are the ones its declaration
/// (object type, stream type, decoder-specific information) describes.
pub open spec fn saf_template_matches(t: DeclaredSafTrack, oti: u8, stream_type: u8, dsi: Seq<u8>) -> bool {
    &&& (t.kind == SafTrackKind::Audio <==> stream_type == 0x05)
    &&& (stream_type == 0x05 ==> (t.template matches SafTrackTemplate::Aac { sample_rate, channel_configuration, audio_specific_config }
        && aac_config(dsi) == Some((sample_rate, channel_configuration))
        && audio_specific_config@ == dsi))
    &&& (stream_type == 0x04 && oti == 0x20 ==> (t.template matches SafTrackTemplate::Mp4v { width, height, decoder_specific_info: d }
        && mp4v_frame_size(dsi) == Some((width, height)) && d@ == dsi))
    &&& (stream_type == 0x04 && oti == 0x6C ==> t.template is Jpeg)
    &&& (stream_type == 0x04 && oti == 0x6D ==> t.template is Png)
    &&& (stream_type == 0x03 ==> (t.template matches SafTrackTemplate::Scene { object_type_indication: o, decoder_specific_info: d }
        && o == oti && d@ == dsi))
}

/// Builds the track a supported stream declaration describes, with no samples yet.
pub fn build_declared_saf_track(
    spec: &str,
    stream_id: u16,
    object_type_indication: u8,
    stream_type: u8,
    timescale: u32,
    decoder_specific_info: Vec<u8>,
) -> (r: Result<DeclaredSafTrack, MuxError>)
    requires
        decoder_specific_info@.len() * 8 <= usize::MAX,
    ensures
        saf_declaration_ok(object_type_indication, stream_type, decoder_specific_info@) ==> (r matches Ok(t)
            && t.stream_id == stream_id && t.timescale == timescale && t.samples@.len() == 0
            && saf_template_matches(t, object_type_indication, stream_type, decoder_specific_info@)),
        !saf_declaration_ok(object_type_indication, stream_type, decoder_specific_info@) ==> (r matches Err(e)
            && fails_as(e, Failure::Rejected, spec@)),
{
    if stream_type == 0x05 {
        if object_type_indication != 0x40 {
            return Err(invalid_saf(spec, "SAF stream declared an unsupported authored audio object type"));
        }
        let (sample_rate, channel_configuration) = parse_aac_audio_specific_config(spec, decoder_specific_info.as_slice())?;
        Ok(DeclaredSafTrack {
            stream_id,
            kind: SafTrackKind::Audio,
            codec_label: "aac",
            timescale,
            template: SafTrackTemplate::Aac { sample_rate, channel_configuration, audio_specific_config: decoder_specific_info },
            samples: Vec::new(),
        })
    } else if stream_type == 0x04 {
        if object_type_indication == 0x20 {
            let (width, height) = parse_mp4v_decoder_specific_info(decoder_specific_info.as_slice(), spec)?;
            Ok(DeclaredSafTrack {
                stream_id,
                kind: SafTrackKind::Video,
                codec_label: "mp4v",
                timescale,
                template: SafTrackTemplate::Mp4v { width, height, decoder_specific_info },
                samples: Vec::new(),
            })
        } else if object_type_indication == 0x6C {
            Ok(DeclaredSafTrack { stream_id, kind: SafTrackKind::Video, codec_label: "jpeg", timescale, template: SafTrackTemplate::Jpeg, samples: Vec::new() })
        } else if object_type_indication == 0x6D {
            Ok(DeclaredSafTrack { stream_id, kind: SafTrackKind::Video, codec_label: "png", timescale, template: SafTrackTemplate::Png, samples: Vec::new() })
        } else {
            Err(invalid_saf(spec, "SAF stream declared an unsupported authored visual object type"))
        }
    } else if stream_type == 0x03 {
        let oti = object_type_indication;
        if !(oti == 0x01 || oti == 0x02 || oti == 0x04 || oti == 0x09 || oti == 0x0A) {
            return Err(invalid_saf(spec, "SAF stream declared an unsupported scene object type"));
        }
        Ok(DeclaredSafTrack {
            stream_id,
            kind: SafTrackKind::Video,
            codec_label: "saf-scene",
            timescale,
            template: SafTrackTemplate::Scene { object_type_indication, decoder_specific_info },
            samples: Vec::new(),
        })
    } else {
        Err(invalid_saf(spec, "SAF stream declared an unsupported stream type"))
    }
}

/// The header of one SAF access unit.
#[derive(Clone, Copy, Debug, PartialEq, Eq)]
pub struct SafAuHeader {
    pub is_rap: bool,
    pub cts: u32,
    pub payload_size: u32,
    pub au_type: u8,
    pub stream_id: u16,
}

/// The access unit header in eight outer and two inner bytes: random-access flag, 30-bit
/// composition time, payload size (less the two inner bytes, at least two required), unit
/// type and stream id.
pub open spec fn saf_au_header(o: Seq<u8>, i: Seq<u8>) -> Option<SafAuHeader> {
    let size = o[6] * 256 + o[7];
    if size < 2 {
        None
    } else {
        Some(SafAuHeader {
            is_rap: o[0] >= 0x80,
            cts: ((o[2] % 64) * 0x100_0000 + o[3] * 0x1_0000 + o[4] * 0x100 + o[5]) as u32,
            payload_size: (size - 2) as u32,
            au_type: (i[0] / 16) as u8,
            stream_id: ((i[0] % 16) * 256 + i[1]) as u16,
        })
    }
}

/// Decodes the header of a SAF access unit.
pub fn parse_saf_au_header(outer: [u8; 8], inner: [u8; 2], spec: &str) -> (r: Result<SafAuHeader, MuxError>)
    ensures
        match saf_au_header(outer@, inner@) {
            Some(h) => r == Ok::<SafAuHeader, MuxError>(h),
            None => r matches Err(e) && fails_as(e, Failure::Rejected, spec@),
        },
{
    let size = outer[6] as u32 * 256 + outer[7] as u32;
    if size < 2 {
        return Err(invalid_saf(spec, "SAF AU payload is shorter than the mandatory stream header"));
    }
    Ok(SafAuHeader {
        is_rap: outer[0] >= 0x80,
        cts: (outer[2] % 64) as u32 * 0x100_0000 + outer[3] as u32 * 0x1_0000 + outer[4] as u32 * 0x100 + outer[5] as u32,
        payload_size: size - 2,
        au_type: inner[0] / 16,
        stream_id: (inner[0] % 16) as u16 * 256 + inner[1] as u16,
    })
}

} // verus!
