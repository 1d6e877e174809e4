# mux_demux

Verified demultiplexers for an MP4 muxer. The container importers (transport and program
streams, Ogg Vorbis, Theora and Speex, SAF, Y4M, QCP, TrueHD, VobSub) read their input from
bytes held in memory and produce what the muxer needs to write a track: the samples
(offset, size, duration, composition offset, sync flag), the logical layout of the sample
data as ranges of the input file or bytes held in memory, and the codec configuration. For
VP8, VP9, VP10 and VVC the library provides the per-frame and per-NAL pieces (sample-entry
builders, parameter-set parsing, access-unit staging), not a reader for a whole file.

Every function of the library is written in Verus and carries a contract that states its
result over mathematical models (sequences of bytes, spec functions for each bitstream
grammar); Verus proves the code against those contracts, with no overflow and no panic.

## Layout

- `src/error.rs` – the error type and the predicates contracts use to say which error comes.
- `src/mp4.rs` – MP4 box and sample-entry encoding, with the byte sequences it produces.
- `src/sample.rs`, `src/event.rs`, `src/text.rs` – sample and segment records, the graph of
  sample and boundary events built from a mux plan, and small text helpers.
- `src/demux/` – one module per input format:
  - MPEG transport streams: `ts_packet` (packets, PAT/PMT, PES), `ts_psi` (section CRC,
    descriptors), `ts_tracks`, `ts_clock`, `ts_samples`, `ts_anchored`, `ts_audio`,
    `ts_finalize`;
  - MPEG program streams: `ps_scan`, `ps_video`, `ps_audio`;
  - Ogg: `ogg`, `ogg_pages`, with `vorbis`, `theora` and `speex`;
  - SAF (`saf`, `saf_scan`) with its MPEG-4 visual configuration reader `mp4v`;
  - raw and simple formats: `rawvid` (Y4M and raw frames), `raw_visual`, `qcp`, `truehd`,
    `vvc` (Annex B), `vp8`, `vp9`, `vp10`, `vpcc`, `vobsub`, `vobsub_media`.
- `tests/` – executable tests of the library on concrete inputs.
- `app/` – file-system entry points (synchronous and Tokio) that read an input and hand its
  bytes to the library.

Laws that relate several calls (for instance that a section carrying its own CRC passes the
check while any single flipped bit is caught, or that program-stream builders stay
consistent) are stated as public proof functions next to the code they speak of.
