pub mod raw_visual;
pub mod rawvid;
pub mod vpcc;
pub mod vp9;
pub mod vp8;
pub mod vp10;
pub mod truehd;
pub mod ts_samples;
pub mod ts_anchored;
pub mod ts_audio;
pub mod ts_psi;
pub mod ts_clock;
pub mod ts_tracks;
pub mod ts_packet;
pub mod ts_finalize;
pub mod ps_video;
pub mod ps_audio;
pub mod ps_scan;
pub mod vorbis;
pub mod vvc;
pub mod vobsub;
pub mod vobsub_media;
pub mod qcp;
pub mod ogg;
pub mod ogg_pages;
pub mod speex;
pub mod theora;
pub mod mp4v;
pub mod saf;
pub mod saf_scan;
