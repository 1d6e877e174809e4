use vstd::prelude::*;
use crate::error::{Failure, MuxError, fails_as};
use crate::demux::saf::{
    DeclaredSafTrack, PendingSafSample, SafAuHeader, build_declared_saf_track, invalid_saf, parse_saf_au_header,
    saf_au_header, saf_declaration_ok, saf_io_error, saf_template_matches,
};

verus! {

/// A supported stream declaration as values, with the media access units filed under it.
pub struct SafDeclaration {
    pub stream_id: u16,
    pub object_type_indication: u8,
    pub stream_type: u8,
    pub timescale: u32,
    pub decoder_specific_info: Seq<u8>,
    pub samples: Seq<PendingSafSample>,
}

/// The first declaration of `stream_id`.
pub open spec fn declaration_index(d: Seq<SafDeclaration>, stream_id: u16, i: int) -> Option<int>
    decreases d.len() - i,
{
    if i < 0 || i >= d.len() {
        None
    } else if d[i].stream_id == stream_id {
        Some(i)
    } else {
        declaration_index(d, stream_id, i + 1)
    }
}

/// The access unit header at `off`: eight outer and two inner bytes.
pub open spec fn au_header_at(f: Seq<u8>, off: int) -> Option<SafAuHeader> {
    saf_au_header(f.subrange(off, off + 8), f.subrange(off + 8, off + 10))
}

/// The declaration carried by the payload at `p` of a declaration AU: a 7-byte fixed part
/// (object type, stream type, 24-bit timescale), then the decoder-specific information.
/// Zero timescales, custom MIME declarations, remote URL declarations (AU type 7) and
/// unsupported streams are refused, as are payloads cut off by the end of the file.
pub open spec fn declaration_at(f: Seq<u8>, p: int, h: SafAuHeader) -> Result<SafDeclaration, Failure> {
    if h.payload_size < 7 {
        Err(Failure::Rejected)
    } else if p + 7 > f.len() {
        Err(Failure::Rejected)
    } else {
        let oti = f[p];
        let st = f[p + 1];
        let timescale = (f[p + 2] * 0x1_0000 + f[p + 3] * 0x100 + f[p + 4]) as u32;
        let remaining = h.payload_size - 7;
        if timescale == 0 {
            Err(Failure::Rejected)
        } else if oti == 0xFF && st == 0xFF {
            Err(Failure::Rejected)
        } else if h.au_type == 7 {
            Err(Failure::Rejected)
        } else if p + 7 + remaining > f.len() {
            Err(Failure::Rejected)
        } else {
            let dsi = f.subrange(p + 7, p + 7 + remaining);
            if !saf_declaration_ok(oti, st, dsi) {
                Err(Failure::Rejected)
            } else {
                Ok(SafDeclaration {
                    stream_id: h.stream_id,
                    object_type_indication: oti,
                    stream_type: st,
                    timescale,
                    decoder_specific_info: dsi,
                    samples: Seq::empty(),
                })
            }
        }
    }
}

/// One access unit at `off`: where the next one starts and the declarations after this one.
/// A first declaration (AU types 1, 2 or 7) of a stream is read (repeats are skipped), a
/// media AU (type 4) is filed under its stream's declaration, which must come first, and
/// other AUs are skipped.
pub open spec fn saf_scan_step(f: Seq<u8>, off: int, d: Seq<SafDeclaration>) -> Result<(int, Seq<SafDeclaration>), Failure> {
    if f.len() - off < 10 {
        Err(Failure::Rejected)
    } else {
        match au_header_at(f, off) {
            None => Err(Failure::Rejected),
            Some(h) => {
                let p = off + 10;
                let next = p + h.payload_size;
                if h.au_type == 1 || h.au_type == 2 || h.au_type == 7 {
                    if declaration_index(d, h.stream_id, 0) is Some {
                        Ok((next, d))
                    } else {
                        match declaration_at(f, p, h) {
                            Err(e) => Err(e),
                            Ok(decl) => Ok((next, d.push(decl))),
                        }
                    }
                } else if h.au_type == 4 {
                    match declaration_index(d, h.stream_id, 0) {
                        None => Err(Failure::Rejected),
                        Some(k) => Ok((next, d.update(k, SafDeclaration {
                            samples: d[k].samples.push(PendingSafSample {
                                data_offset: p as u64,
                                data_size: h.payload_size,
                                cts: h.cts,
                                is_sync_sample: h.is_rap,
                            }),
                            ..d[k]
                        }))),
                    }
                } else {
                    Ok((next, d))
                }
            },
        }
    }
}

/// Every access unit ends after it starts.
pub proof fn lemma_saf_step_advances(f: Seq<u8>, off: int, d: Seq<SafDeclaration>)
    ensures
        saf_scan_step(f, off, d) matches Ok((next, _)) ==> next >= off + 10,
{
}

/// The declarations after reading access units from `off` to the end of the file.
pub open spec fn saf_scan_from(f: Seq<u8>, off: int, d: Seq<SafDeclaration>) -> Result<Seq<SafDeclaration>, Failure>
    decreases if off < f.len() { f.len() - off } else { 0 },
{
    if off < 0 || off >= f.len() {
        Ok(d)
    } else {
        match saf_scan_step(f, off, d) {
            Err(e) => Err(e),
            Ok((next, d2)) => {
                proof { lemma_saf_step_advances(f, off, d); }
                saf_scan_from(f, next, d2)
            },
        }
    }
}

/// A track built from a declaration carries its stream, timescale, template and media AUs.
pub open spec fn track_declared(t: DeclaredSafTrack, d: SafDeclaration) -> bool {
    &&& t.stream_id == d.stream_id
    &&& t.timescale == d.timescale
    &&& t.samples@ == d.samples
    &&& saf_template_matches(t, d.object_type_indication, d.stream_type, d.decoder_specific_info)
}

/// The tracks correspond one to one, in order, to the declarations.
pub open spec fn tracks_declared(v: Seq<DeclaredSafTrack>, d: Seq<SafDeclaration>) -> bool {
    &&& v.len() == d.len()
    &&& forall|j: int| 0 <= j < v.len() ==> track_declared(#[trigger] v[j], d[j])
}

/// Finds the track of `stream_id`.
fn find_declared(tracks: &Vec<DeclaredSafTrack>, stream_id: u16, Ghost(d): Ghost<Seq<SafDeclaration>>) -> (r: Option<usize>)
    requires
        tracks_declared(tracks@, d),
    ensures
        match declaration_index(d, stream_id, 0) {
            Some(k) => r == Some(k as usize),
            None => r is None,
        },
        r matches Some(k) ==> k < tracks@.len() && declaration_index(d, stream_id, 0) == Some(k as int),
{
    let mut i: usize = 0;
    while i < tracks.len()
        invariant
            tracks_declared(tracks@, d),
            i <= tracks@.len(),
            declaration_index(d, stream_id, 0) == declaration_index(d, stream_id, i as int),
        decreases tracks.len() - i,
    {
        assert(track_declared(tracks@[i as int], d[i as int]));
        if tracks[i].stream_id == stream_id {
            return Some(i);
        }
        i = i + 1;
    }
    None
}

/// Reads the declaration in the payload at `p`.
fn read_declaration(file: &[u8], p: usize, header: SafAuHeader, spec: &str) -> (r: Result<DeclaredSafTrack, MuxError>)
    requires
        p <= file@.len(),
        header.payload_size <= 0xFFFF,
    ensures
        match declaration_at(file@, p as int, header) {
            Ok(decl) => r matches Ok(t) && track_declared(t, decl),
            Err(x) => r matches Err(e) && fails_as(e, x, spec@),
        },
{
    let n = file.len();
    if header.payload_size < 7 {
        return Err(invalid_saf(spec, "SAF stream declaration is shorter than its fixed descriptor header"));
    }
    if n - p < 7 {
        return Err(saf_io_error(spec, "read SAF stream declaration"));
    }
    let oti = file[p];
    let stream_type = file[p + 1];
    let timescale = file[p + 2] as u32 * 0x1_0000 + file[p + 3] as u32 * 0x100 + file[p + 4] as u32;
    let remaining = (header.payload_size - 7) as usize;
    if timescale == 0 {
        return Err(invalid_saf(spec, "SAF stream declared a zero timescale"));
    }
    if oti == 0xFF && stream_type == 0xFF {
        return Err(invalid_saf(spec, "SAF custom MIME declarations are outside the current authored import surface"));
    }
    if header.au_type == 7 {
        return Err(invalid_saf(spec, "SAF remote URL declarations are outside the current path-only import contract"));
    }
    if n - p - 7 < remaining {
        return Err(saf_io_error(spec, "read SAF decoder config"));
    }
    let mut dsi: Vec<u8> = Vec::new();
    let mut k: usize = 0;
    while k < remaining
        invariant
            p + 7 + remaining <= n,
            n == file@.len(),
            k <= remaining,
            dsi@ == file@.subrange(p + 7, p + 7 + k),
        decreases remaining - k,
    {
        dsi.push(file[p + 7 + k]);
        assert(dsi@ =~= file@.subrange(p + 7, p + 7 + k + 1));
        k = k + 1;
    }
    let r = build_declared_saf_track(spec, header.stream_id, oti, stream_type, timescale, dsi);
    match &r {
        Ok(t) => {
            assert(t.samples@ =~= Seq::<PendingSafSample>::empty());
        },
        Err(_) => {},
    }
    r
}

/// The declared streams of a SAF file held in memory, each with its media access units, in
/// declaration order.
pub open spec fn saf_scan(f: Seq<u8>) -> Result<Seq<SafDeclaration>, Failure> {
    saf_scan_from(f, 0, Seq::empty())
}

proof fn lemma_declared_push(v: Seq<DeclaredSafTrack>, d: Seq<SafDeclaration>, t: DeclaredSafTrack, decl: SafDeclaration)
    requires
        tracks_declared(v, d),
        track_declared(t, decl),
    ensures
        tracks_declared(v.push(t), d.push(decl)),
{
    assert forall|j: int| 0 <= j < v.len() + 1 implies track_declared(#[trigger] v.push(t)[j], d.push(decl)[j]) by {
        if j < v.len() {
            assert(track_declared(v[j], d[j]));
        }
    }
}

proof fn lemma_declared_update(v: Seq<DeclaredSafTrack>, d: Seq<SafDeclaration>, k: int, t: DeclaredSafTrack, decl: SafDeclaration)
    requires
        tracks_declared(v, d),
        0 <= k < v.len(),
        track_declared(t, decl),
    ensures
        tracks_declared(v.update(k, t), d.update(k, decl)),
{
    assert forall|j: int| 0 <= j < v.len() implies track_declared(#[trigger] v.update(k, t)[j], d.update(k, decl)[j]) by {
        if j != k {
            assert(track_declared(v[j], d[j]));
        }
    }
}

/// Reads the access unit at `offset` and files what it carries.
#[verifier::rlimit(40)]
fn scan_au(file: &[u8], offset: usize, tracks: &mut Vec<DeclaredSafTrack>, Ghost(d): Ghost<Seq<SafDeclaration>>, spec: &str) -> (r: Result<usize, MuxError>)
    requires
        offset < file@.len(),
        tracks_declared(old(tracks)@, d),
    ensures
        match saf_scan_step(file@, offset as int, d) {
            Ok((next, d2)) => r matches Ok(k) && tracks_declared(final(tracks)@, d2)
                && (next >= file@.len() ==> k == file@.len()) && (next < file@.len() ==> k == next),
            Err(x) => r matches Err(e) && fails_as(e, x, spec@),
        },
{
    let n = file.len();
    if n - offset < 10 {
        return Err(invalid_saf(spec, "SAF input is truncated before one complete AU header"));
    }
    let outer: [u8; 8] = [file[offset], file[offset + 1], file[offset + 2], file[offset + 3],
        file[offset + 4], file[offset + 5], file[offset + 6], file[offset + 7]];
    let inner: [u8; 2] = [file[offset + 8], file[offset + 9]];
    assert(outer@ =~= file@.subrange(offset as int, offset + 8));
    assert(inner@ =~= file@.subrange(offset + 8, offset + 10));
    let header = parse_saf_au_header(outer, inner, spec)?;
    assert(au_header_at(file@, offset as int) == Some(header));
    let p = offset + 10;
    let size = header.payload_size as usize;
    let next = if n - p <= size { n } else { p + size };
    if header.au_type == 1 || header.au_type == 2 || header.au_type == 7 {
        match find_declared(tracks, header.stream_id, Ghost(d)) {
            Some(_) => {
                assert(tracks_declared(tracks@, saf_scan_step(file@, offset as int, d).unwrap().1));
                Ok(next)
            },
            None => {
                let ghost before = tracks@;
                let track = read_declaration(file, p, header, spec)?;
                let ghost decl = declaration_at(file@, p as int, header).unwrap();
                proof { lemma_declared_push(before, d, track, decl); }
                tracks.push(track);
                assert(tracks_declared(tracks@, saf_scan_step(file@, offset as int, d).unwrap().1));
                Ok(next)
            },
        }
    } else if header.au_type == 4 {
        let k = match find_declared(tracks, header.stream_id, Ghost(d)) {
            Some(k) => k,
            None => return Err(invalid_saf(spec, "SAF stream carried media data before any supported declaration AU")),
        };
        let ghost before = tracks@;
        let sample = PendingSafSample {
            data_offset: p as u64,
            data_size: header.payload_size,
            cts: header.cts,
            is_sync_sample: header.is_rap,
        };
        let mut t = tracks.remove(k);
        assert(track_declared(t, d[k as int]));
        t.samples.push(sample);
        let ghost nd = SafDeclaration { samples: d[k as int].samples.push(sample), ..d[k as int] };
        proof { lemma_declared_update(before, d, k as int, t, nd); }
        tracks.insert(k, t);
        assert(tracks@ =~= before.update(k as int, t));
        assert(declaration_index(d, header.stream_id, 0) == Some(k as int));
        assert(sample == PendingSafSample { data_offset: (offset + 10) as u64, data_size: header.payload_size, cts: header.cts, is_sync_sample: header.is_rap });
        assert(saf_scan_step(file@, offset as int, d).unwrap().1 == d.update(k as int, nd));
        assert(tracks_declared(tracks@, saf_scan_step(file@, offset as int, d).unwrap().1));
        Ok(next)
    } else {
        assert(tracks_declared(tracks@, saf_scan_step(file@, offset as int, d).unwrap().1));
        Ok(next)
    }
}

/// Scans a SAF file held in memory for its stream declarations and media access units.
pub fn scan_declared_saf_tracks(file: &[u8], spec: &str) -> (r: Result<Vec<DeclaredSafTrack>, MuxError>)
    ensures
        match saf_scan(file@) {
            Ok(d) => r matches Ok(v) && tracks_declared(v@, d),
            Err(x) => r matches Err(e) && fails_as(e, x, spec@),
        },
{
    let n = file.len();
    let mut tracks: Vec<DeclaredSafTrack> = Vec::new();
    let ghost mut decls: Seq<SafDeclaration> = Seq::empty();
    let mut offset: usize = 0;
    while offset < n
        invariant
            n == file@.len(),
            offset <= n,
            tracks_declared(tracks@, decls),
            saf_scan(file@) == saf_scan_from(file@, offset as int, decls),
        decreases n - offset,
    {
        let ghost d0 = decls;
        let next = scan_au(file, offset, &mut tracks, Ghost(decls), spec)?;
        proof {
            lemma_saf_step_advances(file@, offset as int, d0);
            let (next_spec, d2) = saf_scan_step(file@, offset as int, d0).unwrap();
            assert(saf_scan_from(file@, offset as int, d0) == saf_scan_from(file@, next_spec, d2));
            decls = d2;
        }
        offset = next;
    }
    Ok(tracks)
}

/// The declarations that received media access units, in order.
pub open spec fn with_media(d: Seq<SafDeclaration>) -> Seq<SafDeclaration>
    decreases d.len(),
{
    if d.len() == 0 {
        Seq::empty()
    } else if d.last().samples.len() > 0 {
        with_media(d.drop_last()).push(d.last())
    } else {
        with_media(d.drop_last())
    }
}

/// Keeps the declared streams that carried media; a file where none did is refused.
fn declared_saf_tracks_with_media(tracks: Vec<DeclaredSafTrack>, spec: &str, Ghost(d): Ghost<Seq<SafDeclaration>>) -> (r: Result<Vec<DeclaredSafTrack>, MuxError>)
    requires
        tracks_declared(tracks@, d),
    ensures
        with_media(d).len() > 0 ==> (r matches Ok(v) && tracks_declared(v@, with_media(d))),
        with_media(d).len() == 0 ==> (r matches Err(e) && fails_as(e, Failure::Rejected, spec@)),
{
    let mut kept: Vec<DeclaredSafTrack> = Vec::new();
    let mut rest = tracks;
    let mut i: usize = 0;
    let n = rest.len();
    while i < n
        invariant
            n == d.len(),
            i <= n,
            rest@.len() == n - i,
            forall|j: int| 0 <= j < rest@.len() ==> track_declared(#[trigger] rest@[j], d[i + j]),
            tracks_declared(kept@, with_media(d.subrange(0, i as int))),
        decreases n - i,
    {
        let ghost before_rest = rest@;
        let ghost before_kept = kept@;
        let t = rest.remove(0);
        assert(track_declared(t, d[i as int]));
        assert(d.subrange(0, i + 1).drop_last() =~= d.subrange(0, i as int));
        assert(d.subrange(0, i + 1).last() == d[i as int]);
        if t.samples.len() > 0 {
            kept.push(t);
            proof {
                assert forall|j: int| 0 <= j < kept@.len() implies track_declared(#[trigger] kept@[j], with_media(d.subrange(0, i + 1))[j]) by {
                    if j < before_kept.len() {
                        assert(kept@[j] == before_kept[j]);
                    }
                }
            }
        }
        proof {
            assert forall|j: int| 0 <= j < rest@.len() implies track_declared(#[trigger] rest@[j], d[i + 1 + j]) by {
                assert(rest@[j] == before_rest[j + 1]);
            }
        }
        i = i + 1;
    }
    assert(d.subrange(0, n as int) =~= d);
    if kept.len() == 0 {
        return Err(invalid_saf(spec, "SAF input did not expose any declared stream carrying media AUs"));
    }
    Ok(kept)
}

/// Scans a SAF file held in memory and keeps the declared streams that carried media, in
/// declaration order; a file where none did is refused.
pub fn scan_saf_media_tracks(file: &[u8], spec: &str) -> (r: Result<Vec<DeclaredSafTrack>, MuxError>)
    ensures
        match saf_scan(file@) {
            Ok(d) => if with_media(d).len() > 0 {
                r matches Ok(v) && tracks_declared(v@, with_media(d))
            } else {
                r matches Err(e) && fails_as(e, Failure::Rejected, spec@)
            },
            Err(x) => r matches Err(e) && fails_as(e, x, spec@),
        },
{
    let tracks = scan_declared_saf_tracks(file, spec)?;
    let ghost d = saf_scan(file@).unwrap();
    declared_saf_tracks_with_media(tracks, spec, Ghost(d))
}

/// Every declaration's media AUs are in strictly increasing file position, none past `bound`.
pub open spec fn samples_ordered(d: Seq<SafDeclaration>, bound: int) -> bool {
    forall|k: int| 0 <= k < d.len() ==> {
        let s = #[trigger] d[k].samples;
        &&& forall|i: int, j: int| 0 <= i < j < s.len() ==> s[i].data_offset < s[j].data_offset
        &&& forall|i: int| 0 <= i < s.len() ==> s[i].data_offset <= bound
    }
}

proof fn lemma_declaration_index(d: Seq<SafDeclaration>, id: u16, i: int)
    requires
        0 <= i,
    ensures
        declaration_index(d, id, i) matches Some(k) ==> i <= k < d.len(),
    decreases d.len() - i,
{
    if i < d.len() && d[i].stream_id != id {
        lemma_declaration_index(d, id, i + 1);
    }
}

proof fn lemma_saf_scan_ordered(f: Seq<u8>, off: int, d: Seq<SafDeclaration>)
    requires
        0 <= off,
        f.len() <= u64::MAX,
        samples_ordered(d, if off < f.len() { off } else { f.len() as int }),
    ensures
        saf_scan_from(f, off, d) matches Ok(d2) ==> samples_ordered(d2, f.len() as int),
    decreases if off < f.len() { f.len() - off } else { 0 },
{
    if off >= f.len() {
    } else if let Ok((next, d2)) = saf_scan_step(f, off, d) {
        lemma_saf_step_advances(f, off, d);
        let h = au_header_at(f, off).unwrap();
        if h.au_type == 4 {
            lemma_declaration_index(d, h.stream_id, 0);
        }
        let bound = if next < f.len() { next } else { f.len() as int };
        assert(samples_ordered(d2, bound)) by {
            assert forall|k: int| 0 <= k < d2.len() implies {
                let s = #[trigger] d2[k].samples;
                &&& forall|i: int, j: int| 0 <= i < j < s.len() ==> s[i].data_offset < s[j].data_offset
                &&& forall|i: int| 0 <= i < s.len() ==> s[i].data_offset <= bound
            } by {
                if k < d.len() {
                    let s0 = d[k].samples;
                    assert(forall|i: int| 0 <= i < s0.len() ==> s0[i].data_offset <= off);
                }
            }
        }
        lemma_saf_scan_ordered(f, next, d2);
    }
}

/// Within each declared stream of a SAF file (of a size a 64-bit offset reaches), media
/// access units are listed in strictly increasing file position.
pub proof fn lemma_saf_samples_in_file_order(f: Seq<u8>, d: Seq<SafDeclaration>)
    requires
        f.len() <= u64::MAX,
        saf_scan(f) == Ok::<Seq<SafDeclaration>, Failure>(d),
    ensures
        forall|k: int, i: int, j: int| 0 <= k < d.len() && 0 <= i < j < d[k].samples.len()
            ==> (#[trigger] d[k].samples[i]).data_offset < (#[trigger] d[k].samples[j]).data_offset,
{
    lemma_saf_scan_ordered(f, 0, Seq::empty());
    assert forall|k: int, i: int, j: int| 0 <= k < d.len() && 0 <= i < j < d[k].samples.len()
        implies (#[trigger] d[k].samples[i]).data_offset < (#[trigger] d[k].samples[j]).data_offset by {
        let s = d[k].samples;
        assert(forall|a: int, b: int| 0 <= a < b < s.len() ==> s[a].data_offset < s[b].data_offset);
    }
}

} // verus!
