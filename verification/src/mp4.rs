use vstd::prelude::*;
use crate::error::{MuxError, overflow};

verus! {

/// Big-endian bytes of a 16-bit value.
pub open spec fn be16(v: u16) -> Seq<u8> {
    seq![(v / 256) as u8, (v % 256) as u8]
}

/// Big-endian bytes of a 32-bit value.
pub open spec fn be32(v: u32) -> Seq<u8> {
    seq![(v / 0x1000000) as u8, ((v / 0x10000) % 256) as u8, ((v / 256) % 256) as u8, (v % 256) as u8]
}

/// A box whose size header covers the 8-byte header and the payload.
pub open spec fn spec_box(box_type: Seq<u8>, payload: Seq<u8>) -> Seq<u8> {
    be32((payload.len() + 8) as u32) + box_type + payload
}

/// Appends `v` in big-endian order.
pub fn push_u16_be(out: &mut Vec<u8>, v: u16)
    ensures
        final(out)@ == old(out)@ + be16(v),
{
    out.push((v / 256) as u8);
    out.push((v % 256) as u8);
    assert(final(out)@ =~= old(out)@ + be16(v));
}

/// Appends `v` in big-endian order.
pub fn push_u32_be(out: &mut Vec<u8>, v: u32)
    ensures
        final(out)@ == old(out)@ + be32(v),
{
    out.push((v / 0x1000000) as u8);
    out.push(((v / 0x10000) % 256) as u8);
    out.push(((v / 256) % 256) as u8);
    out.push((v % 256) as u8);
    assert(final(out)@ =~= old(out)@ + be32(v));
}

/// Appends every byte of `bytes`.
pub fn push_bytes(out: &mut Vec<u8>, bytes: &[u8])
    ensures
        final(out)@ == old(out)@ + bytes@,
{
    let mut i: usize = 0;
    while i < bytes.len()
        invariant
            i <= bytes.len(),
            out@ == old(out)@ + bytes@.subrange(0, i as int),
        decreases bytes.len() - i,
    {
        out.push(bytes[i]);
        i = i + 1;
        assert(out@ =~= old(out)@ + bytes@.subrange(0, i as int));
    }
    assert(bytes@.subrange(0, bytes@.len() as int) =~= bytes@);
}

/// Appends `count` zero bytes.
pub fn push_zeros(out: &mut Vec<u8>, count: usize)
    ensures
        final(out)@ == old(out)@ + Seq::new(count as nat, |_i: int| 0u8),
{
    let mut i: usize = 0;
    while i < count
        invariant
            i <= count,
            out@ == old(out)@ + Seq::new(i as nat, |_i: int| 0u8),
        decreases count - i,
    {
        out.push(0);
        i = i + 1;
        assert(out@ =~= old(out)@ + Seq::new(i as nat, |_i: int| 0u8));
    }
}

/// The payload of a generic media sample entry: six reserved bytes, data reference index 1,
/// then the child boxes.
pub open spec fn generic_entry_payload(children: Seq<u8>) -> Seq<u8> {
    zeros(6) + be16(1) + children
}

/// Encodes a generic media sample entry of type `box_type` holding `children`.
pub fn encode_generic_sample_entry(box_type: [u8; 4], children: &[u8]) -> (r: Result<Vec<u8>, MuxError>)
    ensures
        r is Ok <==> children@.len() + 16 <= u32::MAX,
        r matches Ok(bytes) ==> bytes@ == spec_box(box_type@, generic_entry_payload(children@)),
        r matches Err(e) ==> e is LayoutOverflow,
{
    if children.len() > 0xFFFF_FFEF {
        return Err(overflow("MP4 box size"));
    }
    let mut payload: Vec<u8> = Vec::new();
    push_zeros(&mut payload, 6);
    push_u16_be(&mut payload, 1);
    push_bytes(&mut payload, children);
    assert(payload@ =~= generic_entry_payload(children@));
    encode_raw_box(box_type, payload.as_slice())
}

/// Frames `payload` as an MP4 box of type `box_type`; fails when the box size does not fit
/// the 32-bit size field.
pub fn encode_raw_box(box_type: [u8; 4], payload: &[u8]) -> (r: Result<Vec<u8>, MuxError>)
    ensures
        r is Ok <==> payload@.len() + 8 <= u32::MAX,
        r matches Ok(bytes) ==> bytes@ == spec_box(box_type@, payload@),
        r matches Err(e) ==> e is LayoutOverflow,
{
    if payload.len() > 0xFFFF_FFF7 {
        return Err(overflow("MP4 box size"));
    }
    let size = (payload.len() + 8) as u32;
    let mut out: Vec<u8> = Vec::with_capacity(payload.len() + 8);
    push_u32_be(&mut out, size);
    push_bytes(&mut out, &box_type);
    push_bytes(&mut out, payload);
    assert(out@ =~= spec_box(box_type@, payload@));
    Ok(out)
}

/// Concatenation of a list of encoded boxes.
pub open spec fn concat_all(parts: Seq<Seq<u8>>) -> Seq<u8>
    decreases parts.len(),
{
    if parts.len() == 0 {
        Seq::empty()
    } else {
        concat_all(parts.drop_last()) + parts.last()
    }
}

/// The byte views of a list of boxes.
pub open spec fn views(parts: Seq<Vec<u8>>) -> Seq<Seq<u8>> {
    parts.map_values(|p: Vec<u8>| p@)
}

/// Concatenates already-encoded child boxes.
pub fn concat_boxes(parts: &[Vec<u8>]) -> (r: Vec<u8>)
    ensures
        r@ == concat_all(views(parts@)),
{
    let mut out: Vec<u8> = Vec::new();
    let mut i: usize = 0;
    while i < parts.len()
        invariant
            i <= parts.len(),
            out@ == concat_all(views(parts@).subrange(0, i as int)),
        decreases parts.len() - i,
    {
        push_bytes(&mut out, parts[i].as_slice());
        proof {
            let s = views(parts@).subrange(0, i + 1);
            assert(s.drop_last() =~= views(parts@).subrange(0, i as int));
        }
        i = i + 1;
    }
    assert(views(parts@).subrange(0, parts@.len() as int) =~= views(parts@));
    out
}

} // verus!

verus! {

/// `n` zero bytes.
pub open spec fn zeros(n: nat) -> Seq<u8> {
    Seq::new(n, |_i: int| 0u8)
}

/// Big-endian bytes of each value, in order.
pub open spec fn be16_all(s: Seq<u16>) -> Seq<u8>
    decreases s.len(),
{
    if s.len() == 0 {
        Seq::empty()
    } else {
        be16_all(s.drop_last()) + be16(s.last())
    }
}

/// The 32-byte compressor-name field: a length byte, at most 31 visible bytes, zero padding.
pub open spec fn compressor_field(name: Seq<u8>) -> Seq<u8> {
    let visible = if name.len() < 31 { name.len() as int } else { 31 };
    seq![visible as u8] + name.subrange(0, visible) + zeros((31 - visible) as nat)
}

/// Payload of a visual sample entry: the generic sample-entry header with data reference 1,
/// the visual fields in ISO/IEC 14496-12 order, then the child boxes.
pub open spec fn visual_entry_payload(
    width: u16,
    height: u16,
    horizresolution: u32,
    vertresolution: u32,
    frame_count: u16,
    compressorname: Seq<u8>,
    depth: u16,
    pre_defined3: i16,
    children: Seq<u8>,
) -> Seq<u8> {
    zeros(6) + be16(1) + be16(0) + be16(0) + zeros(12) + be16(width) + be16(height) + be32(
        horizresolution,
    ) + be32(vertresolution) + be32(0) + be16(frame_count) + compressorname + be16(depth) + be16(
        pre_defined3 as u16,
    ) + children
}

/// Encodes a visual sample entry box; fails only when the box would not fit a 32-bit size.
pub fn encode_visual_sample_entry(
    box_type: [u8; 4],
    width: u16,
    height: u16,
    horizresolution: u32,
    vertresolution: u32,
    frame_count: u16,
    compressorname: &[u8],
    depth: u16,
    pre_defined3: i16,
    children: &[u8],
) -> (r: Result<Vec<u8>, MuxError>)
    requires
        compressorname@.len() == 32,
    ensures
        r is Ok <==> children@.len() + 86 <= u32::MAX,
        r matches Ok(bytes) ==> bytes@ == spec_box(
            box_type@,
            visual_entry_payload(
                width,
                height,
                horizresolution,
                vertresolution,
                frame_count,
                compressorname@,
                depth,
                pre_defined3,
                children@,
            ),
        ),
        r matches Err(e) ==> e is LayoutOverflow,
{
    if children.len() > 0xFFFF_FFFF - 86 {
        return Err(overflow("MP4 visual sample entry size"));
    }
    let mut payload: Vec<u8> = Vec::new();
    push_zeros(&mut payload, 6);
    push_u16_be(&mut payload, 1);
    push_u16_be(&mut payload, 0);
    push_u16_be(&mut payload, 0);
    push_zeros(&mut payload, 12);
    push_u16_be(&mut payload, width);
    push_u16_be(&mut payload, height);
    push_u32_be(&mut payload, horizresolution);
    push_u32_be(&mut payload, vertresolution);
    push_u32_be(&mut payload, 0);
    push_u16_be(&mut payload, frame_count);
    push_bytes(&mut payload, compressorname);
    push_u16_be(&mut payload, depth);
    push_u16_be(&mut payload, pre_defined3 as u16);
    push_bytes(&mut payload, children);
    assert(payload@ =~= visual_entry_payload(
        width,
        height,
        horizresolution,
        vertresolution,
        frame_count,
        compressorname@,
        depth,
        pre_defined3,
        children@,
    ));
    encode_raw_box(box_type, payload.as_slice())
}

/// Builds the 32-byte compressor-name field for `name`, keeping at most 31 visible bytes.
pub fn compressor_name_field(name: &[u8]) -> (r: Vec<u8>)
    ensures
        r@ == compressor_field(name@),
        r@.len() == 32,
{
    let visible: usize = if name.len() < 31 { name.len() } else { 31 };
    let mut out: Vec<u8> = Vec::new();
    out.push(visible as u8);
    let mut i: usize = 0;
    while i < visible
        invariant
            i <= visible <= 31,
            visible <= name@.len(),
            out@ == seq![visible as u8] + name@.subrange(0, i as int),
        decreases visible - i,
    {
        out.push(name[i]);
        i = i + 1;
        assert(out@ =~= seq![visible as u8] + name@.subrange(0, i as int));
    }
    push_zeros(&mut out, 31 - visible);
    out
}

/// Encodes a visual sample entry with the conventional defaults (72 dpi in 16.16 fixed point,
/// one frame per sample, 24-bit depth) and the given compressor name and child boxes.
pub fn build_visual_sample_entry_box_with_compressor_name(
    box_type: [u8; 4],
    width: u16,
    height: u16,
    compressor_name: &[u8],
    child_boxes: &[Vec<u8>],
) -> (r: Result<Vec<u8>, MuxError>)
    ensures
        r is Ok <==> concat_all(views(child_boxes@)).len() + 86 <= u32::MAX,
        r matches Ok(bytes) ==> bytes@ == spec_box(
            box_type@,
            visual_entry_payload(
                width,
                height,
                0x0048_0000,
                0x0048_0000,
                1,
                compressor_field(compressor_name@),
                0x0018,
                -1i16,
                concat_all(views(child_boxes@)),
            ),
        ),
        r matches Err(e) ==> e is LayoutOverflow,
{
    let name = compressor_name_field(compressor_name);
    let children = concat_boxes(child_boxes);
    encode_visual_sample_entry(
        box_type,
        width,
        height,
        0x0048_0000,
        0x0048_0000,
        1,
        name.as_slice(),
        0x0018,
        -1,
        children.as_slice(),
    )
}

/// Payload of a version-0 audio sample entry: sample-entry header with data reference 1,
/// version and revision 0, the vendor code, channel count, sample size, two zero words, the
/// 32-bit sample-rate field, then the child boxes.
pub open spec fn audio_entry_payload(
    vendor: Seq<u8>,
    channel_count: u16,
    sample_size: u16,
    sample_rate_field: u32,
    children: Seq<u8>,
) -> Seq<u8> {
    zeros(6) + be16(1) + be16(0) + be16(0) + vendor + be16(channel_count) + be16(sample_size) + be16(0)
        + be16(0) + be32(sample_rate_field) + children
}

/// Encodes a version-0 audio sample entry box.
pub fn encode_audio_sample_entry(
    box_type: [u8; 4],
    vendor: [u8; 4],
    channel_count: u16,
    sample_size: u16,
    sample_rate_field: u32,
    children: &[u8],
) -> (r: Result<Vec<u8>, MuxError>)
    ensures
        r is Ok <==> children@.len() + 36 <= u32::MAX,
        r matches Ok(bytes) ==> bytes@ == spec_box(
            box_type@,
            audio_entry_payload(vendor@, channel_count, sample_size, sample_rate_field, children@),
        ),
        r matches Err(e) ==> e is LayoutOverflow,
{
    if children.len() > 0xFFFF_FFFF - 36 {
        return Err(overflow("MP4 audio sample entry size"));
    }
    let mut payload: Vec<u8> = Vec::new();
    push_zeros(&mut payload, 6);
    push_u16_be(&mut payload, 1);
    push_u16_be(&mut payload, 0);
    push_u16_be(&mut payload, 0);
    push_bytes(&mut payload, &vendor);
    push_u16_be(&mut payload, channel_count);
    push_u16_be(&mut payload, sample_size);
    push_u16_be(&mut payload, 0);
    push_u16_be(&mut payload, 0);
    push_u32_be(&mut payload, sample_rate_field);
    push_bytes(&mut payload, children);
    assert(payload@ =~= audio_entry_payload(vendor@, channel_count, sample_size, sample_rate_field, children@));
    encode_raw_box(box_type, payload.as_slice())
}

/// The `btrt` (bit-rate) box.
pub open spec fn btrt_box(buffer_size_db: u32, max_bitrate: u32, avg_bitrate: u32) -> Seq<u8> {
    spec_box(seq![0x62u8, 0x74, 0x72, 0x74], be32(buffer_size_db) + be32(max_bitrate) + be32(avg_bitrate))
}

/// Encodes a `btrt` box.
pub fn encode_btrt_box(buffer_size_db: u32, max_bitrate: u32, avg_bitrate: u32) -> (r: Vec<u8>)
    ensures
        r@ == btrt_box(buffer_size_db, max_bitrate, avg_bitrate),
{
    let mut payload: Vec<u8> = Vec::new();
    push_u32_be(&mut payload, buffer_size_db);
    push_u32_be(&mut payload, max_bitrate);
    push_u32_be(&mut payload, avg_bitrate);
    match encode_raw_box(four_cc(0x62, 0x74, 0x72, 0x74), payload.as_slice()) {
        Ok(b) => b,
        Err(_) => {
            assert(false);
            Vec::new()
        },
    }
}

/// Builds a four-character code from its bytes.
pub fn four_cc(a: u8, b: u8, c: u8, d: u8) -> (r: [u8; 4])
    ensures
        r@ == seq![a, b, c, d],
{
    let r = [a, b, c, d];
    assert(r@ =~= seq![a, b, c, d]);
    r
}


/// The boxes laid end to end in `s` from `i` on, each with a 32-bit size of at least eight
/// covering its header, or nothing when one is malformed or runs past the end.
pub open spec fn box_list(s: Seq<u8>, i: int) -> Option<Seq<Seq<u8>>>
    decreases s.len() - i,
{
    if i < 0 || i > s.len() {
        None
    } else if i == s.len() {
        Some(Seq::empty())
    } else if s.len() - i < 8 {
        None
    } else {
        let size = s[i] * 0x100_0000 + s[i + 1] * 0x1_0000 + s[i + 2] * 0x100 + s[i + 3];
        if size < 8 || i + size > s.len() {
            None
        } else {
            match box_list(s, i + size) {
                None => None,
                Some(rest) => Some(seq![s.subrange(i, i + size)] + rest),
            }
        }
    }
}

/// The child boxes of a visual sample entry: the boxes after its 86-byte header.
pub open spec fn visual_entry_children(entry: Seq<u8>) -> Option<Seq<Seq<u8>>> {
    if entry.len() < 86 { None } else { box_list(entry, 86) }
}

/// Whether one of the child boxes of a visual sample entry has type `box_type`.
pub fn visual_entry_has_child(entry: &[u8], box_type: [u8; 4]) -> (r: Result<bool, MuxError>)
    ensures
        match visual_entry_children(entry@) {
            Some(children) => r == Ok::<bool, MuxError>(exists|k: int| 0 <= k < children.len() && #[trigger] children[k].subrange(4, 8) == box_type@),
            None => r matches Err(e) && e is LayoutOverflow,
        },
{
    let n = entry.len();
    if n < 86 {
        return Err(overflow("MP4 sample entry children"));
    }
    let ghost all = box_list(entry@, 86);
    let mut i: usize = 86;
    let mut found = false;
    let ghost mut seen: Seq<Seq<u8>> = Seq::empty();
    while i < n
        invariant
            n == entry@.len(),
            86 <= i <= n,
            all == box_list(entry@, 86),
            all == match box_list(entry@, i as int) { Some(rest) => Some(seen + rest), None => None::<Seq<Seq<u8>>> },
            found == exists|k: int| 0 <= k < seen.len() && #[trigger] seen[k].subrange(4, 8) == box_type@,
        decreases n - i,
    {
        if n - i < 8 {
            return Err(overflow("MP4 sample entry children"));
        }
        let size = entry[i] as u64 * 0x100_0000 + entry[i + 1] as u64 * 0x1_0000 + entry[i + 2] as u64 * 0x100 + entry[i + 3] as u64;
        if size < 8 || size > (n - i) as u64 {
            return Err(overflow("MP4 sample entry children"));
        }
        let is_match = entry[i + 4] == box_type[0] && entry[i + 5] == box_type[1] && entry[i + 6] == box_type[2] && entry[i + 7] == box_type[3];
        proof {
            let b = entry@.subrange(i as int, i + size);
            let t = b.subrange(4, 8);
            if is_match {
                assert(t =~= box_type@);
            } else {
                if t == box_type@ {
                    assert(t[0] == entry@[i + 4] && t[1] == entry@[i + 5] && t[2] == entry@[i + 6] && t[3] == entry@[i + 7]);
                }
            }
            let old_seen = seen;
            seen = seen.push(b);
            assert(seen + match box_list(entry@, i + size) { Some(rest) => rest, None => Seq::empty() } =~= old_seen + (seq![b] + match box_list(entry@, i + size) { Some(rest) => rest, None => Seq::empty() }));
            assert forall|k: int| 0 <= k < old_seen.len() implies seen[k] == old_seen[k] by {}
            if !found && !is_match {
                assert forall|k: int| 0 <= k < seen.len() implies !(#[trigger] seen[k].subrange(4, 8) == box_type@) by {
                    if k < old_seen.len() {
                        assert(seen[k] == old_seen[k]);
                    }
                }
            }
            if found {
                let k0 = choose|k: int| 0 <= k < old_seen.len() && #[trigger] old_seen[k].subrange(4, 8) == box_type@;
                assert(seen[k0] == old_seen[k0]);
            }
            if is_match {
                assert(seen[old_seen.len() as int] == b);
            }
        }
        found = found || is_match;
        i = i + size as usize;
    }
    assert(box_list(entry@, i as int) == Some(Seq::<Seq<u8>>::empty()));
    assert(seen + Seq::<Seq<u8>>::empty() =~= seen);
    Ok(found)
}

} // verus!
