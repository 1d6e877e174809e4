use vstd::prelude::*;
use crate::error::{Failure, MuxError, fails_as, import_error, is_import_error_with, overflow};
use crate::demux::ts_tracks::{hex_char, hex_digit};
use crate::text::{bytes_eq, find_byte_from, all_digits, ascii_lowercase, digits_value, find_from, find_pat_from, find_pattern, lemma_find_from_found, lowered, parse_hex, parse_hex_number, parse_i64, parse_i64_decimal, parse_unsigned, parse_unsigned_decimal, trim, trim_range};

verus! {

/// The signature an index file starts with: `# VobSub`.
pub open spec fn vobsub_signature() -> Seq<u8> {
    seq![0x23u8, 0x20u8, 0x56u8, 0x6Fu8, 0x62u8, 0x53u8, 0x75u8, 0x62u8]
}

/// Whether the first bytes of a file carry the VobSub index signature.
pub fn looks_like_vobsub_prefix(prefix: &[u8]) -> (r: bool)
    ensures
        r == (prefix@.len() >= 8 && prefix@.subrange(0, 8) == vobsub_signature()),
{
    let signature: [u8; 8] = [0x23, 0x20, 0x56, 0x6F, 0x62, 0x53, 0x75, 0x62];
    assert(signature@ == vobsub_signature());
    crate::text::starts_with(prefix, &signature)
}

/// Refuses an index file whose first bytes lack the VobSub signature.
pub fn ensure_vobsub_idx_signature(prefix: &[u8], spec: &str) -> (r: Result<(), MuxError>)
    ensures
        r is Ok <==> (prefix@.len() >= 8 && prefix@.subrange(0, 8) == vobsub_signature()),
        r matches Err(e) ==> fails_as(e, Failure::Rejected, spec@),
{
    if !looks_like_vobsub_prefix(prefix) {
        return Err(import_error(spec, "input is not a VobSub index file with the expected `# VobSub` signature"));
    }
    Ok(())
}

/// The ISO 639-2 code VobSub's two-letter language codes map to.
pub open spec fn iso639_2_of(a: u8, b: u8) -> Option<Seq<u8>> {
    match (a, b) {
        (0x2D, 0x2D) => Some(seq![0x75u8, 0x6Eu8, 0x64u8]),
        (0x61, 0x61) => Some(seq![0x61u8, 0x61u8, 0x72u8]),
        (0x61, 0x62) => Some(seq![0x61u8, 0x62u8, 0x6Bu8]),
        (0x61, 0x66) => Some(seq![0x61u8, 0x66u8, 0x72u8]),
        (0x61, 0x6D) => Some(seq![0x61u8, 0x6Du8, 0x68u8]),
        (0x61, 0x72) => Some(seq![0x61u8, 0x72u8, 0x61u8]),
        (0x61, 0x73) => Some(seq![0x61u8, 0x73u8, 0x74u8]),
        (0x61, 0x79) => Some(seq![0x61u8, 0x79u8, 0x6Du8]),
        (0x61, 0x7A) => Some(seq![0x61u8, 0x7Au8, 0x65u8]),
        (0x62, 0x61) => Some(seq![0x62u8, 0x61u8, 0x6Bu8]),
        (0x62, 0x65) => Some(seq![0x62u8, 0x65u8, 0x6Cu8]),
        (0x62, 0x67) => Some(seq![0x62u8, 0x75u8, 0x6Cu8]),
        (0x62, 0x68) => Some(seq![0x62u8, 0x69u8, 0x68u8]),
        (0x62, 0x69) => Some(seq![0x62u8, 0x69u8, 0x73u8]),
        (0x62, 0x6E) => Some(seq![0x62u8, 0x65u8, 0x6Eu8]),
        (0x62, 0x6F) => Some(seq![0x62u8, 0x6Fu8, 0x64u8]),
        (0x62, 0x72) => Some(seq![0x62u8, 0x72u8, 0x65u8]),
        (0x63, 0x61) => Some(seq![0x63u8, 0x61u8, 0x74u8]),
        (0x63, 0x63) => Some(seq![0x75u8, 0x6Eu8, 0x64u8]),
        (0x63, 0x6F) => Some(seq![0x63u8, 0x6Fu8, 0x73u8]),
        (0x63, 0x73) => Some(seq![0x63u8, 0x65u8, 0x73u8]),
        (0x63, 0x79) => Some(seq![0x63u8, 0x79u8, 0x6Du8]),
        (0x64, 0x61) => Some(seq![0x64u8, 0x61u8, 0x6Eu8]),
        (0x64, 0x65) => Some(seq![0x64u8, 0x65u8, 0x75u8]),
        (0x64, 0x7A) => Some(seq![0x64u8, 0x7Au8, 0x6Fu8]),
        (0x65, 0x6C) => Some(seq![0x65u8, 0x6Cu8, 0x6Cu8]),
        (0x65, 0x6E) => Some(seq![0x65u8, 0x6Eu8, 0x67u8]),
        (0x65, 0x6F) => Some(seq![0x65u8, 0x70u8, 0x6Fu8]),
        (0x65, 0x73) => Some(seq![0x73u8, 0x70u8, 0x61u8]),
        (0x65, 0x74) => Some(seq![0x65u8, 0x73u8, 0x74u8]),
        (0x65, 0x75) => Some(seq![0x65u8, 0x75u8, 0x73u8]),
        (0x66, 0x61) => Some(seq![0x66u8, 0x61u8, 0x73u8]),
        (0x66, 0x69) => Some(seq![0x66u8, 0x69u8, 0x6Eu8]),
        (0x66, 0x6A) => Some(seq![0x66u8, 0x69u8, 0x6Au8]),
        (0x66, 0x6F) => Some(seq![0x66u8, 0x61u8, 0x6Fu8]),
        (0x66, 0x72) => Some(seq![0x66u8, 0x72u8, 0x61u8]),
        (0x66, 0x79) => Some(seq![0x66u8, 0x72u8, 0x79u8]),
        (0x67, 0x61) => Some(seq![0x67u8, 0x6Cu8, 0x65u8]),
        (0x67, 0x6C) => Some(seq![0x67u8, 0x6Cu8, 0x67u8]),
        (0x67, 0x6E) => Some(seq![0x67u8, 0x72u8, 0x6Eu8]),
        (0x67, 0x75) => Some(seq![0x67u8, 0x75u8, 0x6Au8]),
        (0x68, 0x61) => Some(seq![0x68u8, 0x61u8, 0x75u8]),
        (0x68, 0x65) => Some(seq![0x68u8, 0x65u8, 0x62u8]),
        (0x68, 0x69) => Some(seq![0x68u8, 0x69u8, 0x6Eu8]),
        (0x68, 0x72) => Some(seq![0x73u8, 0x63u8, 0x72u8]),
        (0x68, 0x75) => Some(seq![0x68u8, 0x75u8, 0x6Eu8]),
        (0x68, 0x79) => Some(seq![0x68u8, 0x79u8, 0x65u8]),
        (0x69, 0x61) => Some(seq![0x69u8, 0x6Eu8, 0x61u8]),
        (0x69, 0x64) => Some(seq![0x69u8, 0x6Eu8, 0x64u8]),
        (0x69, 0x6B) => Some(seq![0x69u8, 0x70u8, 0x6Bu8]),
        (0x69, 0x73) => Some(seq![0x69u8, 0x73u8, 0x6Cu8]),
        (0x69, 0x74) => Some(seq![0x69u8, 0x74u8, 0x61u8]),
        (0x69, 0x75) => Some(seq![0x69u8, 0x6Bu8, 0x75u8]),
        (0x6A, 0x61) => Some(seq![0x6Au8, 0x70u8, 0x6Eu8]),
        (0x6A, 0x76) => Some(seq![0x6Au8, 0x61u8, 0x76u8]),
        (0x6B, 0x61) => Some(seq![0x6Bu8, 0x61u8, 0x74u8]),
        (0x6B, 0x6B) => Some(seq![0x6Bu8, 0x61u8, 0x7Au8]),
        (0x6B, 0x6C) => Some(seq![0x6Bu8, 0x61u8, 0x6Cu8]),
        (0x6B, 0x6D) => Some(seq![0x6Bu8, 0x68u8, 0x6Du8]),
        (0x6B, 0x6E) => Some(seq![0x6Bu8, 0x61u8, 0x6Eu8]),
        (0x6B, 0x6F) => Some(seq![0x6Bu8, 0x6Fu8, 0x72u8]),
        (0x6B, 0x73) => Some(seq![0x6Bu8, 0x61u8, 0x73u8]),
        (0x6B, 0x75) => Some(seq![0x6Bu8, 0x75u8, 0x72u8]),
        (0x6B, 0x79) => Some(seq![0x6Bu8, 0x69u8, 0x72u8]),
        (0x6C, 0x61) => Some(seq![0x6Cu8, 0x61u8, 0x74u8]),
        (0x6C, 0x6E) => Some(seq![0x6Cu8, 0x69u8, 0x6Eu8]),
        (0x6C, 0x6F) => Some(seq![0x6Cu8, 0x61u8, 0x6Fu8]),
        (0x6C, 0x74) => Some(seq![0x6Cu8, 0x69u8, 0x74u8]),
        (0x6C, 0x76) => Some(seq![0x6Cu8, 0x61u8, 0x76u8]),
        (0x6D, 0x67) => Some(seq![0x6Du8, 0x6Cu8, 0x67u8]),
        (0x6D, 0x69) => Some(seq![0x6Du8, 0x72u8, 0x69u8]),
        (0x6D, 0x6B) => Some(seq![0x6Du8, 0x6Bu8, 0x64u8]),
        (0x6D, 0x6C) => Some(seq![0x6Du8, 0x6Cu8, 0x74u8]),
        (0x6D, 0x6E) => Some(seq![0x6Du8, 0x6Fu8, 0x6Eu8]),
        (0x6D, 0x6F) => Some(seq![0x6Du8, 0x6Fu8, 0x6Cu8]),
        (0x6D, 0x72) => Some(seq![0x6Du8, 0x61u8, 0x72u8]),
        (0x6D, 0x73) => Some(seq![0x6Du8, 0x73u8, 0x61u8]),
        (0x6D, 0x79) => Some(seq![0x6Du8, 0x79u8, 0x61u8]),
        (0x6E, 0x61) => Some(seq![0x6Eu8, 0x61u8, 0x75u8]),
        (0x6E, 0x65) => Some(seq![0x6Eu8, 0x65u8, 0x70u8]),
        (0x6E, 0x6C) => Some(seq![0x6Eu8, 0x6Cu8, 0x64u8]),
        (0x6E, 0x6F) => Some(seq![0x6Eu8, 0x6Fu8, 0x72u8]),
        (0x6F, 0x63) => Some(seq![0x6Fu8, 0x63u8, 0x69u8]),
        (0x6F, 0x6D) => Some(seq![0x6Fu8, 0x72u8, 0x6Du8]),
        (0x6F, 0x72) => Some(seq![0x6Fu8, 0x72u8, 0x69u8]),
        (0x70, 0x61) => Some(seq![0x70u8, 0x61u8, 0x6Eu8]),
        (0x70, 0x6C) => Some(seq![0x70u8, 0x6Fu8, 0x6Cu8]),
        (0x70, 0x73) => Some(seq![0x70u8, 0x75u8, 0x73u8]),
        (0x70, 0x74) => Some(seq![0x70u8, 0x6Fu8, 0x72u8]),
        (0x71, 0x75) => Some(seq![0x71u8, 0x75u8, 0x65u8]),
        (0x72, 0x6D) => Some(seq![0x72u8, 0x6Fu8, 0x68u8]),
        (0x72, 0x6E) => Some(seq![0x72u8, 0x75u8, 0x6Eu8]),
        (0x72, 0x6F) => Some(seq![0x72u8, 0x6Fu8, 0x6Eu8]),
        (0x72, 0x75) => Some(seq![0x72u8, 0x75u8, 0x73u8]),
        (0x72, 0x77) => Some(seq![0x6Bu8, 0x69u8, 0x6Eu8]),
        (0x73, 0x61) => Some(seq![0x73u8, 0x61u8, 0x6Eu8]),
        (0x73, 0x64) => Some(seq![0x73u8, 0x6Eu8, 0x64u8]),
        (0x73, 0x67) => Some(seq![0x73u8, 0x61u8, 0x67u8]),
        (0x73, 0x68) => Some(seq![0x73u8, 0x63u8, 0x72u8]),
        (0x73, 0x69) => Some(seq![0x73u8, 0x69u8, 0x6Eu8]),
        (0x73, 0x6B) => Some(seq![0x73u8, 0x6Cu8, 0x6Bu8]),
        (0x73, 0x6C) => Some(seq![0x73u8, 0x6Cu8, 0x76u8]),
        (0x73, 0x6D) => Some(seq![0x73u8, 0x6Du8, 0x6Fu8]),
        (0x73, 0x6E) => Some(seq![0x73u8, 0x6Eu8, 0x61u8]),
        (0x73, 0x6F) => Some(seq![0x73u8, 0x6Fu8, 0x6Du8]),
        (0x73, 0x71) => Some(seq![0x73u8, 0x71u8, 0x69u8]),
        (0x73, 0x72) => Some(seq![0x73u8, 0x72u8, 0x70u8]),
        (0x73, 0x73) => Some(seq![0x73u8, 0x73u8, 0x77u8]),
        (0x73, 0x74) => Some(seq![0x73u8, 0x6Fu8, 0x74u8]),
        (0x73, 0x75) => Some(seq![0x73u8, 0x75u8, 0x6Eu8]),
        (0x73, 0x76) => Some(seq![0x73u8, 0x77u8, 0x65u8]),
        (0x73, 0x77) => Some(seq![0x73u8, 0x77u8, 0x61u8]),
        (0x74, 0x61) => Some(seq![0x74u8, 0x61u8, 0x6Du8]),
        (0x74, 0x65) => Some(seq![0x74u8, 0x65u8, 0x6Cu8]),
        (0x74, 0x67) => Some(seq![0x74u8, 0x67u8, 0x6Bu8]),
        (0x74, 0x68) => Some(seq![0x74u8, 0x68u8, 0x61u8]),
        (0x74, 0x69) => Some(seq![0x74u8, 0x69u8, 0x72u8]),
        (0x74, 0x6B) => Some(seq![0x74u8, 0x75u8, 0x6Bu8]),
        (0x74, 0x6C) => Some(seq![0x74u8, 0x67u8, 0x6Cu8]),
        (0x74, 0x6E) => Some(seq![0x74u8, 0x73u8, 0x6Eu8]),
        (0x74, 0x6F) => Some(seq![0x74u8, 0x6Fu8, 0x67u8]),
        (0x74, 0x72) => Some(seq![0x74u8, 0x75u8, 0x72u8]),
        (0x74, 0x73) => Some(seq![0x74u8, 0x73u8, 0x6Fu8]),
        (0x74, 0x74) => Some(seq![0x74u8, 0x61u8, 0x74u8]),
        (0x74, 0x77) => Some(seq![0x74u8, 0x77u8, 0x69u8]),
        (0x75, 0x67) => Some(seq![0x75u8, 0x69u8, 0x67u8]),
        (0x75, 0x6B) => Some(seq![0x75u8, 0x6Bu8, 0x72u8]),
        (0x75, 0x72) => Some(seq![0x75u8, 0x72u8, 0x64u8]),
        (0x75, 0x7A) => Some(seq![0x75u8, 0x7Au8, 0x62u8]),
        (0x76, 0x69) => Some(seq![0x76u8, 0x69u8, 0x65u8]),
        (0x76, 0x6F) => Some(seq![0x76u8, 0x6Fu8, 0x6Cu8]),
        (0x77, 0x6F) => Some(seq![0x77u8, 0x6Fu8, 0x6Cu8]),
        (0x78, 0x68) => Some(seq![0x78u8, 0x68u8, 0x6Fu8]),
        (0x79, 0x69) => Some(seq![0x79u8, 0x69u8, 0x64u8]),
        (0x79, 0x6F) => Some(seq![0x79u8, 0x6Fu8, 0x72u8]),
        (0x7A, 0x61) => Some(seq![0x7Au8, 0x68u8, 0x61u8]),
        (0x7A, 0x68) => Some(seq![0x7Au8, 0x68u8, 0x6Fu8]),
        (0x7A, 0x75) => Some(seq![0x7Au8, 0x75u8, 0x6Cu8]),
        _ => None,
    }
}

/// The three-letter language of a two-letter VobSub code; unknown codes are undetermined.
pub open spec fn vobsub_language(code: Seq<u8>) -> Seq<u8> {
    match iso639_2_of(code[0], code[1]) {
        Some(l) => l,
        None => seq![0x75u8, 0x6Eu8, 0x64u8],
    }
}

/// Maps a two-letter VobSub language code to its ISO 639-2 code (`und` when unknown).
pub fn vobsub_language_from_two_letter(language: [u8; 2]) -> (r: [u8; 3])
    ensures
        r@ == vobsub_language(language@),
{
    let r: [u8; 3] = match (language[0], language[1]) {
        (0x2D, 0x2D) => [0x75, 0x6E, 0x64],
        (0x61, 0x61) => [0x61, 0x61, 0x72],
        (0x61, 0x62) => [0x61, 0x62, 0x6B],
        (0x61, 0x66) => [0x61, 0x66, 0x72],
        (0x61, 0x6D) => [0x61, 0x6D, 0x68],
        (0x61, 0x72) => [0x61, 0x72, 0x61],
        (0x61, 0x73) => [0x61, 0x73, 0x74],
        (0x61, 0x79) => [0x61, 0x79, 0x6D],
        (0x61, 0x7A) => [0x61, 0x7A, 0x65],
        (0x62, 0x61) => [0x62, 0x61, 0x6B],
        (0x62, 0x65) => [0x62, 0x65, 0x6C],
        (0x62, 0x67) => [0x62, 0x75, 0x6C],
        (0x62, 0x68) => [0x62, 0x69, 0x68],
        (0x62, 0x69) => [0x62, 0x69, 0x73],
        (0x62, 0x6E) => [0x62, 0x65, 0x6E],
        (0x62, 0x6F) => [0x62, 0x6F, 0x64],
        (0x62, 0x72) => [0x62, 0x72, 0x65],
        (0x63, 0x61) => [0x63, 0x61, 0x74],
        (0x63, 0x63) => [0x75, 0x6E, 0x64],
        (0x63, 0x6F) => [0x63, 0x6F, 0x73],
        (0x63, 0x73) => [0x63, 0x65, 0x73],
        (0x63, 0x79) => [0x63, 0x79, 0x6D],
        (0x64, 0x61) => [0x64, 0x61, 0x6E],
        (0x64, 0x65) => [0x64, 0x65, 0x75],
        (0x64, 0x7A) => [0x64, 0x7A, 0x6F],
        (0x65, 0x6C) => [0x65, 0x6C, 0x6C],
        (0x65, 0x6E) => [0x65, 0x6E, 0x67],
        (0x65, 0x6F) => [0x65, 0x70, 0x6F],
        (0x65, 0x73) => [0x73, 0x70, 0x61],
        (0x65, 0x74) => [0x65, 0x73, 0x74],
        (0x65, 0x75) => [0x65, 0x75, 0x73],
        (0x66, 0x61) => [0x66, 0x61, 0x73],
        (0x66, 0x69) => [0x66, 0x69, 0x6E],
        (0x66, 0x6A) => [0x66, 0x69, 0x6A],
        (0x66, 0x6F) => [0x66, 0x61, 0x6F],
        (0x66, 0x72) => [0x66, 0x72, 0x61],
        (0x66, 0x79) => [0x66, 0x72, 0x79],
        (0x67, 0x61) => [0x67, 0x6C, 0x65],
        (0x67, 0x6C) => [0x67, 0x6C, 0x67],
        (0x67, 0x6E) => [0x67, 0x72, 0x6E],
        (0x67, 0x75) => [0x67, 0x75, 0x6A],
        (0x68, 0x61) => [0x68, 0x61, 0x75],
        (0x68, 0x65) => [0x68, 0x65, 0x62],
        (0x68, 0x69) => [0x68, 0x69, 0x6E],
        (0x68, 0x72) => [0x73, 0x63, 0x72],
        (0x68, 0x75) => [0x68, 0x75, 0x6E],
        (0x68, 0x79) => [0x68, 0x79, 0x65],
        (0x69, 0x61) => [0x69, 0x6E, 0x61],
        (0x69, 0x64) => [0x69, 0x6E, 0x64],
        (0x69, 0x6B) => [0x69, 0x70, 0x6B],
        (0x69, 0x73) => [0x69, 0x73, 0x6C],
        (0x69, 0x74) => [0x69, 0x74, 0x61],
        (0x69, 0x75) => [0x69, 0x6B, 0x75],
        (0x6A, 0x61) => [0x6A, 0x70, 0x6E],
        (0x6A, 0x76) => [0x6A, 0x61, 0x76],
        (0x6B, 0x61) => [0x6B, 0x61, 0x74],
        (0x6B, 0x6B) => [0x6B, 0x61, 0x7A],
        (0x6B, 0x6C) => [0x6B, 0x61, 0x6C],
        (0x6B, 0x6D) => [0x6B, 0x68, 0x6D],
        (0x6B, 0x6E) => [0x6B, 0x61, 0x6E],
        (0x6B, 0x6F) => [0x6B, 0x6F, 0x72],
        (0x6B, 0x73) => [0x6B, 0x61, 0x73],
        (0x6B, 0x75) => [0x6B, 0x75, 0x72],
        (0x6B, 0x79) => [0x6B, 0x69, 0x72],
        (0x6C, 0x61) => [0x6C, 0x61, 0x74],
        (0x6C, 0x6E) => [0x6C, 0x69, 0x6E],
        (0x6C, 0x6F) => [0x6C, 0x61, 0x6F],
        (0x6C, 0x74) => [0x6C, 0x69, 0x74],
        (0x6C, 0x76) => [0x6C, 0x61, 0x76],
        (0x6D, 0x67) => [0x6D, 0x6C, 0x67],
        (0x6D, 0x69) => [0x6D, 0x72, 0x69],
        (0x6D, 0x6B) => [0x6D, 0x6B, 0x64],
        (0x6D, 0x6C) => [0x6D, 0x6C, 0x74],
        (0x6D, 0x6E) => [0x6D, 0x6F, 0x6E],
        (0x6D, 0x6F) => [0x6D, 0x6F, 0x6C],
        (0x6D, 0x72) => [0x6D, 0x61, 0x72],
        (0x6D, 0x73) => [0x6D, 0x73, 0x61],
        (0x6D, 0x79) => [0x6D, 0x79, 0x61],
        (0x6E, 0x61) => [0x6E, 0x61, 0x75],
        (0x6E, 0x65) => [0x6E, 0x65, 0x70],
        (0x6E, 0x6C) => [0x6E, 0x6C, 0x64],
        (0x6E, 0x6F) => [0x6E, 0x6F, 0x72],
        (0x6F, 0x63) => [0x6F, 0x63, 0x69],
        (0x6F, 0x6D) => [0x6F, 0x72, 0x6D],
        (0x6F, 0x72) => [0x6F, 0x72, 0x69],
        (0x70, 0x61) => [0x70, 0x61, 0x6E],
        (0x70, 0x6C) => [0x70, 0x6F, 0x6C],
        (0x70, 0x73) => [0x70, 0x75, 0x73],
        (0x70, 0x74) => [0x70, 0x6F, 0x72],
        (0x71, 0x75) => [0x71, 0x75, 0x65],
        (0x72, 0x6D) => [0x72, 0x6F, 0x68],
        (0x72, 0x6E) => [0x72, 0x75, 0x6E],
        (0x72, 0x6F) => [0x72, 0x6F, 0x6E],
        (0x72, 0x75) => [0x72, 0x75, 0x73],
        (0x72, 0x77) => [0x6B, 0x69, 0x6E],
        (0x73, 0x61) => [0x73, 0x61, 0x6E],
        (0x73, 0x64) => [0x73, 0x6E, 0x64],
        (0x73, 0x67) => [0x73, 0x61, 0x67],
        (0x73, 0x68) => [0x73, 0x63, 0x72],
        (0x73, 0x69) => [0x73, 0x69, 0x6E],
        (0x73, 0x6B) => [0x73, 0x6C, 0x6B],
        (0x73, 0x6C) => [0x73, 0x6C, 0x76],
        (0x73, 0x6D) => [0x73, 0x6D, 0x6F],
        (0x73, 0x6E) => [0x73, 0x6E, 0x61],
        (0x73, 0x6F) => [0x73, 0x6F, 0x6D],
        (0x73, 0x71) => [0x73, 0x71, 0x69],
        (0x73, 0x72) => [0x73, 0x72, 0x70],
        (0x73, 0x73) => [0x73, 0x73, 0x77],
        (0x73, 0x74) => [0x73, 0x6F, 0x74],
        (0x73, 0x75) => [0x73, 0x75, 0x6E],
        (0x73, 0x76) => [0x73, 0x77, 0x65],
        (0x73, 0x77) => [0x73, 0x77, 0x61],
        (0x74, 0x61) => [0x74, 0x61, 0x6D],
        (0x74, 0x65) => [0x74, 0x65, 0x6C],
        (0x74, 0x67) => [0x74, 0x67, 0x6B],
        (0x74, 0x68) => [0x74, 0x68, 0x61],
        (0x74, 0x69) => [0x74, 0x69, 0x72],
        (0x74, 0x6B) => [0x74, 0x75, 0x6B],
        (0x74, 0x6C) => [0x74, 0x67, 0x6C],
        (0x74, 0x6E) => [0x74, 0x73, 0x6E],
        (0x74, 0x6F) => [0x74, 0x6F, 0x67],
        (0x74, 0x72) => [0x74, 0x75, 0x72],
        (0x74, 0x73) => [0x74, 0x73, 0x6F],
        (0x74, 0x74) => [0x74, 0x61, 0x74],
        (0x74, 0x77) => [0x74, 0x77, 0x69],
        (0x75, 0x67) => [0x75, 0x69, 0x67],
        (0x75, 0x6B) => [0x75, 0x6B, 0x72],
        (0x75, 0x72) => [0x75, 0x72, 0x64],
        (0x75, 0x7A) => [0x75, 0x7A, 0x62],
        (0x76, 0x69) => [0x76, 0x69, 0x65],
        (0x76, 0x6F) => [0x76, 0x6F, 0x6C],
        (0x77, 0x6F) => [0x77, 0x6F, 0x6C],
        (0x78, 0x68) => [0x78, 0x68, 0x6F],
        (0x79, 0x69) => [0x79, 0x69, 0x64],
        (0x79, 0x6F) => [0x79, 0x6F, 0x72],
        (0x7A, 0x61) => [0x7A, 0x68, 0x61],
        (0x7A, 0x68) => [0x7A, 0x68, 0x6F],
        (0x7A, 0x75) => [0x7A, 0x75, 0x6C],
        _ => [0x75, 0x6E, 0x64],
    };
    assert(r@ =~= vobsub_language(language@));
    r
}

/// The duration of a subtitle: its own when the control sequence gave one, otherwise the gap
/// to the next subtitle when that one starts later, otherwise zero.
pub open spec fn vobsub_duration(parsed: u32, start: u64, next: Option<u64>) -> Option<u32> {
    if parsed != 0 {
        Some(parsed)
    } else {
        match next {
            Some(n) => if n > start {
                if n - start <= u32::MAX { Some((n - start) as u32) } else { None }
            } else {
                Some(0)
            },
            None => Some(0),
        }
    }
}

/// Chooses a subtitle's duration; fails when the gap to the next one exceeds 32 bits.
pub fn effective_vobsub_duration(parsed_duration: u32, start_pts: u64, next_start: Option<u64>) -> (r: Result<u32, MuxError>)
    ensures
        match vobsub_duration(parsed_duration, start_pts, next_start) {
            Some(d) => r == Ok::<u32, MuxError>(d),
            None => r matches Err(e) && e is LayoutOverflow,
        },
{
    if parsed_duration != 0 {
        return Ok(parsed_duration);
    }
    match next_start {
        Some(next) => {
            if next > start_pts {
                let gap = next - start_pts;
                if gap > 0xFFFF_FFFF {
                    return Err(overflow("VobSub sample duration"));
                }
                return Ok(gap as u32);
            }
            Ok(0)
        },
        None => Ok(0),
    }
}


/// Where a subtitle packet's bytes sit in a 2048-byte VobSub sector.
#[derive(Clone, Copy, Debug, PartialEq, Eq)]
pub struct VobSubSectorHeader {
    pub packet_size: u32,
    pub control_offset: u32,
    pub payload_offset: usize,
}

/// The big-endian 16-bit value at `i`.
pub open spec fn be16_at(s: Seq<u8>, i: int) -> int {
    s[i] * 256 + s[i + 1]
}

/// The header of a sector holding a subtitle packet of substream `expected`: a pack header,
/// a private-stream-1 PES header with a PTS flag, the substream id after the PES header
/// extension, and a packet size no smaller than four bytes or the control offset.
pub open spec fn sector_header(s: Seq<u8>, expected: u8) -> Option<VobSubSectorHeader> {
    if !(s[0] == 0 && s[1] == 0 && s[2] == 1 && s[3] == 0xBA && s[14] == 0 && s[15] == 0 && s[16] == 1 && s[17] == 0xBD
        && s[21] & 0x80 != 0 && s[23] & 0xF0 == 0x20) {
        None
    } else if s[s[22] + 23] != expected {
        None
    } else {
        let p = s[22] + 24;
        let size = be16_at(s, p);
        let control = be16_at(s, p + 2);
        if size < control || size < 4 {
            None
        } else {
            Some(VobSubSectorHeader { packet_size: size as u32, control_offset: control as u32, payload_offset: p as usize })
        }
    }
}

/// Parses the header of a VobSub sector carrying substream `expected_substream_id`.
pub fn parse_vobsub_sector_header(sector: &[u8; 2048], spec: &str, sector_offset: u64, expected_substream_id: u8) -> (r: Result<VobSubSectorHeader, MuxError>)
    ensures
        match sector_header(sector@, expected_substream_id) {
            Some(h) => r == Ok::<VobSubSectorHeader, MuxError>(h),
            None => r matches Err(e) && fails_as(e, Failure::Rejected, spec@),
        },
{
    let bytes: &[u8] = sector.as_slice();
    assert(bytes@.subrange(0, 2048) =~= sector@);
    parse_vobsub_sector_header_at(bytes, 0, spec, expected_substream_id)
}

/// Parses the header of the 2048-byte sector at `offset` of a subtitle file held in memory.
pub fn parse_vobsub_sector_header_at(file: &[u8], offset: usize, spec: &str, expected_substream_id: u8) -> (r: Result<VobSubSectorHeader, MuxError>)
    requires
        offset + 2048 <= file@.len(),
    ensures
        match sector_header(file@.subrange(offset as int, offset + 2048), expected_substream_id) {
            Some(h) => r == Ok::<VobSubSectorHeader, MuxError>(h),
            None => r matches Err(e) && fails_as(e, Failure::Rejected, spec@),
        },
        r matches Ok(h) ==> 24 <= h.payload_offset <= 279,
{
    let ghost s = file@.subrange(offset as int, offset + 2048);
    let o = offset;
    assert(s[0] == file[o as int] && s[1] == file[o + 1] && s[2] == file[o + 2] && s[3] == file[o + 3]);
    assert(s[14] == file[o + 14] && s[15] == file[o + 15] && s[16] == file[o + 16] && s[17] == file[o + 17]);
    assert(s[21] == file[o + 21] && s[22] == file[o + 22] && s[23] == file[o + 23]);
    if !(file[o] == 0 && file[o + 1] == 0 && file[o + 2] == 1 && file[o + 3] == 0xBA && file[o + 14] == 0 && file[o + 15] == 0
        && file[o + 16] == 1 && file[o + 17] == 0xBD && file[o + 21] & 0x80 != 0 && file[o + 23] & 0xF0 == 0x20) {
        return Err(import_error(spec, "corrupted VobSub sector header"));
    }
    let header_extension_size = file[o + 22] as usize;
    let substream_id_offset = header_extension_size + 23;
    assert(s[substream_id_offset as int] == file[o + substream_id_offset]);
    if file[o + substream_id_offset] != expected_substream_id {
        return Err(import_error(spec, "VobSub sector carried an unexpected substream id"));
    }
    let payload_offset = header_extension_size + 24;
    let p = o + payload_offset;
    assert(s[payload_offset as int] == file[p as int] && s[payload_offset + 1] == file[p + 1]);
    assert(s[payload_offset + 2] == file[p + 2] && s[payload_offset + 3] == file[p + 3]);
    let packet_size = file[p] as u32 * 256 + file[p + 1] as u32;
    let control_offset = file[p + 2] as u32 * 256 + file[p + 3] as u32;
    if packet_size < control_offset || packet_size < 4 {
        return Err(import_error(spec, "corrupted VobSub packet sizing"));
    }
    Ok(VobSubSectorHeader { packet_size, control_offset, payload_offset })
}

/// The display time a control command sets, in 90 kHz ticks (saturating).
pub open spec fn control_ticks(time: int) -> u32 {
    if time * 1024 > u32::MAX { u32::MAX } else { (time * 1024) as u32 }
}

/// The commands of one control sequence from `i` on: the position after its end command and
/// the start and stop times set so far, or nothing when a command or its data is cut off.
pub open spec fn control_commands(p: Seq<u8>, size: int, i: int, time: int, start: u32, stop: u32) -> Option<(int, u32, u32)>
    decreases size - i,
{
    if i < 0 || i >= size || size > p.len() {
        None
    } else {
        let cmd = p[i];
        if cmd > 6 {
            Some((i + 1, start, stop))
        } else {
            let extra: int = if cmd <= 2 { 0 } else if cmd <= 4 { 2 } else if cmd == 5 { 6 } else { 4 };
            if i + 1 + extra > size {
                None
            } else {
                control_commands(
                    p,
                    size,
                    i + 1 + extra,
                    time,
                    if cmd <= 1 { control_ticks(time) } else { start },
                    if cmd == 2 { control_ticks(time) } else { stop },
                )
            }
        }
    }
}

/// The commands end past their start.
pub proof fn lemma_control_commands_advance(p: Seq<u8>, size: int, i: int, time: int, start: u32, stop: u32)
    ensures
        control_commands(p, size, i, time, start, stop) matches Some((j, _, _)) ==> i < j <= size,
    decreases size - i,
{
    if 0 <= i < size && size <= p.len() && p[i] <= 6 {
        let cmd = p[i];
        let extra: int = if cmd <= 2 { 0 } else if cmd <= 4 { 2 } else if cmd == 5 { 6 } else { 4 };
        if i + 1 + extra <= size {
            lemma_control_commands_advance(p, size, i + 1 + extra, time,
                if cmd <= 1 { control_ticks(time) } else { start },
                if cmd == 2 { control_ticks(time) } else { stop });
        }
    }
}

/// The control sequences from the one at `at` on, each naming the next; the final start and
/// stop times, or nothing when the chain is corrupted.
pub open spec fn control_chain(p: Seq<u8>, size: int, first: int, at: int, start: u32, stop: u32) -> Option<(u32, u32)>
    decreases size - at,
{
    if at < 0 || at + 4 > size || size > p.len() {
        None
    } else {
        let time = be16_at(p, at);
        let next = be16_at(p, at + 2);
        if next > size || next < first {
            None
        } else {
            match control_commands(p, size, at + 4, time, start, stop) {
                None => None,
                Some((i, s2, t2)) => {
                    proof { lemma_control_commands_advance(p, size, at + 4, time, start, stop); }
                    if i <= next && i < size { control_chain(p, size, first, next, s2, t2) } else { Some((s2, t2)) }
                },
            }
        }
    }
}

/// How long a subtitle packet is displayed: the stop time less the start time its control
/// sequences set (saturating at zero), or nothing when the packet is corrupted.
pub open spec fn packet_display_duration(p: Seq<u8>, size: u32, control: u32) -> Option<u32> {
    if p.len() != size || control > size {
        None
    } else {
        match control_chain(p, size as int, control as int, control as int, 0, 0) {
            Some((start, stop)) => Some(if stop >= start { (stop - start) as u32 } else { 0 }),
            None => None,
        }
    }
}

/// Walks the commands of one control sequence.
fn walk_control_commands(p: &[u8], size: usize, i: usize, time: u32, start: u32, stop: u32) -> (r: Option<(usize, u32, u32)>)
    requires
        size <= p@.len(),
        time <= 0xFFFF,
    ensures
        match control_commands(p@, size as int, i as int, time as int, start, stop) {
            Some((j, s, t)) => r == Some((j as usize, s, t)),
            None => r is None,
        },
{
    let ghost target = control_commands(p@, size as int, i as int, time as int, start, stop);
    let mut index = i;
    let mut cur_start = start;
    let mut cur_stop = stop;
    let ticks: u32 = if time > 0xFFFF_FFFF / 1024 { 0xFFFF_FFFF } else { time * 1024 };
    assert(ticks == control_ticks(time as int));
    loop
        invariant
            size <= p@.len(),
            time <= 0xFFFF,
            ticks == control_ticks(time as int),
            target == control_commands(p@, size as int, i as int, time as int, start, stop),
            target == control_commands(p@, size as int, index as int, time as int, cur_start, cur_stop),
        decreases size - index,
    {
        if index >= size {
            return None;
        }
        let cmd = p[index];
        index = index + 1;
        if cmd > 6 {
            return Some((index, cur_start, cur_stop));
        }
        let extra: usize = if cmd <= 2 { 0 } else if cmd <= 4 { 2 } else if cmd == 5 { 6 } else { 4 };
        if extra > size - index {
            return None;
        }
        index = index + extra;
        if cmd <= 1 {
            cur_start = ticks;
        } else if cmd == 2 {
            cur_stop = ticks;
        }
    }
}

/// How long a subtitle packet is displayed, from its control sequences, in 90 kHz ticks.
pub fn parse_vobsub_duration(packet_bytes: &[u8], packet_size: u32, control_offset: u32, spec: &str) -> (r: Result<u32, MuxError>)
    ensures
        match packet_display_duration(packet_bytes@, packet_size, control_offset) {
            Some(d) => r == Ok::<u32, MuxError>(d),
            None => r matches Err(e) && fails_as(e, Failure::Rejected, spec@),
        },
{
    if packet_bytes.len() as u64 != packet_size as u64 || control_offset > packet_size {
        return Err(import_error(spec, "corrupted VobSub packet lengths"));
    }
    let size = packet_size as usize;
    let first = control_offset as usize;
    let ghost p = packet_bytes@;
    let ghost target = control_chain(p, size as int, first as int, first as int, 0, 0);
    let mut next_control: usize = first;
    let mut start: u32 = 0;
    let mut stop: u32 = 0;
    assert(packet_display_duration(p, packet_size, control_offset) == match target {
        Some((s, t)) => Some(if t >= s { (t - s) as u32 } else { 0 }),
        None => None::<u32>,
    });
    loop
        invariant_except_break
            target == control_chain(p, size as int, first as int, next_control as int, start, stop),
        invariant
            p == packet_bytes@,
            size == p.len(),
            size == packet_size,
            first == control_offset,
            first <= size,
            packet_display_duration(p, packet_size, control_offset) == match target {
                Some((s, t)) => Some(if t >= s { (t - s) as u32 } else { 0 }),
                None => None::<u32>,
            },
        ensures
            target == Some((start, stop)),
        decreases size - next_control,
    {
        let at = next_control;
        if at > size || 4 > size - at {
            return Err(import_error(spec, "corrupted VobSub control sequence header"));
        }
        let time = packet_bytes[at] as u32 * 256 + packet_bytes[at + 1] as u32;
        let next = packet_bytes[at + 2] as usize * 256 + packet_bytes[at + 3] as usize;
        if next > size || next < first {
            return Err(import_error(spec, "corrupted VobSub control-sequence offset"));
        }
        proof { lemma_control_commands_advance(p, size as int, at + 4, time as int, start, stop); }
        match walk_control_commands(packet_bytes, size, at + 4, time, start, stop) {
            None => {
                return Err(import_error(spec, "truncated VobSub control command payload"));
            },
            Some((index, s2, t2)) => {
                start = s2;
                stop = t2;
                if !(index <= next && index < size) {
                    break;
                }
                next_control = next;
            },
        }
    }
    Ok(if stop >= start { stop - start } else { 0 })
}

/// The display duration of a program-stream subpicture packet, whose first four bytes give
/// its size and control offset, with the gap to the next subpicture as the fallback.
pub fn subpicture_sample_duration(spec: &str, packet_bytes: &[u8], start_pts: u64, next_start: Option<u64>) -> (r: Result<u32, MuxError>)
    ensures
        packet_bytes@.len() < 4 ==> (r matches Err(e) && fails_as(e, Failure::Rejected, spec@)),
        packet_bytes@.len() >= 4 ==> match packet_display_duration(
            packet_bytes@,
            be16_at(packet_bytes@, 0) as u32,
            be16_at(packet_bytes@, 2) as u32,
        ) {
            None => r matches Err(e) && fails_as(e, Failure::Rejected, spec@),
            Some(d) => match vobsub_duration(d, start_pts, next_start) {
                Some(v) => r == Ok::<u32, MuxError>(v),
                None => r matches Err(e) && e is LayoutOverflow,
            },
        },
{
    if packet_bytes.len() < 4 {
        return Err(import_error(spec, "truncated program stream subpicture payload"));
    }
    let packet_size = packet_bytes[0] as u32 * 256 + packet_bytes[1] as u32;
    let control_offset = packet_bytes[2] as u32 * 256 + packet_bytes[3] as u32;
    let parsed = parse_vobsub_duration(packet_bytes, packet_size, control_offset, spec)?;
    effective_vobsub_duration(parsed, start_pts, next_start)
}

/// The decoder-specific information of a VobSub track: its sixteen palette entries, four bytes
/// each, in order.
pub fn vobsub_decoder_specific_info(palette: &[[u8; 4]]) -> (r: Vec<u8>)
    ensures
        r@.len() == 4 * palette@.len(),
        forall|i: int, k: int| 0 <= i < palette@.len() && 0 <= k < 4 ==> r@[4 * i + k] == palette@[i]@[k],
{
    let mut out: Vec<u8> = Vec::new();
    let mut i: usize = 0;
    while i < palette.len()
        invariant
            i <= palette@.len(),
            out@.len() == 4 * i,
            forall|j: int, k: int| 0 <= j < i && 0 <= k < 4 ==> out@[4 * j + k] == palette@[j]@[k],
        decreases palette.len() - i,
    {
        let color = palette[i];
        out.push(color[0]);
        out.push(color[1]);
        out.push(color[2]);
        out.push(color[3]);
        proof {
            assert forall|j: int, k: int| 0 <= j < i + 1 && 0 <= k < 4 implies out@[4 * j + k] == palette@[j]@[k] by {
                if j == i {
                    assert(4 * j + k == 4 * i + k);
                } else {
                    assert(4 * j + k < 4 * i) by (nonlinear_arith) requires j < i, k < 4, 0 <= j;
                }
            }
        }
        i = i + 1;
    }
    out
}


// ---------------------------------------------------------------------------------------------
// Index file fields
// ---------------------------------------------------------------------------------------------

/// `s` without trailing bytes `c`.
pub open spec fn strip_trailing(s: Seq<u8>, c: u8) -> Seq<u8>
    decreases s.len(),
{
    if s.len() > 0 && s.last() == c { strip_trailing(s.drop_last(), c) } else { s }
}

/// The width and height of a `size:` value `WIDTHxHEIGHT`.
pub open spec fn size_fields(v: Seq<u8>) -> Option<(u16, u16)> {
    match find_from(v, 0x78, 0) {
        None => None,
        Some(k) => match (parse_unsigned(trim(v.subrange(0, k)), 0xFFFF), parse_unsigned(trim(v.subrange(k + 1, v.len() as int)), 0xFFFF)) {
            (Some(w), Some(h)) => Some((w as u16, h as u16)),
            _ => None,
        },
    }
}

/// The hexadecimal colors of a comma-separated list from `i` on, appended to `acc`.
pub open spec fn palette_values_from(v: Seq<u8>, i: int, acc: Seq<u32>) -> Option<Seq<u32>>
    decreases v.len() + 1 - i,
{
    if i < 0 || i > v.len() {
        None
    } else {
        match find_from(v, 0x2C, i) {
            None => match parse_hex(trim(v.subrange(i, v.len() as int)), 0xFFFF_FFFF) {
                Some(x) => Some(acc.push(x as u32)),
                None => None,
            },
            Some(k) => {
                proof { lemma_find_from_found(v, 0x2C, i); }
                match parse_hex(trim(v.subrange(i, k)), 0xFFFF_FFFF) {
                    Some(x) => palette_values_from(v, k + 1, acc.push(x as u32)),
                    None => None,
                }
            },
        }
    }
}

/// The Y'CbCr palette entry (a zero byte, then Y, Cr and Cb) of an RGB color.
pub open spec fn palette_color(x: u32) -> Seq<u8> {
    let r = (x as int / 0x10000) % 256;
    let g = (x as int / 0x100) % 256;
    let b = x as int % 256;
    seq![
        0u8,
        ((66 * r + 129 * g + 25 * b + 128 + 4096) / 256) as u8,
        ((112 * r - 94 * g - 18 * b + 128 + 32768) / 256) as u8,
        ((-38 * r - 74 * g + 112 * b + 128 + 32768) / 256) as u8,
    ]
}

/// The sixteen palette entries of a `palette:` value, when it lists exactly sixteen colors.
pub open spec fn palette_fields(v: Seq<u8>) -> Option<Seq<Seq<u8>>> {
    match palette_values_from(v, 0, Seq::empty()) {
        Some(vals) => if vals.len() == 16 { Some(vals.map_values(|x: u32| palette_color(x))) } else { None },
        None => None,
    }
}

/// `index:` in ASCII.
pub open spec fn index_tag() -> Seq<u8> {
    seq![0x69u8, 0x6Eu8, 0x64u8, 0x65u8, 0x78u8, 0x3Au8]
}

/// `filepos:` in ASCII.
pub open spec fn filepos_tag() -> Seq<u8> {
    seq![0x66u8, 0x69u8, 0x6Cu8, 0x65u8, 0x70u8, 0x6Fu8, 0x73u8, 0x3Au8]
}

/// The track index and language of an `id:` value `xx, index: N`, the index below 32.
pub open spec fn id_fields(v: Seq<u8>) -> Option<(u8, Seq<u8>)> {
    let l = lowered(v);
    if l.len() < 2 {
        None
    } else {
        match find_pat_from(l, index_tag(), 0) {
            None => None,
            Some(p) => match parse_unsigned(trim(l.subrange(p + 6, l.len() as int)), 255) {
                None => None,
                Some(i) => if i >= 32 { None } else { Some((i as u8, vobsub_language(l.subrange(0, 2)))) },
            },
        }
    }
}

/// The sign and the colon-separated digits of a timestamp value.
pub open spec fn ts_sign_digits(v: Seq<u8>) -> (int, Seq<u8>) {
    let t = trim(v);
    if t.len() > 0 && t[0] == 0x2D {
        (-1, t.drop_first())
    } else if t.len() > 0 && t[0] == 0x2B {
        (1, t.drop_first())
    } else {
        (1, t)
    }
}

/// The four `HH:MM:SS:MS` fields of timestamp digits, when there are exactly four.
pub open spec fn ts_parts(d: Seq<u8>) -> Option<(Seq<u8>, Seq<u8>, Seq<u8>, Seq<u8>)> {
    match find_from(d, 0x3A, 0) {
        None => None,
        Some(c1) => match find_from(d, 0x3A, c1 + 1) {
            None => None,
            Some(c2) => match find_from(d, 0x3A, c2 + 1) {
                None => None,
                Some(c3) => match find_from(d, 0x3A, c3 + 1) {
                    Some(_) => None,
                    None => Some((d.subrange(0, c1), d.subrange(c1 + 1, c2), d.subrange(c2 + 1, c3), d.subrange(c3 + 1, d.len() as int))),
                },
            },
        },
    }
}

/// Fits a signed 64-bit integer.
pub open spec fn fits_i64(x: int) -> bool {
    i64::MIN <= x <= i64::MAX
}

/// The parsed sign and fields of a timestamp value.
pub open spec fn ts_numbers(v: Seq<u8>) -> Option<(int, int, int, int, int)> {
    let (sign, d) = ts_sign_digits(v);
    match ts_parts(d) {
        None => None,
        Some((a, b, c, e)) => match (parse_i64(a), parse_i64(b), parse_i64(c), parse_i64(e)) {
            (Some(h), Some(m), Some(s), Some(ms)) => Some((sign, h, m, s, ms)),
            _ => None,
        },
    }
}

/// Whether combining timestamp fields would overflow an unchecked product or the final sign
/// change: minutes or seconds too large for their scale once the hours fit, or the most
/// negative total negated.
pub open spec fn ts_combine_overflows(sign: int, h: int, m: int, s: int, ms: int) -> bool {
    let a = h * 3_600_000;
    if !fits_i64(a) {
        false
    } else if !fits_i64(m * 60_000) {
        true
    } else if !fits_i64(a + m * 60_000) {
        false
    } else if !fits_i64(s * 1000) {
        true
    } else {
        let c = a + m * 60_000 + s * 1000;
        fits_i64(c) && fits_i64(c + ms) && sign == -1 && c + ms == i64::MIN
    }
}

/// The signed total of timestamp fields, or an overflow of a checked step.
pub open spec fn ts_combine(sign: int, h: int, m: int, s: int, ms: int) -> Result<int, Failure> {
    let total = h * 3_600_000 + m * 60_000 + s * 1000 + ms;
    if !fits_i64(h * 3_600_000) || !fits_i64(h * 3_600_000 + m * 60_000)
        || !fits_i64(h * 3_600_000 + m * 60_000 + s * 1000) || !fits_i64(total) {
        Err(Failure::Overflow)
    } else {
        Ok(total * sign)
    }
}

/// Where evaluating a timestamp value would overflow unchecked arithmetic.
pub open spec fn ts_overflows_unchecked(v: Seq<u8>) -> bool {
    match ts_numbers(v) {
        None => false,
        Some((sign, h, m, s, ms)) => ts_combine_overflows(sign, h, m, s, ms),
    }
}

/// The milliseconds of an `[+-]HH:MM:SS:MS` timestamp value.
pub open spec fn ts_value(v: Seq<u8>) -> Result<int, Failure> {
    match ts_numbers(v) {
        None => Err(Failure::Rejected),
        Some((sign, h, m, s, ms)) => ts_combine(sign, h, m, s, ms),
    }
}

/// The start time and file position of a `timestamp:` value `HH:MM:SS:MS, filepos: XXXXXXXX`;
/// also the timestamp text, which must not overflow unchecked.
pub open spec fn ts_entry_head(v: Seq<u8>) -> Option<Seq<u8>> {
    match find_pat_from(lowered(v), filepos_tag(), 0) {
        None => None,
        Some(p) => Some(trim(strip_trailing(trim(v.subrange(0, p)), 0x2C))),
    }
}

/// The start time and file position of a `timestamp:` value.
pub open spec fn ts_entry_fields(v: Seq<u8>) -> Result<(int, u64), Failure> {
    match find_pat_from(lowered(v), filepos_tag(), 0) {
        None => Err(Failure::Rejected),
        Some(p) => match ts_value(trim(strip_trailing(trim(v.subrange(0, p)), 0x2C))) {
            Err(f) => Err(f),
            Ok(ms) => match parse_hex(trim(v.subrange(p + 8, v.len() as int)), 0xFFFF_FFFF_FFFF_FFFF) {
                None => Err(Failure::Rejected),
                Some(pos) => Ok((ms, pos as u64)),
            },
        },
    }
}


/// The decimal digits of `n`.
pub open spec fn decimal_chars(n: nat) -> Seq<char>
    decreases n,
{
    if n < 10 {
        seq![hex_char(n as u8)]
    } else {
        decimal_chars(n / 10).push(hex_char((n % 10) as u8))
    }
}

/// Writes `n` in decimal.
pub fn decimal_string(n: usize) -> (s: String)
    ensures
        s@ == decimal_chars(n as nat),
    decreases n,
{
    if n < 10 {
        String::from_str(hex_digit(n as u8))
    } else {
        let s = decimal_string(n / 10).concat(hex_digit((n % 10) as u8));
        assert(s@ =~= decimal_chars(n as nat));
        s
    }
}

/// Where a malformed line stands, as the end of its message.
pub open spec fn line_location(path: Seq<char>, line_number: nat) -> Seq<char> {
    " in VobSub index file `"@ + path + "` on line "@ + decimal_chars(line_number)
}

/// `e` rejects line `line_number` of the index file at `path`, naming both at the end of its
/// message.
pub open spec fn is_line_error(e: MuxError, spec: Seq<char>, path: Seq<char>, line_number: nat) -> bool {
    e matches MuxError::UnsupportedTrackImport { spec: s, message: m } && s@ == spec
        && m@.len() >= line_location(path, line_number).len()
        && m@.skip(m@.len() - line_location(path, line_number).len()) == line_location(path, line_number)
}

/// The rejection of a whole index file: its path, then what is wrong with it.
fn vobsub_file_error(spec: &str, path: &str, problem: &str) -> (e: MuxError)
    ensures
        is_import_error_with(e, spec@, "VobSub index file `"@ + path@ + "` "@ + problem@),
{
    let text = String::from_str("VobSub index file `").concat(path).concat("` ").concat(problem);
    MuxError::UnsupportedTrackImport { spec: spec.to_owned(), message: text }
}

/// The rejection of a malformed index line: the message, then the file and the line.
fn vobsub_line_error(spec: &str, path: &str, line_number: usize, message: &str) -> (e: MuxError)
    ensures
        is_import_error_with(e, spec@, message@ + line_location(path@, line_number as nat)),
        is_line_error(e, spec@, path@, line_number as nat),
{
    let text = String::from_str(message).concat(" in VobSub index file `").concat(path).concat("` on line ")
        .concat(decimal_string(line_number).as_str());
    let ghost loc = line_location(path@, line_number as nat);
    assert(text@ =~= message@ + loc);
    assert((message@ + loc).skip(message@.len() as int) =~= loc);
    MuxError::UnsupportedTrackImport { spec: spec.to_owned(), message: text }
}

/// Parses `WIDTHxHEIGHT`.
pub fn parse_vobsub_size(value: &[u8], spec: &str, path: &str, line_number: usize) -> (r: Result<(u16, u16), MuxError>)
    ensures
        r matches Err(e) ==> (e is UnsupportedTrackImport ==> is_line_error(e, spec@, path@, line_number as nat)),
        match size_fields(value@) {
            Some((w, h)) => r matches Ok((a, b)) && a == w && b == h,
            None => r matches Err(e) && fails_as(e, Failure::Rejected, spec@),
        },
{
    let k = match find_byte_from(value, 0x78, 0) {
        Some(k) => k,
        None => return Err(vobsub_line_error(spec, path, line_number, "expected `size: WIDTHxHEIGHT`")),
    };
    proof { lemma_find_from_found(value@, 0x78, 0); }
    let n = value.len();
    assert(k < n);
    let (a, b) = trim_range(value, 0, k);
    let wfield: &[u8] = &value[a..b];
    assert(wfield@ == trim(value@.subrange(0, k as int)));
    let width = match parse_unsigned_decimal(wfield, 0xFFFF) {
        Some(v) => v as u16,
        None => return Err(vobsub_line_error(spec, path, line_number, "invalid VobSub width")),
    };
    let (c, d) = trim_range(value, k + 1, value.len());
    let hfield: &[u8] = &value[c..d];
    assert(hfield@ == trim(value@.subrange(k + 1, value@.len() as int)));
    let height = match parse_unsigned_decimal(hfield, 0xFFFF) {
        Some(v) => v as u16,
        None => return Err(vobsub_line_error(spec, path, line_number, "invalid VobSub height")),
    };
    Ok((width, height))
}

/// The Y'CbCr palette entry of an RGB color.
fn palette_entry(x: u32) -> (r: [u8; 4])
    ensures
        r@ == palette_color(x),
{
    let r = (x / 0x10000) % 256;
    let g = (x / 0x100) % 256;
    let b = x % 256;
    assert(x as int / 0x10000 == (x / 0x10000) as int);
    let y = (66 * r + 129 * g + 25 * b + 128 + 4096) / 256;
    let cr = (112 * r + 128 + 32768 - 94 * g - 18 * b) / 256;
    let cb = (112 * b + 128 + 32768 - 38 * r - 74 * g) / 256;
    let out: [u8; 4] = [0, y as u8, cr as u8, cb as u8];
    assert(out@ =~= palette_color(x));
    out
}

/// Parses the sixteen comma-separated hexadecimal RGB colors of a palette into Y'CbCr entries.
pub fn parse_vobsub_palette(value: &[u8], spec: &str, path: &str, line_number: usize) -> (r: Result<Vec<[u8; 4]>, MuxError>)
    ensures
        r matches Err(e) ==> (e is UnsupportedTrackImport ==> is_line_error(e, spec@, path@, line_number as nat)),
        match palette_fields(value@) {
            Some(p) => r matches Ok(v) && v@.len() == 16 && forall|i: int| 0 <= i < 16 ==> #[trigger] v@[i]@ == p[i],
            None => r matches Err(e) && fails_as(e, Failure::Rejected, spec@),
        },
{
    let mut values: Vec<u32> = Vec::new();
    let mut i: usize = 0;
    let n = value.len();
    loop
        invariant_except_break
            i <= value@.len(),
            palette_values_from(value@, 0, Seq::empty()) == palette_values_from(value@, i as int, values@),
        invariant
            n == value@.len(),
        ensures
            palette_values_from(value@, 0, Seq::empty()) == Some(values@),
        decreases value@.len() + 1 - i,
    {
        match find_byte_from(value, 0x2C, i) {
            None => {
                let (a, b) = trim_range(value, i, value.len());
                let field: &[u8] = &value[a..b];
                assert(field@ == trim(value@.subrange(i as int, value@.len() as int)));
                match parse_hex_number(field, 0xFFFF_FFFF) {
                    Some(x) => {
                        let ghost before = values@;
                        assert(find_from(value@, 0x2C, i as int) is None);
                        assert(parse_hex(trim(value@.subrange(i as int, value@.len() as int)), 0xFFFF_FFFF) == Some(x as int));
                        assert(palette_values_from(value@, i as int, before) == Some(before.push(x as u32)));
                        values.push(x as u32);
                        break;
                    },
                    None => return Err(vobsub_line_error(spec, path, line_number, "invalid palette entry")),
                }
            },
            Some(k) => {
                proof { lemma_find_from_found(value@, 0x2C, i as int); }
                let (a, b) = trim_range(value, i, k);
                let field: &[u8] = &value[a..b];
                assert(field@ == trim(value@.subrange(i as int, k as int)));
                assert(k < n);
                match parse_hex_number(field, 0xFFFF_FFFF) {
                    Some(x) => {
                        let ghost before = values@;
                        assert(find_from(value@, 0x2C, i as int) == Some(k as int));
                        assert(parse_hex(trim(value@.subrange(i as int, k as int)), 0xFFFF_FFFF) == Some(x as int));
                        assert(palette_values_from(value@, i as int, before) == palette_values_from(value@, k + 1, before.push(x as u32)));
                        values.push(x as u32);
                        i = k + 1;
                    },
                    None => return Err(vobsub_line_error(spec, path, line_number, "invalid palette entry")),
                }
            },
        }
    }
    if values.len() != 16 {
        return Err(vobsub_line_error(spec, path, line_number, "expected 16 comma-separated palette colors"));
    }
    let mut palette: Vec<[u8; 4]> = Vec::new();
    let mut j: usize = 0;
    while j < 16
        invariant
            values@.len() == 16,
            j <= 16,
            palette@.len() == j,
            forall|m: int| 0 <= m < j ==> #[trigger] palette@[m]@ == palette_color(values@[m]),
        decreases 16 - j,
    {
        palette.push(palette_entry(values[j]));
        j = j + 1;
    }
    Ok(palette)
}

/// Parses `xx, index: N`: the two-letter language and a track index below 32.
pub fn parse_vobsub_id(value: &[u8], spec: &str, path: &str, line_number: usize) -> (r: Result<(u8, [u8; 3]), MuxError>)
    ensures
        r matches Err(e) ==> (e is UnsupportedTrackImport ==> is_line_error(e, spec@, path@, line_number as nat)),
        match id_fields(value@) {
            Some((i, lang)) => r matches Ok((a, b)) && a == i && b@ == lang,
            None => r matches Err(e) && fails_as(e, Failure::Rejected, spec@),
        },
        r matches Ok((a, b)) ==> a < 32,
{
    let lowered_value = ascii_lowercase(value);
    if lowered_value.len() < 2 {
        return Err(vobsub_line_error(spec, path, line_number, "expected a two-letter VobSub language code"));
    }
    let tag: [u8; 6] = [0x69, 0x6E, 0x64, 0x65, 0x78, 0x3A];
    let tag_slice: &[u8] = &tag;
    assert(tag_slice@ =~= index_tag());
    let p = match find_pattern(lowered_value.as_slice(), tag_slice) {
        Some(p) => p,
        None => return Err(vobsub_line_error(spec, path, line_number, "expected `id: xx, index: N`")),
    };
    let ghost l = lowered(value@);
    assert(find_pat_from(l, index_tag(), 0) == Some(p as int));
    let (a, b) = trim_range(lowered_value.as_slice(), p + 6, lowered_value.len());
    let field: &[u8] = &lowered_value.as_slice()[a..b];
    assert(field@ == trim(l.subrange(p + 6, l.len() as int)));
    let index = match parse_unsigned_decimal(field, 255) {
        Some(v) => v as u8,
        None => return Err(vobsub_line_error(spec, path, line_number, "invalid VobSub language index")),
    };
    if index >= 32 {
        return Err(vobsub_line_error(spec, path, line_number, "VobSub language indices must stay below 32"));
    }
    let code: [u8; 2] = [lowered_value[0], lowered_value[1]];
    assert(code@ =~= lowered(value@).subrange(0, 2));
    Ok((index, vobsub_language_from_two_letter(code)))
}


/// The colons splitting timestamp digits into exactly four fields.
fn ts_colons(d: &[u8]) -> (r: Option<(usize, usize, usize)>)
    ensures
        match ts_parts(d@) {
            Some((x, y, z, w)) => r matches Some((c1, c2, c3)) && c1 < c2 < c3 < d@.len() && x == d@.subrange(0, c1 as int)
                && y == d@.subrange(c1 + 1, c2 as int) && z == d@.subrange(c2 + 1, c3 as int)
                && w == d@.subrange(c3 + 1, d@.len() as int),
            None => r is None,
        },
{
    let dn = d.len();
    let c1 = match find_byte_from(d, 0x3A, 0) { Some(k) => k, None => return None };
    assert(c1 < dn);
    let c2 = match find_byte_from(d, 0x3A, c1 + 1) { Some(k) => k, None => return None };
    assert(c2 < dn);
    let c3 = match find_byte_from(d, 0x3A, c2 + 1) { Some(k) => k, None => return None };
    assert(c3 < dn);
    if find_byte_from(d, 0x3A, c3 + 1).is_some() {
        return None;
    }
    Some((c1, c2, c3))
}

/// Combines timestamp fields into signed milliseconds.
fn ts_total(sign: i64, hours: i64, minutes: i64, seconds: i64, millis: i64) -> (r: Result<i64, MuxError>)
    requires
        sign == 1 || sign == -1,
        !ts_combine_overflows(sign as int, hours as int, minutes as int, seconds as int, millis as int),
    ensures
        match ts_combine(sign as int, hours as int, minutes as int, seconds as int, millis as int) {
            Ok(v) => r == Ok::<i64, MuxError>(v as i64),
            Err(f) => r matches Err(e) && f == Failure::Overflow && e is LayoutOverflow,
        },
        r matches Ok(x) ==> ts_combine(sign as int, hours as int, minutes as int, seconds as int, millis as int) == Ok::<int, Failure>(x as int),
{
    let a1 = match hours.checked_mul(3_600_000) { Some(v) => v, None => return Err(overflow("VobSub timestamp")) };
    let a2 = match a1.checked_add(minutes * 60_000) { Some(v) => v, None => return Err(overflow("VobSub timestamp")) };
    let a3 = match a2.checked_add(seconds * 1000) { Some(v) => v, None => return Err(overflow("VobSub timestamp")) };
    let total = match a3.checked_add(millis) { Some(v) => v, None => return Err(overflow("VobSub timestamp")) };
    Ok(total * sign)
}

/// Parses an `[+-]HH:MM:SS:MS` timestamp into milliseconds.
#[verifier::rlimit(40)]
pub fn parse_vobsub_timestamp_ms(value: &[u8], spec: &str, path: &str, line_number: usize) -> (r: Result<i64, MuxError>)
    requires
        !ts_overflows_unchecked(value@),
    ensures
        r matches Err(e) ==> (e is UnsupportedTrackImport ==> is_line_error(e, spec@, path@, line_number as nat)),
        match ts_value(value@) {
            Ok(ms) => r == Ok::<i64, MuxError>(ms as i64),
            Err(f) => r matches Err(e) && fails_as(e, f, spec@),
        },
        r matches Ok(x) ==> ts_value(value@) == Ok::<int, Failure>(x as int),
{
    let n = value.len();
    let (a, b) = trim_range(value, 0, n);
    assert(value@.subrange(0, n as int) =~= value@);
    let (sign, ds): (i64, usize) = if a < b && value[a] == 0x2D {
        (-1, a + 1)
    } else if a < b && value[a] == 0x2B {
        (1, a + 1)
    } else {
        (1, a)
    };
    let d: &[u8] = &value[ds..b];
    assert(d@ =~= ts_sign_digits(value@).1);
    assert(sign as int == ts_sign_digits(value@).0);
    let (c1, c2, c3) = match ts_colons(d) {
        Some(c) => c,
        None => return Err(vobsub_line_error(spec, path, line_number, "expected one `HH:MM:SS:MS` timestamp value")),
    };
    let dn = d.len();
    let hours = match parse_i64_decimal(&d[0..c1]) { Some(v) => v, None => return Err(vobsub_line_error(spec, path, line_number, "invalid hour field")) };
    let minutes = match parse_i64_decimal(&d[c1 + 1..c2]) { Some(v) => v, None => return Err(vobsub_line_error(spec, path, line_number, "invalid minute field")) };
    let seconds = match parse_i64_decimal(&d[c2 + 1..c3]) { Some(v) => v, None => return Err(vobsub_line_error(spec, path, line_number, "invalid second field")) };
    let millis = match parse_i64_decimal(&d[c3 + 1..dn]) { Some(v) => v, None => return Err(vobsub_line_error(spec, path, line_number, "invalid millisecond field")) };
    assert(ts_numbers(value@) == Some((sign as int, hours as int, minutes as int, seconds as int, millis as int)));
    ts_total(sign, hours, minutes, seconds, millis)
}

/// Whether a timestamp value is one whose unchecked arithmetic overflows (see
/// [`ts_overflows_unchecked`]); such a value must not reach [`parse_vobsub_timestamp_ms`].
#[verifier::rlimit(40)]
pub fn vobsub_timestamp_overflows(value: &[u8]) -> (r: bool)
    ensures
        r == ts_overflows_unchecked(value@),
{
    let n = value.len();
    let (a, b) = trim_range(value, 0, n);
    assert(value@.subrange(0, n as int) =~= value@);
    let (sign, ds): (i128, usize) = if a < b && value[a] == 0x2D {
        (-1, a + 1)
    } else if a < b && value[a] == 0x2B {
        (1, a + 1)
    } else {
        (1, a)
    };
    let d: &[u8] = &value[ds..b];
    assert(d@ =~= ts_sign_digits(value@).1);
    let (c1, c2, c3) = match ts_colons(d) {
        Some(c) => c,
        None => return false,
    };
    let dn = d.len();
    let h = match parse_i64_decimal(&d[0..c1]) { Some(v) => v as i128, None => return false };
    let m = match parse_i64_decimal(&d[c1 + 1..c2]) { Some(v) => v as i128, None => return false };
    let sec = match parse_i64_decimal(&d[c2 + 1..c3]) { Some(v) => v as i128, None => return false };
    let ms = match parse_i64_decimal(&d[c3 + 1..dn]) { Some(v) => v as i128, None => return false };
    assert(ts_numbers(value@) == Some((sign as int, h as int, m as int, sec as int, ms as int)));
    let lo: i128 = -0x8000_0000_0000_0000;
    let hi: i128 = 0x7FFF_FFFF_FFFF_FFFF;
    let a1 = h * 3_600_000;
    if !(lo <= a1 && a1 <= hi) {
        return false;
    }
    let m1 = m * 60_000;
    if !(lo <= m1 && m1 <= hi) {
        return true;
    }
    if !(lo <= a1 + m1 && a1 + m1 <= hi) {
        return false;
    }
    let s1 = sec * 1000;
    if !(lo <= s1 && s1 <= hi) {
        return true;
    }
    let c = a1 + m1 + s1;
    lo <= c && c <= hi && lo <= c + ms && c + ms <= hi && sign == -1 && c + ms == lo
}

/// Whether the timestamp text of a `timestamp:` value overflows unchecked arithmetic.
fn timestamp_entry_head_overflows(value: &[u8]) -> (r: bool)
    ensures
        r == (ts_entry_head(value@) matches Some(h) && ts_overflows_unchecked(h)),
{
    let lowered_value = ascii_lowercase(value);
    let tag: [u8; 8] = [0x66, 0x69, 0x6C, 0x65, 0x70, 0x6F, 0x73, 0x3A];
    let tag_slice: &[u8] = &tag;
    assert(tag_slice@ =~= filepos_tag());
    let p = match find_pattern(lowered_value.as_slice(), tag_slice) {
        Some(p) => p,
        None => return false,
    };
    let n = value.len();
    assert(p + 8 <= n);
    let (a, b) = trim_range(value, 0, p);
    let mut b2 = b;
    while b2 > a && value[b2 - 1] == 0x2C
        invariant
            a <= b2 <= b <= p <= n,
            n == value@.len(),
            strip_trailing(value@.subrange(a as int, b as int), 0x2C) == strip_trailing(value@.subrange(a as int, b2 as int), 0x2C),
        decreases b2,
    {
        assert(value@.subrange(a as int, b2 as int).drop_last() =~= value@.subrange(a as int, b2 - 1));
        b2 = b2 - 1;
    }
    let (a3, b3) = trim_range(value, a, b2);
    let head: &[u8] = &value[a3..b3];
    assert(head@ == trim(strip_trailing(trim(value@.subrange(0, p as int)), 0x2C)));
    vobsub_timestamp_overflows(head)
}

/// Parses `HH:MM:SS:MS, filepos: XXXXXXXX` into the start time and the hexadecimal file
/// position of a subtitle.
pub fn parse_vobsub_timestamp_entry(value: &[u8], spec: &str, path: &str, line_number: usize) -> (r: Result<(i64, u64), MuxError>)
    requires
        ts_entry_head(value@) matches Some(h) ==> !ts_overflows_unchecked(h),
    ensures
        r matches Err(e) ==> (e is UnsupportedTrackImport ==> is_line_error(e, spec@, path@, line_number as nat)),
        match ts_entry_fields(value@) {
            Ok((ms, pos)) => r == Ok::<(i64, u64), MuxError>((ms as i64, pos)),
            Err(f) => r matches Err(e) && fails_as(e, f, spec@),
        },
        r matches Ok((a, b)) ==> ts_entry_fields(value@) == Ok::<(int, u64), Failure>((a as int, b)),
{
    let lowered_value = ascii_lowercase(value);
    let tag: [u8; 8] = [0x66, 0x69, 0x6C, 0x65, 0x70, 0x6F, 0x73, 0x3A];
    let tag_slice: &[u8] = &tag;
    assert(tag_slice@ =~= filepos_tag());
    let p = match find_pattern(lowered_value.as_slice(), tag_slice) {
        Some(p) => p,
        None => return Err(vobsub_line_error(spec, path, line_number, "expected `timestamp: HH:MM:SS:MS, filepos:XXXXXXXX`")),
    };
    let n = value.len();
    assert(p + 8 <= n);
    let (a, b) = trim_range(value, 0, p);
    let mut b2 = b;
    while b2 > a && value[b2 - 1] == 0x2C
        invariant
            a <= b2 <= b <= p <= n,
            n == value@.len(),
            strip_trailing(value@.subrange(a as int, b as int), 0x2C) == strip_trailing(value@.subrange(a as int, b2 as int), 0x2C),
        decreases b2,
    {
        assert(value@.subrange(a as int, b2 as int).drop_last() =~= value@.subrange(a as int, b2 - 1));
        b2 = b2 - 1;
    }
    let (a3, b3) = trim_range(value, a, b2);
    let head: &[u8] = &value[a3..b3];
    assert(head@ == trim(strip_trailing(trim(value@.subrange(0, p as int)), 0x2C)));
    let start = parse_vobsub_timestamp_ms(head, spec, path, line_number)?;
    let (c, d) = trim_range(value, p + 8, n);
    let field: &[u8] = &value[c..d];
    let filepos = match parse_hex_number(field, 0xFFFF_FFFF_FFFF_FFFF) {
        Some(v) => v,
        None => return Err(vobsub_line_error(spec, path, line_number, "invalid VobSub filepos value")),
    };
    Ok((start, filepos))
}


// ---------------------------------------------------------------------------------------------
// Index builder
// ---------------------------------------------------------------------------------------------

/// Where a subtitle starts (90 kHz) and the file position of its first sector.
#[derive(Clone, Copy, Debug, PartialEq, Eq)]
pub struct VobSubPosition {
    pub start_pts: u64,
    pub filepos: u64,
}

/// A declared subtitle track while the index is read: its language, its subtitles so far,
/// and the delay its `delay:` lines accumulated.
pub struct VobSubTrackSlot {
    pub language: [u8; 3],
    pub positions: Vec<VobSubPosition>,
    pub delay_ms: i64,
}

/// A subtitle track of a finished index.
pub struct VobSubTrack {
    pub index: u8,
    pub language: [u8; 3],
    pub positions: Vec<VobSubPosition>,
}

/// A finished VobSub index: picture size, Y'CbCr palette, and the tracks with subtitles.
pub struct VobSubIndex {
    pub width: u16,
    pub height: u16,
    pub palette: Vec<[u8; 4]>,
    pub tracks: Vec<VobSubTrack>,
}

/// The state of an index file being read line by line; track slots are indexed by track
/// number (below 32).
pub struct VobSubIndexBuilder {
    pub width: Option<u16>,
    pub height: Option<u16>,
    pub palette: Option<Vec<[u8; 4]>>,
    pub slots: Vec<Option<VobSubTrackSlot>>,
    pub current_track: Option<u8>,
}

/// A track slot as values.
pub struct SlotView {
    pub language: Seq<u8>,
    pub positions: Seq<VobSubPosition>,
    pub delay_ms: int,
}

/// An index builder as values.
pub struct IndexView {
    pub width: Option<u16>,
    pub height: Option<u16>,
    pub palette: Option<Seq<Seq<u8>>>,
    pub slots: Seq<Option<SlotView>>,
    pub current: Option<u8>,
}

/// The value of a slot.
pub open spec fn slot_view(s: Option<VobSubTrackSlot>) -> Option<SlotView> {
    match s {
        Some(t) => Some(SlotView { language: t.language@, positions: t.positions@, delay_ms: t.delay_ms as int }),
        None => None,
    }
}

/// The values of palette entries.
pub open spec fn palette_view(p: Seq<[u8; 4]>) -> Seq<Seq<u8>> {
    p.map_values(|c: [u8; 4]| c@)
}

impl View for VobSubIndexBuilder {
    type V = IndexView;

    open spec fn view(&self) -> IndexView {
        IndexView {
            width: self.width,
            height: self.height,
            palette: match self.palette {
                Some(p) => Some(palette_view(p@)),
                None => None,
            },
            slots: self.slots@.map_values(|s: Option<VobSubTrackSlot>| slot_view(s)),
            current: self.current_track,
        }
    }
}

/// Thirty-two slots, and the current track, if any, has one.
pub open spec fn index_wf(st: IndexView) -> bool {
    &&& st.slots.len() == 32
    &&& st.current matches Some(i) ==> i < 32 && st.slots[i as int] is Some
    &&& forall|i: int| 0 <= i < 32 ==> ((#[trigger] st.slots[i]) matches Some(t) ==> fits_i64(t.delay_ms))
}

/// `VobSub index file, v` in ASCII.
pub open spec fn index_header() -> Seq<u8> {
    seq![0x56u8, 0x6Fu8, 0x62u8, 0x53u8, 0x75u8, 0x62u8, 0x20u8, 0x69u8, 0x6Eu8, 0x64u8, 0x65u8, 0x78u8, 0x20u8,
        0x66u8, 0x69u8, 0x6Cu8, 0x65u8, 0x2Cu8, 0x20u8, 0x76u8]
}

/// The lower-cased key and the value of a `key: value` line; nothing for blank lines, comments,
/// lines without a colon, and empty values.
pub open spec fn line_entry(line: Seq<u8>) -> Option<(Seq<u8>, Seq<u8>)> {
    let l = trim(line);
    if l.len() == 0 || l[0] == 0x23 {
        None
    } else {
        match find_from(l, 0x3A, 0) {
            None => None,
            Some(k) => {
                let v = trim(l.subrange(k + 1, l.len() as int));
                if v.len() == 0 { None } else { Some((lowered(trim(l.subrange(0, k))), v)) }
            },
        }
    }
}

/// The index keys this reader acts on.
pub open spec fn key_size() -> Seq<u8> { seq![0x73u8, 0x69u8, 0x7Au8, 0x65u8] }
pub open spec fn key_palette() -> Seq<u8> { seq![0x70u8, 0x61u8, 0x6Cu8, 0x65u8, 0x74u8, 0x74u8, 0x65u8] }
pub open spec fn key_id() -> Seq<u8> { seq![0x69u8, 0x64u8] }
pub open spec fn key_delay() -> Seq<u8> { seq![0x64u8, 0x65u8, 0x6Cu8, 0x61u8, 0x79u8] }
pub open spec fn key_timestamp() -> Seq<u8> { seq![0x74u8, 0x69u8, 0x6Du8, 0x65u8, 0x73u8, 0x74u8, 0x61u8, 0x6Du8, 0x70u8] }

/// The start time and delay a subtitle of `slot` at `start` ms gets: the accumulated delay is
/// added, and under a negative delay a start before the previous subtitle is moved up to it,
/// the difference joining the delay.
pub open spec fn adjusted_start(slot: SlotView, start: int) -> Result<(int, int), Failure> {
    let adj = start + slot.delay_ms;
    if !fits_i64(adj) {
        Err(Failure::Overflow)
    } else if slot.delay_ms < 0 && slot.positions.len() > 0 && adj < slot.positions.last().start_pts / 90 {
        let prev = slot.positions.last().start_pts / 90;
        if !fits_i64(slot.delay_ms + (prev - adj)) { Err(Failure::Overflow) } else { Ok((prev as int, slot.delay_ms + (prev - adj))) }
    } else {
        Ok((adj, slot.delay_ms))
    }
}

/// Whether moving a start up to the previous subtitle would overflow unchecked.
pub open spec fn correction_overflows(slot: SlotView, start: int) -> bool {
    let adj = start + slot.delay_ms;
    fits_i64(adj) && slot.delay_ms < 0 && slot.positions.len() > 0 && adj < slot.positions.last().start_pts / 90
        && !fits_i64(slot.positions.last().start_pts / 90 - adj)
}

/// How one line of an index file changes the reader's state; the first line must carry the
/// `VobSub index file, v` header.
pub open spec fn index_step(st: IndexView, line: Seq<u8>, n: int) -> Result<IndexView, Failure> {
    if n == 1 {
        if find_pat_from(trim(line), index_header(), 0) is Some { Ok(st) } else { Err(Failure::Rejected) }
    } else {
        match line_entry(line) {
            None => Ok(st),
            Some((key, v)) => if key == key_size() {
                match size_fields(v) {
                    Some((w, h)) => Ok(IndexView { width: Some(w), height: Some(h), ..st }),
                    None => Err(Failure::Rejected),
                }
            } else if key == key_palette() {
                match palette_fields(v) {
                    Some(p) => Ok(IndexView { palette: Some(p), ..st }),
                    None => Err(Failure::Rejected),
                }
            } else if key == key_id() {
                match id_fields(v) {
                    Some((i, lang)) => Ok(IndexView {
                        slots: st.slots.update(i as int, Some(SlotView { language: lang, positions: Seq::empty(), delay_ms: 0 })),
                        current: Some(i),
                        ..st
                    }),
                    None => Err(Failure::Rejected),
                }
            } else if key == key_delay() {
                match st.current {
                    None => Ok(st),
                    Some(i) => match ts_value(v) {
                        Err(f) => Err(f),
                        Ok(d) => {
                            let slot = st.slots[i as int].unwrap();
                            if !fits_i64(slot.delay_ms + d) {
                                Err(Failure::Overflow)
                            } else {
                                Ok(IndexView { slots: st.slots.update(i as int, Some(SlotView { delay_ms: slot.delay_ms + d, ..slot })), ..st })
                            }
                        },
                    },
                }
            } else if key == key_timestamp() {
                match st.current {
                    None => Ok(st),
                    Some(i) => match ts_entry_fields(v) {
                        Err(f) => Err(f),
                        Ok((start, filepos)) => {
                            let slot = st.slots[i as int].unwrap();
                            match adjusted_start(slot, start) {
                                Err(f) => Err(f),
                                Ok((adj, delay)) => if adj < 0 {
                                    Err(Failure::Rejected)
                                } else if adj * 90 > u64::MAX {
                                    Err(Failure::Overflow)
                                } else {
                                    Ok(IndexView {
                                        slots: st.slots.update(i as int, Some(SlotView {
                                            positions: slot.positions.push(VobSubPosition { start_pts: (adj * 90) as u64, filepos }),
                                            delay_ms: delay,
                                            ..slot
                                        })),
                                        ..st
                                    })
                                },
                            }
                        },
                    },
                }
            } else {
                Ok(st)
            },
        }
    }
}

/// Whether reading line `n` would overflow unchecked arithmetic.
pub open spec fn index_step_overflows(st: IndexView, line: Seq<u8>, n: int) -> bool {
    n != 1 && match line_entry(line) {
        None => false,
        Some((key, v)) => if key == key_delay() {
            st.current is Some && ts_overflows_unchecked(v)
        } else if key == key_timestamp() {
            match st.current {
                None => false,
                Some(i) => (ts_entry_head(v) matches Some(h) && ts_overflows_unchecked(h))
                    || (ts_entry_fields(v) matches Ok((start, _)) && correction_overflows(st.slots[i as int].unwrap(), start)),
            }
        } else {
            false
        },
    }
}


impl VobSubIndexBuilder {
    /// A reader that has seen no line yet.
    pub fn new() -> (r: Self)
        ensures
            index_wf(r@),
            r@ == empty_index(),
    {
        let mut slots: Vec<Option<VobSubTrackSlot>> = Vec::new();
        let mut i: usize = 0;
        while i < 32
            invariant
                i <= 32,
                slots@.len() == i,
                forall|j: int| 0 <= j < i ==> #[trigger] slots@[j] is None,
            decreases 32 - i,
        {
            slots.push(None);
            i = i + 1;
        }
        let r = VobSubIndexBuilder { width: None, height: None, palette: None, slots, current_track: None };
        assert(r@.slots =~= empty_index().slots);
        r
    }

    /// Takes the slot of track `i` out, leaving it empty.
    fn take_slot(&mut self, i: u8) -> (r: VobSubTrackSlot)
        requires
            index_wf(old(self)@),
            i < 32,
            old(self)@.slots[i as int] is Some,
        ensures
            slot_view(Some(r)) == old(self)@.slots[i as int],
            final(self)@ == (IndexView { slots: old(self)@.slots.update(i as int, None), ..old(self)@ }),
    {
        let s = self.slots.remove(i as usize);
        self.slots.insert(i as usize, None);
        proof {
            assert(self@.slots =~= old(self)@.slots.update(i as int, None));
        }
        match s {
            Some(t) => t,
            None => {
                assert(false);
                VobSubTrackSlot { language: [0, 0, 0], positions: Vec::new(), delay_ms: 0 }
            },
        }
    }

    /// Puts `slot` into the slot of track `i`.
    fn put_slot(&mut self, i: u8, slot: VobSubTrackSlot)
        requires
            old(self)@.slots.len() == 32,
            i < 32,
        ensures
            final(self)@ == (IndexView { slots: old(self)@.slots.update(i as int, slot_view(Some(slot))), ..old(self)@ }),
    {
        let ghost v = slot_view(Some(slot));
        self.slots.set(i as usize, Some(slot));
        proof {
            assert(self@.slots =~= old(self)@.slots.update(i as int, v));
        }
    }

    /// Applies a `delay:` value to the current track.
    fn add_delay(&mut self, value: &[u8], spec: &str, path: &str, line_number: usize) -> (r: Result<(), MuxError>)
        requires
            index_wf(old(self)@),
            old(self)@.current is Some ==> !ts_overflows_unchecked(value@),
        ensures
            match old(self)@.current {
                None => r is Ok && final(self)@ == old(self)@,
                Some(i) => match ts_value(value@) {
                    Err(f) => r matches Err(e) && fails_as(e, f, spec@),
                    Ok(d) => {
                        let slot = old(self)@.slots[i as int].unwrap();
                        if !fits_i64(slot.delay_ms + d) {
                            r matches Err(e) && fails_as(e, Failure::Overflow, spec@)
                        } else {
                            r is Ok && final(self)@ == (IndexView {
                                slots: old(self)@.slots.update(i as int, Some(SlotView { delay_ms: slot.delay_ms + d, ..slot })),
                                ..old(self)@
                            })
                        }
                    },
                },
            },
            r is Ok ==> index_wf(final(self)@),
    {
        let i = match self.current_track {
            None => return Ok(()),
            Some(i) => i,
        };
        let delay = parse_vobsub_timestamp_ms(value, spec, path, line_number)?;
        let mut slot = self.take_slot(i);
        let sum = match slot.delay_ms.checked_add(delay) {
            Some(v) => v,
            None => return Err(overflow("VobSub delay accumulation")),
        };
        slot.delay_ms = sum;
        self.put_slot(i, slot);
        proof {
            assert(self@.slots =~= old(self)@.slots.update(i as int, self@.slots[i as int]));
        }
        Ok(())
    }

    /// Records a `timestamp:` value as the next subtitle of the current track.
    #[verifier::rlimit(40)]
    fn add_timestamp(&mut self, value: &[u8], spec: &str, path: &str, line_number: usize) -> (r: Result<(), MuxError>)
        requires
            index_wf(old(self)@),
            old(self)@.current matches Some(i) ==> !(ts_entry_head(value@) matches Some(h) && ts_overflows_unchecked(h))
                && !(ts_entry_fields(value@) matches Ok((start, _)) && correction_overflows(old(self)@.slots[i as int].unwrap(), start)),
        ensures
            match old(self)@.current {
                None => r is Ok && final(self)@ == old(self)@,
                Some(i) => match ts_entry_fields(value@) {
                    Err(f) => r matches Err(e) && fails_as(e, f, spec@),
                    Ok((start, filepos)) => {
                        let slot = old(self)@.slots[i as int].unwrap();
                        match adjusted_start(slot, start) {
                            Err(f) => r matches Err(e) && fails_as(e, f, spec@),
                            Ok((adj, delay)) => if adj < 0 {
                                r matches Err(e) && fails_as(e, Failure::Rejected, spec@)
                            } else if adj * 90 > u64::MAX {
                                r matches Err(e) && fails_as(e, Failure::Overflow, spec@)
                            } else {
                                r is Ok && final(self)@ == (IndexView {
                                    slots: old(self)@.slots.update(i as int, Some(SlotView {
                                        positions: slot.positions.push(VobSubPosition { start_pts: (adj * 90) as u64, filepos }),
                                        delay_ms: delay,
                                        ..slot
                                    })),
                                    ..old(self)@
                                })
                            },
                        }
                    },
                },
            },
            r is Ok ==> index_wf(final(self)@),
    {
        let i = match self.current_track {
            None => return Ok(()),
            Some(i) => i,
        };
        let (start_ms, filepos) = parse_vobsub_timestamp_entry(value, spec, path, line_number)?;
        let mut slot = self.take_slot(i);
        let delay_ms = slot.delay_ms;
        let mut adjusted = match start_ms.checked_add(delay_ms) {
            Some(v) => v,
            None => return Err(overflow("VobSub timestamp adjustment")),
        };
        if delay_ms < 0 && slot.positions.len() > 0 {
            let last = slot.positions[slot.positions.len() - 1];
            let previous_ms = (last.start_pts / 90) as i64;
            if adjusted < previous_ms {
                let correction = previous_ms - adjusted;
                let corrected = match slot.delay_ms.checked_add(correction) {
                    Some(v) => v,
                    None => return Err(overflow("VobSub delay correction")),
                };
                slot.delay_ms = corrected;
                adjusted = previous_ms;
            }
        }
        if adjusted < 0 {
            let message = String::from_str("VobSub timestamp on line ").concat(decimal_string(line_number).as_str())
                .concat(" resolved to a negative media time");
            return Err(MuxError::UnsupportedTrackImport { spec: spec.to_owned(), message });
        }
        if adjusted as u64 > u64::MAX / 90 {
            return Err(overflow("VobSub timestamp"));
        }
        let start_pts = adjusted as u64 * 90;
        slot.positions.push(VobSubPosition { start_pts, filepos });
        self.put_slot(i, slot);
        proof {
            assert(self@.slots =~= old(self)@.slots.update(i as int, self@.slots[i as int]));
        }
        Ok(())
    }
}


/// The reader's state before the first line.
pub open spec fn empty_index() -> IndexView {
    IndexView { width: None, height: None, palette: None, slots: Seq::new(32, |i: int| None::<SlotView>), current: None }
}

/// The declared tracks with at least one subtitle, from slot `i` on, in track order.
pub open spec fn index_tracks(slots: Seq<Option<SlotView>>, i: int) -> Seq<(u8, SlotView)>
    decreases slots.len() - i,
{
    if i < 0 || i >= slots.len() {
        Seq::empty()
    } else {
        let rest = index_tracks(slots, i + 1);
        match slots[i] {
            Some(t) => if t.positions.len() > 0 { seq![(i as u8, t)] + rest } else { rest },
            None => rest,
        }
    }
}

proof fn lemma_index_tracks_ordered(slots: Seq<Option<SlotView>>, i: int)
    requires
        0 <= i,
        slots.len() <= 256,
    ensures
        forall|k: int| 0 <= k < index_tracks(slots, i).len() ==> i <= (#[trigger] index_tracks(slots, i)[k]).0
            && index_tracks(slots, i)[k].0 < slots.len()
            && slots[index_tracks(slots, i)[k].0 as int] == Some(index_tracks(slots, i)[k].1)
            && index_tracks(slots, i)[k].1.positions.len() > 0,
        forall|k: int, l: int| 0 <= k < l < index_tracks(slots, i).len()
            ==> (#[trigger] index_tracks(slots, i)[k]).0 < (#[trigger] index_tracks(slots, i)[l]).0,
    decreases slots.len() - i,
{
    if i < slots.len() {
        lemma_index_tracks_ordered(slots, i + 1);
        let rest = index_tracks(slots, i + 1);
        let all = index_tracks(slots, i);
        match slots[i] {
            Some(t) => if t.positions.len() > 0 {
                assert(all =~= seq![(i as u8, t)] + rest);
                assert forall|k: int| 0 <= k < all.len() implies i <= (#[trigger] all[k]).0
                    && all[k].0 < slots.len() && slots[all[k].0 as int] == Some(all[k].1) && all[k].1.positions.len() > 0 by {
                    if k > 0 { assert(all[k] == rest[k - 1]); }
                }
                assert forall|k: int, l: int| 0 <= k < l < all.len() implies (#[trigger] all[k]).0 < (#[trigger] all[l]).0 by {
                    assert(all[l] == rest[l - 1]);
                    if k > 0 { assert(all[k] == rest[k - 1]); }
                }
            },
            None => {},
        }
    }
}

/// A finished index lists each declared track that has subtitles once, in increasing track
/// number, each with the language and subtitles its slot holds.
pub proof fn lemma_index_tracks_increasing(st: IndexView, w: u16, h: u16, p: Seq<Seq<u8>>, tracks: Seq<(u8, SlotView)>)
    requires
        index_wf(st),
        index_finish(st) == Ok::<(u16, u16, Seq<Seq<u8>>, Seq<(u8, SlotView)>), Failure>((w, h, p, tracks)),
    ensures
        tracks.len() > 0,
        forall|k: int| 0 <= k < tracks.len() ==> (#[trigger] tracks[k]).0 < 32
            && st.slots[tracks[k].0 as int] == Some(tracks[k].1)
            && tracks[k].1.positions.len() > 0,
        forall|k: int, l: int| 0 <= k < l < tracks.len() ==> (#[trigger] tracks[k]).0 < (#[trigger] tracks[l]).0,
{
    lemma_index_tracks_ordered(st.slots, 0);
}

/// What a fully read index yields: size, palette and the tracks with subtitles, or the
/// refusal of an index missing one of them.
pub open spec fn index_finish(st: IndexView) -> Result<(u16, u16, Seq<Seq<u8>>, Seq<(u8, SlotView)>), Failure> {
    match (st.width, st.height, st.palette) {
        (Some(w), Some(h), Some(p)) => {
            let tracks = index_tracks(st.slots, 0);
            if tracks.len() == 0 { Err(Failure::Rejected) } else { Ok((w, h, p, tracks)) }
        },
        _ => Err(Failure::Rejected),
    }
}

/// A finished track carries a declared track's number, language and subtitles.
pub open spec fn track_matches(t: VobSubTrack, v: (u8, SlotView)) -> bool {
    t.index == v.0 && t.language@ == v.1.language && t.positions@ == v.1.positions
}

/// Reading lines `k` on (line numbers start at 1).
pub open spec fn index_run(st: IndexView, lines: Seq<Seq<u8>>, k: int) -> Result<IndexView, Failure>
    decreases lines.len() - k,
{
    if k < 0 || k >= lines.len() {
        Ok(st)
    } else {
        match index_step(st, lines[k], k + 1) {
            Err(f) => Err(f),
            Ok(s2) => index_run(s2, lines, k + 1),
        }
    }
}

/// Whether reading lines `k` on would overflow unchecked arithmetic before failing.
pub open spec fn index_run_overflows(st: IndexView, lines: Seq<Seq<u8>>, k: int) -> bool
    decreases lines.len() - k,
{
    if k < 0 || k >= lines.len() {
        false
    } else {
        index_step_overflows(st, lines[k], k + 1) || match index_step(st, lines[k], k + 1) {
            Err(_) => false,
            Ok(s2) => index_run_overflows(s2, lines, k + 1),
        }
    }
}

/// What reading a whole index file yields.
pub open spec fn index_outcome(lines: Seq<Seq<u8>>) -> Result<(u16, u16, Seq<Seq<u8>>, Seq<(u8, SlotView)>), Failure> {
    match index_run(empty_index(), lines, 0) {
        Err(f) => Err(f),
        Ok(st) => index_finish(st),
    }
}

/// The byte views of lines.
pub open spec fn line_views(v: Seq<Vec<u8>>) -> Seq<Seq<u8>> {
    v.map_values(|b: Vec<u8>| b@)
}

impl VobSubIndexBuilder {
    /// Reads one line (numbered from 1) of an index file.
    #[verifier::rlimit(60)]
    pub fn push_line(&mut self, raw_line: &[u8], spec: &str, path: &str, line_number: usize) -> (r: Result<(), MuxError>)
        requires
            index_wf(old(self)@),
            !index_step_overflows(old(self)@, raw_line@, line_number as int),
        ensures
            match index_step(old(self)@, raw_line@, line_number as int) {
                Ok(st) => r is Ok && final(self)@ == st,
                Err(f) => r matches Err(e) && fails_as(e, f, spec@),
            },
            r is Ok ==> index_wf(final(self)@),
    {
        let n = raw_line.len();
        let (a, b) = trim_range(raw_line, 0, n);
        assert(raw_line@.subrange(0, n as int) =~= raw_line@);
        let l: &[u8] = &raw_line[a..b];
        if line_number == 1 {
            let header: [u8; 20] = [0x56, 0x6F, 0x62, 0x53, 0x75, 0x62, 0x20, 0x69, 0x6E, 0x64, 0x65, 0x78, 0x20, 0x66, 0x69, 0x6C, 0x65, 0x2C, 0x20, 0x76];
            let header_slice: &[u8] = &header;
            assert(header_slice@ =~= index_header());
            if find_pattern(l, header_slice).is_none() {
                return Err(import_error(spec, "VobSub index files must begin with one `VobSub index file, v...` header line"));
            }
            return Ok(());
        }
        if l.len() == 0 || l[0] == 0x23 {
            return Ok(());
        }
        let ln = l.len();
        let k = match find_byte_from(l, 0x3A, 0) {
            None => return Ok(()),
            Some(k) => k,
        };
        let (va, vb) = trim_range(l, k + 1, ln);
        if va == vb {
            return Ok(());
        }
        let value: &[u8] = &l[va..vb];
        let (ka, kb) = trim_range(l, 0, k);
        let key = ascii_lowercase(&l[ka..kb]);
        let ghost v = value@;
        assert(line_entry(raw_line@) == Some((key@, v)));
        let size_key: [u8; 4] = [0x73, 0x69, 0x7A, 0x65];
        let palette_key: [u8; 7] = [0x70, 0x61, 0x6C, 0x65, 0x74, 0x74, 0x65];
        let id_key: [u8; 2] = [0x69, 0x64];
        let delay_key: [u8; 5] = [0x64, 0x65, 0x6C, 0x61, 0x79];
        let timestamp_key: [u8; 9] = [0x74, 0x69, 0x6D, 0x65, 0x73, 0x74, 0x61, 0x6D, 0x70];
        let sk: &[u8] = &size_key;
        let pk: &[u8] = &palette_key;
        let ik: &[u8] = &id_key;
        let dk: &[u8] = &delay_key;
        let tk: &[u8] = &timestamp_key;
        assert(sk@ =~= key_size() && pk@ =~= key_palette() && ik@ =~= key_id() && dk@ =~= key_delay() && tk@ =~= key_timestamp());
        if bytes_eq(key.as_slice(), sk) {
            let (w, h) = parse_vobsub_size(value, spec, path, line_number)?;
            self.width = Some(w);
            self.height = Some(h);
            Ok(())
        } else if bytes_eq(key.as_slice(), pk) {
            let p = parse_vobsub_palette(value, spec, path, line_number)?;
            let ghost pv = palette_fields(v).unwrap();
            assert(palette_view(p@) =~= pv);
            self.palette = Some(p);
            Ok(())
        } else if bytes_eq(key.as_slice(), ik) {
            let (i, language) = parse_vobsub_id(value, spec, path, line_number)?;
            self.put_slot(i, VobSubTrackSlot { language, positions: Vec::new(), delay_ms: 0 });
            self.current_track = Some(i);
            Ok(())
        } else if bytes_eq(key.as_slice(), dk) {
            self.add_delay(value, spec, path, line_number)
        } else if bytes_eq(key.as_slice(), tk) {
            self.add_timestamp(value, spec, path, line_number)
        } else {
            Ok(())
        }
    }

    /// Whether reading `raw_line` would run into unchecked arithmetic that overflows (see
    /// [`index_step_overflows`]); such a line must not reach [`Self::push_line`].
    pub fn line_overflows(&self, raw_line: &[u8], line_number: usize) -> (r: bool)
        requires
            index_wf(self@),
        ensures
            r == index_step_overflows(self@, raw_line@, line_number as int),
    {
        if line_number == 1 {
            return false;
        }
        let n = raw_line.len();
        let (a, b) = trim_range(raw_line, 0, n);
        assert(raw_line@.subrange(0, n as int) =~= raw_line@);
        let l: &[u8] = &raw_line[a..b];
        if l.len() == 0 || l[0] == 0x23 {
            return false;
        }
        let ln = l.len();
        let k = match find_byte_from(l, 0x3A, 0) {
            None => return false,
            Some(k) => k,
        };
        let (va, vb) = trim_range(l, k + 1, ln);
        if va == vb {
            return false;
        }
        let value: &[u8] = &l[va..vb];
        let (ka, kb) = trim_range(l, 0, k);
        let key = ascii_lowercase(&l[ka..kb]);
        let ghost v = value@;
        assert(line_entry(raw_line@) == Some((key@, v)));
        let delay_key: [u8; 5] = [0x64, 0x65, 0x6C, 0x61, 0x79];
        let timestamp_key: [u8; 9] = [0x74, 0x69, 0x6D, 0x65, 0x73, 0x74, 0x61, 0x6D, 0x70];
        let dk: &[u8] = &delay_key;
        let tk: &[u8] = &timestamp_key;
        assert(dk@ =~= key_delay() && tk@ =~= key_timestamp());
        if bytes_eq(key.as_slice(), dk) {
            self.current_track.is_some() && vobsub_timestamp_overflows(value)
        } else if bytes_eq(key.as_slice(), tk) {
            let i = match self.current_track {
                None => return false,
                Some(i) => i,
            };
            if timestamp_entry_head_overflows(value) {
                return true;
            }
            let start = match parse_vobsub_timestamp_entry(value, "", "", line_number) {
                Ok((start, _)) => start,
                Err(_) => return false,
            };
            let slot = match &self.slots[i as usize] {
                Some(t) => t,
                None => return false,
            };
            proof {
                assert(slot_view(self.slots@[i as int]) == self@.slots[i as int]);
            }
            let delay = slot.delay_ms as i128;
            let adj = start as i128 + delay;
            let lo: i128 = -0x8000_0000_0000_0000;
            let hi: i128 = 0x7FFF_FFFF_FFFF_FFFF;
            if !(lo <= adj && adj <= hi) || delay >= 0 || slot.positions.len() == 0 {
                return false;
            }
            let prev = (slot.positions[slot.positions.len() - 1].start_pts / 90) as i128;
            adj < prev && !(prev - adj <= hi)
        } else {
            false
        }
    }

    /// Ends the index: the size, palette and at least one track with subtitles must have been
    /// declared; tracks come out in track order.
    pub fn finish(self, spec: &str, path: &str) -> (r: Result<VobSubIndex, MuxError>)
        requires
            index_wf(self@),
        ensures
            match index_finish(self@) {
                Ok((w, h, p, tracks)) => r matches Ok(ix) && ix.width == w && ix.height == h && palette_view(ix.palette@) == p
                    && ix.tracks@.len() == tracks.len()
                    && forall|j: int| 0 <= j < tracks.len() ==> track_matches(#[trigger] ix.tracks@[j], tracks[j]),
                Err(f) => r matches Err(e) && fails_as(e, f, spec@),
            },
    {
        let ghost st = self@;
        let width = match self.width {
            Some(w) => w,
            None => return Err(vobsub_file_error(spec, path, "is missing one `size:` declaration")),
        };
        let height = match self.height {
            Some(h) => h,
            None => return Err(vobsub_file_error(spec, path, "is missing one `size:` declaration")),
        };
        let palette = match self.palette {
            Some(p) => p,
            None => return Err(vobsub_file_error(spec, path, "is missing one 16-color `palette:` declaration")),
        };
        let mut slots = self.slots;
        let ghost all = st.slots;
        let mut tracks: Vec<VobSubTrack> = Vec::new();
        let mut i: u8 = 0;
        while i < 32
            invariant
                i <= 32,
                all.len() == 32,
                slots@.len() == 32 - i,
                forall|j: int| 0 <= j < slots@.len() ==> slot_view(#[trigger] slots@[j]) == all[i + j],
                tracks@.len() + index_tracks(all, i as int).len() == index_tracks(all, 0).len(),
                forall|j: int| 0 <= j < tracks@.len() ==> track_matches(#[trigger] tracks@[j], index_tracks(all, 0)[j]),
                forall|j: int| 0 <= j < index_tracks(all, i as int).len() ==>
                    index_tracks(all, 0)[tracks@.len() + j] == #[trigger] index_tracks(all, i as int)[j],
            decreases 32 - i,
        {
            let ghost before = slots@;
            let ghost old_tracks = tracks@;
            let s = slots.remove(0);
            proof {
                assert(slot_view(before[0]) == all[i + 0]);
                assert forall|j: int| 0 <= j < slots@.len() implies slot_view(#[trigger] slots@[j]) == all[i + 1 + j] by {
                    assert(slots@[j] == before[j + 1]);
                    assert(slot_view(before[j + 1]) == all[i + (j + 1)]);
                }
            }
            match s {
                Some(t) => {
                    if t.positions.len() > 0 {
                        tracks.push(VobSubTrack { index: i, language: t.language, positions: t.positions });
                    }
                },
                None => {},
            }
            proof {
                let rest = index_tracks(all, i + 1);
                assert(index_tracks(all, i as int) == match all[i as int] {
                    Some(t) => if t.positions.len() > 0 { seq![(i as u8, t)] + rest } else { rest },
                    None => rest,
                });
                if tracks@.len() > old_tracks.len() {
                    assert(index_tracks(all, i as int) == seq![(i as u8, all[i as int].unwrap())] + rest);
                    assert(index_tracks(all, i as int)[0] == (i as u8, all[i as int].unwrap()));
                    assert(index_tracks(all, 0)[old_tracks.len() as int] == index_tracks(all, i as int)[0]);
                    assert forall|j: int| 0 <= j < tracks@.len() implies track_matches(#[trigger] tracks@[j], index_tracks(all, 0)[j]) by {
                        if j < old_tracks.len() {
                            assert(tracks@[j] == old_tracks[j]);
                        }
                    }
                    assert forall|j: int| 0 <= j < rest.len() implies
                        index_tracks(all, 0)[tracks@.len() + j] == #[trigger] rest[j] by {
                        assert(index_tracks(all, i as int)[1 + j] == rest[j]);
                        assert(index_tracks(all, 0)[old_tracks.len() as int + (1 + j)] == index_tracks(all, i as int)[1 + j]);
                    }
                } else {
                    assert(index_tracks(all, i as int) == rest);
                }
            }
            i = i + 1;
        }
        if tracks.len() == 0 {
            return Err(vobsub_file_error(spec, path, "did not declare any subtitle positions"));
        }
        Ok(VobSubIndex { width, height, palette, tracks })
    }
}


/// Reads an index file given as its lines (each without or with its line terminator).
pub fn parse_vobsub_index_reader(lines: &[Vec<u8>], path: &str, spec: &str) -> (r: Result<VobSubIndex, MuxError>)
    requires
        !index_run_overflows(empty_index(), line_views(lines@), 0),
    ensures
        match index_outcome(line_views(lines@)) {
            Ok((w, h, p, tracks)) => r matches Ok(ix) && ix.width == w && ix.height == h && palette_view(ix.palette@) == p
                && ix.tracks@.len() == tracks.len()
                && forall|j: int| 0 <= j < tracks.len() ==> track_matches(#[trigger] ix.tracks@[j], tracks[j]),
            Err(f) => r matches Err(e) && fails_as(e, f, spec@),
        },
{
    let ghost ls = line_views(lines@);
    let mut builder = VobSubIndexBuilder::new();
    let mut k: usize = 0;
    while k < lines.len()
        invariant
            k <= lines@.len(),
            ls == line_views(lines@),
            index_wf(builder@),
            index_run(empty_index(), ls, 0) == index_run(builder@, ls, k as int),
            !index_run_overflows(builder@, ls, k as int),
        decreases lines.len() - k,
    {
        assert(ls[k as int] == lines@[k as int]@);
        builder.push_line(lines[k].as_slice(), spec, path, k + 1)?;
        k = k + 1;
    }
    builder.finish(spec, path)
}

} // verus!
