use vstd::prelude::*;

verus! {

/// Errors raised while turning an input container into staged MP4 track data.
#[derive(Debug)]
pub enum MuxError {
    /// The input is well framed enough to be recognized but carries something this importer
    /// rejects; `spec` names the input and `message` says what was wrong.
    UnsupportedTrackImport { spec: String, message: String },
    /// A size, offset, or duration does not fit the integer range that carries it.
    LayoutOverflow(String),
    /// A chunk plan for the named track could not be built.
    InvalidChunkPlan { track_id: u32, message: String },
    /// Reading the input failed; the text is the reader's description of the failure.
    Io(String),
}

/// `e` is an import rejection for the input named `spec`.
pub open spec fn is_import_error(e: MuxError, spec: Seq<char>) -> bool {
    e matches MuxError::UnsupportedTrackImport { spec: s, .. } && s@ == spec
}

/// `e` is an import rejection for the input named `spec` carrying exactly `message`.
pub open spec fn is_import_error_with(e: MuxError, spec: Seq<char>, message: Seq<char>) -> bool {
    e matches MuxError::UnsupportedTrackImport { spec: s, message: m } && s@ == spec && m@ == message
}

/// `e` reports an integer-range overflow.
pub open spec fn is_overflow(e: MuxError) -> bool {
    e is LayoutOverflow
}

/// The two ways an import computation can fail, as contracts describe them.
#[derive(Debug)]
pub enum Failure {
    /// The input is rejected with an import error naming the input.
    Rejected,
    /// A value did not fit its integer range.
    Overflow,
    /// No chunk plan could be formed for an unnamed track.
    Unplanned,
    /// A transport timestamp fell before the start of the program timeline.
    Untranslatable,
}

/// `e` is the error that failure `f` produces for the input named `spec`.
pub open spec fn fails_as(e: MuxError, f: Failure, spec: Seq<char>) -> bool {
    match f {
        Failure::Rejected => is_import_error(e, spec),
        Failure::Overflow => e is LayoutOverflow,
        Failure::Unplanned => e matches MuxError::InvalidChunkPlan { track_id, .. } && track_id == 0,
        Failure::Untranslatable => is_import_error(e, "transport stream"@),
    }
}

/// Builds an import rejection for `spec` with the given message.
pub fn import_error(spec: &str, message: &str) -> (e: MuxError)
    ensures
        is_import_error_with(e, spec@, message@),
{
    MuxError::UnsupportedTrackImport { spec: spec.to_owned(), message: message.to_owned() }
}

/// Builds an overflow error naming the quantity that overflowed.
pub fn overflow(label: &str) -> (e: MuxError)
    ensures
        e matches MuxError::LayoutOverflow(l) && l@ == label@,
{
    MuxError::LayoutOverflow(label.to_owned())
}

} // verus!
