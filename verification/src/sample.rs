use vstd::prelude::*;
use crate::error::Failure;

verus! {

/// One access unit as an elementary-stream scanner staged it, in the scanner's own timescale.
#[derive(Clone, Copy, Debug, PartialEq, Eq)]
pub struct StagedSample {
    pub data_offset: u64,
    pub data_size: u32,
    pub duration: u32,
    pub composition_time_offset: i32,
    pub is_sync_sample: bool,
}

/// One sample of a finished track candidate, in the track's media timescale.
#[derive(Clone, Copy, Debug, PartialEq, Eq)]
pub struct CandidateSample {
    pub source_index: usize,
    pub data_offset: u64,
    pub data_size: u32,
    pub duration: u32,
    pub composition_time_offset: i32,
    pub is_sync_sample: bool,
}

/// The index value a candidate carries before it is bound to a source.
pub const UNBOUND_SOURCE_INDEX: usize = usize::MAX;

/// Converts the first `n` elements of `xs` with `f`, stopping at the first failure.
pub open spec fn convert_prefix<A, B>(xs: Seq<A>, f: spec_fn(A) -> Result<B, Failure>, n: int) -> Result<Seq<B>, Failure>
    decreases n,
{
    if n <= 0 {
        Ok(Seq::empty())
    } else {
        match convert_prefix(xs, f, n - 1) {
            Err(e) => Err(e),
            Ok(prev) => match f(xs[n - 1]) {
                Err(e) => Err(e),
                Ok(v) => Ok(prev.push(v)),
            },
        }
    }
}

/// Converts every element of `xs` with `f`, or reports the first failure.
pub open spec fn convert_all<A, B>(xs: Seq<A>, f: spec_fn(A) -> Result<B, Failure>) -> Result<Seq<B>, Failure> {
    convert_prefix(xs, f, xs.len() as int)
}

/// Once a prefix fails, every longer prefix fails the same way.
pub proof fn lemma_convert_failure_persists<A, B>(xs: Seq<A>, f: spec_fn(A) -> Result<B, Failure>, n: int, m: int)
    requires
        0 <= n <= m,
        convert_prefix(xs, f, n) is Err,
    ensures
        convert_prefix(xs, f, m) == convert_prefix(xs, f, n),
    decreases m - n,
{
    if m > n {
        lemma_convert_failure_persists(xs, f, n, m - 1);
    }
}

/// A successful prefix conversion has one output per input.
pub proof fn lemma_convert_prefix_len<A, B>(xs: Seq<A>, f: spec_fn(A) -> Result<B, Failure>, n: int)
    requires
        0 <= n,
        convert_prefix(xs, f, n) is Ok,
    ensures
        convert_prefix(xs, f, n)->Ok_0.len() == n,
        forall|i: int| 0 <= i < n ==> f(xs[i]) == Ok::<B, Failure>(#[trigger] convert_prefix(xs, f, n)->Ok_0[i]),
    decreases n,
{
    if n > 0 {
        lemma_convert_prefix_len(xs, f, n - 1);
    }
}


/// Where the bytes of a piece of the rewritten payload come from.
pub enum SegmentData {
    /// A four-byte length prefix written in place of a start code.
    Prefix([u8; 4]),
    /// A range of the input file.
    FileRange { source_offset: u64, size: u32 },
    /// Bytes held in memory.
    Bytes(Vec<u8>),
}

/// A piece of the rewritten payload at `logical_offset`.
pub struct SourceSegment {
    pub logical_offset: u64,
    pub data: SegmentData,
}

} // verus!
