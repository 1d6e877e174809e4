use vstd::prelude::*;

pub mod error;
pub mod mp4;
pub mod sample;
pub mod text;
pub mod demux;
pub mod event;

verus! {

} // verus!
