//! The classification of one fuzz trial.
use crate::byte_count::AmpByteCount;
use vstd::prelude::*;

verus! {

/// The outcome of one trial, handed to the scheduler; `P` is the scheduler's
/// identifier of the corpus entry.
#[derive(Debug, Clone)]
pub enum StatusType<P> {
    /// The trial completed and nothing stood out.
    Normal,
    /// The target did not reach the expected state or exit in time.
    Timeout,
    /// The target terminated abnormally.
    Crash,
    /// The trial was deliberately not evaluated.
    Skip,
    /// The measuring side failed, not the target.
    Error,
    /// The trial amplified traffic: the corpus entry and the measured sample.
    Amp(P, AmpByteCount),
}

} // verus!
