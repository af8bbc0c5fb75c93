use vstd::prelude::*;

verus! {

/// Why a request was rejected: either the requested constraints are
/// structurally unsatisfiable (a configuration error), or a hashing
/// pass-through failed.
#[derive(Clone, Copy, Debug, PartialEq, Eq, Structural)]
pub enum PassError {
    /// The requested length is zero.
    ZeroLength,
    /// No character class is enabled, so the pool is empty.
    NoClassEnabled,
    /// Strict generation cannot place one character per enabled class
    /// because the requested length is smaller than the class count.
    LengthTooShort,
    /// The bcrypt work factor is outside the range the hasher accepts.
    CostNotAllowed,
    /// The hasher failed for a reason other than its work factor, such as
    /// the operating system's random source being unavailable.
    HashingFailed,
}

} // verus!
