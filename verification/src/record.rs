//! The persisted stream record.

use vstd::prelude::*;

verus! {

/// One active stream: the identities tied to it and its metering parameters.
///
/// Identities are the stable, host-authenticated identifiers of parties and
/// custody accounts; the host's identity scheme is outside this core, which
/// only ever compares identities for equality.
///
/// `limit`, `rate` and the two identities are immutable after creation; only
/// the step meter mutates `step`. At creation `step` is the number of
/// pre-funded metering units the stream starts from; thereafter it is the
/// running counter of elapsed units.
#[derive(Clone, Copy, Debug, PartialEq, Eq, Structural)]
pub struct StreamRecord {
    /// Identity of the depositing party.
    pub initializer_identity: u64,
    /// Identity of the custody account that receives the unspent remainder
    /// (also the account the principal is funded from).
    pub initializer_return_identity: u64,
    /// Identity of the custody account holding the deposited principal.
    pub vault_identity: u64,
    /// Total principal deposited: an upper bound on cumulative payable value.
    pub limit: u64,
    /// Counter of elapsed metering units.
    pub step: u64,
    /// Value payable per step.
    pub rate: u64,
}

} // verus!
