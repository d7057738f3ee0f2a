//! The authorization guard: verifies an already-authenticated caller identity
//! against the role an operation requires.

use vstd::prelude::*;

use crate::errors::StreamError;
use crate::ledger::Authority;
use crate::record::StreamRecord;

verus! {

/// The role an operation requires of its caller.
#[derive(Clone, Copy, Debug, PartialEq, Eq, Structural)]
pub enum Role {
    /// The depositing party stored on the record.
    Initializer,
    /// The receiving party; not stored on the record, so identified through
    /// the custody account the caller presents.
    Taker,
}

/// Whether `caller` holds `required_role` for the stream of `record`.
/// `presented` is the authority of the custody account the caller presents;
/// it is consulted only for the taker role, since the taker's identity is
/// supplied per call rather than stored.
pub open spec fn role_permits(
    caller: u64,
    record: StreamRecord,
    required_role: Role,
    presented: Authority,
) -> bool {
    match required_role {
        Role::Initializer => caller == record.initializer_identity,
        Role::Taker => presented == Authority::Holder(caller),
    }
}

/// Pure check of a caller identity against the required role; failure is
/// always `Unauthorized` and never partially applied.
pub fn authorize(
    caller: u64,
    record: &StreamRecord,
    required_role: Role,
    presented: Authority,
) -> (r: Result<(), StreamError>)
    ensures
        r matches Ok(()) <==> role_permits(caller, *record, required_role, presented),
        r matches Err(e) ==> e == StreamError::Unauthorized,
{
    let permitted = match required_role {
        Role::Initializer => caller == record.initializer_identity,
        Role::Taker => presented == Authority::Holder(caller),
    };
    if permitted {
        Ok(())
    } else {
        Err(StreamError::Unauthorized)
    }
}

} // verus!
