//! The settlement engine: the split-payment arithmetic and the creation
//! precondition.

use vstd::prelude::*;

use crate::errors::StreamError;
use crate::record::StreamRecord;

verus! {

/// The cumulative value payable to the taker: `rate * step`.
pub open spec fn taker_amount_of(rec: StreamRecord) -> int {
    rec.rate * rec.step
}

/// The unspent principal returned to the initializer.
pub open spec fn remainder_of(rec: StreamRecord) -> int {
    rec.limit - taker_amount_of(rec)
}

/// Whether metered consumption has stayed within the deposited principal;
/// settlement may only be computed on records satisfying this.
pub open spec fn split_within_limit(rec: StreamRecord) -> bool {
    taker_amount_of(rec) <= rec.limit
}

/// Conservation of the principal: the taker's amount plus the initializer's
/// remainder is exactly the deposited limit, and the taker's amount is
/// exactly `rate * step`.
pub proof fn lemma_split_conserves_principal(rec: StreamRecord)
    requires
        split_within_limit(rec),
    ensures
        taker_amount_of(rec) == rec.rate * rec.step,
        taker_amount_of(rec) + remainder_of(rec) == rec.limit,
        0 <= taker_amount_of(rec) <= rec.limit,
        0 <= remainder_of(rec) <= rec.limit,
{
    assert(rec.rate * rec.step >= 0) by (nonlinear_arith);
}

/// Computes the `(taker_amount, remainder)` split for a record, rejecting a
/// record whose metered consumption exceeds the principal instead of letting
/// the remainder underflow.
pub fn compute_split(record: &StreamRecord) -> (r: Result<(u64, u64), StreamError>)
    ensures
        match r {
            Ok(pair) => split_within_limit(*record) && pair.0 == taker_amount_of(*record)
                && pair.1 == remainder_of(*record),
            Err(e) => e == StreamError::InvariantViolation && !split_within_limit(*record),
        },
{
    proof {
        assert((record.rate as int) * (record.step as int) <= (u64::MAX as int) * (u64::MAX
            as int)) by (nonlinear_arith)
            requires
                record.rate <= u64::MAX,
                record.step <= u64::MAX,
        ;
    }
    let amount_wide: u128 = (record.rate as u128) * (record.step as u128);
    if amount_wide > record.limit as u128 {
        return Err(StreamError::InvariantViolation);
    }
    let amount: u64 = amount_wide as u64;
    Ok((amount, record.limit - amount))
}

/// The creation precondition: the deposited limit must cover at least the
/// pre-funded steps. Rejects with `LimitTooLow` otherwise.
pub fn check_creation(limit: u64, step: u64) -> (r: Result<(), StreamError>)
    ensures
        r matches Ok(()) <==> limit >= step,
        r matches Err(e) ==> e == StreamError::LimitTooLow && limit < step,
{
    if limit < step {
        Err(StreamError::LimitTooLow)
    } else {
        Ok(())
    }
}

} // verus!
