//! The step meter: monotonic, bounded progression of a stream's counter.

use vstd::prelude::*;

use crate::errors::StreamError;
use crate::record::StreamRecord;

verus! {

/// Whether the stream can meter one more step: the counter must be
/// representable and the metered value after the advance must stay within the
/// deposited principal.
pub open spec fn can_advance(rec: StreamRecord) -> bool {
    rec.step < u64::MAX && rec.rate * (rec.step + 1) <= rec.limit
}

/// The record after one metered step: only the counter moves.
pub open spec fn advanced(rec: StreamRecord) -> StreamRecord {
    StreamRecord { step: (rec.step + 1) as u64, ..rec }
}

/// Advances the step counter by exactly one, failing fast with
/// `StepLimitExceeded` once a further step would push `rate * step` past
/// `limit` (or past the counter's range), rather than letting settlement
/// underflow later.
pub fn advance(record: &mut StreamRecord) -> (r: Result<(), StreamError>)
    ensures
        match r {
            Ok(()) => can_advance(*old(record)) && *final(record) == advanced(*old(record)),
            Err(e) => e == StreamError::StepLimitExceeded && !can_advance(*old(record))
                && *final(record) == *old(record),
        },
{
    if record.step == u64::MAX {
        return Err(StreamError::StepLimitExceeded);
    }
    proof {
        assert((record.rate as int) * (record.step as int + 1) <= (u64::MAX as int) * (u64::MAX
            as int)) by (nonlinear_arith)
            requires
                record.rate <= u64::MAX,
                record.step as int + 1 <= u64::MAX,
        ;
    }
    let next_wide: u128 = (record.rate as u128) * ((record.step as u128) + 1);
    if next_wide > record.limit as u128 {
        return Err(StreamError::StepLimitExceeded);
    }
    record.step = record.step + 1;
    Ok(())
}

} // verus!
