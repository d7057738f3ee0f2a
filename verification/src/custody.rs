//! The vault custody manager: funds a vault at creation and performs the
//! two-way settlement transfer followed by the vault's closure, each as an
//! all-or-nothing unit — if any part would fail, the ledger is left untouched
//! and the failure is reported.

use vstd::prelude::*;
use vstd::pervasive::unreached;

use crate::errors::LedgerError;
use crate::ledger::close_step;
use crate::ledger::reassign_step;
use crate::ledger::transfer_step;
use crate::ledger::Authority;
use crate::ledger::CustodyAccount;
use crate::ledger::Ledger;

verus! {

/// Outcome of funding a vault: the principal moves from the initializer's
/// account into the vault, and the vault's authority passes from the
/// initializer to the delegated capability. On any failure the ledger is
/// unchanged and the failing step's error is reported.
pub open spec fn fund_step(
    m: Map<u64, CustodyAccount>,
    vault: u64,
    source: u64,
    initializer: u64,
    amount: u64,
) -> (Map<u64, CustodyAccount>, Result<(), LedgerError>) {
    let (m1, r1) = transfer_step(m, source, vault, amount, Authority::Holder(initializer));
    match r1 {
        Err(_) => (m, r1),
        Ok(()) => {
            let (m2, r2) = reassign_step(
                m1,
                vault,
                Authority::Delegated,
                Authority::Holder(initializer),
            );
            match r2 {
                Err(_) => (m, r2),
                Ok(()) => (m2, Ok(())),
            }
        },
    }
}

/// Outcome of settling a vault: the taker's amount moves to the taker's
/// account, the remainder returns to the initializer's account, and the
/// emptied vault is closed. On any failure the ledger is unchanged and the
/// failing step's error is reported; in particular the closure fails, rather
/// than losing funds, if the two transfers would leave the vault nonempty.
pub open spec fn settle_step(
    m: Map<u64, CustodyAccount>,
    vault: u64,
    taker_account: u64,
    return_account: u64,
    taker_amount: u64,
    remainder: u64,
) -> (Map<u64, CustodyAccount>, Result<(), LedgerError>) {
    let (m1, r1) = transfer_step(m, vault, taker_account, taker_amount, Authority::Delegated);
    match r1 {
        Err(_) => (m, r1),
        Ok(()) => {
            let (m2, r2) = transfer_step(m1, vault, return_account, remainder, Authority::Delegated);
            match r2 {
                Err(_) => (m, r2),
                Ok(()) => {
                    let (m3, r3) = close_step(m2, vault, Authority::Delegated);
                    match r3 {
                        Err(_) => (m, r3),
                        Ok(()) => (m3, Ok(())),
                    }
                },
            }
        },
    }
}

/// Funds the vault with the principal and delegates its authority, as one
/// atomic unit: every condition is checked before anything moves.
pub fn fund(ledger: &mut Ledger, vault: u64, source: u64, initializer: u64, amount: u64) -> (r:
    Result<(), LedgerError>)
    requires
        old(ledger).wf(),
    ensures
        final(ledger).wf(),
        final(ledger).supply() == old(ledger).supply(),
        ({
            let (m, rr) = fund_step(old(ledger)@, vault, source, initializer, amount);
            final(ledger)@ == m && r == rr
        }),
{
    let src = match ledger.account(source) {
        Some(a) => a,
        None => return Err(LedgerError::MissingAccount),
    };
    let vlt = match ledger.account(vault) {
        Some(a) => a,
        None => return Err(LedgerError::MissingAccount),
    };
    if src.authority != Authority::Holder(initializer) {
        return Err(LedgerError::Unauthorized);
    }
    if amount > src.balance {
        return Err(LedgerError::InsufficientFunds);
    }
    // The funding transfer leaves the vault's authority unchanged, so the
    // reassignment's authority check is decided before anything moves.
    if vlt.authority != Authority::Holder(initializer) {
        return Err(LedgerError::Unauthorized);
    }
    match ledger.transfer(source, vault, amount, Authority::Holder(initializer)) {
        Ok(()) => {},
        Err(_) => return unreached(),
    }
    match ledger.reassign_authority(vault, Authority::Delegated, Authority::Holder(initializer)) {
        Ok(()) => {},
        Err(_) => return unreached(),
    }
    Ok(())
}

/// Pays the split out of the vault and closes it, as one atomic unit: every
/// condition of the two transfers and of the closure is checked before
/// anything moves.
pub fn settle(
    ledger: &mut Ledger,
    vault: u64,
    taker_account: u64,
    return_account: u64,
    taker_amount: u64,
    remainder: u64,
) -> (r: Result<(), LedgerError>)
    requires
        old(ledger).wf(),
    ensures
        final(ledger).wf(),
        final(ledger).supply() == old(ledger).supply(),
        ({
            let (m, rr) = settle_step(
                old(ledger)@,
                vault,
                taker_account,
                return_account,
                taker_amount,
                remainder,
            );
            final(ledger)@ == m && r == rr
        }),
{
    let vlt = match ledger.account(vault) {
        Some(a) => a,
        None => return Err(LedgerError::MissingAccount),
    };
    if ledger.account(taker_account).is_none() {
        return Err(LedgerError::MissingAccount);
    }
    if vlt.authority != Authority::Delegated {
        return Err(LedgerError::Unauthorized);
    }
    if taker_amount > vlt.balance {
        return Err(LedgerError::InsufficientFunds);
    }
    // The vault's balance once the taker has been paid.
    let vault_after_first = if taker_account == vault {
        vlt.balance
    } else {
        vlt.balance - taker_amount
    };
    if ledger.account(return_account).is_none() {
        return Err(LedgerError::MissingAccount);
    }
    if remainder > vault_after_first {
        return Err(LedgerError::InsufficientFunds);
    }
    // The vault's balance once the remainder has been returned; the closure
    // refuses to lose whatever would be left.
    let vault_after_second = if return_account == vault {
        vault_after_first
    } else {
        vault_after_first - remainder
    };
    if vault_after_second != 0 {
        return Err(LedgerError::NonZeroBalance);
    }
    match ledger.transfer(vault, taker_account, taker_amount, Authority::Delegated) {
        Ok(()) => {},
        Err(_) => return unreached(),
    }
    match ledger.transfer(vault, return_account, remainder, Authority::Delegated) {
        Ok(()) => {},
        Err(_) => return unreached(),
    }
    match ledger.close(vault, return_account, Authority::Delegated) {
        Ok(()) => {},
        Err(_) => return unreached(),
    }
    Ok(())
}

} // verus!
