//! The stream lifecycle controller: the top-level state machine
//! create -> tick* -> (cancel | withdraw) -> closed.
//!
//! Each operation's outcome is given exactly by a transition function over
//! the observable [`StreamState`]; the controller's methods are proved to
//! implement those transitions and to preserve the custody invariant
//! [`state_inv`].

use vstd::prelude::*;

use crate::auth::authorize;
use crate::auth::Role;
use crate::custody;
use crate::custody::fund_step;
use crate::custody::settle_step;
use crate::errors::stream_error_from_ledger;
use crate::errors::stream_error_of;
use crate::errors::LedgerError;
use crate::errors::StreamError;
use crate::ledger::close_step;
use crate::ledger::open_step;
use crate::ledger::transfer_step;
use crate::ledger::Authority;
use crate::ledger::CustodyAccount;
use crate::ledger::Ledger;
use crate::meter;
use crate::meter::advanced;
use crate::meter::can_advance;
use crate::record::StreamRecord;
use crate::settlement::check_creation;
use crate::settlement::compute_split;
use crate::settlement::lemma_split_conserves_principal;
use crate::settlement::remainder_of;
use crate::settlement::split_within_limit;
use crate::settlement::taker_amount_of;

verus! {

/// The observable state of the escrow system: the stream record if a stream
/// is active, the custody accounts, and the custodied total.
pub struct StreamState {
    pub record: Option<StreamRecord>,
    pub accounts: Map<u64, CustodyAccount>,
    pub supply: u64,
}

/// The custody invariant of an active stream: its vault exists under the
/// delegated capability — never under a party's own authority — and holds
/// exactly the deposited principal; the return account exists and is distinct
/// from the vault.
pub open spec fn state_inv(s: StreamState) -> bool {
    match s.record {
        None => true,
        Some(rec) => {
            &&& s.accounts.contains_key(rec.vault_identity)
            &&& s.accounts[rec.vault_identity].authority == Authority::Delegated
            &&& s.accounts[rec.vault_identity].balance == rec.limit
            &&& s.accounts.contains_key(rec.initializer_return_identity)
            &&& rec.initializer_return_identity != rec.vault_identity
        },
    }
}

/// Outcome of `create`: with no stream active, a limit covering the
/// pre-funded steps, and a suitable empty vault, the principal is moved into
/// the vault, the vault's authority is delegated, and the record is
/// persisted. On any failure nothing is persisted and nothing moves.
pub open spec fn create_step(
    s: StreamState,
    initializer: u64,
    return_account: u64,
    vault: u64,
    limit: u64,
    step: u64,
    rate: u64,
) -> (StreamState, Result<(), StreamError>) {
    if s.record is Some {
        (s, Err(StreamError::InvalidState))
    } else if limit < step {
        (s, Err(StreamError::LimitTooLow))
    } else if !s.accounts.contains_key(vault) || !s.accounts.contains_key(return_account) {
        (s, Err(StreamError::InvalidState))
    } else if vault == return_account {
        (s, Err(StreamError::InvalidState))
    } else if s.accounts[vault].balance != 0 {
        (s, Err(StreamError::InvalidState))
    } else {
        let (m, r) = fund_step(s.accounts, vault, return_account, initializer, limit);
        match r {
            Err(e) => (s, Err(stream_error_of(e))),
            Ok(()) => (
                StreamState {
                    record: Some(
                        StreamRecord {
                            initializer_identity: initializer,
                            initializer_return_identity: return_account,
                            vault_identity: vault,
                            limit,
                            step,
                            rate,
                        },
                    ),
                    accounts: m,
                    supply: s.supply,
                },
                Ok(()),
            ),
        }
    }
}

/// Outcome of `tick`: only the stored initializer may advance the meter, and
/// only while one more step stays within the principal.
pub open spec fn tick_step(s: StreamState, caller: u64) -> (StreamState, Result<(), StreamError>) {
    match s.record {
        None => (s, Err(StreamError::InvalidState)),
        Some(rec) => {
            if caller != rec.initializer_identity {
                (s, Err(StreamError::Unauthorized))
            } else if !can_advance(rec) {
                (s, Err(StreamError::StepLimitExceeded))
            } else {
                (StreamState { record: Some(advanced(rec)), ..s }, Ok(()))
            }
        },
    }
}

/// Outcome of `balance`: a read-only authorization query — it succeeds
/// exactly when the supplied initializer identity matches the record.
pub open spec fn balance_result(s: StreamState, claimed_initializer: u64) -> Result<
    (),
    StreamError,
> {
    match s.record {
        None => Err(StreamError::InvalidState),
        Some(rec) => {
            if claimed_initializer == rec.initializer_identity {
                Ok(())
            } else {
                Err(StreamError::Unauthorized)
            }
        },
    }
}

/// The settlement path shared by `cancel` and `withdraw`: validate the split
/// against the principal, pay it out of the vault, close the vault, and
/// destroy the record. On any failure the state is unchanged.
pub open spec fn settle_active(s: StreamState, rec: StreamRecord, taker_account: u64) -> (
    StreamState,
    Result<(), StreamError>,
) {
    if !split_within_limit(rec) {
        (s, Err(StreamError::InvariantViolation))
    } else {
        let (m, r) = settle_step(
            s.accounts,
            rec.vault_identity,
            taker_account,
            rec.initializer_return_identity,
            taker_amount_of(rec) as u64,
            remainder_of(rec) as u64,
        );
        match r {
            Err(e) => (s, Err(stream_error_of(e))),
            Ok(()) => (StreamState { record: None, accounts: m, supply: s.supply }, Ok(())),
        }
    }
}

/// Outcome of `cancel`: the initializer-driven terminal transition.
pub open spec fn cancel_step(s: StreamState, caller: u64, taker_account: u64) -> (
    StreamState,
    Result<(), StreamError>,
) {
    match s.record {
        None => (s, Err(StreamError::InvalidState)),
        Some(rec) => {
            if caller != rec.initializer_identity {
                (s, Err(StreamError::Unauthorized))
            } else {
                settle_active(s, rec, taker_account)
            }
        },
    }
}

/// Outcome of `withdraw`: the taker-driven terminal transition. The supplied
/// initializer identity and return account must match the record, and the
/// caller must control the presented taker account; the settlement itself is
/// identical to `cancel`'s.
pub open spec fn withdraw_step(
    s: StreamState,
    caller: u64,
    taker_account: u64,
    claimed_initializer: u64,
    claimed_return_account: u64,
) -> (StreamState, Result<(), StreamError>) {
    match s.record {
        None => (s, Err(StreamError::InvalidState)),
        Some(rec) => {
            if claimed_initializer != rec.initializer_identity || claimed_return_account
                != rec.initializer_return_identity {
                (s, Err(StreamError::Unauthorized))
            } else if !s.accounts.contains_key(taker_account) || s.accounts[taker_account].authority
                != Authority::Holder(caller) {
                (s, Err(StreamError::Unauthorized))
            } else {
                settle_active(s, rec, taker_account)
            }
        },
    }
}

/// The escrow system: the custody ledger together with the storage slot of
/// the stream record. All mutation goes through the lifecycle operations, so
/// the custody invariant holds at every instant.
pub struct StreamSystem {
    ledger: Ledger,
    record: Option<StreamRecord>,
}

impl View for StreamSystem {
    type V = StreamState;

    closed spec fn view(&self) -> StreamState {
        StreamState { record: self.record, accounts: self.ledger@, supply: self.ledger.supply() }
    }
}

impl StreamSystem {
    /// Well-formedness: the ledger's representation invariant and the custody
    /// invariant of the observable state.
    pub closed spec fn wf(self) -> bool {
        self.ledger.wf() && state_inv(self@)
    }

    /// A well-formed system satisfies the custody invariant of its state.
    pub proof fn lemma_wf_state(self)
        requires
            self.wf(),
        ensures
            state_inv(self@),
    {
    }

    /// A fresh system: no accounts, no stream.
    pub fn new() -> (r: StreamSystem)
        ensures
            r.wf(),
            r@.record is None,
            r@.accounts == Map::<u64, CustodyAccount>::empty(),
            r@.supply == 0,
    {
        StreamSystem { ledger: Ledger::new(), record: None }
    }

    /// Host-side allocation: opens a custody account controlled by `owner`.
    pub fn open_account(&mut self, id: u64, balance: u64, owner: u64) -> (r: Result<
        (),
        LedgerError,
    >)
        requires
            old(self).wf(),
        ensures
            final(self).wf(),
            final(self)@.record == old(self)@.record,
            ({
                let (m, supply, rr) = open_step(
                    old(self)@.accounts,
                    old(self)@.supply,
                    id,
                    balance,
                    Authority::Holder(owner),
                );
                final(self)@.accounts == m && final(self)@.supply == supply && r == rr
            }),
    {
        self.ledger.open_account(id, balance, Authority::Holder(owner))
    }

    /// Creates a stream: checks the creation precondition, funds the vault
    /// from the return account, delegates the vault's authority, and persists
    /// the record — all or nothing.
    pub fn create(
        &mut self,
        initializer: u64,
        return_account: u64,
        vault: u64,
        limit: u64,
        step: u64,
        rate: u64,
    ) -> (r: Result<(), StreamError>)
        requires
            old(self).wf(),
        ensures
            final(self).wf(),
            ({
                let (s2, rr) = create_step(
                    old(self)@,
                    initializer,
                    return_account,
                    vault,
                    limit,
                    step,
                    rate,
                );
                final(self)@ == s2 && r == rr
            }),
    {
        if self.record.is_some() {
            return Err(StreamError::InvalidState);
        }
        match check_creation(limit, step) {
            Err(e) => return Err(e),
            Ok(()) => {},
        }
        let vlt = match self.ledger.account(vault) {
            Some(a) => a,
            None => return Err(StreamError::InvalidState),
        };
        if self.ledger.account(return_account).is_none() {
            return Err(StreamError::InvalidState);
        }
        if vault == return_account {
            return Err(StreamError::InvalidState);
        }
        if vlt.balance != 0 {
            return Err(StreamError::InvalidState);
        }
        match custody::fund(&mut self.ledger, vault, return_account, initializer, limit) {
            Err(e) => return Err(stream_error_from_ledger(e)),
            Ok(()) => {},
        }
        self.record = Some(
            StreamRecord {
                initializer_identity: initializer,
                initializer_return_identity: return_account,
                vault_identity: vault,
                limit,
                step,
                rate,
            },
        );
        Ok(())
    }

    /// Advances the meter by one step, on behalf of the stored initializer.
    pub fn tick(&mut self, caller: u64) -> (r: Result<(), StreamError>)
        requires
            old(self).wf(),
        ensures
            final(self).wf(),
            ({
                let (s2, rr) = tick_step(old(self)@, caller);
                final(self)@ == s2 && r == rr
            }),
    {
        let rec = match &self.record {
            None => return Err(StreamError::InvalidState),
            Some(rec) => *rec,
        };
        match authorize(caller, &rec, Role::Initializer, Authority::Holder(caller)) {
            Err(e) => return Err(e),
            Ok(()) => {},
        }
        let mut updated = rec;
        match meter::advance(&mut updated) {
            Err(e) => return Err(e),
            Ok(()) => {},
        }
        self.record = Some(updated);
        Ok(())
    }

    /// Read-only authorization query against the stored record. The taker's
    /// identity is host-authenticated but not stored, so it is not consulted:
    /// the query only confirms the supplied initializer against the record.
    pub fn balance(&self, _taker: u64, claimed_initializer: u64) -> (r: Result<(), StreamError>)
        ensures
            r == balance_result(self@, claimed_initializer),
    {
        let rec = match &self.record {
            None => return Err(StreamError::InvalidState),
            Some(rec) => *rec,
        };
        match authorize(
            claimed_initializer,
            &rec,
            Role::Initializer,
            Authority::Holder(claimed_initializer),
        ) {
            Err(e) => Err(e),
            Ok(()) => Ok(()),
        }
    }

    /// The settlement path shared by `cancel` and `withdraw`.
    fn settle_and_close(&mut self, rec: StreamRecord, taker_account: u64) -> (r: Result<
        (),
        StreamError,
    >)
        requires
            old(self).wf(),
            old(self)@.record == Some(rec),
        ensures
            final(self).wf(),
            ({
                let (s2, rr) = settle_active(old(self)@, rec, taker_account);
                final(self)@ == s2 && r == rr
            }),
    {
        let (amount, rest) = match compute_split(&rec) {
            Err(e) => return Err(e),
            Ok(p) => p,
        };
        match custody::settle(
            &mut self.ledger,
            rec.vault_identity,
            taker_account,
            rec.initializer_return_identity,
            amount,
            rest,
        ) {
            Err(e) => return Err(stream_error_from_ledger(e)),
            Ok(()) => {},
        }
        self.record = None;
        Ok(())
    }

    /// Settles the stream on behalf of the initializer and destroys it.
    pub fn cancel(&mut self, caller: u64, taker_account: u64) -> (r: Result<(), StreamError>)
        requires
            old(self).wf(),
        ensures
            final(self).wf(),
            ({
                let (s2, rr) = cancel_step(old(self)@, caller, taker_account);
                final(self)@ == s2 && r == rr
            }),
    {
        let rec = match &self.record {
            None => return Err(StreamError::InvalidState),
            Some(rec) => *rec,
        };
        match authorize(caller, &rec, Role::Initializer, Authority::Holder(caller)) {
            Err(e) => return Err(e),
            Ok(()) => {},
        }
        self.settle_and_close(rec, taker_account)
    }

    /// Settles the stream on behalf of the taker and destroys it.
    pub fn withdraw(
        &mut self,
        caller: u64,
        taker_account: u64,
        claimed_initializer: u64,
        claimed_return_account: u64,
    ) -> (r: Result<(), StreamError>)
        requires
            old(self).wf(),
        ensures
            final(self).wf(),
            ({
                let (s2, rr) = withdraw_step(
                    old(self)@,
                    caller,
                    taker_account,
                    claimed_initializer,
                    claimed_return_account,
                );
                final(self)@ == s2 && r == rr
            }),
    {
        let rec = match &self.record {
            None => return Err(StreamError::InvalidState),
            Some(rec) => *rec,
        };
        if claimed_initializer != rec.initializer_identity || claimed_return_account
            != rec.initializer_return_identity {
            return Err(StreamError::Unauthorized);
        }
        let presented = match self.ledger.account(taker_account) {
            None => return Err(StreamError::Unauthorized),
            Some(a) => a.authority,
        };
        match authorize(caller, &rec, Role::Taker, presented) {
            Err(e) => return Err(e),
            Ok(()) => {},
        }
        self.settle_and_close(rec, taker_account)
    }

    /// The active stream record, if any.
    pub fn record(&self) -> (r: Option<StreamRecord>)
        ensures
            r == self@.record,
    {
        self.record
    }

    /// Whether a stream is currently active.
    pub fn is_active(&self) -> (r: bool)
        ensures
            r == (self@.record is Some),
    {
        self.record.is_some()
    }

    /// Reads a custody account.
    pub fn account(&self, id: u64) -> (r: Option<CustodyAccount>)
        requires
            self.wf(),
        ensures
            match r {
                Some(a) => self@.accounts.contains_key(id) && a == self@.accounts[id],
                None => !self@.accounts.contains_key(id),
            },
    {
        self.ledger.account(id)
    }

    /// The total value in custody across all accounts.
    pub fn supply(&self) -> (r: u64)
        ensures
            r == self@.supply,
    {
        self.ledger.supply()
    }
}

// Laws of the lifecycle.

/// Rejected creation: with no stream active and `limit < step`, `create`
/// fails with `LimitTooLow` and nothing is persisted or transferred.
pub proof fn lemma_create_rejects_low_limit(
    s: StreamState,
    initializer: u64,
    return_account: u64,
    vault: u64,
    limit: u64,
    step: u64,
    rate: u64,
)
    requires
        s.record is None,
        limit < step,
    ensures
        create_step(s, initializer, return_account, vault, limit, step, rate) == (
            s,
            Err::<(), StreamError>(StreamError::LimitTooLow),
        ),
{
}

/// Bounded metering: a tick that would push `rate * step` past `limit` fails
/// with `StepLimitExceeded` and changes nothing.
pub proof fn lemma_tick_rejects_exhausted(s: StreamState, rec: StreamRecord, caller: u64)
    requires
        s.record == Some(rec),
        caller == rec.initializer_identity,
        rec.rate * (rec.step + 1) > rec.limit,
    ensures
        tick_step(s, caller) == (s, Err::<(), StreamError>(StreamError::StepLimitExceeded)),
{
}

/// `n` consecutive ticks by `caller`, stopping at the first failure; the
/// second component tells whether all `n` succeeded.
pub open spec fn ticks(s: StreamState, caller: u64, n: nat) -> (StreamState, bool)
    decreases n,
{
    if n == 0 {
        (s, true)
    } else {
        let (s1, r) = tick_step(s, caller);
        match r {
            Err(_) => (s, false),
            Ok(()) => ticks(s1, caller, (n - 1) as nat),
        }
    }
}

/// Metered progression: from an active stream whose principal covers `n`
/// further steps (and whose counter can represent them), `n` consecutive
/// ticks by the initializer all succeed, advance the counter by exactly `n`,
/// and touch nothing else.
pub proof fn lemma_ticks_succeed(s: StreamState, rec: StreamRecord, caller: u64, n: nat)
    requires
        s.record == Some(rec),
        caller == rec.initializer_identity,
        rec.rate * (rec.step + n) <= rec.limit,
        rec.step + n <= u64::MAX,
    ensures
        ticks(s, caller, n).1,
        ticks(s, caller, n).0 == (StreamState {
            record: Some(StreamRecord { step: (rec.step + n) as u64, ..rec }),
            ..s
        }),
    decreases n,
{
    if n == 0 {
        assert(StreamRecord { step: (rec.step + 0) as u64, ..rec } == rec);
        assert(StreamState { record: Some(rec), ..s } == s);
    } else {
        assert(rec.rate * (rec.step + 1) <= rec.rate * (rec.step + n)) by (nonlinear_arith)
            requires
                1 <= n,
                rec.rate >= 0,
        ;
        assert(can_advance(rec));
        let s1 = tick_step(s, caller).0;
        lemma_ticks_succeed(s1, advanced(rec), caller, (n - 1) as nat);
    }
}

/// A settled stream stays settled: with no record, every operation reports
/// `InvalidState` and leaves the state unchanged.
pub proof fn lemma_closed_stream_rejects_all(
    s: StreamState,
    caller: u64,
    taker_account: u64,
    claimed_initializer: u64,
    claimed_return_account: u64,
)
    requires
        s.record is None,
    ensures
        tick_step(s, caller) == (s, Err::<(), StreamError>(StreamError::InvalidState)),
        cancel_step(s, caller, taker_account) == (
            s,
            Err::<(), StreamError>(StreamError::InvalidState),
        ),
        withdraw_step(s, caller, taker_account, claimed_initializer, claimed_return_account) == (
            s,
            Err::<(), StreamError>(StreamError::InvalidState),
        ),
        balance_result(s, claimed_initializer) == Err::<(), StreamError>(StreamError::InvalidState),
{
}

/// A terminal transition that succeeds destroys the record.
pub proof fn lemma_terminal_destroys_record(
    s: StreamState,
    caller: u64,
    taker_account: u64,
    claimed_initializer: u64,
    claimed_return_account: u64,
)
    ensures
        cancel_step(s, caller, taker_account).1 is Ok ==> cancel_step(
            s,
            caller,
            taker_account,
        ).0.record is None,
        withdraw_step(s, caller, taker_account, claimed_initializer, claimed_return_account).1
            is Ok ==> withdraw_step(
            s,
            caller,
            taker_account,
            claimed_initializer,
            claimed_return_account,
        ).0.record is None,
{
}

/// Exactly-once settlement: after a successful `cancel` or `withdraw`, any
/// further `cancel`, `withdraw`, `tick` or `balance` on the stream fails with
/// `InvalidState` and changes nothing.
pub proof fn lemma_settlement_exactly_once(
    s: StreamState,
    s1: StreamState,
    caller: u64,
    taker_account: u64,
    claimed_initializer: u64,
    claimed_return_account: u64,
    caller2: u64,
    taker_account2: u64,
    claimed_initializer2: u64,
    claimed_return_account2: u64,
)
    requires
        cancel_step(s, caller, taker_account) == (s1, Result::<(), StreamError>::Ok(()))
            || withdraw_step(
            s,
            caller,
            taker_account,
            claimed_initializer,
            claimed_return_account,
        ) == (s1, Result::<(), StreamError>::Ok(())),
    ensures
        tick_step(s1, caller2) == (s1, Err::<(), StreamError>(StreamError::InvalidState)),
        cancel_step(s1, caller2, taker_account2) == (
            s1,
            Err::<(), StreamError>(StreamError::InvalidState),
        ),
        withdraw_step(s1, caller2, taker_account2, claimed_initializer2, claimed_return_account2)
            == (s1, Err::<(), StreamError>(StreamError::InvalidState)),
        balance_result(s1, claimed_initializer2) == Err::<(), StreamError>(
            StreamError::InvalidState,
        ),
{
    lemma_terminal_destroys_record(
        s,
        caller,
        taker_account,
        claimed_initializer,
        claimed_return_account,
    );
    lemma_closed_stream_rejects_all(
        s1,
        caller2,
        taker_account2,
        claimed_initializer2,
        claimed_return_account2,
    );
}

/// Guarded cancellation: an identity other than the stored initializer
/// cannot cancel — the call reports `Unauthorized` and moves no value.
pub proof fn lemma_cancel_requires_initializer(
    s: StreamState,
    rec: StreamRecord,
    caller: u64,
    taker_account: u64,
)
    requires
        s.record == Some(rec),
        caller != rec.initializer_identity,
    ensures
        cancel_step(s, caller, taker_account) == (
            s,
            Err::<(), StreamError>(StreamError::Unauthorized),
        ),
{
}

/// Value conservation: no lifecycle operation creates or destroys custodied
/// value — only opening an account changes the custodied total.
pub proof fn lemma_operations_conserve_value(
    s: StreamState,
    initializer: u64,
    return_account: u64,
    vault: u64,
    limit: u64,
    step: u64,
    rate: u64,
    caller: u64,
    taker_account: u64,
)
    ensures
        create_step(s, initializer, return_account, vault, limit, step, rate).0.supply == s.supply,
        tick_step(s, caller).0.supply == s.supply,
        cancel_step(s, caller, taker_account).0.supply == s.supply,
        withdraw_step(s, caller, taker_account, initializer, return_account).0.supply == s.supply,
{
}

/// A successful settlement pays the taker exactly `rate * step`, returns
/// exactly the remainder to the initializer's return account, removes the
/// vault, and touches no other account; the custodied total is unchanged.
/// The two receive bounds are machine limits: a ledger keeps every balance
/// within `u64`, so the receiving accounts can absorb the principal.
pub proof fn lemma_settlement_split(s: StreamState, rec: StreamRecord, taker_account: u64)
    requires
        s.record == Some(rec),
        state_inv(s),
        settle_active(s, rec, taker_account).1 is Ok,
        s.accounts.contains_key(taker_account) ==> s.accounts[taker_account].balance + rec.limit
            <= u64::MAX,
        s.accounts.contains_key(rec.initializer_return_identity)
            ==> s.accounts[rec.initializer_return_identity].balance + rec.limit <= u64::MAX,
    ensures
        ({
            let s1 = settle_active(s, rec, taker_account).0;
            &&& s1.record is None
            &&& !s1.accounts.contains_key(rec.vault_identity)
            &&& s1.supply == s.supply
            &&& split_within_limit(rec)
            &&& (taker_account != rec.vault_identity && taker_account
                == rec.initializer_return_identity ==> s1.accounts[taker_account].balance
                == s.accounts[taker_account].balance + rec.limit)
            &&& (taker_account != rec.vault_identity && taker_account
                != rec.initializer_return_identity ==> s1.accounts[taker_account].balance
                == s.accounts[taker_account].balance + taker_amount_of(rec)
                && s1.accounts[rec.initializer_return_identity].balance
                == s.accounts[rec.initializer_return_identity].balance + remainder_of(rec))
            &&& (taker_account == rec.vault_identity ==> taker_amount_of(rec) == 0
                && s1.accounts[rec.initializer_return_identity].balance
                == s.accounts[rec.initializer_return_identity].balance + rec.limit)
            &&& (forall|id: u64|
                id != rec.vault_identity && id != taker_account && id
                    != rec.initializer_return_identity && s.accounts.contains_key(id)
                    ==> s1.accounts.contains_key(id) && s1.accounts[id] == s.accounts[id])
        }),
{
    assert(split_within_limit(rec));
    lemma_split_conserves_principal(rec);
    let amount = taker_amount_of(rec) as u64;
    let rest = remainder_of(rec) as u64;
    assert(amount + rest == rec.limit);
    let m = s.accounts;
    let v = rec.vault_identity;
    let t = taker_account;
    let ret = rec.initializer_return_identity;
    let (m1, r1) = transfer_step(m, v, t, amount, Authority::Delegated);
    assert(r1 is Ok);
    let (m2, r2) = transfer_step(m1, v, ret, rest, Authority::Delegated);
    assert(r2 is Ok);
    let (m3, r3) = close_step(m2, v, Authority::Delegated);
    assert(r3 is Ok);
    assert(settle_active(s, rec, taker_account).0 == StreamState {
        record: None,
        accounts: m3,
        supply: s.supply,
    });
    if t == v {
        assert(m1[v].balance == rec.limit);
        assert(m2[v].balance == rec.limit - rest);
        assert(amount == 0);
    } else {
        assert(m1[v].balance == rec.limit - amount);
        assert(m1[t].balance == m[t].balance + amount);
        assert(m2[v].balance == rec.limit - amount - rest);
        if t == ret {
            assert(m2[t].balance == m[t].balance + amount + rest);
        } else {
            assert(m2[t].balance == m[t].balance + amount);
            assert(m2[ret].balance == m[ret].balance + rest);
        }
    }
}

} // verus!
