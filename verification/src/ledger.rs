//! The custody ledger the escrow drives.
//!
//! The underlying value-transfer service is an external collaborator of the
//! stream core; this module captures it at its interface: custody accounts
//! hold unsigned balances under an authority, and the only operations are
//! opening an account, transferring value, reassigning authority, and closing
//! an emptied account. Each operation's outcome is given exactly by a
//! transition function over the ledger's map view.

use vstd::prelude::*;

use crate::errors::LedgerError;

verus! {

/// Who may move value out of a custody account: a party identified by its
/// host-authenticated identity, or the delegated capability that only the
/// program's settlement logic wields.
#[derive(Clone, Copy, Debug, PartialEq, Eq, Structural)]
pub enum Authority {
    /// The account is controlled by the party with this identity.
    Holder(u64),
    /// The account is controlled by the program-derived capability.
    Delegated,
}

/// One custody account: an identifier, the value it holds, and the authority
/// that may move that value.
#[derive(Clone, Copy, Debug, PartialEq, Eq, Structural)]
pub struct CustodyAccount {
    pub id: u64,
    pub balance: u64,
    pub authority: Authority,
}

/// No two accounts share an identifier.
pub open spec fn unique_ids(s: Seq<CustodyAccount>) -> bool {
    forall|i: int, j: int| 0 <= i < j < s.len() ==> s[i].id != s[j].id
}

/// The accounts as a map from identifier to account.
pub closed spec fn map_of(s: Seq<CustodyAccount>) -> Map<u64, CustodyAccount>
    decreases s.len(),
{
    if s.len() == 0 {
        Map::empty()
    } else {
        map_of(s.drop_last()).insert(s.last().id, s.last())
    }
}

/// The total value held across all accounts.
pub closed spec fn sum_balances(s: Seq<CustodyAccount>) -> int
    decreases s.len(),
{
    if s.len() == 0 {
        0
    } else {
        sum_balances(s.drop_last()) + s.last().balance
    }
}

/// Outcome of opening an account, over the map view and the custodied total.
pub open spec fn open_step(
    m: Map<u64, CustodyAccount>,
    supply: u64,
    id: u64,
    balance: u64,
    authority: Authority,
) -> (Map<u64, CustodyAccount>, u64, Result<(), LedgerError>) {
    if m.contains_key(id) {
        (m, supply, Err(LedgerError::DuplicateAccount))
    } else if supply + balance > u64::MAX {
        (m, supply, Err(LedgerError::SupplyExceeded))
    } else {
        (
            m.insert(id, CustodyAccount { id, balance, authority }),
            (supply + balance) as u64,
            Ok(()),
        )
    }
}

/// Outcome of a transfer, over the map view. The debit is applied before the
/// credit, so a transfer of an account to itself leaves it unchanged.
pub open spec fn transfer_step(
    m: Map<u64, CustodyAccount>,
    from: u64,
    to: u64,
    amount: u64,
    presented: Authority,
) -> (Map<u64, CustodyAccount>, Result<(), LedgerError>) {
    if !m.contains_key(from) || !m.contains_key(to) {
        (m, Err(LedgerError::MissingAccount))
    } else if presented != m[from].authority {
        (m, Err(LedgerError::Unauthorized))
    } else if amount > m[from].balance {
        (m, Err(LedgerError::InsufficientFunds))
    } else {
        let debited = CustodyAccount {
            id: m[from].id,
            balance: (m[from].balance - amount) as u64,
            authority: m[from].authority,
        };
        let m1 = m.insert(from, debited);
        let credited = CustodyAccount {
            id: m1[to].id,
            balance: (m1[to].balance + amount) as u64,
            authority: m1[to].authority,
        };
        (m1.insert(to, credited), Ok(()))
    }
}

/// Outcome of reassigning an account's authority, over the map view.
pub open spec fn reassign_step(
    m: Map<u64, CustodyAccount>,
    id: u64,
    new_authority: Authority,
    presented: Authority,
) -> (Map<u64, CustodyAccount>, Result<(), LedgerError>) {
    if !m.contains_key(id) {
        (m, Err(LedgerError::MissingAccount))
    } else if presented != m[id].authority {
        (m, Err(LedgerError::Unauthorized))
    } else {
        (
            m.insert(
                id,
                CustodyAccount { id: m[id].id, balance: m[id].balance, authority: new_authority },
            ),
            Ok(()),
        )
    }
}

/// Outcome of closing an account, over the map view. Closing fails rather
/// than silently losing funds while the account still holds value.
pub open spec fn close_step(m: Map<u64, CustodyAccount>, id: u64, presented: Authority) -> (
    Map<u64, CustodyAccount>,
    Result<(), LedgerError>,
) {
    if !m.contains_key(id) {
        (m, Err(LedgerError::MissingAccount))
    } else if presented != m[id].authority {
        (m, Err(LedgerError::Unauthorized))
    } else if m[id].balance != 0 {
        (m, Err(LedgerError::NonZeroBalance))
    } else {
        (m.remove(id), Ok(()))
    }
}

// Lemmas connecting the account sequence to its map view and to the
// custodied total.

proof fn lemma_unique_drop_last(s: Seq<CustodyAccount>)
    requires
        unique_ids(s),
        s.len() > 0,
    ensures
        unique_ids(s.drop_last()),
{
    assert forall|i: int, j: int|
        0 <= i < j < s.drop_last().len() implies s.drop_last()[i].id != s.drop_last()[j].id by {
        assert(s.drop_last()[i] == s[i]);
        assert(s.drop_last()[j] == s[j]);
    }
}

proof fn lemma_map_of_index(s: Seq<CustodyAccount>, i: int)
    requires
        unique_ids(s),
        0 <= i < s.len(),
    ensures
        map_of(s).contains_key(s[i].id),
        map_of(s)[s[i].id] == s[i],
    decreases s.len(),
{
    if i < s.len() - 1 {
        lemma_unique_drop_last(s);
        lemma_map_of_index(s.drop_last(), i);
        assert(s.drop_last()[i] == s[i]);
        assert(s.last().id != s[i].id);
    }
}

proof fn lemma_map_of_absent(s: Seq<CustodyAccount>, id: u64)
    requires
        forall|i: int| 0 <= i < s.len() ==> s[i].id != id,
    ensures
        !map_of(s).contains_key(id),
    decreases s.len(),
{
    if s.len() > 0 {
        assert forall|i: int|
            0 <= i < s.drop_last().len() implies s.drop_last()[i].id != id by {
            assert(s.drop_last()[i] == s[i]);
        }
        lemma_map_of_absent(s.drop_last(), id);
        assert(s.last().id != id);
    }
}

proof fn lemma_unique_update(s: Seq<CustodyAccount>, i: int, a: CustodyAccount)
    requires
        unique_ids(s),
        0 <= i < s.len(),
        a.id == s[i].id,
    ensures
        unique_ids(s.update(i, a)),
{
    let t = s.update(i, a);
    assert forall|x: int, y: int| 0 <= x < y < t.len() implies t[x].id != t[y].id by {
        assert(s[x].id != s[y].id);
    }
}

proof fn lemma_unique_push(s: Seq<CustodyAccount>, a: CustodyAccount)
    requires
        unique_ids(s),
        forall|i: int| 0 <= i < s.len() ==> s[i].id != a.id,
    ensures
        unique_ids(s.push(a)),
{
    let t = s.push(a);
    assert forall|x: int, y: int| 0 <= x < y < t.len() implies t[x].id != t[y].id by {
        if y < s.len() {
            assert(s[x].id != s[y].id);
        } else {
            assert(t[y] == a);
            assert(t[x] == s[x]);
        }
    }
}

proof fn lemma_unique_remove(s: Seq<CustodyAccount>, i: int)
    requires
        unique_ids(s),
        0 <= i < s.len(),
    ensures
        unique_ids(s.remove(i)),
{
    let t = s.remove(i);
    assert forall|x: int, y: int| 0 <= x < y < t.len() implies t[x].id != t[y].id by {
        let sx: int = if x < i { x } else { x + 1 };
        let sy: int = if y < i { y } else { y + 1 };
        assert(t[x] == s[sx]);
        assert(t[y] == s[sy]);
        assert(s[sx].id != s[sy].id);
    }
}

proof fn lemma_map_of_update(s: Seq<CustodyAccount>, i: int, a: CustodyAccount)
    requires
        unique_ids(s),
        0 <= i < s.len(),
        a.id == s[i].id,
    ensures
        map_of(s.update(i, a)) == map_of(s).insert(a.id, a),
    decreases s.len(),
{
    let t = s.update(i, a);
    if i == s.len() - 1 {
        assert(t.drop_last() =~= s.drop_last());
        assert(t.last() == a);
        assert(map_of(s).insert(a.id, a) =~= map_of(s.drop_last()).insert(a.id, a));
    } else {
        lemma_unique_drop_last(s);
        assert(s.drop_last()[i] == s[i]);
        lemma_map_of_update(s.drop_last(), i, a);
        assert(t.drop_last() =~= s.drop_last().update(i, a));
        assert(t.last() == s.last());
        assert(s.last().id != a.id);
        assert(map_of(s.drop_last()).insert(a.id, a).insert(s.last().id, s.last())
            =~= map_of(s.drop_last()).insert(s.last().id, s.last()).insert(a.id, a));
    }
}

proof fn lemma_map_of_push(s: Seq<CustodyAccount>, a: CustodyAccount)
    ensures
        map_of(s.push(a)) == map_of(s).insert(a.id, a),
{
    assert(s.push(a).drop_last() =~= s);
    assert(s.push(a).last() == a);
}

proof fn lemma_map_of_remove(s: Seq<CustodyAccount>, i: int)
    requires
        unique_ids(s),
        0 <= i < s.len(),
    ensures
        map_of(s.remove(i)) == map_of(s).remove(s[i].id),
    decreases s.len(),
{
    lemma_unique_drop_last(s);
    if i == s.len() - 1 {
        assert(s.remove(i) =~= s.drop_last());
        assert forall|j: int|
            0 <= j < s.drop_last().len() implies s.drop_last()[j].id != s[i].id by {
            assert(s.drop_last()[j] == s[j]);
        }
        lemma_map_of_absent(s.drop_last(), s[i].id);
        assert(map_of(s).remove(s[i].id) =~= map_of(s.drop_last()));
    } else {
        assert(s.drop_last()[i] == s[i]);
        lemma_map_of_remove(s.drop_last(), i);
        let t = s.remove(i);
        assert(t.drop_last() =~= s.drop_last().remove(i));
        assert(t.last() == s.last());
        assert(s.last().id != s[i].id);
        assert(map_of(s.drop_last()).remove(s[i].id).insert(s.last().id, s.last())
            =~= map_of(s.drop_last()).insert(s.last().id, s.last()).remove(s[i].id));
    }
}

proof fn lemma_sum_nonneg(s: Seq<CustodyAccount>)
    ensures
        sum_balances(s) >= 0,
    decreases s.len(),
{
    if s.len() > 0 {
        lemma_sum_nonneg(s.drop_last());
    }
}

proof fn lemma_sum_update(s: Seq<CustodyAccount>, i: int, a: CustodyAccount)
    requires
        0 <= i < s.len(),
    ensures
        sum_balances(s.update(i, a)) == sum_balances(s) - s[i].balance + a.balance,
    decreases s.len(),
{
    let t = s.update(i, a);
    if i == s.len() - 1 {
        assert(t.drop_last() =~= s.drop_last());
        assert(t.last() == a);
    } else {
        assert(s.drop_last()[i] == s[i]);
        lemma_sum_update(s.drop_last(), i, a);
        assert(t.drop_last() =~= s.drop_last().update(i, a));
        assert(t.last() == s.last());
    }
}

proof fn lemma_sum_push(s: Seq<CustodyAccount>, a: CustodyAccount)
    ensures
        sum_balances(s.push(a)) == sum_balances(s) + a.balance,
{
    assert(s.push(a).drop_last() =~= s);
    assert(s.push(a).last() == a);
}

proof fn lemma_sum_remove(s: Seq<CustodyAccount>, i: int)
    requires
        0 <= i < s.len(),
    ensures
        sum_balances(s.remove(i)) == sum_balances(s) - s[i].balance,
    decreases s.len(),
{
    let t = s.remove(i);
    if i == s.len() - 1 {
        assert(t =~= s.drop_last());
    } else {
        assert(s.drop_last()[i] == s[i]);
        lemma_sum_remove(s.drop_last(), i);
        assert(t.drop_last() =~= s.drop_last().remove(i));
        assert(t.last() == s.last());
    }
}

proof fn lemma_sum_element(s: Seq<CustodyAccount>, i: int)
    requires
        0 <= i < s.len(),
    ensures
        s[i].balance <= sum_balances(s),
    decreases s.len(),
{
    if i == s.len() - 1 {
        lemma_sum_nonneg(s.drop_last());
    } else {
        assert(s.drop_last()[i] == s[i]);
        lemma_sum_element(s.drop_last(), i);
    }
}

proof fn lemma_sum_pair(s: Seq<CustodyAccount>, i: int, j: int)
    requires
        0 <= i < s.len(),
        0 <= j < s.len(),
        i != j,
    ensures
        s[i].balance + s[j].balance <= sum_balances(s),
    decreases s.len(),
{
    if j == s.len() - 1 {
        assert(s.drop_last()[i] == s[i]);
        lemma_sum_element(s.drop_last(), i);
    } else if i == s.len() - 1 {
        assert(s.drop_last()[j] == s[j]);
        lemma_sum_element(s.drop_last(), j);
    } else {
        assert(s.drop_last()[i] == s[i]);
        assert(s.drop_last()[j] == s[j]);
        lemma_sum_pair(s.drop_last(), i, j);
    }
}

/// The value ledger: custody accounts with unique identifiers, whose combined
/// balance never exceeds `u64::MAX`, so that no transfer within the ledger
/// can overflow its recipient.
pub struct Ledger {
    accounts: Vec<CustodyAccount>,
    total: u64,
}

impl View for Ledger {
    type V = Map<u64, CustodyAccount>;

    closed spec fn view(&self) -> Map<u64, CustodyAccount> {
        map_of(self.accounts@)
    }
}

impl Ledger {
    /// Internal representation invariant: identifiers are unique and `total`
    /// caches the combined balance.
    pub closed spec fn wf(self) -> bool {
        unique_ids(self.accounts@) && self.total as int == sum_balances(self.accounts@)
    }

    /// The total value currently in custody across all accounts.
    pub closed spec fn spec_supply(&self) -> u64 {
        self.total
    }

    /// The total value currently in custody across all accounts.
    #[verifier::when_used_as_spec(spec_supply)]
    pub fn supply(&self) -> (r: u64)
        ensures
            r == self.spec_supply(),
    {
        self.total
    }

    /// An empty ledger.
    pub fn new() -> (r: Ledger)
        ensures
            r.wf(),
            r@ == Map::<u64, CustodyAccount>::empty(),
            r.supply() == 0,
    {
        Ledger { accounts: Vec::new(), total: 0 }
    }

    /// The position of the account with this identifier, if any.
    fn find(&self, id: u64) -> (r: Option<usize>)
        ensures
            match r {
                Some(i) => i < self.accounts@.len() && self.accounts@[i as int].id == id,
                None => forall|j: int| 0 <= j < self.accounts@.len() ==> self.accounts@[j].id != id,
            },
    {
        let n = self.accounts.len();
        let mut i: usize = 0;
        while i < n
            invariant
                n == self.accounts@.len(),
                i <= n,
                forall|j: int| 0 <= j < i ==> self.accounts@[j].id != id,
            decreases n - i,
        {
            if self.accounts[i].id == id {
                return Some(i);
            }
            i = i + 1;
        }
        None
    }

    /// Reads the account with this identifier.
    pub fn account(&self, id: u64) -> (r: Option<CustodyAccount>)
        requires
            self.wf(),
        ensures
            match r {
                Some(a) => self@.contains_key(id) && a == self@[id] && a.id == id,
                None => !self@.contains_key(id),
            },
    {
        match self.find(id) {
            Some(i) => {
                proof {
                    lemma_map_of_index(self.accounts@, i as int);
                }
                Some(self.accounts[i])
            },
            None => {
                proof {
                    lemma_map_of_absent(self.accounts@, id);
                }
                None
            },
        }
    }

    /// Opens a fresh custody account. This is the host's allocation service:
    /// it refuses a duplicate identifier, and refuses to mint more value than
    /// the custodied total can represent.
    pub fn open_account(&mut self, id: u64, balance: u64, authority: Authority) -> (r: Result<
        (),
        LedgerError,
    >)
        requires
            old(self).wf(),
        ensures
            final(self).wf(),
            ({
                let (m, supply, rr) = open_step(old(self)@, old(self).supply(), id, balance, authority);
                final(self)@ == m && final(self).supply() == supply && r == rr
            }),
    {
        match self.find(id) {
            Some(i) => {
                proof {
                    lemma_map_of_index(self.accounts@, i as int);
                }
                Err(LedgerError::DuplicateAccount)
            },
            None => {
                proof {
                    lemma_map_of_absent(self.accounts@, id);
                }
                if balance > u64::MAX - self.total {
                    Err(LedgerError::SupplyExceeded)
                } else {
                    let a = CustodyAccount { id, balance, authority };
                    proof {
                        lemma_unique_push(self.accounts@, a);
                        lemma_map_of_push(self.accounts@, a);
                        lemma_sum_push(self.accounts@, a);
                    }
                    self.accounts.push(a);
                    self.total = self.total + balance;
                    Ok(())
                }
            },
        }
    }

    /// Moves `amount` from one custody account to another, if `presented` is
    /// the authority controlling the debited account and the funds suffice.
    /// No value is created or destroyed: the custodied total is unchanged.
    pub fn transfer(&mut self, from: u64, to: u64, amount: u64, presented: Authority) -> (r: Result<
        (),
        LedgerError,
    >)
        requires
            old(self).wf(),
        ensures
            final(self).wf(),
            final(self).supply() == old(self).supply(),
            ({
                let (m, rr) = transfer_step(old(self)@, from, to, amount, presented);
                final(self)@ == m && r == rr
            }),
    {
        let from_i = match self.find(from) {
            Some(i) => i,
            None => {
                proof {
                    lemma_map_of_absent(self.accounts@, from);
                }
                return Err(LedgerError::MissingAccount);
            },
        };
        let to_i = match self.find(to) {
            Some(i) => i,
            None => {
                proof {
                    lemma_map_of_absent(self.accounts@, to);
                }
                return Err(LedgerError::MissingAccount);
            },
        };
        proof {
            lemma_map_of_index(self.accounts@, from_i as int);
            lemma_map_of_index(self.accounts@, to_i as int);
        }
        let from_acct = self.accounts[from_i];
        if presented != from_acct.authority {
            return Err(LedgerError::Unauthorized);
        }
        if amount > from_acct.balance {
            return Err(LedgerError::InsufficientFunds);
        }
        proof {
            if from_i != to_i {
                lemma_sum_pair(self.accounts@, from_i as int, to_i as int);
            }
        }
        let debited = CustodyAccount {
            id: from_acct.id,
            balance: from_acct.balance - amount,
            authority: from_acct.authority,
        };
        proof {
            lemma_unique_update(self.accounts@, from_i as int, debited);
            lemma_map_of_update(self.accounts@, from_i as int, debited);
            lemma_sum_update(self.accounts@, from_i as int, debited);
        }
        self.accounts[from_i] = debited;
        proof {
            lemma_map_of_index(self.accounts@, to_i as int);
        }
        let to_acct = self.accounts[to_i];
        let credited = CustodyAccount {
            id: to_acct.id,
            balance: to_acct.balance + amount,
            authority: to_acct.authority,
        };
        proof {
            lemma_unique_update(self.accounts@, to_i as int, credited);
            lemma_map_of_update(self.accounts@, to_i as int, credited);
            lemma_sum_update(self.accounts@, to_i as int, credited);
        }
        self.accounts[to_i] = credited;
        Ok(())
    }

    /// Hands control of a custody account to a new authority, if `presented`
    /// is the authority currently controlling it.
    pub fn reassign_authority(&mut self, id: u64, new_authority: Authority, presented: Authority)
        -> (r: Result<(), LedgerError>)
        requires
            old(self).wf(),
        ensures
            final(self).wf(),
            final(self).supply() == old(self).supply(),
            ({
                let (m, rr) = reassign_step(old(self)@, id, new_authority, presented);
                final(self)@ == m && r == rr
            }),
    {
        let i = match self.find(id) {
            Some(i) => i,
            None => {
                proof {
                    lemma_map_of_absent(self.accounts@, id);
                }
                return Err(LedgerError::MissingAccount);
            },
        };
        proof {
            lemma_map_of_index(self.accounts@, i as int);
        }
        let a = self.accounts[i];
        if presented != a.authority {
            return Err(LedgerError::Unauthorized);
        }
        let reassigned = CustodyAccount { id: a.id, balance: a.balance, authority: new_authority };
        proof {
            lemma_unique_update(self.accounts@, i as int, reassigned);
            lemma_map_of_update(self.accounts@, i as int, reassigned);
            lemma_sum_update(self.accounts@, i as int, reassigned);
        }
        self.accounts[i] = reassigned;
        Ok(())
    }

    /// Closes an emptied custody account, removing it from the ledger. The
    /// host reclaims the account's storage to `_reclaim_to`; storage rent is a
    /// host resource outside the value model, so nothing else changes here.
    pub fn close(&mut self, id: u64, _reclaim_to: u64, presented: Authority) -> (r: Result<
        (),
        LedgerError,
    >)
        requires
            old(self).wf(),
        ensures
            final(self).wf(),
            final(self).supply() == old(self).supply(),
            ({
                let (m, rr) = close_step(old(self)@, id, presented);
                final(self)@ == m && r == rr
            }),
    {
        let i = match self.find(id) {
            Some(i) => i,
            None => {
                proof {
                    lemma_map_of_absent(self.accounts@, id);
                }
                return Err(LedgerError::MissingAccount);
            },
        };
        proof {
            lemma_map_of_index(self.accounts@, i as int);
        }
        let a = self.accounts[i];
        if presented != a.authority {
            return Err(LedgerError::Unauthorized);
        }
        if a.balance != 0 {
            return Err(LedgerError::NonZeroBalance);
        }
        proof {
            lemma_unique_remove(self.accounts@, i as int);
            lemma_map_of_remove(self.accounts@, i as int);
            lemma_sum_remove(self.accounts@, i as int);
        }
        let _ = self.accounts.remove(i);
        Ok(())
    }
}

} // verus!
