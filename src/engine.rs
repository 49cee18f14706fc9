use std::collections::HashMap;
use vstd::prelude::*;
use crate::error::{LedgerError, Violation};
use crate::models::{
    account_ok, empty_account, ClientAccount, Transaction, TransactionType,
};

verus! {

broadcast use vstd::std_specs::hash::group_hash_axioms;

pub type Accounts = Map<u16, ClientAccount>;

pub type Retained = Map<u32, Transaction>;

/// What the ledger holds after a record was applied, or why it was not.
pub type Outcome = Result<(Accounts, Retained), LedgerError>;

/// A retained record: it carries a positive amount.
pub open spec fn retained_ok(t: Transaction) -> bool {
    t.amount is Some && t.amount->0 > 0
}

/// Every account is well formed and stored under its own client id, and
/// every retained record carries a positive amount.
pub open spec fn ledger_ok(accounts: Accounts, txs: Retained) -> bool {
    &&& forall|c: u16| #[trigger]
        accounts.contains_key(c) ==> account_ok(accounts[c]) && accounts[c].client_id == c
    &&& forall|k: u32| #[trigger] txs.contains_key(k) ==> retained_ok(txs[k])
}

pub open spec fn deposit_step(accounts: Accounts, txs: Retained, t: Transaction) -> Outcome {
    let c = t.client_id;
    match t.amount {
        None => Err(
            LedgerError::StructuralInvalid {
                kind: TransactionType::Deposit,
                violation: Violation::MissingAmount,
            },
        ),
        Some(a) => if a <= 0 {
            Err(
                LedgerError::StructuralInvalid {
                    kind: TransactionType::Deposit,
                    violation: Violation::NonPositiveAmount,
                },
            )
        } else {
            let acct = if accounts.contains_key(c) {
                accounts[c]
            } else {
                empty_account(c)
            };
            if acct.locked {
                Err(LedgerError::AccountLocked { client_id: c })
            } else if acct.total + a > i64::MAX {
                Err(LedgerError::BalanceOverflow { client_id: c })
            } else {
                let next = ClientAccount {
                    available: (acct.available + a) as i64,
                    total: (acct.total + a) as i64,
                    ..acct
                };
                Ok((accounts.insert(c, next), txs.insert(t.tx_id, t)))
            }
        },
    }
}

pub open spec fn withdrawal_step(accounts: Accounts, txs: Retained, t: Transaction) -> Outcome {
    let c = t.client_id;
    match t.amount {
        None => Err(
            LedgerError::StructuralInvalid {
                kind: TransactionType::Withdrawal,
                violation: Violation::MissingAmount,
            },
        ),
        Some(a) => if a <= 0 {
            Err(
                LedgerError::StructuralInvalid {
                    kind: TransactionType::Withdrawal,
                    violation: Violation::NonPositiveAmount,
                },
            )
        } else if !accounts.contains_key(c) {
            Err(LedgerError::AccountNotFound { client_id: c })
        } else {
            let acct = accounts[c];
            if acct.locked {
                Err(LedgerError::AccountLocked { client_id: c })
            } else if acct.available < a {
                Err(
                    LedgerError::InsufficientFunds {
                        kind: TransactionType::Withdrawal,
                        available: acct.available,
                        requested: a,
                    },
                )
            } else {
                let next = ClientAccount {
                    available: (acct.available - a) as i64,
                    total: (acct.total - a) as i64,
                    ..acct
                };
                Ok((accounts.insert(c, next), txs.insert(t.tx_id, t)))
            }
        },
    }
}

/// The account and the amount that a dispute, resolve or chargeback acts on.
pub open spec fn reference_step(accounts: Accounts, txs: Retained, t: Transaction) -> Result<
    (ClientAccount, i64),
    LedgerError,
> {
    if !txs.contains_key(t.tx_id) {
        Err(LedgerError::ReferenceNotFound { kind: t.tx_type, tx_id: t.tx_id })
    } else if txs[t.tx_id].client_id != t.client_id {
        Err(
            LedgerError::ReferenceMismatch {
                kind: t.tx_type,
                expected: txs[t.tx_id].client_id,
                got: t.client_id,
            },
        )
    } else if !accounts.contains_key(t.client_id) {
        Err(LedgerError::AccountNotFound { client_id: t.client_id })
    } else {
        match txs[t.tx_id].amount {
            None => Err(LedgerError::ReferenceWithoutAmount { tx_id: t.tx_id }),
            Some(a) => Ok((accounts[t.client_id], a)),
        }
    }
}

pub open spec fn dispute_step(accounts: Accounts, txs: Retained, t: Transaction) -> Outcome {
    match reference_step(accounts, txs, t) {
        Err(e) => Err(e),
        Ok((acct, a)) => if acct.available < a {
            Err(
                LedgerError::InsufficientFunds {
                    kind: TransactionType::Dispute,
                    available: acct.available,
                    requested: a,
                },
            )
        } else {
            let next = ClientAccount {
                available: (acct.available - a) as i64,
                held: (acct.held + a) as i64,
                ..acct
            };
            Ok((accounts.insert(t.client_id, next), txs))
        },
    }
}

pub open spec fn resolve_step(accounts: Accounts, txs: Retained, t: Transaction) -> Outcome {
    match reference_step(accounts, txs, t) {
        Err(e) => Err(e),
        Ok((acct, a)) => if acct.held < a {
            Err(
                LedgerError::InsufficientHeld {
                    kind: TransactionType::Resolve,
                    held: acct.held,
                    requested: a,
                },
            )
        } else {
            let next = ClientAccount {
                available: (acct.available + a) as i64,
                held: (acct.held - a) as i64,
                ..acct
            };
            Ok((accounts.insert(t.client_id, next), txs))
        },
    }
}

pub open spec fn chargeback_step(accounts: Accounts, txs: Retained, t: Transaction) -> Outcome {
    match reference_step(accounts, txs, t) {
        Err(e) => Err(e),
        Ok((acct, a)) => if acct.held < a {
            Err(
                LedgerError::InsufficientHeld {
                    kind: TransactionType::Chargeback,
                    held: acct.held,
                    requested: a,
                },
            )
        } else {
            let next = ClientAccount {
                held: (acct.held - a) as i64,
                total: (acct.total - a) as i64,
                locked: true,
                ..acct
            };
            Ok((accounts.insert(t.client_id, next), txs))
        },
    }
}

/// Applying one record to the ledger: a locked account refuses every record,
/// otherwise the record's kind decides.
pub open spec fn step(accounts: Accounts, txs: Retained, t: Transaction) -> Outcome {
    if accounts.contains_key(t.client_id) && accounts[t.client_id].locked {
        Err(LedgerError::AccountLocked { client_id: t.client_id })
    } else {
        match t.tx_type {
            TransactionType::Deposit => deposit_step(accounts, txs, t),
            TransactionType::Withdrawal => withdrawal_step(accounts, txs, t),
            TransactionType::Dispute => dispute_step(accounts, txs, t),
            TransactionType::Resolve => resolve_step(accounts, txs, t),
            TransactionType::Chargeback => chargeback_step(accounts, txs, t),
        }
    }
}

/// The accounts and retained records per client id and transaction id.
///
/// No dispute status is kept per record: a deposit can be disputed again, or
/// resolved or charged back without a dispute, wherever the balances allow it.
/// A deposit or withdrawal whose id was seen before replaces the retained
/// record under that id.
pub struct TransactionEngine {
    pub accounts: HashMap<u16, ClientAccount>,
    pub transactions: HashMap<u32, Transaction>,
}

impl TransactionEngine {
    pub open spec fn wf(&self) -> bool {
        ledger_ok(self.accounts@, self.transactions@)
    }

    /// Whether applying `t` to `old` led to `new` and returned `r`.
    pub open spec fn applied(
        old: &TransactionEngine,
        new: &TransactionEngine,
        outcome: Outcome,
        r: Result<(), LedgerError>,
    ) -> bool {
        match outcome {
            Ok((accounts, txs)) => {
                &&& r is Ok
                &&& new.accounts@ == accounts
                &&& new.transactions@ == txs
            },
            Err(e) => {
                &&& r == Err::<(), LedgerError>(e)
                &&& new.accounts@ == old.accounts@
                &&& new.transactions@ == old.transactions@
            },
        }
    }

    /// An engine with no accounts and no retained records.
    pub fn new() -> (r: TransactionEngine)
        ensures
            r.accounts@ == Map::<u16, ClientAccount>::empty(),
            r.transactions@ == Map::<u32, Transaction>::empty(),
            r.wf(),
    {
        TransactionEngine { accounts: HashMap::new(), transactions: HashMap::new() }
    }

    /// The account of `client_id`, if it has one.
    fn lookup(&self, client_id: u16) -> (r: Option<ClientAccount>)
        ensures
            r == (if self.accounts@.contains_key(client_id) {
                Some(self.accounts@[client_id])
            } else {
                None::<ClientAccount>
            }),
    {
        match self.accounts.get(&client_id) {
            Some(a) => Some(*a),
            None => None,
        }
    }

    /// Applies one record: on success the ledger moves to the next state that
    /// `step` gives, on failure it stays as it was and the reason is returned.
    pub fn handle_transaction(&mut self, transaction: Transaction) -> (r: Result<(), LedgerError>)
        requires
            old(self).wf(),
        ensures
            Self::applied(
                old(self),
                final(self),
                step(old(self).accounts@, old(self).transactions@, transaction),
                r,
            ),
            final(self).wf(),
    {
        proof {
            lemma_step_preserves_ledger_ok(self.accounts@, self.transactions@, transaction);
        }
        if let Some(account) = self.lookup(transaction.client_id) {
            if account.locked {
                return Err(LedgerError::AccountLocked { client_id: transaction.client_id });
            }
        }
        match transaction.tx_type {
            TransactionType::Deposit => self.handle_deposit(transaction),
            TransactionType::Withdrawal => self.handle_withdrawal(transaction),
            TransactionType::Dispute => self.handle_dispute(transaction),
            TransactionType::Resolve => self.handle_resolve(transaction),
            TransactionType::Chargeback => self.handle_chargeback(transaction),
        }
    }

    fn handle_deposit(&mut self, transaction: Transaction) -> (r: Result<(), LedgerError>)
        requires
            old(self).wf(),
        ensures
            Self::applied(
                old(self),
                final(self),
                deposit_step(old(self).accounts@, old(self).transactions@, transaction),
                r,
            ),
    {
        let c = transaction.client_id;
        let amount = match transaction.amount {
            Some(a) => a,
            None => {
                return Err(
                    LedgerError::StructuralInvalid {
                        kind: TransactionType::Deposit,
                        violation: Violation::MissingAmount,
                    },
                );
            },
        };
        if amount <= 0 {
            return Err(
                LedgerError::StructuralInvalid {
                    kind: TransactionType::Deposit,
                    violation: Violation::NonPositiveAmount,
                },
            );
        }
        let account = match self.lookup(c) {
            Some(a) => a,
            None => ClientAccount::new(c),
        };
        if account.locked {
            return Err(LedgerError::AccountLocked { client_id: c });
        }
        if account.total > i64::MAX - amount {
            return Err(LedgerError::BalanceOverflow { client_id: c });
        }
        let next = ClientAccount {
            available: account.available + amount,
            total: account.total + amount,
            ..account
        };
        self.accounts.insert(c, next);
        self.transactions.insert(transaction.tx_id, transaction);
        Ok(())
    }

    fn handle_withdrawal(&mut self, transaction: Transaction) -> (r: Result<(), LedgerError>)
        requires
            old(self).wf(),
        ensures
            Self::applied(
                old(self),
                final(self),
                withdrawal_step(old(self).accounts@, old(self).transactions@, transaction),
                r,
            ),
    {
        let c = transaction.client_id;
        let amount = match transaction.amount {
            Some(a) => a,
            None => {
                return Err(
                    LedgerError::StructuralInvalid {
                        kind: TransactionType::Withdrawal,
                        violation: Violation::MissingAmount,
                    },
                );
            },
        };
        if amount <= 0 {
            return Err(
                LedgerError::StructuralInvalid {
                    kind: TransactionType::Withdrawal,
                    violation: Violation::NonPositiveAmount,
                },
            );
        }
        let account = match self.lookup(c) {
            Some(a) => a,
            None => {
                return Err(LedgerError::AccountNotFound { client_id: c });
            },
        };
        if account.locked {
            return Err(LedgerError::AccountLocked { client_id: c });
        }
        if account.available < amount {
            return Err(
                LedgerError::InsufficientFunds {
                    kind: TransactionType::Withdrawal,
                    available: account.available,
                    requested: amount,
                },
            );
        }
        let next = ClientAccount {
            available: account.available - amount,
            total: account.total - amount,
            ..account
        };
        self.accounts.insert(c, next);
        self.transactions.insert(transaction.tx_id, transaction);
        Ok(())
    }

    /// Finds the account and the amount that `transaction` refers to.
    fn referenced(&self, transaction: &Transaction) -> (r: Result<(ClientAccount, i64), LedgerError>)
        ensures
            r == reference_step(self.accounts@, self.transactions@, *transaction),
    {
        let tx = match self.transactions.get(&transaction.tx_id) {
            Some(tx) => *tx,
            None => {
                return Err(
                    LedgerError::ReferenceNotFound {
                        kind: transaction.tx_type,
                        tx_id: transaction.tx_id,
                    },
                );
            },
        };
        if tx.client_id != transaction.client_id {
            return Err(
                LedgerError::ReferenceMismatch {
                    kind: transaction.tx_type,
                    expected: tx.client_id,
                    got: transaction.client_id,
                },
            );
        }
        let account = match self.lookup(tx.client_id) {
            Some(a) => a,
            None => {
                return Err(LedgerError::AccountNotFound { client_id: tx.client_id });
            },
        };
        match tx.amount {
            Some(a) => Ok((account, a)),
            None => Err(LedgerError::ReferenceWithoutAmount { tx_id: transaction.tx_id }),
        }
    }

    fn handle_dispute(&mut self, transaction: Transaction) -> (r: Result<(), LedgerError>)
        requires
            old(self).wf(),
        ensures
            Self::applied(
                old(self),
                final(self),
                dispute_step(old(self).accounts@, old(self).transactions@, transaction),
                r,
            ),
    {
        let (account, amount) = match self.referenced(&transaction) {
            Ok(found) => found,
            Err(e) => {
                return Err(e);
            },
        };
        if account.available < amount {
            return Err(
                LedgerError::InsufficientFunds {
                    kind: TransactionType::Dispute,
                    available: account.available,
                    requested: amount,
                },
            );
        }
        let next = ClientAccount {
            available: account.available - amount,
            held: account.held + amount,
            ..account
        };
        self.accounts.insert(transaction.client_id, next);
        Ok(())
    }

    fn handle_resolve(&mut self, transaction: Transaction) -> (r: Result<(), LedgerError>)
        requires
            old(self).wf(),
        ensures
            Self::applied(
                old(self),
                final(self),
                resolve_step(old(self).accounts@, old(self).transactions@, transaction),
                r,
            ),
    {
        let (account, amount) = match self.referenced(&transaction) {
            Ok(found) => found,
            Err(e) => {
                return Err(e);
            },
        };
        if account.held < amount {
            return Err(
                LedgerError::InsufficientHeld {
                    kind: TransactionType::Resolve,
                    held: account.held,
                    requested: amount,
                },
            );
        }
        let next = ClientAccount {
            available: account.available + amount,
            held: account.held - amount,
            ..account
        };
        self.accounts.insert(transaction.client_id, next);
        Ok(())
    }

    fn handle_chargeback(&mut self, transaction: Transaction) -> (r: Result<(), LedgerError>)
        requires
            old(self).wf(),
        ensures
            Self::applied(
                old(self),
                final(self),
                chargeback_step(old(self).accounts@, old(self).transactions@, transaction),
                r,
            ),
    {
        let (account, amount) = match self.referenced(&transaction) {
            Ok(found) => found,
            Err(e) => {
                return Err(e);
            },
        };
        if account.held < amount {
            return Err(
                LedgerError::InsufficientHeld {
                    kind: TransactionType::Chargeback,
                    held: account.held,
                    requested: amount,
                },
            );
        }
        let next = ClientAccount {
            held: account.held - amount,
            total: account.total - amount,
            locked: true,
            ..account
        };
        self.accounts.insert(transaction.client_id, next);
        Ok(())
    }
}

/// Every record that is applied keeps each account's total equal to its
/// available plus held funds, keeps both of those non-negative, and keeps
/// every retained record's amount positive.
pub proof fn lemma_step_preserves_ledger_ok(accounts: Accounts, txs: Retained, t: Transaction)
    requires
        ledger_ok(accounts, txs),
    ensures
        step(accounts, txs, t) matches Ok((a, r)) ==> ledger_ok(a, r),
{
    match step(accounts, txs, t) {
        Ok((a, r)) => {
            assert forall|c: u16| #[trigger] a.contains_key(c) implies account_ok(a[c])
                && a[c].client_id == c by {
                if c != t.client_id {
                    assert(accounts.contains_key(c));
                }
            }
            assert forall|k: u32| #[trigger] r.contains_key(k) implies retained_ok(r[k]) by {
                if k != t.tx_id || !(t.tx_type is Deposit || t.tx_type is Withdrawal) {
                    assert(txs.contains_key(k));
                }
            }
        },
        Err(_) => {},
    }
}

/// The ledger after applying `ts` in order, each record that is refused
/// leaving it as it was.
pub open spec fn run(accounts: Accounts, txs: Retained, ts: Seq<Transaction>) -> (Accounts, Retained)
    decreases ts.len(),
{
    if ts.len() == 0 {
        (accounts, txs)
    } else {
        let (a, r) = run(accounts, txs, ts.drop_last());
        match step(a, r, ts.last()) {
            Ok(next) => next,
            Err(_) => (a, r),
        }
    }
}

/// Locking is permanent: once a client's account is locked, it is still
/// there and locked after any sequence of records, and the next record for
/// that client, a deposit or withdrawal among them, is refused with
/// `AccountLocked`.
pub proof fn lemma_lock_is_permanent(
    accounts: Accounts,
    txs: Retained,
    ts: Seq<Transaction>,
    c: u16,
    t: Transaction,
)
    requires
        accounts.contains_key(c),
        accounts[c].locked,
    ensures
        run(accounts, txs, ts).0.contains_key(c),
        run(accounts, txs, ts).0[c].locked,
        t.client_id == c ==> step(run(accounts, txs, ts).0, run(accounts, txs, ts).1, t)
            == Err::<(Accounts, Retained), LedgerError>(
            LedgerError::AccountLocked { client_id: c },
        ),
    decreases ts.len(),
{
    if ts.len() > 0 {
        lemma_lock_is_permanent(accounts, txs, ts.drop_last(), c, ts.last());
        let (a, r) = run(accounts, txs, ts.drop_last());
        lemma_step_keeps_lock(a, r, ts.last(), c);
    }
}

/// A single record never unlocks an account.
pub proof fn lemma_step_keeps_lock(accounts: Accounts, txs: Retained, t: Transaction, c: u16)
    requires
        accounts.contains_key(c),
        accounts[c].locked,
    ensures
        step(accounts, txs, t) matches Ok((a, r)) ==> a.contains_key(c) && a[c].locked,
{
}

/// No dispute status is kept: disputing the same deposit twice, while the
/// available funds cover its amount both times, moves that amount from
/// available to held twice and leaves the total as it was.
pub proof fn lemma_repeated_dispute_deducts_twice(accounts: Accounts, txs: Retained, t: Transaction)
    requires
        ledger_ok(accounts, txs),
        t.tx_type is Dispute,
        txs.contains_key(t.tx_id),
        txs[t.tx_id].client_id == t.client_id,
        accounts.contains_key(t.client_id),
        !accounts[t.client_id].locked,
        accounts[t.client_id].available >= 2 * txs[t.tx_id].amount->0,
    ensures
        ({
            let c = t.client_id;
            let amt = txs[t.tx_id].amount->0;
            match step(accounts, txs, t) {
                Ok((a1, r1)) => match step(a1, r1, t) {
                    Ok((a2, r2)) => {
                        &&& a2[c].available == accounts[c].available - 2 * amt
                        &&& a2[c].held == accounts[c].held + 2 * amt
                        &&& a2[c].total == accounts[c].total
                        &&& !a2[c].locked
                    },
                    Err(_) => false,
                },
                Err(_) => false,
            }
        }),
{
    assert(accounts.contains_key(t.client_id));
    assert(txs.contains_key(t.tx_id));
}

} // verus!
