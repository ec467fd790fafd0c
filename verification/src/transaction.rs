//! Transactions: single-use, ending in exactly one terminal call.
//!
//! A transaction is known to the client by its handle, tagged with its
//! parent database's handle. Commit publishes the transaction's working
//! stores into the committed stores; rollback discards them. Either
//! way the transaction is no longer active, and every later terminal
//! call on it is refused.

use vstd::prelude::*;

use crate::context::Context;
use crate::engine::Engine;
use crate::engine::EngineModel;
use crate::engine::TXN_ACTION_COMMIT;
use crate::engine::TXN_ACTION_ROLLBACK;
use crate::engine::TxnRecModel;
use crate::engine::TxnState;
use crate::engine::spec_find_txn;
use crate::engine::spec_publish;

verus! {

/// Represents a transaction.
#[derive(Debug, Clone)]
pub struct Transaction {
    /// The transaction ID.
    pub id: String,
    /// The database ID associated with the transaction.
    pub database_id: String,
}

impl Transaction {
    /// Creates a new transaction object around an existing handle.
    pub fn new(id: String, database_id: String) -> (r: Transaction)
        ensures
            r.id == id,
            r.database_id == database_id,
    {
        Transaction { id, database_id }
    }

    /// Commits the transaction: its working stores become the committed
    /// stores, and the transaction ends. Succeeds exactly on a known,
    /// still-active transaction.
    pub fn commit(&self, eng: &mut Engine, _ctx: &Context) -> (r: Result<(), String>)
        requires
            old(eng)@.wf(),
        ensures
            final(eng)@.wf(),
            (match spec_find_txn(old(eng)@.transactions, self.id@) {
                None => (r matches Err(e) && e@ == "unknown transaction"@) && final(eng)@ == old(eng)@,
                Some(t) => if old(eng)@.transactions[t].state == TxnState::Active {
                    (r matches Ok(u) && u == ()) && final(eng)@ == (EngineModel {
                        transactions: old(eng)@.transactions.update(
                            t,
                            (TxnRecModel { state: TxnState::Committed, ..old(eng)@.transactions[t] }),
                        ),
                        stores: spec_publish(
                            old(eng)@.stores,
                            old(eng)@.transactions[t].database_id,
                            old(eng)@.transactions[t].working,
                        ),
                        ..old(eng)@
                    })
                } else {
                    (r matches Err(e) && e@ == "transaction is not active"@) && final(eng)@ == old(eng)@
                },
            }),
    {
        match eng.manage_transaction(_ctx.id, TXN_ACTION_COMMIT, &self.id) {
            Some(e) => Err(e),
            None => Ok(()),
        }
    }

    /// Rolls back the transaction: its working stores are discarded and
    /// the transaction ends. Succeeds exactly on a known, still-active
    /// transaction.
    pub fn rollback(&self, eng: &mut Engine, _ctx: &Context) -> (r: Result<(), String>)
        requires
            old(eng)@.wf(),
        ensures
            final(eng)@.wf(),
            (match spec_find_txn(old(eng)@.transactions, self.id@) {
                None => (r matches Err(e) && e@ == "unknown transaction"@) && final(eng)@ == old(eng)@,
                Some(t) => if old(eng)@.transactions[t].state == TxnState::Active {
                    (r matches Ok(u) && u == ()) && final(eng)@ == (EngineModel {
                        transactions: old(eng)@.transactions.update(
                            t,
                            (TxnRecModel { state: TxnState::RolledBack, ..old(eng)@.transactions[t] }),
                        ),
                        ..old(eng)@
                    })
                } else {
                    (r matches Err(e) && e@ == "transaction is not active"@) && final(eng)@ == old(eng)@
                },
            }),
    {
        match eng.manage_transaction(_ctx.id, TXN_ACTION_ROLLBACK, &self.id) {
            Some(e) => Err(e),
            None => Ok(()),
        }
    }
}

} // verus!
