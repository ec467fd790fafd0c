//! Databases: creation options and the client-side database object.
//!
//! A database is engine-side state the client knows only by its handle.
//! Creation options are captured once, at creation time; afterwards the
//! client holds nothing but the identifier.

use vstd::prelude::*;

use crate::btree::Btree;
use crate::btree::BtreeOptions;
use crate::context::Context;
use crate::engine::AuxHandleModel;
use crate::engine::DB_ACTION_BEGIN_TRANSACTION;
use crate::engine::DB_ACTION_NEW_DATABASE;
use crate::engine::DB_ACTION_OPEN_MODEL_STORE;
use crate::engine::DB_ACTION_OPEN_SEARCH;
use crate::engine::DB_ACTION_OPEN_VECTOR_STORE;
use crate::engine::DB_ACTION_REMOVE_BTREE;
use crate::engine::DatabasePayload;
use crate::engine::DatabaseRecModel;
use crate::engine::Engine;
use crate::engine::EngineModel;
use crate::engine::TxnRecModel;
use crate::engine::TxnState;
use crate::engine::spec_find_db;
use crate::engine::spec_find_store;
use crate::engine::spec_find_txn;
use crate::envelope::decode_handle;
use crate::handles::spec_handle;
use crate::model_store::ModelStore;
use crate::search::Search;
use crate::transaction::Transaction;
use crate::vector_store::VectorStore;

verus! {

/// Represents the type of database.
#[derive(Debug, Clone, Copy, PartialEq, Eq, Structural)]
pub enum DatabaseType {
    /// A standalone database.
    Standalone,
    /// A clustered database, backed by the cluster store connection.
    Clustered,
}

/// Represents the type of L2 cache.
#[derive(Debug, Clone, Copy, PartialEq, Eq, Structural)]
pub enum L2CacheType {
    /// No L2 cache.
    NoCache,
    /// In-memory L2 cache.
    InMemory,
    /// Distributed L2 cache, backed by the cache connection.
    Redis,
}

/// Options for creating a database.
#[derive(Debug, Clone)]
pub struct DatabaseOptions {
    /// The folders where the stores are located.
    pub stores_folders: Option<Vec<String>>,
    /// The keyspace for the database (cluster backend only).
    pub keyspace: Option<String>,
    /// The type of L2 cache.
    pub cache_type: L2CacheType,
    /// The type of database.
    pub db_type: DatabaseType,
}

impl Default for DatabaseOptions {
    /// The default options: a standalone database with an in-memory
    /// cache and no configured folders or keyspace.
    fn default() -> (r: DatabaseOptions)
        ensures
            r.stores_folders is None,
            r.keyspace is None,
            r.cache_type == L2CacheType::InMemory,
            r.db_type == DatabaseType::Standalone,
    {
        DatabaseOptions {
            stores_folders: None,
            keyspace: None,
            cache_type: L2CacheType::InMemory,
            db_type: DatabaseType::Standalone,
        }
    }
}

/// Represents a database: client-side, nothing but its handle.
#[derive(Debug, Clone)]
pub struct Database {
    /// The database ID.
    pub id: String,
}

impl Database {
    /// Creates a new database and validates the answered handle.
    /// Refused while a backend connection the options call for is not
    /// open.
    pub fn new(eng: &mut Engine, ctx: &Context, options: DatabaseOptions) -> (r: Result<
        Database,
        String,
    >)
        requires
            old(eng)@.wf(),
        ensures
            final(eng)@.wf(),
            (if options.cache_type == L2CacheType::Redis && !old(eng)@.redis_open {
                final(eng)@ == old(eng)@ && (r matches Err(e) && e@
                    == "cache connection is not open"@)
            } else if options.db_type == DatabaseType::Clustered && !old(eng)@.cassandra_open {
                final(eng)@ == old(eng)@ && (r matches Err(e) && e@
                    == "cluster connection is not open"@)
            } else if old(eng)@.next_handle >= u64::MAX {
                final(eng)@ == old(eng)@ && (r matches Err(e) && e@ == "handle space exhausted"@)
            } else {
                (r matches Ok(d) && d.id@ == spec_handle(old(eng)@.next_handle as nat)) && final(
                    eng)@ == (EngineModel {
                    next_handle: old(eng)@.next_handle + 1,
                    databases: old(eng)@.databases.push(
                        DatabaseRecModel {
                            id: spec_handle(old(eng)@.next_handle as nat),
                            id_num: old(eng)@.next_handle,
                            cache_type: options.cache_type,
                            db_type: options.db_type,
                        },
                    ),
                    ..old(eng)@
                })
            }),
    {
        proof {
            reveal_strlit("cache connection is not open");
            reveal_strlit("cluster connection is not open");
            reveal_strlit("handle space exhausted");
            if !(options.cache_type == L2CacheType::Redis && !old(eng)@.redis_open) && !(
            options.db_type == DatabaseType::Clustered && !old(eng)@.cassandra_open) && old(
                eng)@.next_handle < u64::MAX {
                crate::handles::lemma_handle_is_simple(old(eng)@.next_handle as nat);
            }
        }
        let target = String::new();
        let raw = eng.manage_database(
            ctx.id,
            DB_ACTION_NEW_DATABASE,
            &target,
            &DatabasePayload::Options(options),
        );
        match decode_handle(raw) {
            Ok(Some(id)) => Ok(Database { id }),
            Ok(None) => Err(String::from_str("no database handle returned")),
            Err(e) => Err(e),
        }
    }

    /// Begins a new transaction against this database: a fresh handle
    /// denoting an active transaction with no working stores yet.
    pub fn begin_transaction(&self, eng: &mut Engine, ctx: &Context) -> (r: Result<
        Transaction,
        String,
    >)
        requires
            old(eng)@.wf(),
        ensures
            final(eng)@.wf(),
            (match spec_find_db(old(eng)@.databases, self.id@) {
                None => final(eng)@ == old(eng)@ && (r matches Err(e) && e@
                    == "unknown database"@),
                Some(_) => if old(eng)@.next_handle >= u64::MAX {
                    final(eng)@ == old(eng)@ && (r matches Err(e) && e@
                        == "handle space exhausted"@)
                } else {
                    (r matches Ok(t) && t.id@ == spec_handle(old(eng)@.next_handle as nat)
                        && t.database_id@ == self.id@) && final(eng)@ == (EngineModel {
                        next_handle: old(eng)@.next_handle + 1,
                        transactions: old(eng)@.transactions.push(
                            TxnRecModel {
                                id: spec_handle(old(eng)@.next_handle as nat),
                                id_num: old(eng)@.next_handle,
                                database_id: self.id@,
                                state: TxnState::Active,
                                working: Seq::empty(),
                            },
                        ),
                        ..old(eng)@
                    })
                },
            }),
    {
        proof {
            reveal_strlit("unknown database");
            reveal_strlit("handle space exhausted");
            if spec_find_db(old(eng)@.databases, self.id@) is Some && old(eng)@.next_handle
                < u64::MAX {
                crate::handles::lemma_handle_is_simple(old(eng)@.next_handle as nat);
            }
        }
        let raw = eng.manage_database(
            ctx.id,
            DB_ACTION_BEGIN_TRANSACTION,
            &self.id,
            &DatabasePayload::Empty,
        );
        match decode_handle(raw) {
            Ok(Some(id)) => Ok(Transaction::new(id, self.id.clone())),
            Ok(None) => Err(String::from_str("no transaction handle returned")),
            Err(e) => Err(e),
        }
    }

    /// Creates a new B-Tree under the transaction.
    pub fn new_btree(
        &self,
        eng: &mut Engine,
        ctx: &Context,
        name: &str,
        trans: &Transaction,
        options: Option<BtreeOptions>,
    ) -> (r: Result<Btree, String>)
        requires
            old(eng)@.wf(),
        ensures
            final(eng)@.wf(),
            crate::btree::post_create_open(
                old(eng)@,
                final(eng)@,
                name@,
                trans.id@,
                (match options {
                    Some(o) => o.is_unique,
                    None => false,
                }),
                (match options {
                    Some(o) => o.spec_ispec(),
                    None => None,
                }),
                true,
                r,
            ),
    {
        Btree::create(eng, ctx, name, trans, options)
    }

    /// Opens an existing B-Tree under the transaction.
    pub fn open_btree(
        &self,
        eng: &mut Engine,
        ctx: &Context,
        name: &str,
        trans: &Transaction,
        options: Option<BtreeOptions>,
    ) -> (r: Result<Btree, String>)
        requires
            old(eng)@.wf(),
        ensures
            final(eng)@.wf(),
            crate::btree::post_create_open(
                old(eng)@,
                final(eng)@,
                name@,
                trans.id@,
                (match options {
                    Some(o) => o.is_unique,
                    None => false,
                }),
                (match options {
                    Some(o) => o.spec_ispec(),
                    None => None,
                }),
                false,
                r,
            ),
    {
        Btree::open(eng, ctx, name, trans, options)
    }

    /// Removes a committed B-Tree store from this database; removing an
    /// unknown name changes nothing.
    pub fn remove_btree(&self, eng: &mut Engine, ctx: &Context, name: &str) -> (r: Result<
        (),
        String,
    >)
        requires
            old(eng)@.wf(),
        ensures
            final(eng)@.wf(),
            (r matches Ok(u) && u == ()),
            final(eng)@ == (match spec_find_store(old(eng)@.stores, self.id@, name@) {
                Some(i) => (EngineModel { stores: old(eng)@.stores.remove(i), ..old(eng)@ }),
                None => old(eng)@,
            }),
    {
        let payload = DatabasePayload::Store {
            name: String::from_str(name),
            transaction_id: String::new(),
        };
        let raw = eng.manage_database(ctx.id, DB_ACTION_REMOVE_BTREE, &self.id, &payload);
        match raw {
            None => Ok(()),
            Some(_) => Ok(()),
        }
    }

    /// Opens a vector store handle under the transaction.
    pub fn open_vector_store(&self, eng: &mut Engine, ctx: &Context, name: &str, trans: &Transaction) -> (r: Result<
        VectorStore,
        String,
    >)
        requires
            old(eng)@.wf(),
        ensures
            final(eng)@.wf(),
            (match spec_find_txn(old(eng)@.transactions, trans.id@) {
                None => final(eng)@ == old(eng)@ && (r matches Err(e) && e@
                    == "unknown transaction"@),
                Some(_) => if old(eng)@.next_handle >= u64::MAX {
                    final(eng)@ == old(eng)@ && (r matches Err(e) && e@
                        == "handle space exhausted"@)
                } else {
                    (r matches Ok(v) && v.id@ == spec_handle(old(eng)@.next_handle as nat)
                        && v.transaction_id@ == trans.id@) && final(eng)@ == (EngineModel {
                        next_handle: old(eng)@.next_handle + 1,
                        vector_handles: old(eng)@.vector_handles.push(
                            AuxHandleModel {
                                id: spec_handle(old(eng)@.next_handle as nat),
                                id_num: old(eng)@.next_handle,
                                transaction_id: trans.id@,
                                name: name@,
                            },
                        ),
                        ..old(eng)@
                    })
                },
            }),
    {
        proof {
            reveal_strlit("unknown transaction");
            reveal_strlit("handle space exhausted");
            if spec_find_txn(old(eng)@.transactions, trans.id@) is Some && old(eng)@.next_handle
                < u64::MAX {
                crate::handles::lemma_handle_is_simple(old(eng)@.next_handle as nat);
            }
        }
        let payload = DatabasePayload::Store {
            name: String::from_str(name),
            transaction_id: trans.id.clone(),
        };
        let raw = eng.manage_database(ctx.id, DB_ACTION_OPEN_VECTOR_STORE, &self.id, &payload);
        match decode_handle(raw) {
            Ok(Some(id)) => Ok(VectorStore { id, transaction_id: trans.id.clone() }),
            Ok(None) => Err(String::from_str("no vector store handle returned")),
            Err(e) => Err(e),
        }
    }

    /// Opens a search index handle under the transaction.
    pub fn open_search(&self, eng: &mut Engine, ctx: &Context, name: &str, trans: &Transaction) -> (
        r: Result<Search, String>)
        requires
            old(eng)@.wf(),
        ensures
            final(eng)@.wf(),
            (match spec_find_txn(old(eng)@.transactions, trans.id@) {
                None => final(eng)@ == old(eng)@ && (r matches Err(e) && e@
                    == "unknown transaction"@),
                Some(_) => if old(eng)@.next_handle >= u64::MAX {
                    final(eng)@ == old(eng)@ && (r matches Err(e) && e@
                        == "handle space exhausted"@)
                } else {
                    (r matches Ok(v) && v.id@ == spec_handle(old(eng)@.next_handle as nat))
                        && final(eng)@ == (EngineModel {
                        next_handle: old(eng)@.next_handle + 1,
                        search_handles: old(eng)@.search_handles.push(
                            AuxHandleModel {
                                id: spec_handle(old(eng)@.next_handle as nat),
                                id_num: old(eng)@.next_handle,
                                transaction_id: trans.id@,
                                name: name@,
                            },
                        ),
                        ..old(eng)@
                    })
                },
            }),
    {
        proof {
            reveal_strlit("unknown transaction");
            reveal_strlit("handle space exhausted");
            if spec_find_txn(old(eng)@.transactions, trans.id@) is Some && old(eng)@.next_handle
                < u64::MAX {
                crate::handles::lemma_handle_is_simple(old(eng)@.next_handle as nat);
            }
        }
        let payload = DatabasePayload::Store {
            name: String::from_str(name),
            transaction_id: trans.id.clone(),
        };
        let raw = eng.manage_database(ctx.id, DB_ACTION_OPEN_SEARCH, &self.id, &payload);
        match decode_handle(raw) {
            Ok(Some(id)) => Ok(Search { id }),
            Ok(None) => Err(String::from_str("no search handle returned")),
            Err(e) => Err(e),
        }
    }

    /// Opens a model store handle under the transaction.
    pub fn open_model_store(&self, eng: &mut Engine, ctx: &Context, name: &str, trans: &Transaction) -> (r: Result<
        ModelStore,
        String,
    >)
        requires
            old(eng)@.wf(),
        ensures
            final(eng)@.wf(),
            (match spec_find_txn(old(eng)@.transactions, trans.id@) {
                None => final(eng)@ == old(eng)@ && (r matches Err(e) && e@
                    == "unknown transaction"@),
                Some(_) => if old(eng)@.next_handle >= u64::MAX {
                    final(eng)@ == old(eng)@ && (r matches Err(e) && e@
                        == "handle space exhausted"@)
                } else {
                    (r matches Ok(v) && v.id@ == spec_handle(old(eng)@.next_handle as nat)
                        && v.transaction_id@ == trans.id@) && final(eng)@ == (EngineModel {
                        next_handle: old(eng)@.next_handle + 1,
                        model_handles: old(eng)@.model_handles.push(
                            AuxHandleModel {
                                id: spec_handle(old(eng)@.next_handle as nat),
                                id_num: old(eng)@.next_handle,
                                transaction_id: trans.id@,
                                name: name@,
                            },
                        ),
                        ..old(eng)@
                    })
                },
            }),
    {
        proof {
            reveal_strlit("unknown transaction");
            reveal_strlit("handle space exhausted");
            if spec_find_txn(old(eng)@.transactions, trans.id@) is Some && old(eng)@.next_handle
                < u64::MAX {
                crate::handles::lemma_handle_is_simple(old(eng)@.next_handle as nat);
            }
        }
        let payload = DatabasePayload::Store {
            name: String::from_str(name),
            transaction_id: trans.id.clone(),
        };
        let raw = eng.manage_database(ctx.id, DB_ACTION_OPEN_MODEL_STORE, &self.id, &payload);
        match decode_handle(raw) {
            Ok(Some(id)) => Ok(ModelStore { id, transaction_id: trans.id.clone() }),
            Ok(None) => Err(String::from_str("no model store handle returned")),
            Err(e) => Err(e),
        }
    }
}

} // verus!
