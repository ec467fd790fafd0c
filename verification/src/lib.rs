//! Client-side access layer for an embedded, transactional, ordered
//! key-value storage engine addressed through opaque handles.
//!
//! Every stateful object (context, database, transaction, open store) is
//! known to callers only as a handle; the engine-side state those handles
//! denote is modelled here by an explicit, verified registry ([`engine`]).
//! The modules around it verify the protocol conventions that make a
//! stateless sequence of boundary calls behave like a stateful database
//! client: the result-envelope and sentinel-string conventions
//! ([`envelope`]), handle minting ([`handles`]), the ordered-key model
//! with composite keys and index specifications ([`keys`]), the
//! per-store cursor state machine and item store ([`store`]), and the
//! JSON payload codec ([`codec`]). The properties that hold across
//! calls — round trips, removal, idempotent batch upserts, ride-along
//! fields — are stated and proved in [`laws`].

use vstd::prelude::*;

pub mod btree;
pub mod cassandra;
pub mod codec;
pub mod context;
pub mod database;
pub mod engine;
pub mod envelope;
pub mod handles;
pub mod keys;
pub mod laws;
pub mod logger;
pub mod model_store;
pub mod redis;
pub mod search;
pub mod store;
pub mod transaction;
pub mod vector_store;

pub use btree::{Btree, BtreeOptions, Item, PagingInfo};
pub use cassandra::{CassandraAuthenticator, CassandraConfig, close_cassandra_connection, open_cassandra_connection};
pub use context::Context;
pub use database::{Database, DatabaseOptions, DatabaseType, L2CacheType};
pub use engine::Engine;
pub use envelope::Outcome;
pub use keys::{FieldValue, IndexFieldSpecification, IndexSpecification, Key, KeyField};
pub use logger::{LogLevel, manage_logging};
pub use model_store::ModelStore;
pub use redis::{close_redis_connection, open_redis_connection};
pub use search::Search;
pub use transaction::Transaction;
pub use vector_store::VectorStore;

verus! {

/// The context type under its historical name.
pub type SopContext = Context;

} // verus!
