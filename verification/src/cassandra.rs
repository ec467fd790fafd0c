//! The cluster store connection: a process-wide singleton backend.
//!
//! It must be opened once, before any clustered database is created,
//! and closed once at shutdown; a second open, or a close without an
//! open, is refused.

use vstd::prelude::*;

use crate::engine::Engine;
use crate::engine::EngineModel;

verus! {

/// Credentials for the cluster store connection.
#[derive(Debug, Clone)]
pub struct CassandraAuthenticator {
    pub username: String,
    pub password: String,
}

/// Configuration for the cluster store connection.
#[derive(Debug, Clone)]
pub struct CassandraConfig {
    pub cluster_hosts: Vec<String>,
    pub consistency: i32,
    pub connection_timeout: i32,
    pub replication_clause: String,
    pub authenticator: CassandraAuthenticator,
}

/// Opens the process-wide cluster store connection.
pub fn open_cassandra_connection(eng: &mut Engine, _config: CassandraConfig) -> (r: Result<
    (),
    String,
>)
    requires
        old(eng)@.wf(),
    ensures
        final(eng)@.wf(),
        (if old(eng)@.cassandra_open {
            (r matches Err(e) && e@ == "connection already open"@) && final(eng)@ == old(eng)@
        } else {
            (r matches Ok(u) && u == ()) && final(eng)@ == (EngineModel {
                cassandra_open: true,
                ..old(eng)@
            })
        }),
{
    match eng.open_cassandra() {
        Some(e) => Err(e),
        None => Ok(()),
    }
}

/// Closes the process-wide cluster store connection.
pub fn close_cassandra_connection(eng: &mut Engine) -> (r: Result<(), String>)
    requires
        old(eng)@.wf(),
    ensures
        final(eng)@.wf(),
        (if old(eng)@.cassandra_open {
            (r matches Ok(u) && u == ()) && final(eng)@ == (EngineModel {
                cassandra_open: false,
                ..old(eng)@
            })
        } else {
            (r matches Err(e) && e@ == "connection is not open"@) && final(eng)@ == old(eng)@
        }),
{
    match eng.close_cassandra() {
        Some(e) => Err(e),
        None => Ok(()),
    }
}

} // verus!
