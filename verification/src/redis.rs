//! The distributed cache connection: a process-wide singleton backend.
//!
//! It must be opened once, before any database that uses the
//! distributed cache, and closed once at shutdown; a second open, or a
//! close without an open, is refused.

use vstd::prelude::*;

use crate::engine::Engine;
use crate::engine::EngineModel;

verus! {

/// Opens the process-wide distributed cache connection.
pub fn open_redis_connection(eng: &mut Engine, uri: &str) -> (r: Result<(), String>)
    requires
        old(eng)@.wf(),
    ensures
        final(eng)@.wf(),
        (if old(eng)@.redis_open {
            (r matches Err(e) && e@ == "connection already open"@) && final(eng)@ == old(eng)@
        } else {
            (r matches Ok(u) && u == ()) && final(eng)@ == (EngineModel {
                redis_open: true,
                ..old(eng)@
            })
        }),
{
    let u = String::from_str(uri);
    match eng.open_redis(&u) {
        Some(e) => Err(e),
        None => Ok(()),
    }
}

/// Closes the process-wide distributed cache connection.
pub fn close_redis_connection(eng: &mut Engine) -> (r: Result<(), String>)
    requires
        old(eng)@.wf(),
    ensures
        final(eng)@.wf(),
        (if old(eng)@.redis_open {
            (r matches Ok(u) && u == ()) && final(eng)@ == (EngineModel {
                redis_open: false,
                ..old(eng)@
            })
        } else {
            (r matches Err(e) && e@ == "connection is not open"@) && final(eng)@ == old(eng)@
        }),
{
    match eng.close_redis() {
        Some(e) => Err(e),
        None => Ok(()),
    }
}

} // verus!
