//! Contexts: the per-operation-group token.
//!
//! A context is known to the client only by its integer id; the engine
//! keeps a deferred error slot under it. When a call answers null, the
//! client queries this slot to tell a real failure from legitimate
//! absence.

use vstd::prelude::*;

use crate::engine::ContextSlotModel;
use crate::engine::Engine;
use crate::engine::EngineModel;
use crate::engine::spec_find_ctx;

verus! {

/// Represents a context for engine operations.
///
/// The context is used to manage the lifecycle of operations and handle
/// errors.
#[derive(Debug, Clone, Copy)]
pub struct Context {
    /// The context ID.
    pub id: i64,
}

impl Context {
    /// Creates a new context, registering its error slot engine-side.
    pub fn new(eng: &mut Engine) -> (r: Context)
        requires
            old(eng)@.wf(),
            old(eng)@.next_context < i64::MAX,
        ensures
            final(eng)@.wf(),
            r.id == old(eng)@.next_context,
            final(eng)@ == (EngineModel {
                next_context: old(eng)@.next_context + 1,
                contexts: old(eng)@.contexts.push(
                    ContextSlotModel { id: old(eng)@.next_context, error: None },
                ),
                ..old(eng)@
            }),
    {
        let id = eng.create_context();
        Context { id }
    }

    /// Checks for errors in the context: the deferred error, if one is
    /// set and non-empty.
    pub fn error(&self, eng: &Engine) -> (r: Option<String>)
        ensures
            (match spec_find_ctx(eng@.contexts, self.id as int) {
                Some(i) => (match eng@.contexts[i].error {
                    Some(e) => if e.len() > 0 {
                        r matches Some(v) && v@ == e
                    } else {
                        r is None
                    },
                    None => (r is None),
                }),
                None => (r is None),
            }),
    {
        match eng.context_error(self.id) {
            Some(e) => {
                if !e.as_str().is_empty() {
                    Some(e)
                } else {
                    None
                }
            },
            None => None,
        }
    }

    /// Releases the context's engine-side bookkeeping. Using the id
    /// afterwards finds no slot.
    pub fn dispose(self, eng: &mut Engine)
        requires
            old(eng)@.wf(),
        ensures
            final(eng)@.wf(),
            final(eng)@ == (match spec_find_ctx(old(eng)@.contexts, self.id as int) {
                Some(i) => (EngineModel { contexts: old(eng)@.contexts.remove(i), ..old(eng)@ }),
                None => old(eng)@,
            }),
    {
        eng.remove_context(self.id);
    }
}

} // verus!
