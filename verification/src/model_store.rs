//! Model stores: named blobs saved and loaded by category and name.
//!
//! A model store handle names engine-side storage for opaque byte
//! blobs. Saving replaces any blob under the same category and name;
//! loading hands a copy back.

use vstd::prelude::*;

use crate::context::Context;
use crate::engine::Engine;
use crate::engine::EngineModel;
use crate::engine::ModelRecModel;
use crate::engine::spec_find_aux;
use crate::engine::spec_find_model;

verus! {

/// Represents a model store: client-side, the handle and its owning
/// transaction.
#[derive(Debug, Clone)]
pub struct ModelStore {
    /// The model store ID.
    pub id: String,
    /// The transaction ID associated with the model store.
    pub transaction_id: String,
}

impl ModelStore {
    /// Saves a model blob, replacing any saved under the same category
    /// and name.
    pub fn save(
        &self,
        eng: &mut Engine,
        _ctx: &Context,
        category: &String,
        name: &String,
        data: Vec<u8>,
    ) -> (r: Result<(), String>)
        requires
            old(eng)@.wf(),
        ensures
            final(eng)@.wf(),
            (match spec_find_aux(old(eng)@.model_handles, self.id@) {
                None => (r matches Err(e) && e@ == "unknown store"@) && final(eng)@ == old(eng)@,
                Some(h) => {
                    let store = old(eng)@.model_handles[h].name;
                    let rec = ModelRecModel {
                        store_name: store,
                        category: category@,
                        name: name@,
                        data: data@,
                    };
                    (r matches Ok(u) && u == ()) && final(eng)@ == (EngineModel {
                        models: (match spec_find_model(
                            old(eng)@.models,
                            store,
                            category@,
                            name@,
                        ) {
                            Some(i) => old(eng)@.models.update(i, rec),
                            None => old(eng)@.models.push(rec),
                        }),
                        ..old(eng)@
                    })
                },
            }),
    {
        match eng.model_store_save(&self.id, category, name, data) {
            Some(e) => Err(e),
            None => Ok(()),
        }
    }

    /// Loads a model blob by category and name.
    pub fn load(&self, eng: &Engine, _ctx: &Context, category: &String, name: &String) -> (r:
        Result<Vec<u8>, String>)
        requires
            eng@.wf(),
        ensures
            (match spec_find_aux(eng@.model_handles, self.id@) {
                None => (r matches Err(e) && e@ == "unknown store"@),
                Some(h) => (match spec_find_model(
                    eng@.models,
                    eng@.model_handles[h].name,
                    category@,
                    name@,
                ) {
                    Some(i) => (r matches Ok(d) && d@ == eng@.models[i].data),
                    None => (r matches Err(e) && e@ == "model not found"@),
                }),
            }),
    {
        eng.model_store_load(&self.id, category, name)
    }

    /// Deletes a model blob; deleting what is not there changes
    /// nothing.
    pub fn delete(&self, eng: &mut Engine, _ctx: &Context, category: &String, name: &String) -> (r:
        Result<(), String>)
        requires
            old(eng)@.wf(),
        ensures
            final(eng)@.wf(),
            (match spec_find_aux(old(eng)@.model_handles, self.id@) {
                None => (r matches Err(e) && e@ == "unknown store"@) && final(eng)@ == old(eng)@,
                Some(h) => (r matches Ok(u) && u == ()) && final(eng)@ == (EngineModel {
                    models: (match spec_find_model(
                        old(eng)@.models,
                        old(eng)@.model_handles[h].name,
                        category@,
                        name@,
                    ) {
                        Some(i) => old(eng)@.models.remove(i),
                        None => old(eng)@.models,
                    }),
                    ..old(eng)@
                }),
            }),
    {
        match eng.model_store_delete(&self.id, category, name) {
            Some(e) => Err(e),
            None => Ok(()),
        }
    }
}

} // verus!
