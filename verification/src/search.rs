//! Search indexes: documents indexed by id.
//!
//! A search index handle names engine-side document storage. Scoring
//! and querying are the engine's own affair; what the client drives —
//! and what is modelled here — is the indexing of documents.

use vstd::prelude::*;

use crate::context::Context;
use crate::engine::Engine;
use crate::engine::EngineModel;
use crate::engine::SearchDocModel;
use crate::engine::spec_find_aux;
use crate::engine::spec_find_doc;

verus! {

/// Represents a search index: client-side, nothing but its handle.
#[derive(Debug, Clone)]
pub struct Search {
    /// The search store ID.
    pub id: String,
}

impl Search {
    /// Adds a document to the index, replacing any document already
    /// indexed under the same id.
    pub fn add(&self, eng: &mut Engine, _ctx: &Context, doc_id: &str, text: &str) -> (r: Result<
        (),
        String,
    >)
        requires
            old(eng)@.wf(),
        ensures
            final(eng)@.wf(),
            (match spec_find_aux(old(eng)@.search_handles, self.id@) {
                None => (r matches Err(e) && e@ == "unknown store"@) && final(eng)@ == old(eng)@,
                Some(h) => {
                    let store = old(eng)@.search_handles[h].name;
                    let rec = SearchDocModel { store_name: store, doc_id: doc_id@, text: text@ };
                    (r matches Ok(u) && u == ()) && final(eng)@ == (EngineModel {
                        search_docs: (match spec_find_doc(
                            old(eng)@.search_docs,
                            store,
                            doc_id@,
                        ) {
                            Some(i) => old(eng)@.search_docs.update(i, rec),
                            None => old(eng)@.search_docs.push(rec),
                        }),
                        ..old(eng)@
                    })
                },
            }),
    {
        let d = String::from_str(doc_id);
        let t = String::from_str(text);
        match eng.search_add(&self.id, &d, &t) {
            Some(e) => Err(e),
            None => Ok(()),
        }
    }
}

} // verus!
