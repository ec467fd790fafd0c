//! The engine-side resource registry.
//!
//! The client addresses every stateful object — context, database,
//! transaction, open store — by an opaque handle, and this registry is
//! the state those handles denote: a map from handle to resource
//! record, held in one explicit value instead of hidden global state.
//! Handles are minted from a counter ([`crate::handles`]), so a new
//! handle never collides with a live one.
//!
//! Dispatch follows the boundary conventions: one entry point per
//! resource kind, an integer opcode selecting the operation, and
//! answers passed back as buffer-or-null — a handle, a sentinel
//! boolean, an error message, or nothing.

use vstd::prelude::*;

use crate::btree::BtreeOptions;
use crate::btree::BtreeMeta;
use crate::btree::Item;
use crate::btree::ItemBatch;
use crate::btree::ItemModel;
use crate::btree::PagingInfo;
use crate::btree::batch_views;
use crate::database::DatabaseOptions;
use crate::database::DatabaseType;
use crate::database::L2CacheType;
use crate::keys::Key;
use crate::keys::KeyModel;
use crate::handles::mint_handle;
use crate::handles::spec_handle;
use crate::store::StoreData;
use crate::store::StoreModel;
use crate::store::EntryModel;
use crate::store::spec_first_equiv;
use crate::store::spec_insert_pos;
use crate::store::spec_upsert;
use crate::store::Cursor;
use crate::store::CursorModel;

verus! {

/// Database-level opcodes.
pub const DB_ACTION_NEW_DATABASE: i32 = 1;

pub const DB_ACTION_BEGIN_TRANSACTION: i32 = 2;

pub const DB_ACTION_NEW_BTREE: i32 = 3;

pub const DB_ACTION_OPEN_BTREE: i32 = 4;

pub const DB_ACTION_OPEN_MODEL_STORE: i32 = 5;

pub const DB_ACTION_OPEN_VECTOR_STORE: i32 = 6;

pub const DB_ACTION_OPEN_SEARCH: i32 = 7;

pub const DB_ACTION_REMOVE_BTREE: i32 = 8;

/// Transaction-level opcodes.
pub const TXN_ACTION_COMMIT: i32 = 3;

pub const TXN_ACTION_ROLLBACK: i32 = 4;

/// One context: an operation-group token with its deferred error slot.
#[derive(Debug)]
pub struct ContextSlot {
    pub id: i64,
    pub error: Option<String>,
}

/// Spec-level image of a [`ContextSlot`].
pub struct ContextSlotModel {
    pub id: int,
    pub error: Option<Seq<char>>,
}

impl View for ContextSlot {
    type V = ContextSlotModel;

    open spec fn view(&self) -> ContextSlotModel {
        ContextSlotModel {
            id: self.id as int,
            error: match &self.error {
                Some(e) => Some(e@),
                None => None,
            },
        }
    }
}

/// One database record.
#[derive(Debug)]
pub struct DatabaseRec {
    pub id: String,
    pub id_num: u64,
    pub options: DatabaseOptions,
}

/// Spec-level image of a [`DatabaseRec`].
pub struct DatabaseRecModel {
    pub id: Seq<char>,
    pub id_num: int,
    pub cache_type: L2CacheType,
    pub db_type: DatabaseType,
}

impl View for DatabaseRec {
    type V = DatabaseRecModel;

    open spec fn view(&self) -> DatabaseRecModel {
        DatabaseRecModel {
            id: self.id@,
            id_num: self.id_num as int,
            cache_type: self.options.cache_type,
            db_type: self.options.db_type,
        }
    }
}

/// The lifecycle state of a transaction: it ends in exactly one
/// terminal call.
#[derive(Debug, PartialEq, Eq, Structural)]
pub enum TxnState {
    Active,
    Committed,
    RolledBack,
}

/// One store opened under a transaction: the transaction's working copy
/// of that store's data.
#[derive(Debug)]
pub struct WorkingStore {
    pub name: String,
    pub data: StoreData,
}

/// Spec-level image of a [`WorkingStore`].
pub struct WorkingStoreModel {
    pub name: Seq<char>,
    pub data: StoreModel,
}

impl View for WorkingStore {
    type V = WorkingStoreModel;

    open spec fn view(&self) -> WorkingStoreModel {
        WorkingStoreModel { name: self.name@, data: self.data@ }
    }
}

/// One transaction record, with the working copies of every store
/// opened under it.
#[derive(Debug)]
pub struct TxnRec {
    pub id: String,
    pub id_num: u64,
    pub database_id: String,
    pub state: TxnState,
    pub working: Vec<WorkingStore>,
}

/// Spec-level image of a [`TxnRec`].
pub struct TxnRecModel {
    pub id: Seq<char>,
    pub id_num: int,
    pub database_id: Seq<char>,
    pub state: TxnState,
    pub working: Seq<WorkingStoreModel>,
}

impl View for TxnRec {
    type V = TxnRecModel;

    open spec fn view(&self) -> TxnRecModel {
        TxnRecModel {
            id: self.id@,
            id_num: self.id_num as int,
            database_id: self.database_id@,
            state: self.state,
            working: self.working@.map_values(|w: WorkingStore| w@),
        }
    }
}

/// One open B-tree handle: which transaction and store name it is bound
/// to, and its navigation cursor.
#[derive(Debug)]
pub struct BtreeRec {
    pub id: String,
    pub id_num: u64,
    pub transaction_id: String,
    pub name: String,
    pub cursor: Cursor,
}

/// Spec-level image of a [`BtreeRec`].
pub struct BtreeRecModel {
    pub id: Seq<char>,
    pub id_num: int,
    pub transaction_id: Seq<char>,
    pub name: Seq<char>,
    pub cursor: CursorModel,
}

impl View for BtreeRec {
    type V = BtreeRecModel;

    open spec fn view(&self) -> BtreeRecModel {
        BtreeRecModel {
            id: self.id@,
            id_num: self.id_num as int,
            transaction_id: self.transaction_id@,
            name: self.name@,
            cursor: self.cursor@,
        }
    }
}

/// One committed store: the contents every new transaction starts from.
#[derive(Debug)]
pub struct StoreRec {
    pub database_id: String,
    pub name: String,
    pub data: StoreData,
}

/// Spec-level image of a [`StoreRec`].
pub struct StoreRecModel {
    pub database_id: Seq<char>,
    pub name: Seq<char>,
    pub data: StoreModel,
}

impl View for StoreRec {
    type V = StoreRecModel;

    open spec fn view(&self) -> StoreRecModel {
        StoreRecModel { database_id: self.database_id@, name: self.name@, data: self.data@ }
    }
}

/// A handle to one of the auxiliary store kinds (model store, vector
/// store, search index).
#[derive(Debug)]
pub struct AuxHandle {
    pub id: String,
    pub id_num: u64,
    pub transaction_id: String,
    pub name: String,
}

/// Spec-level image of an [`AuxHandle`].
pub struct AuxHandleModel {
    pub id: Seq<char>,
    pub id_num: int,
    pub transaction_id: Seq<char>,
    pub name: Seq<char>,
}

impl View for AuxHandle {
    type V = AuxHandleModel;

    open spec fn view(&self) -> AuxHandleModel {
        AuxHandleModel {
            id: self.id@,
            id_num: self.id_num as int,
            transaction_id: self.transaction_id@,
            name: self.name@,
        }
    }
}

/// One saved model blob.
#[derive(Debug)]
pub struct ModelRec {
    pub store_name: String,
    pub category: String,
    pub name: String,
    pub data: Vec<u8>,
}

/// Spec-level image of a [`ModelRec`].
pub struct ModelRecModel {
    pub store_name: Seq<char>,
    pub category: Seq<char>,
    pub name: Seq<char>,
    pub data: Seq<u8>,
}

impl View for ModelRec {
    type V = ModelRecModel;

    open spec fn view(&self) -> ModelRecModel {
        ModelRecModel {
            store_name: self.store_name@,
            category: self.category@,
            name: self.name@,
            data: self.data@,
        }
    }
}

/// One indexed document of a search index.
#[derive(Debug)]
pub struct SearchDoc {
    pub store_name: String,
    pub doc_id: String,
    pub text: String,
}

/// Spec-level image of a [`SearchDoc`].
pub struct SearchDocModel {
    pub store_name: Seq<char>,
    pub doc_id: Seq<char>,
    pub text: Seq<char>,
}

impl View for SearchDoc {
    type V = SearchDocModel;

    open spec fn view(&self) -> SearchDocModel {
        SearchDocModel { store_name: self.store_name@, doc_id: self.doc_id@, text: self.text@ }
    }
}

/// The whole registry.
#[derive(Debug)]
pub struct Engine {
    pub next_context: i64,
    pub next_handle: u64,
    pub contexts: Vec<ContextSlot>,
    pub databases: Vec<DatabaseRec>,
    pub transactions: Vec<TxnRec>,
    pub btrees: Vec<BtreeRec>,
    pub stores: Vec<StoreRec>,
    pub model_handles: Vec<AuxHandle>,
    pub models: Vec<ModelRec>,
    pub search_handles: Vec<AuxHandle>,
    pub search_docs: Vec<SearchDoc>,
    pub vector_handles: Vec<AuxHandle>,
    pub redis_open: bool,
    pub cassandra_open: bool,
    pub log_level: i32,
    pub log_path: String,
}

/// Spec-level image of the whole registry.
pub struct EngineModel {
    pub next_context: int,
    pub next_handle: int,
    pub contexts: Seq<ContextSlotModel>,
    pub databases: Seq<DatabaseRecModel>,
    pub transactions: Seq<TxnRecModel>,
    pub btrees: Seq<BtreeRecModel>,
    pub stores: Seq<StoreRecModel>,
    pub model_handles: Seq<AuxHandleModel>,
    pub models: Seq<ModelRecModel>,
    pub search_handles: Seq<AuxHandleModel>,
    pub search_docs: Seq<SearchDocModel>,
    pub vector_handles: Seq<AuxHandleModel>,
    pub redis_open: bool,
    pub cassandra_open: bool,
    pub log_level: int,
    pub log_path: Seq<char>,
}

impl View for Engine {
    type V = EngineModel;

    open spec fn view(&self) -> EngineModel {
        EngineModel {
            next_context: self.next_context as int,
            next_handle: self.next_handle as int,
            contexts: self.contexts@.map_values(|c: ContextSlot| c@),
            databases: self.databases@.map_values(|d: DatabaseRec| d@),
            transactions: self.transactions@.map_values(|t: TxnRec| t@),
            btrees: self.btrees@.map_values(|b: BtreeRec| b@),
            stores: self.stores@.map_values(|s: StoreRec| s@),
            model_handles: self.model_handles@.map_values(|h: AuxHandle| h@),
            models: self.models@.map_values(|m: ModelRec| m@),
            search_handles: self.search_handles@.map_values(|h: AuxHandle| h@),
            search_docs: self.search_docs@.map_values(|d: SearchDoc| d@),
            vector_handles: self.vector_handles@.map_values(|h: AuxHandle| h@),
            redis_open: self.redis_open,
            cassandra_open: self.cassandra_open,
            log_level: self.log_level as int,
            log_path: self.log_path@,
        }
    }
}

/// The first context slot with the given id.
pub open spec fn spec_find_ctx(s: Seq<ContextSlotModel>, id: int) -> Option<int>
    decreases s.len(),
{
    if s.len() == 0 {
        None
    } else if s[0].id == id {
        Some(0)
    } else {
        match spec_find_ctx(s.drop_first(), id) {
            Some(i) => Some(i + 1),
            None => None,
        }
    }
}

/// The first database record with the given id.
pub open spec fn spec_find_db(s: Seq<DatabaseRecModel>, id: Seq<char>) -> Option<int>
    decreases s.len(),
{
    if s.len() == 0 {
        None
    } else if s[0].id == id {
        Some(0)
    } else {
        match spec_find_db(s.drop_first(), id) {
            Some(i) => Some(i + 1),
            None => None,
        }
    }
}

/// The first transaction record with the given id.
pub open spec fn spec_find_txn(s: Seq<TxnRecModel>, id: Seq<char>) -> Option<int>
    decreases s.len(),
{
    if s.len() == 0 {
        None
    } else if s[0].id == id {
        Some(0)
    } else {
        match spec_find_txn(s.drop_first(), id) {
            Some(i) => Some(i + 1),
            None => None,
        }
    }
}

/// The first B-tree record with the given id.
pub open spec fn spec_find_btree(s: Seq<BtreeRecModel>, id: Seq<char>) -> Option<int>
    decreases s.len(),
{
    if s.len() == 0 {
        None
    } else if s[0].id == id {
        Some(0)
    } else {
        match spec_find_btree(s.drop_first(), id) {
            Some(i) => Some(i + 1),
            None => None,
        }
    }
}

/// The first committed store for the given database and name.
pub open spec fn spec_find_store(s: Seq<StoreRecModel>, db: Seq<char>, name: Seq<char>) -> Option<
    int,
>
    decreases s.len(),
{
    if s.len() == 0 {
        None
    } else if s[0].database_id == db && s[0].name == name {
        Some(0)
    } else {
        match spec_find_store(s.drop_first(), db, name) {
            Some(i) => Some(i + 1),
            None => None,
        }
    }
}

/// The first working store with the given name.
pub open spec fn spec_find_working(s: Seq<WorkingStoreModel>, name: Seq<char>) -> Option<int>
    decreases s.len(),
{
    if s.len() == 0 {
        None
    } else if s[0].name == name {
        Some(0)
    } else {
        match spec_find_working(s.drop_first(), name) {
            Some(i) => Some(i + 1),
            None => None,
        }
    }
}

impl EngineModel {
    /// Every minted handle id in the registry is the handle text of its
    /// record's counter value, and that value lies below the counter.
    pub open spec fn handles_ok(self) -> bool {
        &&& forall|i: int|
            0 <= i < self.databases.len() ==> (#[trigger] self.databases[i]).id == spec_handle(
                self.databases[i].id_num as nat,
            ) && 0 <= self.databases[i].id_num < self.next_handle
        &&& forall|i: int|
            0 <= i < self.transactions.len() ==> (#[trigger] self.transactions[i]).id
                == spec_handle(self.transactions[i].id_num as nat) && 0
                <= self.transactions[i].id_num < self.next_handle
        &&& forall|i: int|
            0 <= i < self.btrees.len() ==> (#[trigger] self.btrees[i]).id == spec_handle(
                self.btrees[i].id_num as nat,
            ) && 0 <= self.btrees[i].id_num < self.next_handle
        &&& forall|i: int|
            0 <= i < self.model_handles.len() ==> (#[trigger] self.model_handles[i]).id
                == spec_handle(self.model_handles[i].id_num as nat) && 0
                <= self.model_handles[i].id_num < self.next_handle
        &&& forall|i: int|
            0 <= i < self.search_handles.len() ==> (#[trigger] self.search_handles[i]).id
                == spec_handle(self.search_handles[i].id_num as nat) && 0
                <= self.search_handles[i].id_num < self.next_handle
        &&& forall|i: int|
            0 <= i < self.vector_handles.len() ==> (#[trigger] self.vector_handles[i]).id
                == spec_handle(self.vector_handles[i].id_num as nat) && 0
                <= self.vector_handles[i].id_num < self.next_handle
    }

    /// Counter values never repeat within a handle class.
    pub open spec fn handle_nums_distinct(self) -> bool {
        &&& forall|i: int, j: int|
            0 <= i < j < self.databases.len() ==> (#[trigger] self.databases[i]).id_num != (
            #[trigger] self.databases[j]).id_num
        &&& forall|i: int, j: int|
            0 <= i < j < self.transactions.len() ==> (#[trigger] self.transactions[i]).id_num != (
            #[trigger] self.transactions[j]).id_num
        &&& forall|i: int, j: int|
            0 <= i < j < self.btrees.len() ==> (#[trigger] self.btrees[i]).id_num != (
            #[trigger] self.btrees[j]).id_num
    }

    /// Context ids ascend, so they never repeat.
    pub open spec fn contexts_ok(self) -> bool {
        &&& forall|i: int|
            0 <= i < self.contexts.len() ==> 0 <= (#[trigger] self.contexts[i]).id
                < self.next_context
        &&& forall|i: int, j: int|
            0 <= i < j < self.contexts.len() ==> (#[trigger] self.contexts[i]).id != (
            #[trigger] self.contexts[j]).id
    }

    /// Every store's data, committed or working, is well-formed, and a
    /// transaction never opens two working copies under one name.
    pub open spec fn stores_ok(self) -> bool {
        &&& forall|i: int| 0 <= i < self.stores.len() ==> (#[trigger] self.stores[i]).data.wf()
        &&& forall|t: int, w: int|
            0 <= t < self.transactions.len() && 0 <= w < (
            #[trigger] self.transactions[t]).working.len() ==> (
            #[trigger] self.transactions[t].working[w]).data.wf()
        &&& forall|t: int, v: int, w: int|
            0 <= t < self.transactions.len() && 0 <= v < w < (
            #[trigger] self.transactions[t]).working.len() ==> (#[trigger] self.transactions[t].working[v]).name
                != (#[trigger] self.transactions[t].working[w]).name
    }

    /// Registry well-formedness.
    pub open spec fn wf(self) -> bool {
        &&& self.handles_ok()
        &&& self.handle_nums_distinct()
        &&& self.contexts_ok()
        &&& self.stores_ok()
        &&& 0 <= self.next_context
        &&& 0 <= self.next_handle
    }
}

impl Engine {
    /// A fresh registry: no contexts, no databases, no open handles, no
    /// backend connections.
    pub fn new() -> (r: Engine)
        ensures
            r@.wf(),
            r@.contexts =~= Seq::<ContextSlotModel>::empty(),
            r@.databases =~= Seq::<DatabaseRecModel>::empty(),
            r@.transactions =~= Seq::<TxnRecModel>::empty(),
            r@.btrees =~= Seq::<BtreeRecModel>::empty(),
            r@.stores =~= Seq::<StoreRecModel>::empty(),
            !r@.redis_open,
            !r@.cassandra_open,
    {
        Engine {
            next_context: 0,
            next_handle: 0,
            contexts: Vec::new(),
            databases: Vec::new(),
            transactions: Vec::new(),
            btrees: Vec::new(),
            stores: Vec::new(),
            model_handles: Vec::new(),
            models: Vec::new(),
            search_handles: Vec::new(),
            search_docs: Vec::new(),
            vector_handles: Vec::new(),
            redis_open: false,
            cassandra_open: false,
            log_level: 0,
            log_path: String::new(),
        }
    }

    /// Registers a new context and hands out its id.
    pub fn create_context(&mut self) -> (r: i64)
        requires
            old(self)@.wf(),
            old(self)@.next_context < i64::MAX,
        ensures
            final(self)@.wf(),
            r == old(self)@.next_context,
            final(self)@ == (EngineModel {
                next_context: old(self)@.next_context + 1,
                contexts: old(self)@.contexts.push(
                    ContextSlotModel { id: old(self)@.next_context, error: None },
                ),
                ..old(self)@
            }),
    {
        let id = self.next_context;
        self.contexts.push(ContextSlot { id, error: None });
        self.next_context = self.next_context + 1;
        proof {
            assert(self@.contexts =~= old(self)@.contexts.push(
                ContextSlotModel { id: id as int, error: None },
            ));
        }
        id
    }

    /// Releases a context's engine-side bookkeeping: its slot, and with
    /// it any deferred error, is gone.
    pub fn remove_context(&mut self, id: i64)
        requires
            old(self)@.wf(),
        ensures
            final(self)@.wf(),
            final(self)@ == (match spec_find_ctx(old(self)@.contexts, id as int) {
                Some(i) => (EngineModel { contexts: old(self)@.contexts.remove(i), ..old(self)@ }),
                None => old(self)@,
            }),
    {
        let ghost pre = self@.contexts;
        let n = self.contexts.len();
        let mut i: usize = 0;
        proof {
            assert(pre.skip(0) =~= pre);
        }
        while i < n
            invariant
                i <= n,
                *self == *old(self),
                old(self)@.wf(),
                n == self.contexts@.len(),
                pre == self@.contexts,
                pre.len() == n,
                spec_find_ctx(pre, id as int) == match spec_find_ctx(
                    pre.skip(i as int),
                    id as int,
                ) {
                    Some(p) => Some(p + i),
                    None => None::<int>,
                },
            decreases n - i,
        {
            proof {
                assert(pre.skip(i as int)[0] == pre[i as int]);
            }
            if self.contexts[i].id == id {
                self.contexts.remove(i);
                proof {
                    assert(self@.contexts =~= pre.remove(i as int));
                    assert(self@ == (EngineModel { contexts: pre.remove(i as int), ..old(self)@ }));
                    let post = pre.remove(i as int);
                    assert forall|p: int, q: int| 0 <= p < q < post.len() implies (
                    #[trigger] post[p]).id != (#[trigger] post[q]).id by {
                        let p0: int = if p < i { p } else { p + 1 };
                        let q0: int = if q < i { q } else { q + 1 };
                        assert(post[p] == pre[p0] && post[q] == pre[q0]);
                        assert(old(self)@.contexts[p0] == pre[p0]);
                        assert(old(self)@.contexts[q0] == pre[q0]);
                    }
                    assert forall|p: int| 0 <= p < post.len() implies 0 <= (
                    #[trigger] post[p]).id < old(self)@.next_context by {
                        let p0: int = if p < i { p } else { p + 1 };
                        assert(post[p] == pre[p0]);
                        assert(old(self)@.contexts[p0] == pre[p0]);
                    }
                }
                return ;
            }
            proof {
                assert(pre.skip(i as int).drop_first() =~= pre.skip(i + 1));
            }
            i = i + 1;
        }
    }

    /// Sets a context's deferred error slot, leaving everything else in
    /// place. Writing to an unknown context is lost.
    fn set_ctx_error(&mut self, id: i64, msg: String)
        requires
            old(self)@.wf(),
        ensures
            final(self)@.wf(),
            final(self)@ == spec_with_ctx_error(old(self)@, id as int, msg@),
    {
        let ghost pre = self@.contexts;
        let n = self.contexts.len();
        let mut i: usize = 0;
        proof {
            assert(pre.skip(0) =~= pre);
        }
        while i < n
            invariant
                i <= n,
                *self == *old(self),
                old(self)@.wf(),
                n == self.contexts@.len(),
                pre == self@.contexts,
                pre.len() == n,
                spec_find_ctx(pre, id as int) == match spec_find_ctx(
                    pre.skip(i as int),
                    id as int,
                ) {
                    Some(p) => Some(p + i),
                    None => None::<int>,
                },
            decreases n - i,
        {
            proof {
                assert(pre.skip(i as int)[0] == pre[i as int]);
            }
            if self.contexts[i].id == id {
                let slot_id = self.contexts[i].id;
                self.contexts.set(i, ContextSlot { id: slot_id, error: Some(msg) });
                proof {
                    assert(self@.contexts =~= pre.update(
                        i as int,
                        ContextSlotModel { id: id as int, error: Some(msg@) },
                    ));
                    assert(self@ == (EngineModel {
                        contexts: pre.update(
                            i as int,
                            ContextSlotModel { id: id as int, error: Some(msg@) },
                        ),
                        ..old(self)@
                    }));
                }
                return ;
            }
            proof {
                assert(pre.skip(i as int).drop_first() =~= pre.skip(i + 1));
            }
            i = i + 1;
        }
    }

    /// The context's deferred error, if one is set: the disambiguation
    /// query behind every null answer.
    pub fn context_error(&self, id: i64) -> (r: Option<String>)
        ensures
            (match spec_find_ctx(self@.contexts, id as int) {
                Some(i) => (match self@.contexts[i].error {
                    Some(e) => (r matches Some(v) && v@ == e),
                    None => (r is None),
                }),
                None => (r is None),
            }),
    {
        let ghost pre = self@.contexts;
        let n = self.contexts.len();
        let mut i: usize = 0;
        proof {
            assert(pre.skip(0) =~= pre);
        }
        while i < n
            invariant
                i <= n,
                n == self.contexts@.len(),
                pre == self@.contexts,
                pre.len() == n,
                spec_find_ctx(pre, id as int) == match spec_find_ctx(
                    pre.skip(i as int),
                    id as int,
                ) {
                    Some(p) => Some(p + i),
                    None => None::<int>,
                },
            decreases n - i,
        {
            proof {
                assert(pre.skip(i as int)[0] == pre[i as int]);
            }
            if self.contexts[i].id == id {
                return match &self.contexts[i].error {
                    Some(e) => Some(e.clone()),
                    None => None,
                };
            }
            proof {
                assert(pre.skip(i as int).drop_first() =~= pre.skip(i + 1));
            }
            i = i + 1;
        }
        None
    }
}

/// The registry with one context's deferred error slot set; a write to
/// an unknown context changes nothing.
pub open spec fn spec_with_ctx_error(pre: EngineModel, id: int, msg: Seq<char>) -> EngineModel {
    match spec_find_ctx(pre.contexts, id) {
        Some(i) => (EngineModel {
            contexts: pre.contexts.update(i, ContextSlotModel { id: id, error: Some(msg) }),
            ..pre
        }),
        None => pre,
    }
}

/// One working store published into the committed stores: the store
/// under that database and name is replaced whole, or appended if the
/// name is new.
pub open spec fn spec_publish_one(
    stores: Seq<StoreRecModel>,
    db: Seq<char>,
    w: WorkingStoreModel,
) -> Seq<StoreRecModel> {
    let rec = StoreRecModel { database_id: db, name: w.name, data: w.data };
    match spec_find_store(stores, db, w.name) {
        Some(i) => stores.update(i, rec),
        None => stores.push(rec),
    }
}

/// A transaction's working stores published in order: what commit does
/// to the committed stores.
pub open spec fn spec_publish(
    stores: Seq<StoreRecModel>,
    db: Seq<char>,
    working: Seq<WorkingStoreModel>,
) -> Seq<StoreRecModel>
    decreases working.len(),
{
    if working.len() == 0 {
        stores
    } else {
        spec_publish(spec_publish_one(stores, db, working[0]), db, working.drop_first())
    }
}

/// Publishing one more working store continues where the others ended.
pub proof fn lemma_publish_snoc(
    stores: Seq<StoreRecModel>,
    db: Seq<char>,
    working: Seq<WorkingStoreModel>,
    w: WorkingStoreModel,
)
    ensures
        spec_publish(stores, db, working.push(w)) == spec_publish_one(
            spec_publish(stores, db, working),
            db,
            w,
        ),
    decreases working.len(),
{
    if working.len() == 0 {
        assert(working.push(w)[0] == w);
        assert(working.push(w).drop_first() =~= Seq::<WorkingStoreModel>::empty());
        assert(spec_publish(stores, db, working.push(w)) == spec_publish(
            spec_publish_one(stores, db, w),
            db,
            Seq::<WorkingStoreModel>::empty(),
        ));
        assert(spec_publish(stores, db, working) == stores);
    } else {
        let s1 = spec_publish_one(stores, db, working[0]);
        assert(working.push(w)[0] == working[0]);
        assert(working.push(w).drop_first() =~= working.drop_first().push(w));
        assert(spec_publish(stores, db, working.push(w)) == spec_publish(
            s1,
            db,
            working.drop_first().push(w),
        ));
        lemma_publish_snoc(s1, db, working.drop_first(), w);
        assert(spec_publish(stores, db, working) == spec_publish(s1, db, working.drop_first()));
    }
}

/// A found committed store lies in range, carries the looked-up
/// database and name, and no earlier record does; a miss matches no
/// record.
pub proof fn lemma_find_store_props(s: Seq<StoreRecModel>, db: Seq<char>, name: Seq<char>)
    ensures
        (match spec_find_store(s, db, name) {
            Some(i) => 0 <= i < s.len() && s[i].database_id == db && s[i].name == name && (forall|
                j: int,
            | 0 <= j < i ==> !((#[trigger] s[j]).database_id == db && s[j].name == name)),
            None => forall|j: int|
                0 <= j < s.len() ==> !((#[trigger] s[j]).database_id == db && s[j].name == name),
        }),
    decreases s.len(),
{
    if s.len() != 0 && !(s[0].database_id == db && s[0].name == name) {
        lemma_find_store_props(s.drop_first(), db, name);
        assert(forall|j: int| 1 <= j < s.len() ==> s[j] == s.drop_first()[j - 1]);
    }
}

/// The first committed store for a database and name is exactly the
/// first matching record.
pub proof fn lemma_find_store_exact(
    s: Seq<StoreRecModel>,
    db: Seq<char>,
    name: Seq<char>,
    i: int,
)
    requires
        0 <= i < s.len(),
        s[i].database_id == db && s[i].name == name,
        forall|j: int|
            0 <= j < i ==> !((#[trigger] s[j]).database_id == db && s[j].name == name),
    ensures
        spec_find_store(s, db, name) == Some(i),
    decreases s.len(),
{
    if i > 0 {
        assert(forall|j: int| 1 <= j < s.len() ==> s[j] == s.drop_first()[j - 1]);
        lemma_find_store_exact(s.drop_first(), db, name, i - 1);
    }
}

/// Replacing a record that does not match the lookup moves nothing.
proof fn lemma_find_store_update_other(
    s: Seq<StoreRecModel>,
    idx: int,
    rec: StoreRecModel,
    db: Seq<char>,
    name: Seq<char>,
)
    requires
        0 <= idx < s.len(),
        !(rec.database_id == db && rec.name == name),
        !(s[idx].database_id == db && s[idx].name == name),
    ensures
        (match spec_find_store(s, db, name) {
            Some(p) => spec_find_store(s.update(idx, rec), db, name) == Some(p) && s.update(
                idx,
                rec,
            )[p] == s[p],
            None => (spec_find_store(s.update(idx, rec), db, name) is None),
        }),
    decreases s.len(),
{
    lemma_find_store_props(s, db, name);
    if s.len() != 0 {
        if idx == 0 {
            assert(s.update(0, rec)[0] == rec);
            assert(s.update(0, rec).drop_first() =~= s.drop_first());
        } else {
            assert(s.update(idx, rec)[0] == s[0]);
            assert(s.update(idx, rec).drop_first() =~= s.drop_first().update(idx - 1, rec));
            lemma_find_store_update_other(s.drop_first(), idx - 1, rec, db, name);
            lemma_find_store_props(s.drop_first(), db, name);
        }
    }
}

/// Appending a record that does not match the lookup moves nothing.
proof fn lemma_find_store_push_other(
    s: Seq<StoreRecModel>,
    rec: StoreRecModel,
    db: Seq<char>,
    name: Seq<char>,
)
    requires
        !(rec.database_id == db && rec.name == name),
    ensures
        (match spec_find_store(s, db, name) {
            Some(p) => spec_find_store(s.push(rec), db, name) == Some(p) && s.push(rec)[p] == s[p],
            None => (spec_find_store(s.push(rec), db, name) is None),
        }),
    decreases s.len(),
{
    lemma_find_store_props(s, db, name);
    if s.len() == 0 {
        assert(s.push(rec)[0] == rec);
        assert(s.push(rec).drop_first() =~= Seq::<StoreRecModel>::empty());
        assert(spec_find_store(Seq::<StoreRecModel>::empty(), db, name) is None);
    } else {
        assert(s.push(rec)[0] == s[0]);
        assert(s.push(rec).drop_first() =~= s.drop_first().push(rec));
        lemma_find_store_push_other(s.drop_first(), rec, db, name);
        lemma_find_store_props(s.drop_first(), db, name);
    }
}

/// Publishing working stores under other names leaves a name's
/// committed store untouched.
proof fn lemma_publish_preserves(
    stores: Seq<StoreRecModel>,
    db: Seq<char>,
    working: Seq<WorkingStoreModel>,
    name: Seq<char>,
)
    requires
        forall|j: int| 0 <= j < working.len() ==> (#[trigger] working[j]).name != name,
    ensures
        (match spec_find_store(stores, db, name) {
            Some(p) => spec_find_store(spec_publish(stores, db, working), db, name) matches Some(
                p2,
            ) && spec_publish(stores, db, working)[p2] == stores[p],
            None => (spec_find_store(spec_publish(stores, db, working), db, name) is None),
        }),
    decreases working.len(),
{
    if working.len() != 0 {
        let s1 = spec_publish_one(stores, db, working[0]);
        let rec = StoreRecModel { database_id: db, name: working[0].name, data: working[0].data };
        lemma_find_store_props(stores, db, working[0].name);
        match spec_find_store(stores, db, working[0].name) {
            Some(i) => {
                lemma_find_store_update_other(stores, i, rec, db, name);
            },
            None => {
                lemma_find_store_push_other(stores, rec, db, name);
            },
        }
        lemma_publish_preserves(s1, db, working.drop_first(), name);
    }
}

/// Commit installs each working store whole: after publishing, the
/// committed store under the transaction's database and a working
/// store's name holds exactly that working store's data — so a later
/// transaction that opens the name starts from exactly the items this
/// one committed. With the round-trip and removal laws this carries
/// find and read across commit.
pub proof fn lemma_publish_installs(
    stores: Seq<StoreRecModel>,
    db: Seq<char>,
    working: Seq<WorkingStoreModel>,
    i: int,
)
    requires
        0 <= i < working.len(),
        forall|j: int|
            0 <= j < working.len() && j != i ==> (#[trigger] working[j]).name != working[i].name,
    ensures
        (spec_find_store(spec_publish(stores, db, working), db, working[i].name) matches Some(p)
            && spec_publish(stores, db, working)[p].data == working[i].data),
    decreases i,
{
    let s1 = spec_publish_one(stores, db, working[0]);
    if i == 0 {
        let rec = StoreRecModel { database_id: db, name: working[0].name, data: working[0].data };
        lemma_find_store_props(stores, db, working[0].name);
        match spec_find_store(stores, db, working[0].name) {
            Some(q) => {
                assert forall|j: int|
                    0 <= j < q implies !((#[trigger] s1[j]).database_id == db && s1[j].name
                    == working[0].name) by {
                    assert(s1[j] == stores[j]);
                }
                lemma_find_store_exact(s1, db, working[0].name, q);
            },
            None => {
                assert forall|j: int|
                    0 <= j < stores.len() implies !((#[trigger] s1[j]).database_id == db
                    && s1[j].name == working[0].name) by {
                    assert(s1[j] == stores[j]);
                }
                assert(s1[stores.len() as int] == rec);
                lemma_find_store_exact(s1, db, working[0].name, stores.len() as int);
            },
        }
        assert(forall|j: int|
            0 <= j < working.drop_first().len() ==> (#[trigger] working.drop_first()[j]).name
                != working[0].name);
        lemma_publish_preserves(s1, db, working.drop_first(), working[0].name);
    } else {
        assert(forall|j: int| 1 <= j < working.len() ==> working[j] == working.drop_first()[j - 1]);
        lemma_publish_installs(s1, db, working.drop_first(), i - 1);
    }
}

/// Publishing well-formed working stores keeps every committed store
/// well-formed.
pub proof fn lemma_publish_one_wf(stores: Seq<StoreRecModel>, db: Seq<char>, w: WorkingStoreModel)
    requires
        forall|i: int| 0 <= i < stores.len() ==> (#[trigger] stores[i]).data.wf(),
        w.data.wf(),
    ensures
        forall|i: int|
            0 <= i < spec_publish_one(stores, db, w).len() ==> (#[trigger] spec_publish_one(
                stores,
                db,
                w,
            )[i]).data.wf(),
{
    let out = spec_publish_one(stores, db, w);
    lemma_find_store_props(stores, db, w.name);
    assert forall|i: int| 0 <= i < out.len() implies (#[trigger] out[i]).data.wf() by {
        match spec_find_store(stores, db, w.name) {
            Some(j) => {
                if i != j {
                    assert(out[i] == stores[i]);
                }
            },
            None => {
                if i < stores.len() {
                    assert(out[i] == stores[i]);
                }
            },
        }
    }
}

impl Engine {
    /// The transaction dispatch entry point. Commit publishes every
    /// working store of the transaction into the committed stores and
    /// ends the transaction; rollback discards and ends it. A null
    /// answer is success; a non-null answer is the error message. A
    /// transaction ends in exactly one terminal call: a second call
    /// answers that it is no longer active.
    pub fn manage_transaction(&mut self, _ctx_id: i64, action: i32, txn_id: &String) -> (r: Option<
        String,
    >)
        requires
            old(self)@.wf(),
        ensures
            final(self)@.wf(),
            (match spec_find_txn(old(self)@.transactions, txn_id@) {
                None => (r matches Some(e) && e@ == "unknown transaction"@ && final(self)@ == old(self)@),
                Some(t) => if action == TXN_ACTION_COMMIT && old(self)@.transactions[t].state
                    == TxnState::Active {
                    r is None && final(self)@ == (EngineModel {
                        transactions: old(self)@.transactions.update(
                            t,
                            (TxnRecModel { state: TxnState::Committed, ..old(self)@.transactions[t] }),
                        ),
                        stores: spec_publish(
                            old(self)@.stores,
                            old(self)@.transactions[t].database_id,
                            old(self)@.transactions[t].working,
                        ),
                        ..old(self)@
                    })
                } else if action == TXN_ACTION_ROLLBACK && old(self)@.transactions[t].state
                    == TxnState::Active {
                    r is None && final(self)@ == (EngineModel {
                        transactions: old(self)@.transactions.update(
                            t,
                            (TxnRecModel { state: TxnState::RolledBack, ..old(self)@.transactions[t] }),
                        ),
                        ..old(self)@
                    })
                } else if action == TXN_ACTION_COMMIT || action == TXN_ACTION_ROLLBACK {
                    (r matches Some(e) && e@ == "transaction is not active"@) && final(self)@
                        == old(self)@
                } else {
                    (r matches Some(e) && e@ == "unknown action"@) && final(self)@ == old(self)@
                },
            }),
    {
        proof {
            reveal_strlit("unknown transaction");
            reveal_strlit("transaction is not active");
            reveal_strlit("unknown action");
        }
        let t = match find_txn_index(&self.transactions, txn_id) {
            Some(t) => t,
            None => {
                return Some(String::from_str("unknown transaction"));
            },
        };
        if action != TXN_ACTION_COMMIT && action != TXN_ACTION_ROLLBACK {
            return Some(String::from_str("unknown action"));
        }
        let active = matches!(self.transactions[t].state, TxnState::Active);
        if !active {
            return Some(String::from_str("transaction is not active"));
        }
        if action == TXN_ACTION_ROLLBACK {
            self.transactions[t].state = TxnState::RolledBack;
            proof {
                crate::store::lemma_map_values_update(
                    old(self).transactions@,
                    |x: TxnRec| x@,
                    t as int,
                    self.transactions@[t as int],
                );
                assert(self@.transactions =~= old(self)@.transactions.update(
                    t as int,
                    (TxnRecModel { state: TxnState::RolledBack, ..old(self)@.transactions[t as int] }),
                ));
                assert(self@ == (EngineModel {
                    transactions: old(self)@.transactions.update(
                        t as int,
                        (TxnRecModel { state: TxnState::RolledBack, ..old(self)@.transactions[t as int] }),
                    ),
                    ..old(self)@
                }));
                assert forall|i: int| 0 <= i < self@.stores.len() implies (
                #[trigger] self@.stores[i]).data.wf() by {
                    assert(self@.stores[i] == old(self)@.stores[i]);
                }
                lemma_txn_shell_update_keeps_wf(old(self)@, self@, t as int);
            }
            return None;
        }
        let ghost db_v = self@.transactions[t as int].database_id;
        let ghost wv = self@.transactions[t as int].working;
        let nw = self.transactions[t].working.len();
        let mut w: usize = 0;
        proof {
            assert(wv.take(0) =~= Seq::<WorkingStoreModel>::empty());
        }
        while w < nw
            invariant
                w <= nw,
                old(self)@.wf(),
                t < self.transactions@.len(),
                self.transactions@ == old(self).transactions@,
                db_v == self@.transactions[t as int].database_id,
                wv == self@.transactions[t as int].working,
                nw == wv.len(),
                self@ == (EngineModel {
                    stores: spec_publish(old(self)@.stores, db_v, wv.take(w as int)),
                    ..old(self)@
                }),
                forall|i: int| 0 <= i < self@.stores.len() ==> (#[trigger] self@.stores[i]).data.wf(),
            decreases nw - w,
        {
            let name = self.transactions[t].working[w].name.clone();
            let data = self.transactions[t].working[w].data.duplicate();
            let dbid = self.transactions[t].database_id.clone();
            let ghost stores_pre = self@.stores;
            let rec = StoreRec { database_id: dbid, name, data };
            proof {
                assert(rec@ == (StoreRecModel {
                    database_id: db_v,
                    name: wv[w as int].name,
                    data: wv[w as int].data,
                }));
            }
            match find_store_index(&self.stores, &rec.database_id, &rec.name) {
                Some(si) => {
                    proof {
                        crate::store::lemma_map_values_update(
                            self.stores@,
                            |x: StoreRec| x@,
                            si as int,
                            rec,
                        );
                    }
                    self.stores.set(si, rec);
                },
                None => {
                    proof {
                        crate::store::lemma_map_values_push(self.stores@, |x: StoreRec| x@, rec);
                    }
                    self.stores.push(rec);
                },
            }
            proof {
                assert(self@.stores =~= spec_publish_one(stores_pre, db_v, wv[w as int]));
                assert(wv.take(w + 1) =~= wv.take(w as int).push(wv[w as int]));
                lemma_publish_snoc(old(self)@.stores, db_v, wv.take(w as int), wv[w as int]);
                assert(wv[w as int].data.wf()) by {
                    assert(old(self)@.transactions[t as int].working[w as int] == wv[w as int]);
                }
                lemma_publish_one_wf(stores_pre, db_v, wv[w as int]);
            }
            w = w + 1;
        }
        let ghost stores_fin = self@.stores;
        self.transactions[t].state = TxnState::Committed;
        proof {
            assert(wv.take(nw as int) =~= wv);
            crate::store::lemma_map_values_update(
                old(self).transactions@,
                |x: TxnRec| x@,
                t as int,
                self.transactions@[t as int],
            );
            assert(self@.transactions =~= old(self)@.transactions.update(
                t as int,
                (TxnRecModel { state: TxnState::Committed, ..old(self)@.transactions[t as int] }),
            ));
            assert(self@ == (EngineModel {
                transactions: old(self)@.transactions.update(
                    t as int,
                    (TxnRecModel { state: TxnState::Committed, ..old(self)@.transactions[t as int] }),
                ),
                stores: spec_publish(old(self)@.stores, db_v, wv),
                ..old(self)@
            }));
            assert forall|i: int| 0 <= i < self@.stores.len() implies (
            #[trigger] self@.stores[i]).data.wf() by {
                assert(self@.stores[i] == stores_fin[i]);
            }
            lemma_txn_shell_update_keeps_wf(old(self)@, self@, t as int);
        }
        None
    }
}

/// Changing one transaction's state alone — ids, working stores and all
/// other collections untouched, stores all well-formed — keeps the
/// registry well-formed.
pub proof fn lemma_txn_shell_update_keeps_wf(pre: EngineModel, post: EngineModel, t: int)
    requires
        pre.wf(),
        0 <= t < pre.transactions.len(),
        post.transactions.len() == pre.transactions.len(),
        forall|i: int|
            0 <= i < pre.transactions.len() ==> {
                let a = #[trigger] post.transactions[i];
                let b = pre.transactions[i];
                a.id == b.id && a.id_num == b.id_num && a.database_id == b.database_id && a.working
                    == b.working
            },
        post.contexts == pre.contexts,
        post.databases == pre.databases,
        post.btrees == pre.btrees,
        post.model_handles == pre.model_handles,
        post.search_handles == pre.search_handles,
        post.vector_handles == pre.vector_handles,
        post.next_context == pre.next_context,
        post.next_handle == pre.next_handle,
        forall|i: int| 0 <= i < post.stores.len() ==> (#[trigger] post.stores[i]).data.wf(),
    ensures
        post.wf(),
{
    assert forall|i: int|
        0 <= i < post.transactions.len() implies (#[trigger] post.transactions[i]).id
        == spec_handle(post.transactions[i].id_num as nat) && 0 <= post.transactions[i].id_num
        < post.next_handle by {
        assert(pre.transactions[i].id == spec_handle(pre.transactions[i].id_num as nat));
    }
    assert forall|i: int, j: int|
        0 <= i < j < post.transactions.len() implies (#[trigger] post.transactions[i]).id_num != (
    #[trigger] post.transactions[j]).id_num by {
        assert(pre.transactions[i].id_num != pre.transactions[j].id_num);
    }
    assert forall|u: int, v: int, x: int|
        0 <= u < post.transactions.len() && 0 <= v < x < (
        #[trigger] post.transactions[u]).working.len() implies (
    #[trigger] post.transactions[u].working[v]).name != (
    #[trigger] post.transactions[u].working[x]).name by {
        assert(pre.transactions[u].working[v].name != pre.transactions[u].working[x].name);
    }
    assert forall|u: int, v: int|
        0 <= u < post.transactions.len() && 0 <= v < (
        #[trigger] post.transactions[u]).working.len() implies (
    #[trigger] post.transactions[u].working[v]).data.wf() by {
        assert(pre.transactions[u].working[v].data.wf());
    }
}

/// The typed payload a database-level dispatch call carries; which
/// variant is expected depends on the opcode.
#[derive(Debug)]
pub enum DatabasePayload {
    /// No payload.
    Empty,
    /// Database creation options.
    Options(DatabaseOptions),
    /// B-tree creation or opening options.
    Btree(BtreeOptions),
    /// A store name and owning transaction, for the auxiliary store
    /// kinds and removal.
    Store { name: String, transaction_id: String },
}

/// A found database lies in range and carries the looked-up id; a miss
/// matches no record.
pub proof fn lemma_find_db_props(s: Seq<DatabaseRecModel>, id: Seq<char>)
    ensures
        (match spec_find_db(s, id) {
            Some(i) => 0 <= i < s.len() && s[i].id == id,
            None => forall|i: int| 0 <= i < s.len() ==> (#[trigger] s[i]).id != id,
        }),
    decreases s.len(),
{
    if s.len() != 0 && s[0].id != id {
        lemma_find_db_props(s.drop_first(), id);
        assert(forall|i: int| 1 <= i < s.len() ==> s[i] == s.drop_first()[i - 1]);
    }
}

/// A found transaction lies in range and carries the looked-up id.
pub proof fn lemma_find_txn_props(s: Seq<TxnRecModel>, id: Seq<char>)
    ensures
        (match spec_find_txn(s, id) {
            Some(i) => 0 <= i < s.len() && s[i].id == id,
            None => forall|i: int| 0 <= i < s.len() ==> (#[trigger] s[i]).id != id,
        }),
    decreases s.len(),
{
    if s.len() != 0 && s[0].id != id {
        lemma_find_txn_props(s.drop_first(), id);
        assert(forall|i: int| 1 <= i < s.len() ==> s[i] == s.drop_first()[i - 1]);
    }
}

/// A found B-tree handle lies in range and carries the looked-up id.
pub proof fn lemma_find_btree_props(s: Seq<BtreeRecModel>, id: Seq<char>)
    ensures
        (match spec_find_btree(s, id) {
            Some(i) => 0 <= i < s.len() && s[i].id == id,
            None => forall|i: int| 0 <= i < s.len() ==> (#[trigger] s[i]).id != id,
        }),
    decreases s.len(),
{
    if s.len() != 0 && s[0].id != id {
        lemma_find_btree_props(s.drop_first(), id);
        assert(forall|i: int| 1 <= i < s.len() ==> s[i] == s.drop_first()[i - 1]);
    }
}

/// A found working store lies in range and carries the looked-up name;
/// a miss matches no working store.
pub proof fn lemma_find_working_props(s: Seq<WorkingStoreModel>, name: Seq<char>)
    ensures
        (match spec_find_working(s, name) {
            Some(i) => 0 <= i < s.len() && s[i].name == name,
            None => forall|i: int| 0 <= i < s.len() ==> (#[trigger] s[i]).name != name,
        }),
    decreases s.len(),
{
    if s.len() != 0 && s[0].name != name {
        lemma_find_working_props(s.drop_first(), name);
        assert(forall|i: int| 1 <= i < s.len() ==> s[i] == s.drop_first()[i - 1]);
    }
}

/// The registry is unchanged and the answer is this error message.
pub open spec fn unchanged_err(
    pre: EngineModel,
    post: EngineModel,
    r: Option<String>,
    msg: Seq<char>,
) -> bool {
    post == pre && (r matches Some(e) && e@ == msg)
}

/// What creating a database does: refused while a configured backend
/// connection is not open, otherwise a fresh handle is minted and the
/// database registered under it.
pub open spec fn post_new_database(
    pre: EngineModel,
    post: EngineModel,
    payload: DatabasePayload,
    r: Option<String>,
) -> bool {
    match payload {
        DatabasePayload::Options(o) => if o.cache_type == L2CacheType::Redis && !pre.redis_open {
            unchanged_err(pre, post, r, "cache connection is not open"@)
        } else if o.db_type == DatabaseType::Clustered && !pre.cassandra_open {
            unchanged_err(pre, post, r, "cluster connection is not open"@)
        } else if pre.next_handle >= u64::MAX {
            unchanged_err(pre, post, r, "handle space exhausted"@)
        } else {
            (r matches Some(h) && h@ == spec_handle(pre.next_handle as nat)) && post
                == (EngineModel {
                next_handle: pre.next_handle + 1,
                databases: pre.databases.push(
                    DatabaseRecModel {
                        id: spec_handle(pre.next_handle as nat),
                        id_num: pre.next_handle,
                        cache_type: o.cache_type,
                        db_type: o.db_type,
                    },
                ),
                ..pre
            })
        },
        _ => unchanged_err(pre, post, r, "invalid payload"@),
    }
}

/// What beginning a transaction does: against a known database, a fresh
/// handle is minted and an active transaction with no working stores is
/// registered under it.
pub open spec fn post_begin_transaction(
    pre: EngineModel,
    post: EngineModel,
    db_id: Seq<char>,
    r: Option<String>,
) -> bool {
    match spec_find_db(pre.databases, db_id) {
        None => unchanged_err(pre, post, r, "unknown database"@),
        Some(_) => if pre.next_handle >= u64::MAX {
            unchanged_err(pre, post, r, "handle space exhausted"@)
        } else {
            (r matches Some(h) && h@ == spec_handle(pre.next_handle as nat)) && post
                == (EngineModel {
                next_handle: pre.next_handle + 1,
                transactions: pre.transactions.push(
                    TxnRecModel {
                        id: spec_handle(pre.next_handle as nat),
                        id_num: pre.next_handle,
                        database_id: db_id,
                        state: TxnState::Active,
                        working: Seq::empty(),
                    },
                ),
                ..pre
            })
        },
    }
}

/// The transaction's working stores after opening a store named `name`
/// under it: unchanged when already open; otherwise a working copy of
/// the committed store, or — when creating — a fresh empty store with
/// the given options; `None` when the store does not exist and the call
/// does not create.
pub open spec fn spec_open_working(
    pre: EngineModel,
    t: int,
    name: Seq<char>,
    opts_unique: bool,
    opts_ispec: Option<Seq<crate::keys::IndexFieldModel>>,
    create: bool,
) -> Option<Seq<WorkingStoreModel>> {
    let txn = pre.transactions[t];
    match spec_find_working(txn.working, name) {
        Some(_) => Some(txn.working),
        None => match spec_find_store(pre.stores, txn.database_id, name) {
            Some(si) => Some(
                txn.working.push(WorkingStoreModel { name, data: pre.stores[si].data }),
            ),
            None => if create {
                Some(
                    txn.working.push(
                        WorkingStoreModel {
                            name,
                            data: StoreModel {
                                is_unique: opts_unique,
                                ispec: opts_ispec,
                                items: Seq::empty(),
                            },
                        },
                    ),
                )
            } else {
                None
            },
        },
    }
}

/// What creating or opening a B-tree does: against an active
/// transaction, the store is bound as a working copy and a fresh B-tree
/// handle with an unpositioned cursor is registered.
pub open spec fn post_open_btree(
    pre: EngineModel,
    post: EngineModel,
    payload: DatabasePayload,
    create: bool,
    r: Option<String>,
) -> bool {
    match payload {
        DatabasePayload::Btree(o) => match spec_find_txn(pre.transactions, o.transaction_id@) {
            None => unchanged_err(pre, post, r, "unknown transaction"@),
            Some(t) => if !(pre.transactions[t].state == TxnState::Active) {
                unchanged_err(pre, post, r, "transaction is not active"@)
            } else if pre.next_handle >= u64::MAX {
                unchanged_err(pre, post, r, "handle space exhausted"@)
            } else {
                match spec_open_working(pre, t, o.name@, o.is_unique, o.spec_ispec(), create) {
                    None => unchanged_err(pre, post, r, "unknown store"@),
                    Some(working2) => (r matches Some(h) && h@ == spec_handle(
                        pre.next_handle as nat,
                    )) && post == (EngineModel {
                        next_handle: pre.next_handle + 1,
                        transactions: pre.transactions.update(
                            t,
                            (TxnRecModel { working: working2, ..pre.transactions[t] }),
                        ),
                        btrees: pre.btrees.push(
                            BtreeRecModel {
                                id: spec_handle(pre.next_handle as nat),
                                id_num: pre.next_handle,
                                transaction_id: o.transaction_id@,
                                name: o.name@,
                                cursor: CursorModel::Unpositioned,
                            },
                        ),
                        ..pre
                    }),
                }
            },
        },
        _ => unchanged_err(pre, post, r, "invalid payload"@),
    }
}

/// What opening an auxiliary store does: against a known transaction, a
/// fresh handle is minted and registered in the given handle class.
pub open spec fn aux_opened(
    pre: EngineModel,
    pre_seq: Seq<AuxHandleModel>,
    post_seq: Seq<AuxHandleModel>,
    name: Seq<char>,
    txn_id: Seq<char>,
    r: Option<String>,
) -> bool {
    (r matches Some(h) && h@ == spec_handle(pre.next_handle as nat)) && post_seq == pre_seq.push(
        AuxHandleModel {
            id: spec_handle(pre.next_handle as nat),
            id_num: pre.next_handle,
            transaction_id: txn_id,
            name: name,
        },
    )
}

/// What removing a B-tree does: the committed store under that database
/// and name is gone; removing an unknown name changes nothing. Either
/// way the answer is null.
pub open spec fn post_remove_btree(
    pre: EngineModel,
    post: EngineModel,
    db_id: Seq<char>,
    payload: DatabasePayload,
    r: Option<String>,
) -> bool {
    match payload {
        DatabasePayload::Store { name, .. } => match spec_find_store(pre.stores, db_id, name@) {
            Some(i) => (r is None) && post == (EngineModel {
                stores: pre.stores.remove(i),
                ..pre
            }),
            None => (r is None) && post == pre,
        },
        _ => unchanged_err(pre, post, r, "invalid payload"@),
    }
}

/// The first database record with the given id, as [`spec_find_db`]
/// names it.
fn find_db_index(v: &Vec<DatabaseRec>, id: &String) -> (r: Option<usize>)
    ensures
        (match r {
            Some(i) => i < v@.len() && spec_find_db(v@.map_values(|d: DatabaseRec| d@), id@)
                == Some(i as int),
            None => (spec_find_db(v@.map_values(|d: DatabaseRec| d@), id@) is None),
        }),
{
    let ghost pre = v@.map_values(|d: DatabaseRec| d@);
    let n = v.len();
    let mut i: usize = 0;
    proof {
        assert(pre.skip(0) =~= pre);
    }
    while i < n
        invariant
            i <= n,
            n == v@.len(),
            pre == v@.map_values(|d: DatabaseRec| d@),
            pre.len() == n,
            spec_find_db(pre, id@) == match spec_find_db(pre.skip(i as int), id@) {
                Some(p) => Some(p + i),
                None => None::<int>,
            },
        decreases n - i,
    {
        proof {
            assert(pre.skip(i as int)[0] == pre[i as int]);
        }
        if v[i].id == *id {
            return Some(i);
        }
        proof {
            assert(pre.skip(i as int).drop_first() =~= pre.skip(i + 1));
        }
        i = i + 1;
    }
    None
}

/// The first transaction record with the given id, as [`spec_find_txn`]
/// names it.
fn find_txn_index(v: &Vec<TxnRec>, id: &String) -> (r: Option<usize>)
    ensures
        (match r {
            Some(i) => i < v@.len() && spec_find_txn(v@.map_values(|t: TxnRec| t@), id@) == Some(
                i as int,
            ),
            None => (spec_find_txn(v@.map_values(|t: TxnRec| t@), id@) is None),
        }),
{
    let ghost pre = v@.map_values(|t: TxnRec| t@);
    let n = v.len();
    let mut i: usize = 0;
    proof {
        assert(pre.skip(0) =~= pre);
    }
    while i < n
        invariant
            i <= n,
            n == v@.len(),
            pre == v@.map_values(|t: TxnRec| t@),
            pre.len() == n,
            spec_find_txn(pre, id@) == match spec_find_txn(pre.skip(i as int), id@) {
                Some(p) => Some(p + i),
                None => None::<int>,
            },
        decreases n - i,
    {
        proof {
            assert(pre.skip(i as int)[0] == pre[i as int]);
        }
        if v[i].id == *id {
            return Some(i);
        }
        proof {
            assert(pre.skip(i as int).drop_first() =~= pre.skip(i + 1));
        }
        i = i + 1;
    }
    None
}

/// The first B-tree record with the given id, as [`spec_find_btree`]
/// names it.
fn find_btree_index(v: &Vec<BtreeRec>, id: &String) -> (r: Option<usize>)
    ensures
        (match r {
            Some(i) => i < v@.len() && spec_find_btree(v@.map_values(|b: BtreeRec| b@), id@)
                == Some(i as int),
            None => (spec_find_btree(v@.map_values(|b: BtreeRec| b@), id@) is None),
        }),
{
    let ghost pre = v@.map_values(|b: BtreeRec| b@);
    let n = v.len();
    let mut i: usize = 0;
    proof {
        assert(pre.skip(0) =~= pre);
    }
    while i < n
        invariant
            i <= n,
            n == v@.len(),
            pre == v@.map_values(|b: BtreeRec| b@),
            pre.len() == n,
            spec_find_btree(pre, id@) == match spec_find_btree(pre.skip(i as int), id@) {
                Some(p) => Some(p + i),
                None => None::<int>,
            },
        decreases n - i,
    {
        proof {
            assert(pre.skip(i as int)[0] == pre[i as int]);
        }
        if v[i].id == *id {
            return Some(i);
        }
        proof {
            assert(pre.skip(i as int).drop_first() =~= pre.skip(i + 1));
        }
        i = i + 1;
    }
    None
}

/// The first committed store for the database and name, as
/// [`spec_find_store`] names it.
fn find_store_index(v: &Vec<StoreRec>, db: &String, name: &String) -> (r: Option<usize>)
    ensures
        (match r {
            Some(i) => i < v@.len() && spec_find_store(v@.map_values(|s: StoreRec| s@), db@, name@)
                == Some(i as int),
            None => (spec_find_store(v@.map_values(|s: StoreRec| s@), db@, name@) is None),
        }),
{
    let ghost pre = v@.map_values(|s: StoreRec| s@);
    let n = v.len();
    let mut i: usize = 0;
    proof {
        assert(pre.skip(0) =~= pre);
    }
    while i < n
        invariant
            i <= n,
            n == v@.len(),
            pre == v@.map_values(|s: StoreRec| s@),
            pre.len() == n,
            spec_find_store(pre, db@, name@) == match spec_find_store(
                pre.skip(i as int),
                db@,
                name@,
            ) {
                Some(p) => Some(p + i),
                None => None::<int>,
            },
        decreases n - i,
    {
        proof {
            assert(pre.skip(i as int)[0] == pre[i as int]);
        }
        if v[i].database_id == *db && v[i].name == *name {
            return Some(i);
        }
        proof {
            assert(pre.skip(i as int).drop_first() =~= pre.skip(i + 1));
        }
        i = i + 1;
    }
    None
}

/// The first working store with the given name, as
/// [`spec_find_working`] names it.
fn find_working_index(v: &Vec<WorkingStore>, name: &String) -> (r: Option<usize>)
    ensures
        (match r {
            Some(i) => i < v@.len() && spec_find_working(v@.map_values(|w: WorkingStore| w@), name@)
                == Some(i as int),
            None => (spec_find_working(v@.map_values(|w: WorkingStore| w@), name@) is None),
        }),
{
    let ghost pre = v@.map_values(|w: WorkingStore| w@);
    let n = v.len();
    let mut i: usize = 0;
    proof {
        assert(pre.skip(0) =~= pre);
    }
    while i < n
        invariant
            i <= n,
            n == v@.len(),
            pre == v@.map_values(|w: WorkingStore| w@),
            pre.len() == n,
            spec_find_working(pre, name@) == match spec_find_working(pre.skip(i as int), name@) {
                Some(p) => Some(p + i),
                None => None::<int>,
            },
        decreases n - i,
    {
        proof {
            assert(pre.skip(i as int)[0] == pre[i as int]);
        }
        if v[i].name == *name {
            return Some(i);
        }
        proof {
            assert(pre.skip(i as int).drop_first() =~= pre.skip(i + 1));
        }
        i = i + 1;
    }
    None
}

impl Engine {
    /// The database dispatch entry point: creation of databases,
    /// transactions and stores, selected by opcode. A handle-creating
    /// call answers the new handle's text; an error is answered as the
    /// message itself, which no well-formed handle ever equals.
    pub fn manage_database(
        &mut self,
        _ctx_id: i64,
        action: i32,
        target_id: &String,
        payload: &DatabasePayload,
    ) -> (r: Option<String>)
        requires
            old(self)@.wf(),
        ensures
            final(self)@.wf(),
            action == DB_ACTION_NEW_DATABASE ==> post_new_database(
                old(self)@,
                final(self)@,
                *payload,
                r,
            ),
            action == DB_ACTION_BEGIN_TRANSACTION ==> post_begin_transaction(
                old(self)@,
                final(self)@,
                target_id@,
                r,
            ),
            action == DB_ACTION_NEW_BTREE || action == DB_ACTION_OPEN_BTREE
                ==> post_open_btree(
                old(self)@,
                final(self)@,
                *payload,
                action == DB_ACTION_NEW_BTREE,
                r,
            ),
            action == DB_ACTION_OPEN_MODEL_STORE || action == DB_ACTION_OPEN_VECTOR_STORE
                || action == DB_ACTION_OPEN_SEARCH ==> (match *payload {
                DatabasePayload::Store { name, transaction_id } => (match spec_find_txn(
                    old(self)@.transactions,
                    transaction_id@,
                ) {
                    None => unchanged_err(old(self)@, final(self)@, r, "unknown transaction"@),
                    Some(_) => if old(self)@.next_handle >= u64::MAX {
                        unchanged_err(old(self)@, final(self)@, r, "handle space exhausted"@)
                    } else {
                        (if action == DB_ACTION_OPEN_MODEL_STORE {
                            aux_opened(
                                old(self)@,
                                old(self)@.model_handles,
                                final(self)@.model_handles,
                                name@,
                                transaction_id@,
                                r,
                            ) && final(self)@ == (EngineModel {
                                next_handle: old(self)@.next_handle + 1,
                                model_handles: final(self)@.model_handles,
                                ..old(self)@
                            })
                        } else if action == DB_ACTION_OPEN_VECTOR_STORE {
                            aux_opened(
                                old(self)@,
                                old(self)@.vector_handles,
                                final(self)@.vector_handles,
                                name@,
                                transaction_id@,
                                r,
                            ) && final(self)@ == (EngineModel {
                                next_handle: old(self)@.next_handle + 1,
                                vector_handles: final(self)@.vector_handles,
                                ..old(self)@
                            })
                        } else {
                            aux_opened(
                                old(self)@,
                                old(self)@.search_handles,
                                final(self)@.search_handles,
                                name@,
                                transaction_id@,
                                r,
                            ) && final(self)@ == (EngineModel {
                                next_handle: old(self)@.next_handle + 1,
                                search_handles: final(self)@.search_handles,
                                ..old(self)@
                            })
                        })
                    },
                }),
                _ => unchanged_err(old(self)@, final(self)@, r, "invalid payload"@),
            }),
            action == DB_ACTION_REMOVE_BTREE ==> post_remove_btree(
                old(self)@,
                final(self)@,
                target_id@,
                *payload,
                r,
            ),
            !(DB_ACTION_NEW_DATABASE <= action <= DB_ACTION_REMOVE_BTREE) ==> unchanged_err(
                old(self)@,
                final(self)@,
                r,
                "unknown action"@,
            ),
    {
        proof {
            reveal_strlit("cache connection is not open");
            reveal_strlit("cluster connection is not open");
            reveal_strlit("handle space exhausted");
            reveal_strlit("invalid payload");
            reveal_strlit("unknown database");
            reveal_strlit("unknown transaction");
            reveal_strlit("transaction is not active");
            reveal_strlit("unknown store");
            reveal_strlit("unknown action");
        }
        if action == DB_ACTION_NEW_DATABASE {
            let o = match payload {
                DatabasePayload::Options(o) => o,
                _ => {
                    return Some(String::from_str("invalid payload"));
                },
            };
            if matches!(o.cache_type, L2CacheType::Redis) && !self.redis_open {
                return Some(String::from_str("cache connection is not open"));
            }
            if matches!(o.db_type, DatabaseType::Clustered) && !self.cassandra_open {
                return Some(String::from_str("cluster connection is not open"));
            }
            if self.next_handle == u64::MAX {
                return Some(String::from_str("handle space exhausted"));
            }
            let num = self.next_handle;
            let h = mint_handle(num);
            let rec = DatabaseRec {
                id: h.clone(),
                id_num: num,
                options: DatabaseOptions {
                    stores_folders: None,
                    keyspace: None,
                    cache_type: o.cache_type,
                    db_type: o.db_type,
                },
            };
            proof {
                crate::store::lemma_map_values_push(self.databases@, |x: DatabaseRec| x@, rec);
            }
            self.databases.push(rec);
            self.next_handle = num + 1;
            proof {
                assert(self@ == (EngineModel {
                    next_handle: old(self)@.next_handle + 1,
                    databases: old(self)@.databases.push(
                        DatabaseRecModel {
                            id: spec_handle(num as nat),
                            id_num: num as int,
                            cache_type: o.cache_type,
                            db_type: o.db_type,
                        },
                    ),
                    ..old(self)@
                }));
                lemma_fresh_push_wf(old(self)@, self@);
            }
            return Some(h);
        }
        if action == DB_ACTION_BEGIN_TRANSACTION {
            if find_db_index(&self.databases, target_id).is_none() {
                return Some(String::from_str("unknown database"));
            }
            if self.next_handle == u64::MAX {
                return Some(String::from_str("handle space exhausted"));
            }
            let num = self.next_handle;
            let h = mint_handle(num);
            let rec = TxnRec {
                id: h.clone(),
                id_num: num,
                database_id: target_id.clone(),
                state: TxnState::Active,
                working: Vec::new(),
            };
            proof {
                crate::store::lemma_map_values_push(self.transactions@, |x: TxnRec| x@, rec);
            }
            self.transactions.push(rec);
            self.next_handle = num + 1;
            proof {
                assert(self.transactions@.last()@.working =~= Seq::<WorkingStoreModel>::empty());
                assert(self@.transactions =~= old(self)@.transactions.push(
                    TxnRecModel {
                        id: spec_handle(num as nat),
                        id_num: num as int,
                        database_id: target_id@,
                        state: TxnState::Active,
                        working: Seq::empty(),
                    },
                ));
                assert(self@ == (EngineModel {
                    next_handle: old(self)@.next_handle + 1,
                    transactions: old(self)@.transactions.push(
                        TxnRecModel {
                            id: spec_handle(num as nat),
                            id_num: num as int,
                            database_id: target_id@,
                            state: TxnState::Active,
                            working: Seq::empty(),
                        },
                    ),
                    ..old(self)@
                }));
                lemma_fresh_push_wf(old(self)@, self@);
            }
            return Some(h);
        }
        if action == DB_ACTION_NEW_BTREE || action == DB_ACTION_OPEN_BTREE {
            let create = action == DB_ACTION_NEW_BTREE;
            let o = match payload {
                DatabasePayload::Btree(o) => o,
                _ => {
                    return Some(String::from_str("invalid payload"));
                },
            };
            let t = match find_txn_index(&self.transactions, &o.transaction_id) {
                Some(t) => t,
                None => {
                    return Some(String::from_str("unknown transaction"));
                },
            };
            if !matches!(self.transactions[t].state, TxnState::Active) {
                return Some(String::from_str("transaction is not active"));
            }
            if self.next_handle == u64::MAX {
                return Some(String::from_str("handle space exhausted"));
            }
            let ghost pre = self@;
            if find_working_index(&self.transactions[t].working, &o.name).is_none() {
                let dbid = self.transactions[t].database_id.clone();
                let w_new = match find_store_index(&self.stores, &dbid, &o.name) {
                    Some(si) => WorkingStore {
                        name: o.name.clone(),
                        data: self.stores[si].data.duplicate(),
                    },
                    None => {
                        if !create {
                            return Some(String::from_str("unknown store"));
                        }
                        let ispec_dup = match &o.index_specification {
                            Some(s) => Some(s.duplicate()),
                            None => None,
                        };
                        WorkingStore {
                            name: o.name.clone(),
                            data: StoreData::new(o.is_unique, ispec_dup),
                        }
                    },
                };
                proof {
                    crate::store::lemma_map_values_push(
                        self.transactions@[t as int].working@,
                        |x: WorkingStore| x@,
                        w_new,
                    );
                }
                self.transactions[t].working.push(w_new);
                proof {
                    crate::store::lemma_map_values_update(
                        old(self).transactions@,
                        |x: TxnRec| x@,
                        t as int,
                        self.transactions@[t as int],
                    );
                    assert(self@.transactions =~= pre.transactions.update(
                        t as int,
                        (TxnRecModel {
                            working: spec_open_working(
                                pre,
                                t as int,
                                o.name@,
                                o.is_unique,
                                o.spec_ispec(),
                                create,
                            )->Some_0,
                            ..pre.transactions[t as int]
                        }),
                    ));
                }
            } else {
                proof {
                    assert(pre.transactions.update(
                        t as int,
                        (TxnRecModel {
                            working: pre.transactions[t as int].working,
                            ..pre.transactions[t as int]
                        }),
                    ) =~= pre.transactions);
                }
            }
            let num = self.next_handle;
            let h = mint_handle(num);
            let rec = BtreeRec {
                id: h.clone(),
                id_num: num,
                transaction_id: o.transaction_id.clone(),
                name: o.name.clone(),
                cursor: Cursor::Unpositioned,
            };
            proof {
                crate::store::lemma_map_values_push(self.btrees@, |x: BtreeRec| x@, rec);
            }
            self.btrees.push(rec);
            self.next_handle = num + 1;
            proof {
                let working2 = spec_open_working(
                    pre,
                    t as int,
                    o.name@,
                    o.is_unique,
                    o.spec_ispec(),
                    create,
                )->Some_0;
                assert(self@ == (EngineModel {
                    next_handle: pre.next_handle + 1,
                    transactions: pre.transactions.update(
                        t as int,
                        (TxnRecModel { working: working2, ..pre.transactions[t as int] }),
                    ),
                    btrees: pre.btrees.push(
                        BtreeRecModel {
                            id: spec_handle(num as nat),
                            id_num: num as int,
                            transaction_id: o.transaction_id@,
                            name: o.name@,
                            cursor: CursorModel::Unpositioned,
                        },
                    ),
                    ..pre
                }));
                lemma_find_working_props(pre.transactions[t as int].working, o.name@);
                lemma_open_btree_wf(pre, self@, t as int);
            }
            return Some(h);
        }
        if action == DB_ACTION_OPEN_MODEL_STORE || action == DB_ACTION_OPEN_VECTOR_STORE || action
            == DB_ACTION_OPEN_SEARCH {
            let (name, txn_id) = match payload {
                DatabasePayload::Store { name, transaction_id } => (name, transaction_id),
                _ => {
                    return Some(String::from_str("invalid payload"));
                },
            };
            if find_txn_index(&self.transactions, txn_id).is_none() {
                return Some(String::from_str("unknown transaction"));
            }
            if self.next_handle == u64::MAX {
                return Some(String::from_str("handle space exhausted"));
            }
            let num = self.next_handle;
            let h = mint_handle(num);
            let rec = AuxHandle {
                id: h.clone(),
                id_num: num,
                transaction_id: txn_id.clone(),
                name: name.clone(),
            };
            if action == DB_ACTION_OPEN_MODEL_STORE {
                proof {
                    crate::store::lemma_map_values_push(self.model_handles@, |x: AuxHandle| x@, rec);
                }
                self.model_handles.push(rec);
            } else if action == DB_ACTION_OPEN_VECTOR_STORE {
                proof {
                    crate::store::lemma_map_values_push(
                        self.vector_handles@,
                        |x: AuxHandle| x@,
                        rec,
                    );
                }
                self.vector_handles.push(rec);
            } else {
                proof {
                    crate::store::lemma_map_values_push(
                        self.search_handles@,
                        |x: AuxHandle| x@,
                        rec,
                    );
                }
                self.search_handles.push(rec);
            }
            self.next_handle = num + 1;
            proof {
                lemma_fresh_push_wf(old(self)@, self@);
            }
            return Some(h);
        }
        if action == DB_ACTION_REMOVE_BTREE {
            let name = match payload {
                DatabasePayload::Store { name, .. } => name,
                _ => {
                    return Some(String::from_str("invalid payload"));
                },
            };
            match find_store_index(&self.stores, target_id, name) {
                Some(si) => {
                    self.stores.remove(si);
                    proof {
                        assert(self@.stores =~= old(self)@.stores.remove(si as int));
                        assert(self@ == (EngineModel {
                            stores: old(self)@.stores.remove(si as int),
                            ..old(self)@
                        }));
                        assert forall|i: int| 0 <= i < self@.stores.len() implies (
                        #[trigger] self@.stores[i]).data.wf() by {
                            if i < si {
                                assert(self@.stores[i] == old(self)@.stores[i]);
                            } else {
                                assert(self@.stores[i] == old(self)@.stores[i + 1]);
                            }
                        }
                    }
                    return None;
                },
                None => {
                    return None;
                },
            }
        }
        Some(String::from_str("unknown action"))
    }
}

/// A registry step that only appends freshly minted records — one new
/// database, transaction or auxiliary handle carrying the old counter
/// value, with the counter advanced by one and everything else equal —
/// stays well-formed.
pub proof fn lemma_fresh_push_wf(pre: EngineModel, post: EngineModel)
    requires
        pre.wf(),
        post.next_handle == pre.next_handle + 1,
        post.next_context == pre.next_context,
        post.contexts == pre.contexts,
        post.stores == pre.stores,
        post.databases == pre.databases || post.databases == pre.databases.push(
            DatabaseRecModel {
                id: spec_handle(pre.next_handle as nat),
                id_num: pre.next_handle,
                ..post.databases.last()
            },
        ),
        post.transactions == pre.transactions || post.transactions == pre.transactions.push(
            TxnRecModel {
                id: spec_handle(pre.next_handle as nat),
                id_num: pre.next_handle,
                state: TxnState::Active,
                working: Seq::empty(),
                ..post.transactions.last()
            },
        ),
        post.btrees == pre.btrees,
        post.model_handles == pre.model_handles || post.model_handles == pre.model_handles.push(
            AuxHandleModel {
                id: spec_handle(pre.next_handle as nat),
                id_num: pre.next_handle,
                ..post.model_handles.last()
            },
        ),
        post.search_handles == pre.search_handles || post.search_handles == pre.search_handles.push(
            AuxHandleModel {
                id: spec_handle(pre.next_handle as nat),
                id_num: pre.next_handle,
                ..post.search_handles.last()
            },
        ),
        post.vector_handles == pre.vector_handles || post.vector_handles == pre.vector_handles.push(
            AuxHandleModel {
                id: spec_handle(pre.next_handle as nat),
                id_num: pre.next_handle,
                ..post.vector_handles.last()
            },
        ),
    ensures
        post.wf(),
{
}

/// Opening a B-tree — one transaction's working stores possibly
/// extended by one well-formed store under a name not yet open, one
/// fresh B-tree handle appended, the counter advanced — keeps the
/// registry well-formed.
pub proof fn lemma_open_btree_wf(pre: EngineModel, post: EngineModel, t: int)
    requires
        pre.wf(),
        0 <= t < pre.transactions.len(),
        post.next_handle == pre.next_handle + 1,
        post.next_context == pre.next_context,
        post.contexts == pre.contexts,
        post.stores == pre.stores,
        post.databases == pre.databases,
        post.model_handles == pre.model_handles,
        post.search_handles == pre.search_handles,
        post.vector_handles == pre.vector_handles,
        post.btrees.len() == pre.btrees.len() + 1,
        forall|i: int| 0 <= i < pre.btrees.len() ==> post.btrees[i] == pre.btrees[i],
        post.btrees.last().id == spec_handle(pre.next_handle as nat),
        post.btrees.last().id_num == pre.next_handle,
        post.transactions.len() == pre.transactions.len(),
        forall|i: int| 0 <= i < pre.transactions.len() && i != t ==> post.transactions[i] == pre.transactions[i],
        post.transactions[t].id == pre.transactions[t].id,
        post.transactions[t].id_num == pre.transactions[t].id_num,
        post.transactions[t].database_id == pre.transactions[t].database_id,
        post.transactions[t].working == pre.transactions[t].working || (
        post.transactions[t].working.len() == pre.transactions[t].working.len() + 1
            && (forall|i: int|
            0 <= i < pre.transactions[t].working.len() ==> post.transactions[t].working[i]
                == pre.transactions[t].working[i]) && post.transactions[t].working.last().data.wf()
            && (forall|i: int|
            0 <= i < pre.transactions[t].working.len() ==> (#[trigger] pre.transactions[t].working[i]).name
                != post.transactions[t].working.last().name)),
    ensures
        post.wf(),
{
    assert forall|u: int, v: int, w: int|
        0 <= u < post.transactions.len() && 0 <= v < w < (
        #[trigger] post.transactions[u]).working.len() implies (
    #[trigger] post.transactions[u].working[v]).name != (
    #[trigger] post.transactions[u].working[w]).name by {
        if u != t {
            assert(post.transactions[u] == pre.transactions[u]);
        } else if post.transactions[t].working == pre.transactions[t].working {
            assert(post.transactions[u].working[v] == pre.transactions[t].working[v]);
            assert(post.transactions[u].working[w] == pre.transactions[t].working[w]);
        } else {
            if w < pre.transactions[t].working.len() {
                assert(post.transactions[u].working[v] == pre.transactions[t].working[v]);
                assert(post.transactions[u].working[w] == pre.transactions[t].working[w]);
            } else {
                assert(post.transactions[u].working[v] == pre.transactions[t].working[v]);
                assert(post.transactions[u].working[w] == post.transactions[t].working.last());
            }
        }
    }
    assert forall|u: int, v: int|
        0 <= u < post.transactions.len() && 0 <= v < (
        #[trigger] post.transactions[u]).working.len() implies (
    #[trigger] post.transactions[u].working[v]).data.wf() by {
        if u != t {
            assert(post.transactions[u] == pre.transactions[u]);
        } else if post.transactions[t].working == pre.transactions[t].working {
            assert(post.transactions[u].working[v] == pre.transactions[t].working[v]);
        } else {
            if v < pre.transactions[t].working.len() {
                assert(post.transactions[u].working[v] == pre.transactions[t].working[v]);
            } else {
                assert(post.transactions[u].working[v] == post.transactions[t].working.last());
            }
        }
    }
    assert forall|i: int|
        0 <= i < post.btrees.len() implies (#[trigger] post.btrees[i]).id == spec_handle(
        post.btrees[i].id_num as nat,
    ) && 0 <= post.btrees[i].id_num < post.next_handle by {
        if i < pre.btrees.len() {
            assert(post.btrees[i] == pre.btrees[i]);
        } else {
            assert(post.btrees[i] == post.btrees.last());
        }
    }
    assert forall|i: int, j: int|
        0 <= i < j < post.btrees.len() implies (#[trigger] post.btrees[i]).id_num != (
    #[trigger] post.btrees[j]).id_num by {
        if j < pre.btrees.len() {
            assert(post.btrees[i] == pre.btrees[i] && post.btrees[j] == pre.btrees[j]);
        } else {
            assert(post.btrees[i] == pre.btrees[i]);
            assert(post.btrees[j] == post.btrees.last());
        }
    }
    assert forall|i: int|
        0 <= i < post.transactions.len() implies (#[trigger] post.transactions[i]).id
        == spec_handle(post.transactions[i].id_num as nat) && 0 <= post.transactions[i].id_num
        < post.next_handle by {
        assert(pre.transactions[i].id == spec_handle(pre.transactions[i].id_num as nat));
    }
    assert forall|i: int, j: int|
        0 <= i < j < post.transactions.len() implies (#[trigger] post.transactions[i]).id_num != (
    #[trigger] post.transactions[j]).id_num by {
        assert(pre.transactions[i].id_num != pre.transactions[j].id_num);
    }
}

/// B-tree mutating opcodes.
pub const BTREE_ACTION_ADD: i32 = 1;

pub const BTREE_ACTION_ADD_IF_NOT_EXIST: i32 = 2;

pub const BTREE_ACTION_UPDATE: i32 = 3;

pub const BTREE_ACTION_UPSERT: i32 = 4;

pub const BTREE_ACTION_REMOVE: i32 = 5;

pub const BTREE_ACTION_UPDATE_KEY: i32 = 16;

pub const BTREE_ACTION_UPDATE_CURRENT_KEY: i32 = 17;

/// B-tree navigating opcodes.
pub const BTREE_ACTION_FIND: i32 = 6;

pub const BTREE_ACTION_MOVE_FIRST: i32 = 11;

pub const BTREE_ACTION_MOVE_LAST: i32 = 12;

pub const BTREE_ACTION_MOVE_NEXT: i32 = 19;

pub const BTREE_ACTION_MOVE_PREVIOUS: i32 = 20;

/// The entry an item denotes: a missing value reads as empty text.
pub open spec fn item_entry(it: ItemModel) -> EntryModel {
    EntryModel {
        key: it.key,
        value: match it.value {
            Some(v) => v,
            None => Seq::empty(),
        },
    }
}

/// One `add` step: a unique store refuses a present key; otherwise the
/// item is inserted at the sorted position.
pub open spec fn step_add(m: StoreModel, it: ItemModel) -> Option<StoreModel> {
    if m.is_unique && m.contains_key(it.key) {
        None
    } else {
        Some(
            m.with_items(
                m.items.insert(spec_insert_pos(m.ispec, m.items, it.key), item_entry(it)),
            ),
        )
    }
}

/// One strict `add if not exist` step: any present key refuses.
pub open spec fn step_add_strict(m: StoreModel, it: ItemModel) -> Option<StoreModel> {
    if m.contains_key(it.key) {
        None
    } else {
        Some(
            m.with_items(
                m.items.insert(spec_insert_pos(m.ispec, m.items, it.key), item_entry(it)),
            ),
        )
    }
}

/// One lenient `add if not exist` step: a present key is skipped.
pub open spec fn step_add_if_absent(m: StoreModel, it: ItemModel) -> Option<StoreModel> {
    if m.contains_key(it.key) {
        Some(m)
    } else {
        Some(
            m.with_items(
                m.items.insert(spec_insert_pos(m.ispec, m.items, it.key), item_entry(it)),
            ),
        )
    }
}

/// One `update` step: the first equivalent item's value is replaced,
/// its stored key untouched; an absent key refuses.
pub open spec fn step_update(m: StoreModel, it: ItemModel) -> Option<StoreModel> {
    match spec_first_equiv(m.ispec, m.items, it.key) {
        Some(i) => Some(
            m.with_items(
                m.items.update(
                    i,
                    EntryModel { key: m.items[i].key, value: item_entry(it).value },
                ),
            ),
        ),
        None => None,
    }
}

/// One `upsert` step: replace the first equivalent item whole, or
/// insert; never refused.
pub open spec fn step_upsert(m: StoreModel, it: ItemModel) -> Option<StoreModel> {
    Some(m.with_items(spec_upsert(m.ispec, m.items, item_entry(it))))
}

/// One `update key` step: the first equivalent item's key is replaced —
/// its ride-along fields updated — and its value untouched; an absent
/// key refuses.
pub open spec fn step_update_key(m: StoreModel, it: ItemModel) -> Option<StoreModel> {
    match spec_first_equiv(m.ispec, m.items, it.key) {
        Some(i) => Some(
            m.with_items(m.items.update(i, EntryModel { key: it.key, value: m.items[i].value })),
        ),
        None => None,
    }
}

/// One `remove` step: the first equivalent item is removed; an absent
/// key refuses.
pub open spec fn step_remove(m: StoreModel, it: ItemModel) -> Option<StoreModel> {
    match spec_first_equiv(m.ispec, m.items, it.key) {
        Some(i) => Some(m.with_items(m.items.remove(i))),
        None => None,
    }
}

/// A batch folded through one step function, item by item; a refused
/// step refuses the whole batch.
pub open spec fn spec_fold_steps(
    step: spec_fn(StoreModel, ItemModel) -> Option<StoreModel>,
    m: StoreModel,
    batch: Seq<ItemModel>,
) -> Option<StoreModel>
    decreases batch.len(),
{
    if batch.len() == 0 {
        Some(m)
    } else {
        match step(m, batch[0]) {
            Some(m2) => spec_fold_steps(step, m2, batch.drop_first()),
            None => None,
        }
    }
}

/// Folding one more item continues where the others ended.
pub proof fn lemma_fold_steps_snoc(
    step: spec_fn(StoreModel, ItemModel) -> Option<StoreModel>,
    m: StoreModel,
    batch: Seq<ItemModel>,
    it: ItemModel,
)
    ensures
        spec_fold_steps(step, m, batch.push(it)) == (match spec_fold_steps(step, m, batch) {
            Some(m2) => step(m2, it),
            None => None,
        }),
    decreases batch.len(),
{
    if batch.len() == 0 {
        assert(batch.push(it)[0] == it);
        assert(batch.push(it).drop_first() =~= Seq::<ItemModel>::empty());
        match step(m, it) {
            Some(m2) => {
                assert(spec_fold_steps(step, m, batch.push(it)) == spec_fold_steps(
                    step,
                    m2,
                    Seq::<ItemModel>::empty(),
                ));
            },
            None => {},
        }
    } else {
        assert(batch.push(it)[0] == batch[0]);
        assert(batch.push(it).drop_first() =~= batch.drop_first().push(it));
        match step(m, batch[0]) {
            Some(m2) => {
                assert(spec_fold_steps(step, m, batch.push(it)) == spec_fold_steps(
                    step,
                    m2,
                    batch.drop_first().push(it),
                ));
                lemma_fold_steps_snoc(step, m2, batch.drop_first(), it);
            },
            None => {
                assert(spec_fold_steps(step, m, batch.push(it)) is None);
            },
        }
    }
}

/// Once a prefix of the batch refuses, the whole batch refuses.
pub proof fn lemma_fold_steps_prefix_none(
    step: spec_fn(StoreModel, ItemModel) -> Option<StoreModel>,
    m: StoreModel,
    batch: Seq<ItemModel>,
    j: int,
)
    requires
        0 <= j <= batch.len(),
        spec_fold_steps(step, m, batch.take(j)) is None,
    ensures
        spec_fold_steps(step, m, batch) is None,
    decreases batch.len() - j,
{
    if j < batch.len() {
        assert(batch.take(j + 1) =~= batch.take(j).push(batch[j]));
        lemma_fold_steps_snoc(step, m, batch.take(j), batch[j]);
        lemma_fold_steps_prefix_none(step, m, batch, j + 1);
    } else {
        assert(batch.take(j) =~= batch);
    }
}

/// Which B-tree, transaction and working store a metadata envelope
/// addresses, or the error when it addresses none: the handle must be
/// known, its transaction still active, and its store open under that
/// transaction.
pub open spec fn spec_resolve_btree(pre: EngineModel, id: Seq<char>) -> Result<
    (int, int, int),
    Seq<char>,
> {
    match spec_find_btree(pre.btrees, id) {
        None => Err("unknown btree"@),
        Some(bt) => match spec_find_txn(pre.transactions, pre.btrees[bt].transaction_id) {
            None => Err("unknown transaction"@),
            Some(t) => if !(pre.transactions[t].state == TxnState::Active) {
                Err("transaction is not active"@)
            } else {
                match spec_find_working(pre.transactions[t].working, pre.btrees[bt].name) {
                    None => Err("unknown store"@),
                    Some(w) => Ok((bt, t, w)),
                }
            },
        },
    }
}

/// The registry with one working store's data replaced.
pub open spec fn spec_with_working(pre: EngineModel, t: int, w: int, m: StoreModel) -> EngineModel {
    EngineModel {
        transactions: pre.transactions.update(
            t,
            (TxnRecModel {
                working: pre.transactions[t].working.update(
                    w,
                    WorkingStoreModel { name: pre.transactions[t].working[w].name, data: m },
                ),
                ..pre.transactions[t]
            }),
        ),
        ..pre
    }
}

/// The registry with one B-tree handle's cursor moved.
pub open spec fn spec_with_cursor(pre: EngineModel, bt: int, c: CursorModel) -> EngineModel {
    EngineModel {
        btrees: pre.btrees.update(bt, (BtreeRecModel { cursor: c, ..pre.btrees[bt] })),
        ..pre
    }
}

/// Replacing one working store's data with well-formed data keeps the
/// registry well-formed.
pub proof fn lemma_with_working_wf(pre: EngineModel, t: int, w: int, m: StoreModel)
    requires
        pre.wf(),
        0 <= t < pre.transactions.len(),
        0 <= w < pre.transactions[t].working.len(),
        m.wf(),
    ensures
        spec_with_working(pre, t, w, m).wf(),
{
    let post = spec_with_working(pre, t, w, m);
    assert forall|i: int|
        0 <= i < post.transactions.len() implies (#[trigger] post.transactions[i]).id
        == spec_handle(post.transactions[i].id_num as nat) && 0 <= post.transactions[i].id_num
        < post.next_handle by {
        assert(pre.transactions[i].id == spec_handle(pre.transactions[i].id_num as nat));
    }
    assert forall|i: int, j: int|
        0 <= i < j < post.transactions.len() implies (#[trigger] post.transactions[i]).id_num != (
    #[trigger] post.transactions[j]).id_num by {
        assert(pre.transactions[i].id_num != pre.transactions[j].id_num);
    }
    assert forall|u: int, v: int, x: int|
        0 <= u < post.transactions.len() && 0 <= v < x < (
        #[trigger] post.transactions[u]).working.len() implies (
    #[trigger] post.transactions[u].working[v]).name != (
    #[trigger] post.transactions[u].working[x]).name by {
        assert(pre.transactions[u].working[v].name != pre.transactions[u].working[x].name);
        if u == t {
            if v != w {
                assert(post.transactions[u].working[v] == pre.transactions[u].working[v]);
            }
            if x != w {
                assert(post.transactions[u].working[x] == pre.transactions[u].working[x]);
            }
        } else {
            assert(post.transactions[u] == pre.transactions[u]);
        }
    }
    assert forall|u: int, v: int|
        0 <= u < post.transactions.len() && 0 <= v < (
        #[trigger] post.transactions[u]).working.len() implies (
    #[trigger] post.transactions[u].working[v]).data.wf() by {
        if u == t && v == w {
        } else if u == t {
            assert(post.transactions[u].working[v] == pre.transactions[u].working[v]);
            assert(pre.transactions[u].working[v].data.wf());
        } else {
            assert(post.transactions[u] == pre.transactions[u]);
            assert(pre.transactions[u].working[v].data.wf());
        }
    }
}

/// Moving one cursor keeps the registry well-formed.
pub proof fn lemma_with_cursor_wf(pre: EngineModel, bt: int, c: CursorModel)
    requires
        pre.wf(),
        0 <= bt < pre.btrees.len(),
    ensures
        spec_with_cursor(pre, bt, c).wf(),
{
    let post = spec_with_cursor(pre, bt, c);
    assert forall|i: int|
        0 <= i < post.btrees.len() implies (#[trigger] post.btrees[i]).id == spec_handle(
        post.btrees[i].id_num as nat,
    ) && 0 <= post.btrees[i].id_num < post.next_handle by {
        assert(pre.btrees[i].id == spec_handle(pre.btrees[i].id_num as nat));
    }
    assert forall|i: int, j: int|
        0 <= i < j < post.btrees.len() implies (#[trigger] post.btrees[i]).id_num != (
    #[trigger] post.btrees[j]).id_num by {
        assert(pre.btrees[i].id_num != pre.btrees[j].id_num);
    }
}

/// Applies one batch of additions to a scratch store, all or nothing.
fn apply_add_batch(data: &mut StoreData, items: &Vec<Item>, strict: bool) -> (ok: bool)
    requires
        old(data)@.wf(),
    ensures
        ({
            let step = if strict {
                |m: StoreModel, it: ItemModel| step_add_strict(m, it)
            } else {
                |m: StoreModel, it: ItemModel| step_add(m, it)
            };
            let outcome = spec_fold_steps(step, old(data)@, items@.map_values(|x: Item| x@));
            if ok {
                outcome matches Some(m) && final(data)@ == m && m.wf()
            } else {
                outcome is None
            }
        }),
{
    let ghost step = if strict {
        |m: StoreModel, it: ItemModel| step_add_strict(m, it)
    } else {
        |m: StoreModel, it: ItemModel| step_add(m, it)
    };
    let ghost bviews = items@.map_values(|x: Item| x@);
    let n = items.len();
    let mut i: usize = 0;
    proof {
        assert(bviews.take(0) =~= Seq::<ItemModel>::empty());
    }
    while i < n
        invariant
            i <= n,
            n == items@.len(),
            bviews == items@.map_values(|x: Item| x@),
            bviews.len() == n,
            data@.wf(),
            step == (if strict {
                |m: StoreModel, it: ItemModel| step_add_strict(m, it)
            } else {
                |m: StoreModel, it: ItemModel| step_add(m, it)
            }),
            spec_fold_steps(step, old(data)@, bviews.take(i as int)) == Some(data@),
        decreases n - i,
    {
        let ghost pre_step = data@;
        let key = items[i].key.duplicate();
        let value = match &items[i].value {
            Some(v) => v.clone(),
            None => String::new(),
        };
        let refused = if strict {
            !data.add_if_absent(key, value)
        } else {
            !data.add(key, value)
        };
        proof {
            assert(bviews.take(i + 1) =~= bviews.take(i as int).push(bviews[i as int]));
            lemma_fold_steps_snoc(step, old(data)@, bviews.take(i as int), bviews[i as int]);
            assert(item_entry(bviews[i as int]) == (EntryModel {
                key: items@[i as int]@.key,
                value: match items@[i as int]@.value {
                    Some(v) => v,
                    None => Seq::<char>::empty(),
                },
            }));
        }
        if refused {
            proof {
                lemma_fold_steps_prefix_none(step, old(data)@, bviews, i + 1);
            }
            return false;
        }
        i = i + 1;
    }
    proof {
        assert(bviews.take(n as int) =~= bviews);
    }
    true
}

/// Applies one batch of lenient `add if not exist` steps to a scratch
/// store; reports whether every item was actually added.
fn apply_add_if_absent_batch(data: &mut StoreData, items: &Vec<Item>) -> (all_added: bool)
    requires
        old(data)@.wf(),
    ensures
        ({
            let lenient = spec_fold_steps(
                |m: StoreModel, it: ItemModel| step_add_if_absent(m, it),
                old(data)@,
                items@.map_values(|x: Item| x@),
            );
            lenient matches Some(m) && final(data)@ == m && m.wf()
        }),
        all_added == (spec_fold_steps(
            |m: StoreModel, it: ItemModel| step_add_strict(m, it),
            old(data)@,
            items@.map_values(|x: Item| x@),
        ) is Some),
{
    let ghost lstep = |m: StoreModel, it: ItemModel| step_add_if_absent(m, it);
    let ghost sstep = |m: StoreModel, it: ItemModel| step_add_strict(m, it);
    let ghost bviews = items@.map_values(|x: Item| x@);
    let n = items.len();
    let mut i: usize = 0;
    let mut all_added = true;
    proof {
        assert(bviews.take(0) =~= Seq::<ItemModel>::empty());
    }
    while i < n
        invariant
            i <= n,
            n == items@.len(),
            bviews == items@.map_values(|x: Item| x@),
            bviews.len() == n,
            data@.wf(),
            lstep == (|m: StoreModel, it: ItemModel| step_add_if_absent(m, it)),
            sstep == (|m: StoreModel, it: ItemModel| step_add_strict(m, it)),
            spec_fold_steps(lstep, old(data)@, bviews.take(i as int)) == Some(data@),
            all_added ==> spec_fold_steps(sstep, old(data)@, bviews.take(i as int)) == Some(data@),
            !all_added ==> (spec_fold_steps(sstep, old(data)@, bviews.take(i as int)) is None),
        decreases n - i,
    {
        let key = items[i].key.duplicate();
        let value = match &items[i].value {
            Some(v) => v.clone(),
            None => String::new(),
        };
        let added = data.add_if_absent(key, value);
        proof {
            assert(bviews.take(i + 1) =~= bviews.take(i as int).push(bviews[i as int]));
            lemma_fold_steps_snoc(lstep, old(data)@, bviews.take(i as int), bviews[i as int]);
            lemma_fold_steps_snoc(sstep, old(data)@, bviews.take(i as int), bviews[i as int]);
            assert(item_entry(bviews[i as int]) == (EntryModel {
                key: items@[i as int]@.key,
                value: match items@[i as int]@.value {
                    Some(v) => v,
                    None => Seq::<char>::empty(),
                },
            }));
        }
        if !added {
            all_added = false;
        }
        i = i + 1;
    }
    proof {
        assert(bviews.take(n as int) =~= bviews);
    }
    all_added
}

/// Applies one batch of updates to a scratch store, all or nothing.
fn apply_update_batch(data: &mut StoreData, items: &Vec<Item>) -> (ok: bool)
    requires
        old(data)@.wf(),
    ensures
        ({
            let outcome = spec_fold_steps(
                |m: StoreModel, it: ItemModel| step_update(m, it),
                old(data)@,
                items@.map_values(|x: Item| x@),
            );
            if ok {
                outcome matches Some(m) && final(data)@ == m && m.wf()
            } else {
                outcome is None
            }
        }),
{
    let ghost step = |m: StoreModel, it: ItemModel| step_update(m, it);
    let ghost bviews = items@.map_values(|x: Item| x@);
    let n = items.len();
    let mut i: usize = 0;
    proof {
        assert(bviews.take(0) =~= Seq::<ItemModel>::empty());
    }
    while i < n
        invariant
            i <= n,
            n == items@.len(),
            bviews == items@.map_values(|x: Item| x@),
            bviews.len() == n,
            data@.wf(),
            step == (|m: StoreModel, it: ItemModel| step_update(m, it)),
            spec_fold_steps(step, old(data)@, bviews.take(i as int)) == Some(data@),
        decreases n - i,
    {
        let value = match &items[i].value {
            Some(v) => v.clone(),
            None => String::new(),
        };
        let updated = data.update(&items[i].key, value);
        proof {
            assert(bviews.take(i + 1) =~= bviews.take(i as int).push(bviews[i as int]));
            lemma_fold_steps_snoc(step, old(data)@, bviews.take(i as int), bviews[i as int]);
            assert(item_entry(bviews[i as int]) == (EntryModel {
                key: items@[i as int]@.key,
                value: match items@[i as int]@.value {
                    Some(v) => v,
                    None => Seq::<char>::empty(),
                },
            }));
        }
        if !updated {
            proof {
                lemma_fold_steps_prefix_none(step, old(data)@, bviews, i + 1);
            }
            return false;
        }
        i = i + 1;
    }
    proof {
        assert(bviews.take(n as int) =~= bviews);
    }
    true
}

/// Applies one batch of upserts to a scratch store; an upsert is never
/// refused.
fn apply_upsert_batch(data: &mut StoreData, items: &Vec<Item>)
    requires
        old(data)@.wf(),
    ensures
        ({
            let outcome = spec_fold_steps(
                |m: StoreModel, it: ItemModel| step_upsert(m, it),
                old(data)@,
                items@.map_values(|x: Item| x@),
            );
            outcome matches Some(m) && final(data)@ == m && m.wf()
        }),
{
    let ghost step = |m: StoreModel, it: ItemModel| step_upsert(m, it);
    let ghost bviews = items@.map_values(|x: Item| x@);
    let n = items.len();
    let mut i: usize = 0;
    proof {
        assert(bviews.take(0) =~= Seq::<ItemModel>::empty());
    }
    while i < n
        invariant
            i <= n,
            n == items@.len(),
            bviews == items@.map_values(|x: Item| x@),
            bviews.len() == n,
            data@.wf(),
            step == (|m: StoreModel, it: ItemModel| step_upsert(m, it)),
            spec_fold_steps(step, old(data)@, bviews.take(i as int)) == Some(data@),
        decreases n - i,
    {
        let key = items[i].key.duplicate();
        let value = match &items[i].value {
            Some(v) => v.clone(),
            None => String::new(),
        };
        data.upsert(key, value);
        proof {
            assert(bviews.take(i + 1) =~= bviews.take(i as int).push(bviews[i as int]));
            lemma_fold_steps_snoc(step, old(data)@, bviews.take(i as int), bviews[i as int]);
            assert(item_entry(bviews[i as int]) == (EntryModel {
                key: items@[i as int]@.key,
                value: match items@[i as int]@.value {
                    Some(v) => v,
                    None => Seq::<char>::empty(),
                },
            }));
        }
        i = i + 1;
    }
    proof {
        assert(bviews.take(n as int) =~= bviews);
    }
}

/// Applies one batch of key updates to a scratch store, all or nothing.
fn apply_update_key_batch(data: &mut StoreData, items: &Vec<Item>) -> (ok: bool)
    requires
        old(data)@.wf(),
    ensures
        ({
            let outcome = spec_fold_steps(
                |m: StoreModel, it: ItemModel| step_update_key(m, it),
                old(data)@,
                items@.map_values(|x: Item| x@),
            );
            if ok {
                outcome matches Some(m) && final(data)@ == m && m.wf()
            } else {
                outcome is None
            }
        }),
{
    let ghost step = |m: StoreModel, it: ItemModel| step_update_key(m, it);
    let ghost bviews = items@.map_values(|x: Item| x@);
    let n = items.len();
    let mut i: usize = 0;
    proof {
        assert(bviews.take(0) =~= Seq::<ItemModel>::empty());
    }
    while i < n
        invariant
            i <= n,
            n == items@.len(),
            bviews == items@.map_values(|x: Item| x@),
            bviews.len() == n,
            data@.wf(),
            step == (|m: StoreModel, it: ItemModel| step_update_key(m, it)),
            spec_fold_steps(step, old(data)@, bviews.take(i as int)) == Some(data@),
        decreases n - i,
    {
        let key = items[i].key.duplicate();
        let updated = data.update_key(key);
        proof {
            assert(bviews.take(i + 1) =~= bviews.take(i as int).push(bviews[i as int]));
            lemma_fold_steps_snoc(step, old(data)@, bviews.take(i as int), bviews[i as int]);
        }
        if !updated {
            proof {
                lemma_fold_steps_prefix_none(step, old(data)@, bviews, i + 1);
            }
            return false;
        }
        i = i + 1;
    }
    proof {
        assert(bviews.take(n as int) =~= bviews);
    }
    true
}

/// Applies one batch of removals to a scratch store, all or nothing.
fn apply_remove_batch(data: &mut StoreData, items: &Vec<Item>) -> (ok: bool)
    requires
        old(data)@.wf(),
    ensures
        ({
            let outcome = spec_fold_steps(
                |m: StoreModel, it: ItemModel| step_remove(m, it),
                old(data)@,
                items@.map_values(|x: Item| x@),
            );
            if ok {
                outcome matches Some(m) && final(data)@ == m && m.wf()
            } else {
                outcome is None
            }
        }),
{
    let ghost step = |m: StoreModel, it: ItemModel| step_remove(m, it);
    let ghost bviews = items@.map_values(|x: Item| x@);
    let n = items.len();
    let mut i: usize = 0;
    proof {
        assert(bviews.take(0) =~= Seq::<ItemModel>::empty());
    }
    while i < n
        invariant
            i <= n,
            n == items@.len(),
            bviews == items@.map_values(|x: Item| x@),
            bviews.len() == n,
            data@.wf(),
            step == (|m: StoreModel, it: ItemModel| step_remove(m, it)),
            spec_fold_steps(step, old(data)@, bviews.take(i as int)) == Some(data@),
        decreases n - i,
    {
        let removed = data.remove_first(&items[i].key);
        proof {
            assert(bviews.take(i + 1) =~= bviews.take(i as int).push(bviews[i as int]));
            lemma_fold_steps_snoc(step, old(data)@, bviews.take(i as int), bviews[i as int]);
        }
        if !removed {
            proof {
                lemma_fold_steps_prefix_none(step, old(data)@, bviews, i + 1);
            }
            return false;
        }
        i = i + 1;
    }
    proof {
        assert(bviews.take(n as int) =~= bviews);
    }
    true
}

/// What the mutating B-tree dispatch does, per opcode: the working
/// store's items after folding the whole batch, all or nothing, with
/// the sentinel answer; or the deferred error when the envelope
/// addresses nothing.
pub open spec fn post_manage_btree(
    pre: EngineModel,
    post: EngineModel,
    ctx: int,
    action: int,
    meta_btree: Seq<char>,
    batch: Seq<ItemModel>,
    r: Option<String>,
) -> bool {
    match spec_resolve_btree(pre, meta_btree) {
        Err(msg) => (r is None) && post == spec_with_ctx_error(pre, ctx, msg),
        Ok((bt, t, w)) => {
            let m0 = pre.transactions[t].working[w].data;
            if action == BTREE_ACTION_ADD {
                match spec_fold_steps(|m: StoreModel, it: ItemModel| step_add(m, it), m0, batch) {
                    Some(m1) => (r matches Some(s) && s@ == "true"@) && post == spec_with_working(
                        pre,
                        t,
                        w,
                        m1,
                    ),
                    None => (r matches Some(s) && s@ == "false"@) && post == pre,
                }
            } else if action == BTREE_ACTION_ADD_IF_NOT_EXIST {
                match spec_fold_steps(
                    |m: StoreModel, it: ItemModel| step_add_if_absent(m, it),
                    m0,
                    batch,
                ) {
                    Some(m1) => post == spec_with_working(pre, t, w, m1) && (r matches Some(s) && (
                    if spec_fold_steps(
                        |m: StoreModel, it: ItemModel| step_add_strict(m, it),
                        m0,
                        batch,
                    ) is Some {
                        s@ == "true"@
                    } else {
                        s@ == "false"@
                    })),
                    None => false,
                }
            } else if action == BTREE_ACTION_UPDATE {
                match spec_fold_steps(
                    |m: StoreModel, it: ItemModel| step_update(m, it),
                    m0,
                    batch,
                ) {
                    Some(m1) => (r matches Some(s) && s@ == "true"@) && post == spec_with_working(
                        pre,
                        t,
                        w,
                        m1,
                    ),
                    None => (r matches Some(s) && s@ == "false"@) && post == pre,
                }
            } else if action == BTREE_ACTION_UPSERT {
                match spec_fold_steps(
                    |m: StoreModel, it: ItemModel| step_upsert(m, it),
                    m0,
                    batch,
                ) {
                    Some(m1) => (r matches Some(s) && s@ == "true"@) && post == spec_with_working(
                        pre,
                        t,
                        w,
                        m1,
                    ),
                    None => false,
                }
            } else if action == BTREE_ACTION_REMOVE {
                match spec_fold_steps(
                    |m: StoreModel, it: ItemModel| step_remove(m, it),
                    m0,
                    batch,
                ) {
                    Some(m1) => (r matches Some(s) && s@ == "true"@) && post == spec_with_working(
                        pre,
                        t,
                        w,
                        m1,
                    ),
                    None => (r matches Some(s) && s@ == "false"@) && post == pre,
                }
            } else if action == BTREE_ACTION_UPDATE_KEY {
                match spec_fold_steps(
                    |m: StoreModel, it: ItemModel| step_update_key(m, it),
                    m0,
                    batch,
                ) {
                    Some(m1) => (r matches Some(s) && s@ == "true"@) && post == spec_with_working(
                        pre,
                        t,
                        w,
                        m1,
                    ),
                    None => (r matches Some(s) && s@ == "false"@) && post == pre,
                }
            } else if action == BTREE_ACTION_UPDATE_CURRENT_KEY {
                if batch.len() >= 1 && (match pre.btrees[bt].cursor {
                    CursorModel::Positioned(i) => 0 <= i < m0.items.len() && crate::keys::key_equiv(
                        m0.ispec,
                        batch[0].key,
                        m0.items[i].key,
                    ),
                    _ => false,
                }) {
                    let i = pre.btrees[bt].cursor->Positioned_0;
                    (r matches Some(s) && s@ == "true"@) && post == spec_with_working(
                        pre,
                        t,
                        w,
                        m0.with_items(
                            m0.items.update(
                                i,
                                EntryModel { key: batch[0].key, value: m0.items[i].value },
                            ),
                        ),
                    )
                } else {
                    (r matches Some(s) && s@ == "false"@) && post == pre
                }
            } else {
                (r matches Some(s) && s@ == "unknown action"@) && post == pre
            }
        },
    }
}

/// What the navigating B-tree dispatch does, per opcode: the cursor
/// transition of the state machine, with the position validity as the
/// sentinel answer.
pub open spec fn post_navigate_btree(
    pre: EngineModel,
    post: EngineModel,
    ctx: int,
    action: int,
    meta_btree: Seq<char>,
    batch: Seq<ItemModel>,
    r: Option<String>,
) -> bool {
    match spec_resolve_btree(pre, meta_btree) {
        Err(msg) => (r is None) && post == spec_with_ctx_error(pre, ctx, msg),
        Ok((bt, t, w)) => {
            let m0 = pre.transactions[t].working[w].data;
            let c0 = pre.btrees[bt].cursor;
            if action == BTREE_ACTION_FIND {
                if batch.len() >= 1 {
                    let step = crate::store::spec_cursor_find(m0, batch[0].key);
                    post == spec_with_cursor(pre, bt, step.0) && (r matches Some(s) && (if step.1 {
                        s@ == "true"@
                    } else {
                        s@ == "false"@
                    }))
                } else {
                    (r matches Some(s) && s@ == "false"@) && post == pre
                }
            } else if action == BTREE_ACTION_MOVE_FIRST || action == BTREE_ACTION_MOVE_LAST
                || action == BTREE_ACTION_MOVE_NEXT || action == BTREE_ACTION_MOVE_PREVIOUS {
                let step = if action == BTREE_ACTION_MOVE_FIRST {
                    crate::store::spec_cursor_first(m0)
                } else if action == BTREE_ACTION_MOVE_LAST {
                    crate::store::spec_cursor_last(m0)
                } else if action == BTREE_ACTION_MOVE_NEXT {
                    crate::store::spec_cursor_next(m0, c0)
                } else {
                    crate::store::spec_cursor_previous(m0, c0)
                };
                post == spec_with_cursor(pre, bt, step.0) && (r matches Some(s) && (if step.1 {
                    s@ == "true"@
                } else {
                    s@ == "false"@
                }))
            } else {
                (r matches Some(s) && s@ == "unknown action"@) && post == pre
            }
        },
    }
}

impl Engine {
    /// Resolves a B-tree metadata envelope to its handle, transaction
    /// and working store indices, or reports the failure into the
    /// context's deferred error slot and answers null.
    fn resolve_btree(&mut self, ctx_id: i64, btree_id: &String) -> (r: Option<(usize, usize, usize)>)
        requires
            old(self)@.wf(),
        ensures
            final(self)@.wf(),
            (match spec_resolve_btree(old(self)@, btree_id@) {
                Err(msg) => (r is None) && final(self)@ == spec_with_ctx_error(
                    old(self)@,
                    ctx_id as int,
                    msg,
                ),
                Ok((bt, t, w)) => final(self)@ == old(self)@ && (r matches Some(x) && x.0 == bt
                    && x.1 == t && x.2 == w && x.0 < final(self)@.btrees.len() && x.1 < final(
                    self)@.transactions.len() && x.2 < final(
                    self)@.transactions[x.1 as int].working.len()),
            }),
    {
        proof {
            reveal_strlit("unknown btree");
            reveal_strlit("unknown transaction");
            reveal_strlit("transaction is not active");
            reveal_strlit("unknown store");
        }
        let bt = match find_btree_index(&self.btrees, btree_id) {
            Some(bt) => bt,
            None => {
                self.set_ctx_error(ctx_id, String::from_str("unknown btree"));
                return None;
            },
        };
        let txid = self.btrees[bt].transaction_id.clone();
        let t = match find_txn_index(&self.transactions, &txid) {
            Some(t) => t,
            None => {
                self.set_ctx_error(ctx_id, String::from_str("unknown transaction"));
                return None;
            },
        };
        if !matches!(self.transactions[t].state, TxnState::Active) {
            self.set_ctx_error(ctx_id, String::from_str("transaction is not active"));
            return None;
        }
        let name = self.btrees[bt].name.clone();
        let w = match find_working_index(&self.transactions[t].working, &name) {
            Some(w) => w,
            None => {
                self.set_ctx_error(ctx_id, String::from_str("unknown store"));
                return None;
            },
        };
        Some((bt, t, w))
    }

    /// The mutating B-tree dispatch entry point: add, add-if-absent,
    /// update, upsert, remove, and the key-path updates, selected by
    /// opcode, applied to the whole batch all or nothing. Answers the
    /// sentinel `true` or `false`; answers null with a deferred error
    /// when the envelope addresses nothing.
    pub fn manage_btree(
        &mut self,
        ctx_id: i64,
        action: i32,
        meta: &BtreeMeta,
        batch: &ItemBatch,
    ) -> (r: Option<String>)
        requires
            old(self)@.wf(),
        ensures
            final(self)@.wf(),
            post_manage_btree(
                old(self)@,
                final(self)@,
                ctx_id as int,
                action as int,
                meta.btree_id@,
                batch_views(*batch),
                r,
            ),
    {
        proof {
            reveal_strlit("true");
            reveal_strlit("false");
            reveal_strlit("unknown action");
        }
        let (bt, t, w) = match self.resolve_btree(ctx_id, &meta.btree_id) {
            Some(x) => x,
            None => {
                return None;
            },
        };
        let ghost pre = self@;
        let ghost tx0 = self.transactions@;
        let ghost m0 = pre.transactions[t as int].working[w as int].data;
        if action == BTREE_ACTION_UPDATE_CURRENT_KEY {
            if batch.items.len() >= 1 {
                let cur = self.btrees[bt].cursor;
                if let Cursor::Positioned(i) = cur {
                    let key = batch.items[0].key.duplicate();
                    let changed = self.transactions[t].working[w].data.update_key_at(i, key);
                    proof {
                        crate::store::lemma_map_values_update(
                            tx0[t as int].working@,
                            |x: WorkingStore| x@,
                            w as int,
                            self.transactions@[t as int].working@[w as int],
                        );
                        crate::store::lemma_map_values_update(
                            tx0,
                            |x: TxnRec| x@,
                            t as int,
                            self.transactions@[t as int],
                        );
                        let ghost d2 = self.transactions@[t as int].working@[w as int].data@;
                        assert(self.transactions@ == tx0.update(
                            t as int,
                            self.transactions@[t as int],
                        ));
                        assert(self.transactions@[t as int].working@ == tx0[t as int].working@.update(
                            w as int,
                            self.transactions@[t as int].working@[w as int],
                        ));
                        assert(self.transactions@[t as int]@.working
                            == pre.transactions[t as int].working.update(
                            w as int,
                            self.transactions@[t as int].working@[w as int]@,
                        ));
                        assert(self.transactions@[t as int].working@[w as int]@
                            == (WorkingStoreModel {
                            name: pre.transactions[t as int].working[w as int].name,
                            data: d2,
                        }));
                        assert(self.transactions@[t as int]@ == (TxnRecModel {
                            working: pre.transactions[t as int].working.update(
                                w as int,
                                WorkingStoreModel {
                                    name: pre.transactions[t as int].working[w as int].name,
                                    data: d2,
                                },
                            ),
                            ..pre.transactions[t as int]
                        }));
                        assert(self@.transactions =~= pre.transactions.update(
                            t as int,
                            (TxnRecModel {
                                working: pre.transactions[t as int].working.update(
                                    w as int,
                                    WorkingStoreModel {
                                        name: pre.transactions[t as int].working[w as int].name,
                                        data: d2,
                                    },
                                ),
                                ..pre.transactions[t as int]
                            }),
                        ));
                        if changed {
                            assert(self@ == spec_with_working(
                                pre,
                                t as int,
                                w as int,
                                self.transactions@[t as int].working@[w as int].data@,
                            ));
                            lemma_with_working_wf(
                                pre,
                                t as int,
                                w as int,
                                self.transactions@[t as int].working@[w as int].data@,
                            );
                        } else {
                            assert(pre.transactions[t as int].working.update(
                                w as int,
                                WorkingStoreModel {
                                    name: pre.transactions[t as int].working[w as int].name,
                                    data: d2,
                                },
                            ) =~= pre.transactions[t as int].working);
                            assert(pre.transactions.update(
                                t as int,
                                (TxnRecModel {
                                    working: pre.transactions[t as int].working,
                                    ..pre.transactions[t as int]
                                }),
                            ) =~= pre.transactions);
                            assert(self@.transactions == pre.transactions);
                            assert(self@ == pre);
                        }
                    }
                    if changed {
                        return Some(String::from_str("true"));
                    }
                    return Some(String::from_str("false"));
                }
                return Some(String::from_str("false"));
            }
            return Some(String::from_str("false"));
        }
        if action != BTREE_ACTION_ADD && action != BTREE_ACTION_ADD_IF_NOT_EXIST && action
            != BTREE_ACTION_UPDATE && action != BTREE_ACTION_UPSERT && action
            != BTREE_ACTION_REMOVE && action != BTREE_ACTION_UPDATE_KEY {
            return Some(String::from_str("unknown action"));
        }
        let mut data = self.transactions[t].working[w].data.duplicate();
        let outcome: (bool, bool);
        if action == BTREE_ACTION_ADD {
            let ok = apply_add_batch(&mut data, &batch.items, false);
            outcome = (ok, ok);
        } else if action == BTREE_ACTION_ADD_IF_NOT_EXIST {
            let all = apply_add_if_absent_batch(&mut data, &batch.items);
            outcome = (true, all);
        } else if action == BTREE_ACTION_UPDATE {
            let ok = apply_update_batch(&mut data, &batch.items);
            outcome = (ok, ok);
        } else if action == BTREE_ACTION_UPSERT {
            apply_upsert_batch(&mut data, &batch.items);
            outcome = (true, true);
        } else if action == BTREE_ACTION_UPDATE_KEY {
            let ok = apply_update_key_batch(&mut data, &batch.items);
            outcome = (ok, ok);
        } else {
            let ok = apply_remove_batch(&mut data, &batch.items);
            outcome = (ok, ok);
        }
        let (keep, answer) = outcome;
        if keep {
            self.transactions[t].working[w].data = data;
            proof {
                crate::store::lemma_map_values_update(
                    tx0[t as int].working@,
                    |x: WorkingStore| x@,
                    w as int,
                    self.transactions@[t as int].working@[w as int],
                );
                crate::store::lemma_map_values_update(
                    tx0,
                    |x: TxnRec| x@,
                    t as int,
                    self.transactions@[t as int],
                );
                let ghost d2 = self.transactions@[t as int].working@[w as int].data@;
                assert(self.transactions@ == tx0.update(
                    t as int,
                    self.transactions@[t as int],
                ));
                assert(self.transactions@[t as int].working@ == tx0[t as int].working@.update(
                    w as int,
                    self.transactions@[t as int].working@[w as int],
                ));
                assert(self@.transactions =~= pre.transactions.update(
                    t as int,
                    (TxnRecModel {
                        working: pre.transactions[t as int].working.update(
                            w as int,
                            WorkingStoreModel {
                                name: pre.transactions[t as int].working[w as int].name,
                                data: d2,
                            },
                        ),
                        ..pre.transactions[t as int]
                    }),
                ));
                assert(self@ == spec_with_working(
                    pre,
                    t as int,
                    w as int,
                    self.transactions@[t as int].working@[w as int].data@,
                ));
                lemma_with_working_wf(
                    pre,
                    t as int,
                    w as int,
                    self.transactions@[t as int].working@[w as int].data@,
                );
            }
            if answer {
                return Some(String::from_str("true"));
            }
            return Some(String::from_str("false"));
        }
        Some(String::from_str("false"))
    }

    /// The navigating B-tree dispatch entry point: find, first, last,
    /// next and previous, selected by opcode, moving the handle's
    /// cursor and answering its position validity as a sentinel.
    pub fn navigate_btree(
        &mut self,
        ctx_id: i64,
        action: i32,
        meta: &BtreeMeta,
        batch: &ItemBatch,
    ) -> (r: Option<String>)
        requires
            old(self)@.wf(),
        ensures
            final(self)@.wf(),
            post_navigate_btree(
                old(self)@,
                final(self)@,
                ctx_id as int,
                action as int,
                meta.btree_id@,
                batch_views(*batch),
                r,
            ),
    {
        proof {
            reveal_strlit("true");
            reveal_strlit("false");
            reveal_strlit("unknown action");
        }
        let (bt, t, w) = match self.resolve_btree(ctx_id, &meta.btree_id) {
            Some(x) => x,
            None => {
                return None;
            },
        };
        let ghost pre = self@;
        let ghost bts0 = self.btrees@;
        let moved: bool;
        if action == BTREE_ACTION_FIND {
            if batch.items.len() == 0 {
                return Some(String::from_str("false"));
            }
            moved = crate::store::cursor_find(
                &mut self.btrees[bt].cursor,
                &self.transactions[t].working[w].data,
                &batch.items[0].key,
            );
        } else if action == BTREE_ACTION_MOVE_FIRST {
            moved = crate::store::cursor_first(
                &mut self.btrees[bt].cursor,
                &self.transactions[t].working[w].data,
            );
        } else if action == BTREE_ACTION_MOVE_LAST {
            moved = crate::store::cursor_last(
                &mut self.btrees[bt].cursor,
                &self.transactions[t].working[w].data,
            );
        } else if action == BTREE_ACTION_MOVE_NEXT {
            moved = crate::store::cursor_next(
                &mut self.btrees[bt].cursor,
                &self.transactions[t].working[w].data,
            );
        } else if action == BTREE_ACTION_MOVE_PREVIOUS {
            moved = crate::store::cursor_previous(
                &mut self.btrees[bt].cursor,
                &self.transactions[t].working[w].data,
            );
        } else {
            return Some(String::from_str("unknown action"));
        }
        proof {
            crate::store::lemma_map_values_update(
                bts0,
                |x: BtreeRec| x@,
                bt as int,
                self.btrees@[bt as int],
            );
            assert(self.btrees@ == bts0.update(bt as int, self.btrees@[bt as int]));
            assert(self@.btrees =~= pre.btrees.update(
                bt as int,
                (BtreeRecModel {
                    cursor: self.btrees@[bt as int]@.cursor,
                    ..pre.btrees[bt as int]
                }),
            ));
            assert(self@ == spec_with_cursor(pre, bt as int, self.btrees@[bt as int]@.cursor));
            lemma_with_cursor_wf(pre, bt as int, self.btrees@[bt as int]@.cursor);
        }
        if moved {
            return Some(String::from_str("true"));
        }
        Some(String::from_str("false"))
    }
}

/// The items a batch-get answers: for each queried key, the first
/// equivalent stored item, absent keys skipped.
pub open spec fn spec_get_values(m: StoreModel, keys: Seq<KeyModel>) -> Seq<EntryModel>
    decreases keys.len(),
{
    if keys.len() == 0 {
        Seq::empty()
    } else {
        let rest = spec_get_values(m, keys.drop_first());
        match spec_first_equiv(m.ispec, m.items, keys[0]) {
            Some(i) => seq![m.items[i]] + rest,
            None => rest,
        }
    }
}

/// A batch-get distributes over concatenation of the queried keys.
pub proof fn lemma_get_values_concat(m: StoreModel, a: Seq<KeyModel>, b: Seq<KeyModel>)
    ensures
        spec_get_values(m, a + b) == spec_get_values(m, a) + spec_get_values(m, b),
    decreases a.len(),
{
    if a.len() == 0 {
        assert(a + b =~= b);
        assert(spec_get_values(m, a) + spec_get_values(m, b) =~= spec_get_values(m, b));
    } else {
        assert((a + b)[0] == a[0]);
        assert((a + b).drop_first() =~= a.drop_first() + b);
        lemma_get_values_concat(m, a.drop_first(), b);
        match spec_first_equiv(m.ispec, m.items, a[0]) {
            Some(i) => {
                assert(seq![m.items[i]] + (spec_get_values(m, a.drop_first()) + spec_get_values(
                    m,
                    b,
                )) =~= (seq![m.items[i]] + spec_get_values(m, a.drop_first())) + spec_get_values(
                    m,
                    b,
                ));
            },
            None => {},
        }
    }
}

impl Engine {
    /// The number of items the handle's working store holds, paired
    /// with an error text instead when the envelope addresses nothing.
    pub fn get_btree_item_count(&self, meta: &BtreeMeta) -> (r: (i64, Option<String>))
        requires
            self@.wf(),
        ensures
            (match spec_resolve_btree(self@, meta.btree_id@) {
                Err(msg) => r.0 == 0 && (r.1 matches Some(e) && e@ == msg),
                Ok((bt, t, w)) => {
                    let len = self@.transactions[t].working[w].data.items.len();
                    if len <= i64::MAX {
                        r.0 == len && r.1 is None
                    } else {
                        r.0 == 0 && (r.1 matches Some(e) && e@ == "count overflow"@)
                    }
                },
            }),
    {
        proof {
            reveal_strlit("unknown btree");
            reveal_strlit("unknown transaction");
            reveal_strlit("transaction is not active");
            reveal_strlit("unknown store");
        }
        let bt = match find_btree_index(&self.btrees, &meta.btree_id) {
            Some(bt) => bt,
            None => {
                return (0, Some(String::from_str("unknown btree")));
            },
        };
        let t = match find_txn_index(&self.transactions, &self.btrees[bt].transaction_id) {
            Some(t) => t,
            None => {
                return (0, Some(String::from_str("unknown transaction")));
            },
        };
        if !matches!(self.transactions[t].state, TxnState::Active) {
            return (0, Some(String::from_str("transaction is not active")));
        }
        let w = match find_working_index(&self.transactions[t].working, &self.btrees[bt].name) {
            Some(w) => w,
            None => {
                return (0, Some(String::from_str("unknown store")));
            },
        };
        proof {
            reveal_strlit("count overflow");
        }
        let n = self.transactions[t].working[w].data.count();
        if (n as u64) > 0x7fff_ffff_ffff_ffffu64 {
            return (0, Some(String::from_str("count overflow")));
        }
        (n as i64, None)
    }

    /// The stored items for a batch of keys: for each key in order, the
    /// first equivalent item — key, ride-along fields and value — with
    /// absent keys skipped.
    pub fn get_from_btree_values(&self, meta: &BtreeMeta, batch: &ItemBatch) -> (r: Result<
        Vec<Item>,
        String,
    >)
        requires
            self@.wf(),
        ensures
            (match spec_resolve_btree(self@, meta.btree_id@) {
                Err(msg) => (r matches Err(e) && e@ == msg),
                Ok((bt, t, w)) => {
                    let found = spec_get_values(
                        self@.transactions[t].working[w].data,
                        batch_views(*batch).map_values(|it: ItemModel| it.key),
                    );
                    r matches Ok(v) && v@.len() == found.len() && (forall|i: int|
                        0 <= i < found.len() ==> (#[trigger] v@[i])@.key == found[i].key
                            && v@[i]@.value == Some(found[i].value) && v@[i]@.id is None)
                },
            }),
    {
        proof {
            reveal_strlit("unknown btree");
            reveal_strlit("unknown transaction");
            reveal_strlit("transaction is not active");
            reveal_strlit("unknown store");
        }
        let bt = match find_btree_index(&self.btrees, &meta.btree_id) {
            Some(bt) => bt,
            None => {
                return Err(String::from_str("unknown btree"));
            },
        };
        let t = match find_txn_index(&self.transactions, &self.btrees[bt].transaction_id) {
            Some(t) => t,
            None => {
                return Err(String::from_str("unknown transaction"));
            },
        };
        if !matches!(self.transactions[t].state, TxnState::Active) {
            return Err(String::from_str("transaction is not active"));
        }
        let w = match find_working_index(&self.transactions[t].working, &self.btrees[bt].name) {
            Some(w) => w,
            None => {
                return Err(String::from_str("unknown store"));
            },
        };
        let store = &self.transactions[t].working[w].data;
        let ghost m = store@;
        let ghost kviews = batch_views(*batch).map_values(|it: ItemModel| it.key);
        let n = batch.items.len();
        let mut out: Vec<Item> = Vec::new();
        let mut i: usize = 0;
        proof {
            assert(kviews.take(0) =~= Seq::<KeyModel>::empty());
        }
        while i < n
            invariant
                i <= n,
                n == batch.items@.len(),
                m == store@,
                store == &self.transactions@[t as int].working@[w as int].data,
                t < self.transactions@.len(),
                w < self.transactions@[t as int].working@.len(),
                kviews == batch_views(*batch).map_values(|it: ItemModel| it.key),
                kviews.len() == n,
                out@.len() == spec_get_values(m, kviews.take(i as int)).len(),
                forall|j: int|
                    0 <= j < out@.len() ==> {
                        let done = spec_get_values(m, kviews.take(i as int));
                        (#[trigger] out@[j])@.key == done[j].key && out@[j]@.value == Some(
                            done[j].value,
                        ) && out@[j]@.id is None
                    },
            decreases n - i,
        {
            let ghost done_pre = spec_get_values(m, kviews.take(i as int));
            proof {
                assert(kviews.take(i + 1) =~= kviews.take(i as int) + seq![kviews[i as int]]);
                lemma_get_values_concat(m, kviews.take(i as int), seq![kviews[i as int]]);
                assert(seq![kviews[i as int]][0] == kviews[i as int]);
                assert(seq![kviews[i as int]].drop_first() =~= Seq::<KeyModel>::empty());
                assert(spec_get_values(m, Seq::<KeyModel>::empty()) == Seq::<EntryModel>::empty());
            }
            match store.find_first(&batch.items[i].key) {
                Some(p) => {
                    proof {
                        crate::store::lemma_first_equiv_props(m.ispec, m.items, kviews[i as int]);
                        assert(seq![m.items[p as int]] + Seq::<EntryModel>::empty()
                            =~= seq![m.items[p as int]]);
                        assert(spec_get_values(m, seq![kviews[i as int]])
                            =~= seq![m.items[p as int]]);
                        assert(spec_get_values(m, kviews.take(i + 1))
                            =~= done_pre + seq![m.items[p as int]]);
                    }
                    let e = &store.items[p];
                    let it = Item {
                        key: e.key.duplicate(),
                        value: Some(e.value.clone()),
                        id: None,
                    };
                    out.push(it);
                },
                None => {
                    proof {
                        assert(spec_get_values(m, seq![kviews[i as int]])
                            =~= Seq::<EntryModel>::empty());
                        assert(spec_get_values(m, kviews.take(i + 1)) =~= done_pre);
                    }
                },
            }
            i = i + 1;
        }
        proof {
            assert(kviews.take(n as int) =~= kviews);
        }
                Ok(out)
    }

    /// The item under the handle's cursor, key only, or nothing when
    /// the cursor stands on no item.
    pub fn get_current_key(&self, meta: &BtreeMeta) -> (r: Result<Option<Item>, String>)
        requires
            self@.wf(),
        ensures
            (match spec_resolve_btree(self@, meta.btree_id@) {
                Err(msg) => (r matches Err(e) && e@ == msg),
                Ok((bt, t, w)) => {
                    let m = self@.transactions[t].working[w].data;
                    match self@.btrees[bt].cursor {
                        CursorModel::Positioned(i) => if 0 <= i < m.items.len() {
                            r matches Ok(o) && o matches Some(it) && it@.key == m.items[i].key
                                && it@.value is None && it@.id is None
                        } else {
                            r matches Ok(o) && o is None
                        },
                        _ => (r matches Ok(o) && o is None),
                    }
                },
            }),
    {
        proof {
            reveal_strlit("unknown btree");
            reveal_strlit("unknown transaction");
            reveal_strlit("transaction is not active");
            reveal_strlit("unknown store");
        }
        let bt = match find_btree_index(&self.btrees, &meta.btree_id) {
            Some(bt) => bt,
            None => {
                return Err(String::from_str("unknown btree"));
            },
        };
        let t = match find_txn_index(&self.transactions, &self.btrees[bt].transaction_id) {
            Some(t) => t,
            None => {
                return Err(String::from_str("unknown transaction"));
            },
        };
        if !matches!(self.transactions[t].state, TxnState::Active) {
            return Err(String::from_str("transaction is not active"));
        }
        let w = match find_working_index(&self.transactions[t].working, &self.btrees[bt].name) {
            Some(w) => w,
            None => {
                return Err(String::from_str("unknown store"));
            },
        };
        match crate::store::cursor_current(
            &self.btrees[bt].cursor,
            &self.transactions[t].working[w].data,
        ) {
            Some(e) => Ok(Some(Item { key: e.key.duplicate(), value: None, id: None })),
            None => Ok(None),
        }
    }

    /// The value under the handle's cursor, or nothing when the cursor
    /// stands on no item.
    pub fn get_current_value(&self, meta: &BtreeMeta) -> (r: Result<Option<String>, String>)
        requires
            self@.wf(),
        ensures
            (match spec_resolve_btree(self@, meta.btree_id@) {
                Err(msg) => (r matches Err(e) && e@ == msg),
                Ok((bt, t, w)) => {
                    let m = self@.transactions[t].working[w].data;
                    match self@.btrees[bt].cursor {
                        CursorModel::Positioned(i) => if 0 <= i < m.items.len() {
                            r matches Ok(o) && o matches Some(v) && v@ == m.items[i].value
                        } else {
                            r matches Ok(o) && o is None
                        },
                        _ => (r matches Ok(o) && o is None),
                    }
                },
            }),
    {
        proof {
            reveal_strlit("unknown btree");
            reveal_strlit("unknown transaction");
            reveal_strlit("transaction is not active");
            reveal_strlit("unknown store");
        }
        let bt = match find_btree_index(&self.btrees, &meta.btree_id) {
            Some(bt) => bt,
            None => {
                return Err(String::from_str("unknown btree"));
            },
        };
        let t = match find_txn_index(&self.transactions, &self.btrees[bt].transaction_id) {
            Some(t) => t,
            None => {
                return Err(String::from_str("unknown transaction"));
            },
        };
        if !matches!(self.transactions[t].state, TxnState::Active) {
            return Err(String::from_str("transaction is not active"));
        }
        let w = match find_working_index(&self.transactions[t].working, &self.btrees[bt].name) {
            Some(w) => w,
            None => {
                return Err(String::from_str("unknown store"));
            },
        };
        match crate::store::cursor_current(
            &self.btrees[bt].cursor,
            &self.transactions[t].working[w].data,
        ) {
            Some(e) => Ok(Some(e.value.clone())),
            None => Ok(None),
        }
    }
}

/// The first saved model for the store, category and name.
pub open spec fn spec_find_model(
    s: Seq<ModelRecModel>,
    store: Seq<char>,
    category: Seq<char>,
    name: Seq<char>,
) -> Option<int>
    decreases s.len(),
{
    if s.len() == 0 {
        None
    } else if s[0].store_name == store && s[0].category == category && s[0].name == name {
        Some(0)
    } else {
        match spec_find_model(s.drop_first(), store, category, name) {
            Some(i) => Some(i + 1),
            None => None,
        }
    }
}

/// A found model lies in range and carries the looked-up coordinates.
pub proof fn lemma_find_model_props(
    s: Seq<ModelRecModel>,
    store: Seq<char>,
    category: Seq<char>,
    name: Seq<char>,
)
    ensures
        (match spec_find_model(s, store, category, name) {
            Some(i) => 0 <= i < s.len() && s[i].store_name == store && s[i].category == category
                && s[i].name == name,
            None => true,
        }),
    decreases s.len(),
{
    if s.len() != 0 && !(s[0].store_name == store && s[0].category == category && s[0].name
        == name) {
        lemma_find_model_props(s.drop_first(), store, category, name);
    }
}

/// The first auxiliary handle with the given id.
pub open spec fn spec_find_aux(s: Seq<AuxHandleModel>, id: Seq<char>) -> Option<int>
    decreases s.len(),
{
    if s.len() == 0 {
        None
    } else if s[0].id == id {
        Some(0)
    } else {
        match spec_find_aux(s.drop_first(), id) {
            Some(i) => Some(i + 1),
            None => None,
        }
    }
}

/// The first auxiliary handle with the given id, as [`spec_find_aux`]
/// names it.
fn find_aux_index(v: &Vec<AuxHandle>, id: &String) -> (r: Option<usize>)
    ensures
        (match r {
            Some(i) => i < v@.len() && spec_find_aux(v@.map_values(|h: AuxHandle| h@), id@) == Some(
                i as int,
            ),
            None => (spec_find_aux(v@.map_values(|h: AuxHandle| h@), id@) is None),
        }),
{
    let ghost pre = v@.map_values(|h: AuxHandle| h@);
    let n = v.len();
    let mut i: usize = 0;
    proof {
        assert(pre.skip(0) =~= pre);
    }
    while i < n
        invariant
            i <= n,
            n == v@.len(),
            pre == v@.map_values(|h: AuxHandle| h@),
            pre.len() == n,
            spec_find_aux(pre, id@) == match spec_find_aux(pre.skip(i as int), id@) {
                Some(p) => Some(p + i),
                None => None::<int>,
            },
        decreases n - i,
    {
        proof {
            assert(pre.skip(i as int)[0] == pre[i as int]);
        }
        if v[i].id == *id {
            return Some(i);
        }
        proof {
            assert(pre.skip(i as int).drop_first() =~= pre.skip(i + 1));
        }
        i = i + 1;
    }
    None
}

/// A byte-for-byte copy.
fn copy_bytes(v: &Vec<u8>) -> (r: Vec<u8>)
    ensures
        r@ == v@,
{
    let n = v.len();
    let mut out: Vec<u8> = Vec::new();
    let mut i: usize = 0;
    while i < n
        invariant
            i <= n,
            n == v@.len(),
            out@ =~= v@.take(i as int),
        decreases n - i,
    {
        out.push(v[i]);
        i = i + 1;
    }
    proof {
        assert(v@.take(n as int) =~= v@);
    }
    out
}

impl Engine {
    /// Opens the process-wide distributed cache connection. It is a
    /// singleton: it must be opened once, before any database that uses
    /// it, and a second open is refused.
    pub fn open_redis(&mut self, _uri: &String) -> (r: Option<String>)
        requires
            old(self)@.wf(),
        ensures
            final(self)@.wf(),
            (if old(self)@.redis_open {
                (r matches Some(e) && e@ == "connection already open"@) && final(self)@ == old(self)@
            } else {
                (r is None) && final(self)@ == (EngineModel { redis_open: true, ..old(self)@ })
            }),
    {
        proof {
            reveal_strlit("connection already open");
        }
        if self.redis_open {
            return Some(String::from_str("connection already open"));
        }
        self.redis_open = true;
        None
    }

    /// Closes the process-wide distributed cache connection.
    pub fn close_redis(&mut self) -> (r: Option<String>)
        requires
            old(self)@.wf(),
        ensures
            final(self)@.wf(),
            (if old(self)@.redis_open {
                (r is None) && final(self)@ == (EngineModel { redis_open: false, ..old(self)@ })
            } else {
                (r matches Some(e) && e@ == "connection is not open"@) && final(self)@ == old(self)@
            }),
    {
        proof {
            reveal_strlit("connection is not open");
        }
        if !self.redis_open {
            return Some(String::from_str("connection is not open"));
        }
        self.redis_open = false;
        None
    }

    /// Opens the process-wide cluster store connection; a singleton
    /// like the cache connection.
    pub fn open_cassandra(&mut self) -> (r: Option<String>)
        requires
            old(self)@.wf(),
        ensures
            final(self)@.wf(),
            (if old(self)@.cassandra_open {
                (r matches Some(e) && e@ == "connection already open"@) && final(self)@ == old(self)@
            } else {
                (r is None) && final(self)@ == (EngineModel { cassandra_open: true, ..old(self)@ })
            }),
    {
        proof {
            reveal_strlit("connection already open");
        }
        if self.cassandra_open {
            return Some(String::from_str("connection already open"));
        }
        self.cassandra_open = true;
        None
    }

    /// Closes the process-wide cluster store connection.
    pub fn close_cassandra(&mut self) -> (r: Option<String>)
        requires
            old(self)@.wf(),
        ensures
            final(self)@.wf(),
            (if old(self)@.cassandra_open {
                (r is None) && final(self)@ == (EngineModel {
                    cassandra_open: false,
                    ..old(self)@
                })
            } else {
                (r matches Some(e) && e@ == "connection is not open"@) && final(self)@ == old(self)@
            }),
    {
        proof {
            reveal_strlit("connection is not open");
        }
        if !self.cassandra_open {
            return Some(String::from_str("connection is not open"));
        }
        self.cassandra_open = false;
        None
    }

    /// Configures logging: a level from debug (0) to error (3) and a
    /// log file path. Any other level is refused.
    pub fn manage_logging(&mut self, level: i32, path: &String) -> (r: Option<String>)
        requires
            old(self)@.wf(),
        ensures
            final(self)@.wf(),
            (if 0 <= level <= 3 {
                (r is None) && final(self)@ == (EngineModel {
                    log_level: level as int,
                    log_path: path@,
                    ..old(self)@
                })
            } else {
                (r matches Some(e) && e@ == "invalid log level"@) && final(self)@ == old(self)@
            }),
    {
        proof {
            reveal_strlit("invalid log level");
        }
        if level < 0 || level > 3 {
            return Some(String::from_str("invalid log level"));
        }
        self.log_level = level;
        self.log_path = path.clone();
        None
    }

    /// Saves a model blob under the handle's store, replacing any blob
    /// already saved under the same category and name.
    pub fn model_store_save(
        &mut self,
        handle_id: &String,
        category: &String,
        name: &String,
        data: Vec<u8>,
    ) -> (r: Option<String>)
        requires
            old(self)@.wf(),
        ensures
            final(self)@.wf(),
            (match spec_find_aux(old(self)@.model_handles, handle_id@) {
                None => (r matches Some(e) && e@ == "unknown store"@) && final(self)@ == old(self)@,
                Some(h) => {
                    let store = old(self)@.model_handles[h].name;
                    let rec = ModelRecModel {
                        store_name: store,
                        category: category@,
                        name: name@,
                        data: data@,
                    };
                    (r is None) && final(self)@ == (EngineModel {
                        models: (match spec_find_model(
                            old(self)@.models,
                            store,
                            category@,
                            name@,
                        ) {
                            Some(i) => old(self)@.models.update(i, rec),
                            None => old(self)@.models.push(rec),
                        }),
                        ..old(self)@
                    })
                },
            }),
    {
        proof {
            reveal_strlit("unknown store");
        }
        let h = match find_aux_index(&self.model_handles, handle_id) {
            Some(h) => h,
            None => {
                return Some(String::from_str("unknown store"));
            },
        };
        let store = self.model_handles[h].name.clone();
        let rec = ModelRec {
            store_name: store,
            category: category.clone(),
            name: name.clone(),
            data,
        };
        let ghost ms0 = self.models@;
        match find_model_index(&self.models, &rec.store_name, category, name) {
            Some(i) => {
                proof {
                    crate::store::lemma_map_values_update(ms0, |x: ModelRec| x@, i as int, rec);
                }
                self.models.set(i, rec);
            },
            None => {
                proof {
                    crate::store::lemma_map_values_push(ms0, |x: ModelRec| x@, rec);
                }
                self.models.push(rec);
            },
        }
        None
    }

    /// Loads a model blob from the handle's store.
    pub fn model_store_load(&self, handle_id: &String, category: &String, name: &String) -> (r:
        Result<Vec<u8>, String>)
        requires
            self@.wf(),
        ensures
            (match spec_find_aux(self@.model_handles, handle_id@) {
                None => (r matches Err(e) && e@ == "unknown store"@),
                Some(h) => (match spec_find_model(
                    self@.models,
                    self@.model_handles[h].name,
                    category@,
                    name@,
                ) {
                    Some(i) => (r matches Ok(d) && d@ == self@.models[i].data),
                    None => (r matches Err(e) && e@ == "model not found"@),
                }),
            }),
    {
        proof {
            reveal_strlit("unknown store");
            reveal_strlit("model not found");
        }
        let h = match find_aux_index(&self.model_handles, handle_id) {
            Some(h) => h,
            None => {
                return Err(String::from_str("unknown store"));
            },
        };
        match find_model_index(&self.models, &self.model_handles[h].name, category, name) {
            Some(i) => {
                proof {
                    lemma_find_model_props(
                        self@.models,
                        self@.model_handles[h as int].name,
                        category@,
                        name@,
                    );
                }
                Ok(copy_bytes(&self.models[i].data))
            },
            None => Err(String::from_str("model not found")),
        }
    }

    /// Deletes a model blob from the handle's store; deleting what is
    /// not there changes nothing.
    pub fn model_store_delete(&mut self, handle_id: &String, category: &String, name: &String) -> (
        r: Option<String>)
        requires
            old(self)@.wf(),
        ensures
            final(self)@.wf(),
            (match spec_find_aux(old(self)@.model_handles, handle_id@) {
                None => (r matches Some(e) && e@ == "unknown store"@) && final(self)@ == old(self)@,
                Some(h) => (r is None) && final(self)@ == (EngineModel {
                    models: (match spec_find_model(
                        old(self)@.models,
                        old(self)@.model_handles[h].name,
                        category@,
                        name@,
                    ) {
                        Some(i) => old(self)@.models.remove(i),
                        None => old(self)@.models,
                    }),
                    ..old(self)@
                }),
            }),
    {
        proof {
            reveal_strlit("unknown store");
        }
        let h = match find_aux_index(&self.model_handles, handle_id) {
            Some(h) => h,
            None => {
                return Some(String::from_str("unknown store"));
            },
        };
        let store = self.model_handles[h].name.clone();
        match find_model_index(&self.models, &store, category, name) {
            Some(i) => {
                self.models.remove(i);
                proof {
                    assert(self@.models =~= old(self)@.models.remove(i as int));
                }
                None
            },
            None => None,
        }
    }

    /// Adds a document to the handle's search index, replacing any
    /// document already indexed under the same id.
    pub fn search_add(&mut self, handle_id: &String, doc_id: &String, text: &String) -> (r: Option<
        String,
    >)
        requires
            old(self)@.wf(),
        ensures
            final(self)@.wf(),
            (match spec_find_aux(old(self)@.search_handles, handle_id@) {
                None => (r matches Some(e) && e@ == "unknown store"@) && final(self)@ == old(self)@,
                Some(h) => {
                    let store = old(self)@.search_handles[h].name;
                    let rec = SearchDocModel { store_name: store, doc_id: doc_id@, text: text@ };
                    (r is None) && final(self)@ == (EngineModel {
                        search_docs: (match spec_find_doc(
                            old(self)@.search_docs,
                            store,
                            doc_id@,
                        ) {
                            Some(i) => old(self)@.search_docs.update(i, rec),
                            None => old(self)@.search_docs.push(rec),
                        }),
                        ..old(self)@
                    })
                },
            }),
    {
        proof {
            reveal_strlit("unknown store");
        }
        let h = match find_aux_index(&self.search_handles, handle_id) {
            Some(h) => h,
            None => {
                return Some(String::from_str("unknown store"));
            },
        };
        let store = self.search_handles[h].name.clone();
        let rec = SearchDoc { store_name: store, doc_id: doc_id.clone(), text: text.clone() };
        let ghost ds0 = self.search_docs@;
        match find_doc_index(&self.search_docs, &rec.store_name, doc_id) {
            Some(i) => {
                proof {
                    crate::store::lemma_map_values_update(ds0, |x: SearchDoc| x@, i as int, rec);
                }
                self.search_docs.set(i, rec);
            },
            None => {
                proof {
                    crate::store::lemma_map_values_push(ds0, |x: SearchDoc| x@, rec);
                }
                self.search_docs.push(rec);
            },
        }
        None
    }
}

/// The key window a paged key query answers: from the cursor position
/// (or the start, when the cursor stands on no item), skipping whole
/// pages per the offset, at most one page of keys; without a paging
/// window, every key.
pub open spec fn spec_key_window(m: StoreModel, cursor: CursorModel, paging: Option<PagingInfo>) -> (
    int,
    int,
) {
    let len = m.items.len() as int;
    match paging {
        None => (0, len),
        Some(p) => {
            let size: int = if p.page_size < 0 {
                0
            } else {
                p.page_size as int
            };
            let off: int = if p.page_offset < 0 {
                0
            } else {
                p.page_offset as int
            };
            let start: int = match cursor {
                CursorModel::Positioned(i) => if 0 <= i < len {
                    i
                } else {
                    0
                },
                _ => 0,
            };
            let lo = if start + size * off > len {
                len
            } else {
                start + size * off
            };
            let hi = if lo + size > len {
                len
            } else {
                lo + size
            };
            (lo, hi)
        },
    }
}

impl Engine {
    /// Every item of the handle's working store, in store order.
    pub fn get_from_btree_items(&self, meta: &BtreeMeta) -> (r: Result<Vec<Item>, String>)
        requires
            self@.wf(),
        ensures
            (match spec_resolve_btree(self@, meta.btree_id@) {
                Err(msg) => (r matches Err(e) && e@ == msg),
                Ok((bt, t, w)) => {
                    let items = self@.transactions[t].working[w].data.items;
                    r matches Ok(v) && v@.len() == items.len() && (forall|i: int|
                        0 <= i < items.len() ==> (#[trigger] v@[i])@.key == items[i].key
                            && v@[i]@.value == Some(items[i].value) && v@[i]@.id is None)
                },
            }),
    {
        proof {
            reveal_strlit("unknown btree");
            reveal_strlit("unknown transaction");
            reveal_strlit("transaction is not active");
            reveal_strlit("unknown store");
        }
        let bt = match find_btree_index(&self.btrees, &meta.btree_id) {
            Some(bt) => bt,
            None => {
                return Err(String::from_str("unknown btree"));
            },
        };
        let t = match find_txn_index(&self.transactions, &self.btrees[bt].transaction_id) {
            Some(t) => t,
            None => {
                return Err(String::from_str("unknown transaction"));
            },
        };
        if !matches!(self.transactions[t].state, TxnState::Active) {
            return Err(String::from_str("transaction is not active"));
        }
        let w = match find_working_index(&self.transactions[t].working, &self.btrees[bt].name) {
            Some(w) => w,
            None => {
                return Err(String::from_str("unknown store"));
            },
        };
        let store = &self.transactions[t].working[w].data;
        let n = store.items.len();
        let mut out: Vec<Item> = Vec::new();
        let mut i: usize = 0;
        while i < n
            invariant
                i <= n,
                store == &self.transactions@[t as int].working@[w as int].data,
                t < self.transactions@.len(),
                w < self.transactions@[t as int].working@.len(),
                n == store@.items.len(),
                out@.len() == i,
                forall|j: int|
                    0 <= j < i ==> (#[trigger] out@[j])@.key == store@.items[j].key && out@[j]@.value
                        == Some(store@.items[j].value) && out@[j]@.id is None,
            decreases n - i,
        {
            let e = &store.items[i];
            out.push(Item { key: e.key.duplicate(), value: Some(e.value.clone()), id: None });
            i = i + 1;
        }
        Ok(out)
    }

    /// A page of keys from the handle's working store, windowed as
    /// [`spec_key_window`] states.
    pub fn get_from_btree_keys(&self, meta: &BtreeMeta, paging: &Option<PagingInfo>) -> (r: Result<
        Vec<Key>,
        String,
    >)
        requires
            self@.wf(),
        ensures
            (match spec_resolve_btree(self@, meta.btree_id@) {
                Err(msg) => (r matches Err(e) && e@ == msg),
                Ok((bt, t, w)) => {
                    let m = self@.transactions[t].working[w].data;
                    let window = spec_key_window(m, self@.btrees[bt].cursor, *paging);
                    r matches Ok(v) && v@.len() == window.1 - window.0 && (forall|i: int|
                        0 <= i < v@.len() ==> (#[trigger] v@[i])@ == m.items[window.0 + i].key)
                },
            }),
    {
        proof {
            reveal_strlit("unknown btree");
            reveal_strlit("unknown transaction");
            reveal_strlit("transaction is not active");
            reveal_strlit("unknown store");
        }
        let bt = match find_btree_index(&self.btrees, &meta.btree_id) {
            Some(bt) => bt,
            None => {
                return Err(String::from_str("unknown btree"));
            },
        };
        let t = match find_txn_index(&self.transactions, &self.btrees[bt].transaction_id) {
            Some(t) => t,
            None => {
                return Err(String::from_str("unknown transaction"));
            },
        };
        if !matches!(self.transactions[t].state, TxnState::Active) {
            return Err(String::from_str("transaction is not active"));
        }
        let w = match find_working_index(&self.transactions[t].working, &self.btrees[bt].name) {
            Some(w) => w,
            None => {
                return Err(String::from_str("unknown store"));
            },
        };
        let store = &self.transactions[t].working[w].data;
        let len = store.items.len();
        let lo: usize;
        let hi: usize;
        match paging {
            None => {
                lo = 0;
                hi = len;
            },
            Some(p) => {
                let size: u128 = if p.page_size < 0 {
                    0
                } else {
                    p.page_size as u128
                };
                let off: u128 = if p.page_offset < 0 {
                    0
                } else {
                    p.page_offset as u128
                };
                let start: u128 = match self.btrees[bt].cursor {
                    Cursor::Positioned(i) => if i < len {
                        i as u128
                    } else {
                        0
                    },
                    _ => 0,
                };
                proof {
                    assert(size * off <= 0x8000_0000u128 * 0x8000_0000u128) by (nonlinear_arith)
                        requires
                            size <= 0x8000_0000u128,
                            off <= 0x8000_0000u128,
                    ;
                }
                let lo128 = start + size * off;
                lo = if lo128 > len as u128 {
                    len
                } else {
                    lo128 as usize
                };
                let hi128 = lo as u128 + size;
                hi = if hi128 > len as u128 {
                    len
                } else {
                    hi128 as usize
                };
            },
        }
        let mut out: Vec<Key> = Vec::new();
        let mut i: usize = lo;
        while i < hi
            invariant
                lo <= i <= hi <= len,
                store == &self.transactions@[t as int].working@[w as int].data,
                t < self.transactions@.len(),
                w < self.transactions@[t as int].working@.len(),
                len == store@.items.len(),
                out@.len() == i - lo,
                forall|j: int|
                    0 <= j < out@.len() ==> (#[trigger] out@[j])@ == store@.items[lo + j].key,
            decreases hi - i,
        {
            out.push(store.items[i].key.duplicate());
            i = i + 1;
        }
        Ok(out)
    }
}

/// A found context slot lies in range and carries the looked-up id.
pub proof fn lemma_find_ctx_props(s: Seq<ContextSlotModel>, id: int)
    ensures
        (match spec_find_ctx(s, id) {
            Some(i) => 0 <= i < s.len() && s[i].id == id,
            None => true,
        }),
    decreases s.len(),
{
    if s.len() != 0 && s[0].id != id {
        lemma_find_ctx_props(s.drop_first(), id);
    }
}

/// Replacing the found slot with one carrying the same id leaves the
/// lookup at the same place.
pub proof fn lemma_find_ctx_update(s: Seq<ContextSlotModel>, i: int, slot: ContextSlotModel)
    requires
        spec_find_ctx(s, slot.id) == Some(i),
    ensures
        spec_find_ctx(s.update(i, slot), slot.id) == Some(i),
    decreases s.len(),
{
    lemma_find_ctx_props(s, slot.id);
    if s.len() != 0 && s[0].id != slot.id {
        lemma_find_ctx_update(s.drop_first(), i - 1, slot);
        assert(s.update(i, slot).drop_first() =~= s.drop_first().update(i - 1, slot));
    } else if s.len() != 0 {
        assert(s.update(i, slot)[0] == slot);
    }
}

/// What a client reads from the deferred error slot after a null
/// answer: the failure message when the context is known, and nothing
/// otherwise.
pub open spec fn client_null_error(pre: EngineModel, ctx: int, msg: Seq<char>, e: Seq<char>) -> bool {
    match spec_find_ctx(pre.contexts, ctx) {
        Some(_) => e == msg,
        None => e == "Unknown error"@,
    }
}

/// The first indexed document for the store and document id.
pub open spec fn spec_find_doc(s: Seq<SearchDocModel>, store: Seq<char>, doc_id: Seq<char>) -> Option<
    int,
>
    decreases s.len(),
{
    if s.len() == 0 {
        None
    } else if s[0].store_name == store && s[0].doc_id == doc_id {
        Some(0)
    } else {
        match spec_find_doc(s.drop_first(), store, doc_id) {
            Some(i) => Some(i + 1),
            None => None,
        }
    }
}

/// The first indexed document for the store and document id, as
/// [`spec_find_doc`] names it.
fn find_doc_index(v: &Vec<SearchDoc>, store: &String, doc_id: &String) -> (r: Option<usize>)
    ensures
        (match r {
            Some(i) => i < v@.len() && spec_find_doc(
                v@.map_values(|d: SearchDoc| d@),
                store@,
                doc_id@,
            ) == Some(i as int),
            None => (spec_find_doc(v@.map_values(|d: SearchDoc| d@), store@, doc_id@) is None),
        }),
{
    let ghost pre = v@.map_values(|d: SearchDoc| d@);
    let n = v.len();
    let mut i: usize = 0;
    proof {
        assert(pre.skip(0) =~= pre);
    }
    while i < n
        invariant
            i <= n,
            n == v@.len(),
            pre == v@.map_values(|d: SearchDoc| d@),
            pre.len() == n,
            spec_find_doc(pre, store@, doc_id@) == match spec_find_doc(
                pre.skip(i as int),
                store@,
                doc_id@,
            ) {
                Some(p) => Some(p + i),
                None => None::<int>,
            },
        decreases n - i,
    {
        proof {
            assert(pre.skip(i as int)[0] == pre[i as int]);
        }
        if v[i].store_name == *store && v[i].doc_id == *doc_id {
            return Some(i);
        }
        proof {
            assert(pre.skip(i as int).drop_first() =~= pre.skip(i + 1));
        }
        i = i + 1;
    }
    None
}

/// The first saved model for the store, category and name, as
/// [`spec_find_model`] names it.
fn find_model_index(v: &Vec<ModelRec>, store: &String, category: &String, name: &String) -> (r:
    Option<usize>)
    ensures
        (match r {
            Some(i) => i < v@.len() && spec_find_model(
                v@.map_values(|m: ModelRec| m@),
                store@,
                category@,
                name@,
            ) == Some(i as int),
            None => (spec_find_model(v@.map_values(|m: ModelRec| m@), store@, category@, name@)
                is None),
        }),
{
    let ghost pre = v@.map_values(|m: ModelRec| m@);
    let n = v.len();
    let mut i: usize = 0;
    proof {
        assert(pre.skip(0) =~= pre);
    }
    while i < n
        invariant
            i <= n,
            n == v@.len(),
            pre == v@.map_values(|m: ModelRec| m@),
            pre.len() == n,
            spec_find_model(pre, store@, category@, name@) == match spec_find_model(
                pre.skip(i as int),
                store@,
                category@,
                name@,
            ) {
                Some(p) => Some(p + i),
                None => None::<int>,
            },
        decreases n - i,
    {
        proof {
            assert(pre.skip(i as int)[0] == pre[i as int]);
        }
        if v[i].store_name == *store && v[i].category == *category && v[i].name == *name {
            return Some(i);
        }
        proof {
            assert(pre.skip(i as int).drop_first() =~= pre.skip(i + 1));
        }
        i = i + 1;
    }
    None
}

} // verus!
