//! B-trees: creation options, items, payload envelopes, and the
//! client-side B-tree object.
//!
//! A B-tree handle names an ordered store opened under a transaction,
//! together with its engine-side navigation cursor. Single-item calls
//! are client-side sugar wrapping one item in a one-element batch.

use vstd::prelude::*;

use crate::context::Context;
use crate::engine::BTREE_ACTION_ADD;
use crate::engine::BTREE_ACTION_ADD_IF_NOT_EXIST;
use crate::engine::BTREE_ACTION_FIND;
use crate::engine::BTREE_ACTION_MOVE_FIRST;
use crate::engine::BTREE_ACTION_MOVE_LAST;
use crate::engine::BTREE_ACTION_MOVE_NEXT;
use crate::engine::BTREE_ACTION_MOVE_PREVIOUS;
use crate::engine::BTREE_ACTION_REMOVE;
use crate::engine::BTREE_ACTION_UPDATE;
use crate::engine::BTREE_ACTION_UPDATE_CURRENT_KEY;
use crate::engine::BTREE_ACTION_UPDATE_KEY;
use crate::engine::BTREE_ACTION_UPSERT;
use crate::engine::BtreeRecModel;
use crate::engine::ContextSlotModel;
use crate::store::CursorModel;
use crate::engine::DB_ACTION_NEW_BTREE;
use crate::engine::DB_ACTION_OPEN_BTREE;
use crate::engine::DatabasePayload;
use crate::engine::Engine;
use crate::engine::EngineModel;
use crate::engine::TxnRecModel;
use crate::engine::TxnState;
use crate::engine::client_null_error;
use crate::engine::lemma_find_ctx_props;
use crate::engine::lemma_find_ctx_update;
use crate::engine::spec_find_ctx;
use crate::engine::spec_find_txn;
use crate::engine::spec_fold_steps;
use crate::engine::spec_open_working;
use crate::engine::spec_resolve_btree;
use crate::engine::spec_with_ctx_error;
use crate::engine::spec_with_cursor;
use crate::engine::spec_with_working;
use crate::engine::step_add;
use crate::engine::step_add_if_absent;
use crate::engine::step_add_strict;
use crate::engine::step_remove;
use crate::engine::step_update;
use crate::engine::step_update_key;
use crate::engine::step_upsert;
use crate::envelope::Outcome;
use crate::envelope::decode_handle;
use crate::envelope::decode_sentinel;
use crate::handles::spec_handle;
use crate::keys::IndexFieldModel;
use crate::keys::IndexSpecification;
use crate::keys::Key;
use crate::keys::KeyModel;
use crate::keys::ispec_view;
use crate::store::StoreModel;
use crate::transaction::Transaction;

verus! {

/// Options for configuring a B-Tree.
#[derive(Debug)]
pub struct BtreeOptions {
    /// The name of the B-Tree.
    pub name: String,
    /// Whether the B-Tree enforces unique keys.
    pub is_unique: bool,
    /// Whether the key is a primitive type.
    pub is_primitive_key: bool,
    /// The number of slots per node.
    pub slot_length: i32,
    /// A description of the B-Tree.
    pub description: String,
    /// Whether value data is stored in the node segment.
    pub is_value_data_in_node_segment: bool,
    /// Whether value data is actively persisted.
    pub is_value_data_actively_persisted: bool,
    /// Whether value data is globally cached.
    pub is_value_data_globally_cached: bool,
    /// Whether to enable leaf load balancing.
    pub leaf_load_balancing: bool,
    /// The index specification.
    pub index_specification: Option<IndexSpecification>,
    /// The transaction ID associated with these options.
    pub transaction_id: String,
}

impl Default for BtreeOptions {
    /// The default options: a non-unique tree over primitive keys with
    /// 500 slots per node and value data in the node segment.
    fn default() -> (r: BtreeOptions)
        ensures
            r.name@ =~= Seq::<char>::empty(),
            !r.is_unique,
            r.is_primitive_key,
            r.slot_length == 500,
            r.index_specification is None,
            r.transaction_id@ =~= Seq::<char>::empty(),
    {
        BtreeOptions {
            name: String::new(),
            is_unique: false,
            is_primitive_key: true,
            slot_length: 500,
            description: String::new(),
            is_value_data_in_node_segment: true,
            is_value_data_actively_persisted: false,
            is_value_data_globally_cached: false,
            leaf_load_balancing: false,
            index_specification: None,
            transaction_id: String::new(),
        }
    }
}

impl BtreeOptions {
    /// Sets the index specification using a strongly-typed object.
    pub fn set_index_specification(&mut self, spec: IndexSpecification)
        ensures
            final(self).index_specification matches Some(s) && s@ == spec@,
            final(self).name == old(self).name,
            final(self).is_unique == old(self).is_unique,
            final(self).is_primitive_key == old(self).is_primitive_key,
            final(self).transaction_id == old(self).transaction_id,
    {
        self.index_specification = Some(spec);
    }

    /// The index specification these options carry, as the store's
    /// comparison sees it.
    pub open spec fn spec_ispec(&self) -> Option<Seq<IndexFieldModel>> {
        match self.index_specification {
            Some(s) => ispec_view(Some(s)),
            None => None,
        }
    }
}

/// Represents a key-value pair in the B-Tree.
#[derive(Debug)]
pub struct Item {
    /// The key.
    pub key: Key,
    /// The value.
    pub value: Option<String>,
    /// The ID of the item.
    pub id: Option<String>,
}

/// Spec-level image of an [`Item`].
pub struct ItemModel {
    pub key: KeyModel,
    pub value: Option<Seq<char>>,
    pub id: Option<Seq<char>>,
}

impl View for Item {
    type V = ItemModel;

    open spec fn view(&self) -> ItemModel {
        ItemModel {
            key: self.key@,
            value: match &self.value {
                Some(v) => Some(v@),
                None => None,
            },
            id: match &self.id {
                Some(v) => Some(v@),
                None => None,
            },
        }
    }
}

impl Item {
    /// Creates a new item with the given key and value.
    pub fn new(key: Key, value: String) -> (r: Item)
        ensures
            r@.key == key@,
            r@.value matches Some(v) && v == value@,
            r@.id is None,
    {
        Item { key, value: Some(value), id: None }
    }
}

/// Pagination information for queries.
#[derive(Debug, Clone)]
pub struct PagingInfo {
    /// The page size.
    pub page_size: i32,
    /// The page offset.
    pub page_offset: i32,
}

/// The generic item-batch envelope every B-tree data operation carries:
/// a list of items and an optional paging window.
#[derive(Debug)]
pub struct ItemBatch {
    /// The items the operation applies to or asks about.
    pub items: Vec<Item>,
    /// The paging window, for paged key queries.
    pub paging_info: Option<PagingInfo>,
}

/// Spec-level image of an [`ItemBatch`]: its items.
pub open spec fn batch_views(b: ItemBatch) -> Seq<ItemModel> {
    b.items@.map_values(|it: Item| it@)
}

/// The metadata envelope naming the target of a B-tree call: the store
/// handle and its owning transaction, bundled into one payload.
#[derive(Debug)]
pub struct BtreeMeta {
    /// The B-tree handle.
    pub btree_id: String,
    /// The owning transaction's handle.
    pub transaction_id: String,
}

/// What a client-side mutating data call does: the engine transition of
/// the dispatcher with the sentinel translated — `true` to `Ok(true)`,
/// `false` to `Ok(false)` — and a failure to resolve the handle
/// surfaced from the context's deferred error slot.
pub open spec fn post_data_op(
    pre: EngineModel,
    post: EngineModel,
    ctx: int,
    action: int,
    id: Seq<char>,
    batch: Seq<ItemModel>,
    r: Result<bool, String>,
) -> bool {
    match spec_resolve_btree(pre, id) {
        Err(msg) => post == spec_with_ctx_error(pre, ctx, msg) && (r matches Err(e)
            && client_null_error(pre, ctx, msg, e@)),
        Ok((bt, t, w)) => {
            let m0 = pre.transactions[t].working[w].data;
            if action == BTREE_ACTION_ADD {
                match spec_fold_steps(|m: StoreModel, it: ItemModel| step_add(m, it), m0, batch) {
                    Some(m1) => r == Result::<bool, String>::Ok(true) && post == spec_with_working(
                        pre,
                        t,
                        w,
                        m1,
                    ),
                    None => r == Result::<bool, String>::Ok(false) && post == pre,
                }
            } else if action == BTREE_ACTION_ADD_IF_NOT_EXIST {
                match spec_fold_steps(
                    |m: StoreModel, it: ItemModel| step_add_if_absent(m, it),
                    m0,
                    batch,
                ) {
                    Some(m1) => post == spec_with_working(pre, t, w, m1) && r == Result::<
                        bool,
                        String,
                    >::Ok(
                        spec_fold_steps(
                            |m: StoreModel, it: ItemModel| step_add_strict(m, it),
                            m0,
                            batch,
                        ) is Some,
                    ),
                    None => false,
                }
            } else if action == BTREE_ACTION_UPDATE {
                match spec_fold_steps(
                    |m: StoreModel, it: ItemModel| step_update(m, it),
                    m0,
                    batch,
                ) {
                    Some(m1) => r == Result::<bool, String>::Ok(true) && post == spec_with_working(
                        pre,
                        t,
                        w,
                        m1,
                    ),
                    None => r == Result::<bool, String>::Ok(false) && post == pre,
                }
            } else if action == BTREE_ACTION_UPSERT {
                match spec_fold_steps(
                    |m: StoreModel, it: ItemModel| step_upsert(m, it),
                    m0,
                    batch,
                ) {
                    Some(m1) => r == Result::<bool, String>::Ok(true) && post == spec_with_working(
                        pre,
                        t,
                        w,
                        m1,
                    ),
                    None => false,
                }
            } else if action == BTREE_ACTION_REMOVE {
                match spec_fold_steps(
                    |m: StoreModel, it: ItemModel| step_remove(m, it),
                    m0,
                    batch,
                ) {
                    Some(m1) => r == Result::<bool, String>::Ok(true) && post == spec_with_working(
                        pre,
                        t,
                        w,
                        m1,
                    ),
                    None => r == Result::<bool, String>::Ok(false) && post == pre,
                }
            } else if action == BTREE_ACTION_UPDATE_KEY {
                match spec_fold_steps(
                    |m: StoreModel, it: ItemModel| step_update_key(m, it),
                    m0,
                    batch,
                ) {
                    Some(m1) => r == Result::<bool, String>::Ok(true) && post == spec_with_working(
                        pre,
                        t,
                        w,
                        m1,
                    ),
                    None => r == Result::<bool, String>::Ok(false) && post == pre,
                }
            } else if action == BTREE_ACTION_UPDATE_CURRENT_KEY {
                if batch.len() >= 1 && (match pre.btrees[bt].cursor {
                    CursorModel::Positioned(i) => 0 <= i < m0.items.len() && crate::keys::key_equiv(
                        m0.ispec,
                        batch[0].key,
                        m0.items[i].key,
                    ),
                    _ => false,
                }) {
                    let i = pre.btrees[bt].cursor->Positioned_0;
                    r == Result::<bool, String>::Ok(true) && post == spec_with_working(
                        pre,
                        t,
                        w,
                        m0.with_items(
                            m0.items.update(
                                i,
                                crate::store::EntryModel {
                                    key: batch[0].key,
                                    value: m0.items[i].value,
                                },
                            ),
                        ),
                    )
                } else {
                    r == Result::<bool, String>::Ok(false) && post == pre
                }
            } else {
                (r matches Err(e) && e@ == "unknown action"@) && post == pre
            }
        },
    }
}

/// What a client-side navigation call does: the cursor transition of
/// the state machine, its position validity as the boolean; a failure
/// to resolve is a well-formed negative answer when the context holds
/// no error, and an error otherwise.
pub open spec fn post_nav_op(
    pre: EngineModel,
    post: EngineModel,
    ctx: int,
    action: int,
    id: Seq<char>,
    batch: Seq<ItemModel>,
    r: Result<bool, String>,
) -> bool {
    match spec_resolve_btree(pre, id) {
        Err(msg) => post == spec_with_ctx_error(pre, ctx, msg) && (match spec_find_ctx(
            pre.contexts,
            ctx,
        ) {
            Some(_) => (r matches Err(e) && e@ == msg),
            None => r == Result::<bool, String>::Ok(false),
        }),
        Ok((bt, t, w)) => {
            let m0 = pre.transactions[t].working[w].data;
            let c0 = pre.btrees[bt].cursor;
            if action == BTREE_ACTION_FIND {
                if batch.len() >= 1 {
                    let step = crate::store::spec_cursor_find(m0, batch[0].key);
                    post == spec_with_cursor(pre, bt, step.0) && r == Result::<bool, String>::Ok(
                        step.1,
                    )
                } else {
                    r == Result::<bool, String>::Ok(false) && post == pre
                }
            } else if action == BTREE_ACTION_MOVE_FIRST || action == BTREE_ACTION_MOVE_LAST
                || action == BTREE_ACTION_MOVE_NEXT || action == BTREE_ACTION_MOVE_PREVIOUS {
                let step = if action == BTREE_ACTION_MOVE_FIRST {
                    crate::store::spec_cursor_first(m0)
                } else if action == BTREE_ACTION_MOVE_LAST {
                    crate::store::spec_cursor_last(m0)
                } else if action == BTREE_ACTION_MOVE_NEXT {
                    crate::store::spec_cursor_next(m0, c0)
                } else {
                    crate::store::spec_cursor_previous(m0, c0)
                };
                post == spec_with_cursor(pre, bt, step.0) && r == Result::<bool, String>::Ok(step.1)
            } else {
                (r matches Err(e) && e@ == "unknown action"@) && post == pre
            }
        },
    }
}

/// A B-Tree: client-side, the handle and its owning transaction.
#[derive(Debug, Clone)]
pub struct Btree {
    /// The ID of the B-Tree.
    pub id: String,
    /// The transaction ID associated with the B-Tree.
    pub transaction_id: String,
}

impl Btree {
    fn new_internal(id: String, transaction_id: String) -> (r: Btree)
        ensures
            r.id == id,
            r.transaction_id == transaction_id,
    {
        Btree { id, transaction_id }
    }

    /// The metadata envelope naming this handle and its transaction.
    fn meta(&self) -> (r: BtreeMeta)
        ensures
            r.btree_id@ == self.id@,
            r.transaction_id@ == self.transaction_id@,
    {
        BtreeMeta {
            btree_id: self.id.clone(),
            transaction_id: self.transaction_id.clone(),
        }
    }

    /// Creates or opens a B-tree through the database dispatcher and
    /// validates the answered handle.
    fn manage_database(
        eng: &mut Engine,
        ctx: &Context,
        action: i32,
        db_id: &String,
        opts: BtreeOptions,
        trans_id: &String,
    ) -> (r: Result<Btree, String>)
        requires
            old(eng)@.wf(),
            action == DB_ACTION_NEW_BTREE || action == DB_ACTION_OPEN_BTREE,
            opts.transaction_id@ == trans_id@,
        ensures
            final(eng)@.wf(),
            post_create_open(
                old(eng)@,
                final(eng)@,
                opts.name@,
                trans_id@,
                opts.is_unique,
                opts.spec_ispec(),
                action == DB_ACTION_NEW_BTREE,
                r,
            ),
    {
        proof {
            reveal_strlit("unknown transaction");
            reveal_strlit("transaction is not active");
            reveal_strlit("handle space exhausted");
            reveal_strlit("unknown store");
            reveal_strlit("invalid payload");
        }
        let ghost opts0 = opts;
        let raw = eng.manage_database(ctx.id, action, db_id, &DatabasePayload::Btree(opts));
        proof {
            if spec_find_txn(old(eng)@.transactions, opts0.transaction_id@) is Some {
                crate::handles::lemma_handle_is_simple(old(eng)@.next_handle as nat);
            }
        }
        match decode_handle(raw) {
            Ok(Some(id)) => Ok(Btree::new_internal(id, trans_id.clone())),
            Ok(None) => Err(String::from_str("no btree handle returned")),
            Err(e) => Err(e),
        }
    }

    /// Creates a new B-Tree under the transaction, binding a working
    /// copy of the named store — a fresh empty store with these options
    /// if none exists yet — and handing back the new handle.
    pub fn create(
        eng: &mut Engine,
        ctx: &Context,
        name: &str,
        trans: &Transaction,
        options: Option<BtreeOptions>,
    ) -> (r: Result<Btree, String>)
        requires
            old(eng)@.wf(),
        ensures
            final(eng)@.wf(),
            post_create_open(
                old(eng)@,
                final(eng)@,
                name@,
                trans.id@,
                (match options {
                    Some(o) => o.is_unique,
                    None => false,
                }),
                (match options {
                    Some(o) => o.spec_ispec(),
                    None => None,
                }),
                true,
                r,
            ),
    {
        let mut opts = match options {
            Some(o) => o,
            None => BtreeOptions::default(),
        };
        opts.name = String::from_str(name);
        opts.transaction_id = trans.id.clone();
        Btree::manage_database(eng, ctx, DB_ACTION_NEW_BTREE, &trans.database_id, opts, &trans.id)
    }

    /// Opens an existing B-Tree under the transaction; unlike
    /// [`Btree::create`], a name with no store behind it is refused.
    pub fn open(
        eng: &mut Engine,
        ctx: &Context,
        name: &str,
        trans: &Transaction,
        options: Option<BtreeOptions>,
    ) -> (r: Result<Btree, String>)
        requires
            old(eng)@.wf(),
        ensures
            final(eng)@.wf(),
            post_create_open(
                old(eng)@,
                final(eng)@,
                name@,
                trans.id@,
                (match options {
                    Some(o) => o.is_unique,
                    None => false,
                }),
                (match options {
                    Some(o) => o.spec_ispec(),
                    None => None,
                }),
                false,
                r,
            ),
    {
        let mut opts = match options {
            Some(o) => o,
            None => BtreeOptions::default(),
        };
        opts.name = String::from_str(name);
        opts.transaction_id = trans.id.clone();
        Btree::manage_database(eng, ctx, DB_ACTION_OPEN_BTREE, &trans.database_id, opts, &trans.id)
    }

    /// One mutating dispatch call, with the sentinel answer decoded.
    fn manage(&self, eng: &mut Engine, ctx: &Context, action: i32, batch: &ItemBatch) -> (r: Result<
        bool,
        String,
    >)
        requires
            old(eng)@.wf(),
        ensures
            final(eng)@.wf(),
            post_data_op(
                old(eng)@,
                final(eng)@,
                ctx.id as int,
                action as int,
                self.id@,
                batch_views(*batch),
                r,
            ),
    {
        proof {
            reveal_strlit("true");
            reveal_strlit("false");
            reveal_strlit("unknown action");
            reveal_strlit("unknown btree");
            reveal_strlit("unknown transaction");
            reveal_strlit("transaction is not active");
            reveal_strlit("unknown store");
            reveal_strlit("Unknown error");
            assert("true"@.len() == 4);
            assert("false"@.len() == 5);
            assert("unknown action"@.len() == 14);
        }
        let meta = self.meta();
        let raw = eng.manage_btree(ctx.id, action, &meta, batch);
        match raw {
            None => {
                proof {
                    let pre = old(eng)@;
                    let msg = spec_resolve_btree(pre, self.id@)->Err_0;
                    if spec_find_ctx(pre.contexts, ctx.id as int) is Some {
                        let i = spec_find_ctx(pre.contexts, ctx.id as int)->Some_0;
                        lemma_find_ctx_props(pre.contexts, ctx.id as int);
                        lemma_find_ctx_update(
                            pre.contexts,
                            i,
                            ContextSlotModel { id: ctx.id as int, error: Some(msg) },
                        );
                    }
                }
                match ctx.error(eng) {
                    Some(e) => Err(e),
                    None => Err(String::from_str("Unknown error")),
                }
            },
            Some(s) => match decode_sentinel(s) {
                Outcome::Accepted => Ok(true),
                Outcome::Refused => Ok(false),
                Outcome::Failed(m) => Err(m),
            },
        }
    }

    /// One navigating dispatch call, with the sentinel answer decoded;
    /// a null answer with no deferred error reads as a well-formed
    /// negative.
    fn navigate(&self, eng: &mut Engine, ctx: &Context, action: i32, batch: &ItemBatch) -> (r:
        Result<bool, String>)
        requires
            old(eng)@.wf(),
        ensures
            final(eng)@.wf(),
            post_nav_op(
                old(eng)@,
                final(eng)@,
                ctx.id as int,
                action as int,
                self.id@,
                batch_views(*batch),
                r,
            ),
    {
        proof {
            reveal_strlit("true");
            reveal_strlit("false");
            reveal_strlit("unknown action");
            reveal_strlit("unknown btree");
            reveal_strlit("unknown transaction");
            reveal_strlit("transaction is not active");
            reveal_strlit("unknown store");
            assert("true"@.len() == 4);
            assert("false"@.len() == 5);
            assert("unknown action"@.len() == 14);
        }
        let meta = self.meta();
        let raw = eng.navigate_btree(ctx.id, action, &meta, batch);
        match raw {
            None => {
                proof {
                    let pre = old(eng)@;
                    let msg = spec_resolve_btree(pre, self.id@)->Err_0;
                    if spec_find_ctx(pre.contexts, ctx.id as int) is Some {
                        let i = spec_find_ctx(pre.contexts, ctx.id as int)->Some_0;
                        lemma_find_ctx_props(pre.contexts, ctx.id as int);
                        lemma_find_ctx_update(
                            pre.contexts,
                            i,
                            ContextSlotModel { id: ctx.id as int, error: Some(msg) },
                        );
                    }
                }
                match ctx.error(eng) {
                    Some(e) => Err(e),
                    None => Ok(false),
                }
            },
            Some(s) => match decode_sentinel(s) {
                Outcome::Accepted => Ok(true),
                Outcome::Refused => Ok(false),
                Outcome::Failed(m) => Err(m),
            },
        }
    }
}

/// What a batch data call does, as the client sees it: resolve, fold
/// the batch all or nothing, and name the refusal message.
pub open spec fn data_outcome(
    pre: EngineModel,
    post: EngineModel,
    ctx: int,
    id: Seq<char>,
    step: spec_fn(StoreModel, ItemModel) -> Option<StoreModel>,
    batch: Seq<ItemModel>,
    r: Result<(), String>,
    refusal: Seq<char>,
) -> bool {
    match spec_resolve_btree(pre, id) {
        Err(msg) => post == spec_with_ctx_error(pre, ctx, msg) && (r matches Err(e)
            && client_null_error(pre, ctx, msg, e@)),
        Ok((bt, t, w)) => {
            let m0 = pre.transactions[t].working[w].data;
            match spec_fold_steps(step, m0, batch) {
                Some(m1) => (r matches Ok(u) && u == ()) && post == spec_with_working(
                    pre,
                    t,
                    w,
                    m1,
                ),
                None => (r matches Err(e) && e@ == refusal) && post == pre,
            }
        },
    }
}

/// One item as the wire batch carries it.
pub open spec fn one_item(key: KeyModel, value: Option<Seq<char>>) -> Seq<ItemModel> {
    seq![ItemModel { key: key, value: value, id: None }]
}

/// A batch of bare keys, as `remove` and the getters carry them.
pub open spec fn key_items(keys: Seq<Key>) -> Seq<ItemModel> {
    keys.map_values(|k: Key| ItemModel { key: k@, value: None, id: None })
}

impl Btree {
    /// Builds the one-item batch a single-item call wraps its item in.
    fn single_batch(item: Item) -> (r: ItemBatch)
        ensures
            batch_views(r) == seq![item@],
    {
        let ghost iv = item@;
        let b = ItemBatch { items: vec![item], paging_info: None };
        proof {
            assert(batch_views(b) =~= seq![iv]);
        }
        b
    }

    /// Builds the key-only batch a key-list call carries.
    fn key_batch(keys: Vec<Key>) -> (r: ItemBatch)
        ensures
            batch_views(r) == key_items(keys@),
    {
        let ghost kv = keys@;
        let n = keys.len();
        let mut items: Vec<Item> = Vec::new();
        let mut i: usize = 0;
        while i < n
            invariant
                i <= n,
                n == keys@.len(),
                kv == keys@,
                items@.len() == i,
                forall|j: int|
                    0 <= j < i ==> (#[trigger] items@[j])@.key == kv[j]@ && items@[j]@.value
                        is None && items@[j]@.id is None,
            decreases n - i,
        {
            items.push(Item { key: keys[i].duplicate(), value: None, id: None });
            i = i + 1;
        }
        let b = ItemBatch { items, paging_info: None };
        proof {
            assert(batch_views(b) =~= key_items(kv));
        }
        b
    }

    /// Adds a key-value pair to the B-Tree: client-side sugar wrapping
    /// one item in a one-element batch.
    pub fn add(&self, eng: &mut Engine, ctx: &Context, key: Key, value: String) -> (r: Result<
        (),
        String,
    >)
        requires
            old(eng)@.wf(),
        ensures
            final(eng)@.wf(),
            data_outcome(
                old(eng)@,
                final(eng)@,
                ctx.id as int,
                self.id@,
                |m: StoreModel, it: ItemModel| step_add(m, it),
                one_item(key@, Some(value@)),
                r,
                "Add operation returned false"@,
            ),
    {
        let item = Item::new(key, value);
        let ghost iv = item@;
        let items = vec![item];
        proof {
            assert(items@.map_values(|it: Item| it@) =~= one_item(iv.key, iv.value));
        }
        self.add_batch(eng, ctx, items)
    }

    /// Adds a batch of items to the B-Tree, all or nothing.
    pub fn add_batch(&self, eng: &mut Engine, ctx: &Context, items: Vec<Item>) -> (r: Result<
        (),
        String,
    >)
        requires
            old(eng)@.wf(),
        ensures
            final(eng)@.wf(),
            data_outcome(
                old(eng)@,
                final(eng)@,
                ctx.id as int,
                self.id@,
                |m: StoreModel, it: ItemModel| step_add(m, it),
                items@.map_values(|it: Item| it@),
                r,
                "Add operation returned false"@,
            ),
    {
        let batch = ItemBatch { items, paging_info: None };
        match self.manage(eng, ctx, BTREE_ACTION_ADD, &batch) {
            Ok(true) => Ok(()),
            Ok(false) => Err(String::from_str("Add operation returned false")),
            Err(e) => Err(e),
        }
    }

    /// Adds a key-value pair only when no equivalent key is present; a
    /// key already present is quietly left alone.
    pub fn add_if_not_exist(&self, eng: &mut Engine, ctx: &Context, key: Key, value: String) -> (r:
        Result<(), String>)
        requires
            old(eng)@.wf(),
        ensures
            final(eng)@.wf(),
            (match spec_resolve_btree(old(eng)@, self.id@) {
                Err(msg) => final(eng)@ == spec_with_ctx_error(old(eng)@, ctx.id as int, msg) && (
                r matches Err(e) && client_null_error(old(eng)@, ctx.id as int, msg, e@)),
                Ok((bt, t, w)) => {
                    let m0 = old(eng)@.transactions[t].working[w].data;
                    match spec_fold_steps(
                        |m: StoreModel, it: ItemModel| step_add_if_absent(m, it),
                        m0,
                        one_item(key@, Some(value@)),
                    ) {
                        Some(m1) => (r matches Ok(u) && u == ()) && final(eng)@
                            == spec_with_working(old(eng)@, t, w, m1),
                        None => false,
                    }
                },
            }),
    {
        let item = Item::new(key, value);
        let ghost iv = item@;
        let items = vec![item];
        proof {
            assert(items@.map_values(|it: Item| it@) =~= one_item(iv.key, iv.value));
        }
        self.add_if_not_exist_batch(eng, ctx, items)
    }

    /// Adds a batch of items, skipping the keys already present.
    pub fn add_if_not_exist_batch(&self, eng: &mut Engine, ctx: &Context, items: Vec<Item>) -> (r:
        Result<(), String>)
        requires
            old(eng)@.wf(),
        ensures
            final(eng)@.wf(),
            (match spec_resolve_btree(old(eng)@, self.id@) {
                Err(msg) => final(eng)@ == spec_with_ctx_error(old(eng)@, ctx.id as int, msg) && (
                r matches Err(e) && client_null_error(old(eng)@, ctx.id as int, msg, e@)),
                Ok((bt, t, w)) => {
                    let m0 = old(eng)@.transactions[t].working[w].data;
                    match spec_fold_steps(
                        |m: StoreModel, it: ItemModel| step_add_if_absent(m, it),
                        m0,
                        items@.map_values(|it: Item| it@),
                    ) {
                        Some(m1) => (r matches Ok(u) && u == ()) && final(eng)@
                            == spec_with_working(old(eng)@, t, w, m1),
                        None => false,
                    }
                },
            }),
    {
        let batch = ItemBatch { items, paging_info: None };
        match self.manage(eng, ctx, BTREE_ACTION_ADD_IF_NOT_EXIST, &batch) {
            Ok(_) => Ok(()),
            Err(e) => Err(e),
        }
    }

    /// Inserts or updates a key-value pair: the recommended pattern
    /// under contention, since retrying it is harmless.
    pub fn upsert(&self, eng: &mut Engine, ctx: &Context, key: Key, value: String) -> (r: Result<
        (),
        String,
    >)
        requires
            old(eng)@.wf(),
        ensures
            final(eng)@.wf(),
            data_outcome(
                old(eng)@,
                final(eng)@,
                ctx.id as int,
                self.id@,
                |m: StoreModel, it: ItemModel| step_upsert(m, it),
                one_item(key@, Some(value@)),
                r,
                "Upsert operation returned false"@,
            ),
    {
        let item = Item::new(key, value);
        let ghost iv = item@;
        let items = vec![item];
        proof {
            assert(items@.map_values(|it: Item| it@) =~= one_item(iv.key, iv.value));
        }
        self.upsert_batch(eng, ctx, items)
    }

    /// Inserts or updates a batch of items.
    pub fn upsert_batch(&self, eng: &mut Engine, ctx: &Context, items: Vec<Item>) -> (r: Result<
        (),
        String,
    >)
        requires
            old(eng)@.wf(),
        ensures
            final(eng)@.wf(),
            data_outcome(
                old(eng)@,
                final(eng)@,
                ctx.id as int,
                self.id@,
                |m: StoreModel, it: ItemModel| step_upsert(m, it),
                items@.map_values(|it: Item| it@),
                r,
                "Upsert operation returned false"@,
            ),
    {
        let batch = ItemBatch { items, paging_info: None };
        match self.manage(eng, ctx, BTREE_ACTION_UPSERT, &batch) {
            Ok(true) => Ok(()),
            Ok(false) => Err(String::from_str("Upsert operation returned false")),
            Err(e) => Err(e),
        }
    }

    /// Updates the value of an existing key: the value path, leaving
    /// the stored key untouched.
    pub fn update(&self, eng: &mut Engine, ctx: &Context, key: Key, value: String) -> (r: Result<
        (),
        String,
    >)
        requires
            old(eng)@.wf(),
        ensures
            final(eng)@.wf(),
            data_outcome(
                old(eng)@,
                final(eng)@,
                ctx.id as int,
                self.id@,
                |m: StoreModel, it: ItemModel| step_update(m, it),
                one_item(key@, Some(value@)),
                r,
                "Update operation returned false"@,
            ),
    {
        let item = Item::new(key, value);
        let ghost iv = item@;
        let items = vec![item];
        proof {
            assert(items@.map_values(|it: Item| it@) =~= one_item(iv.key, iv.value));
        }
        self.update_batch(eng, ctx, items)
    }

    /// Updates the values of a batch of existing items, all or nothing.
    pub fn update_batch(&self, eng: &mut Engine, ctx: &Context, items: Vec<Item>) -> (r: Result<
        (),
        String,
    >)
        requires
            old(eng)@.wf(),
        ensures
            final(eng)@.wf(),
            data_outcome(
                old(eng)@,
                final(eng)@,
                ctx.id as int,
                self.id@,
                |m: StoreModel, it: ItemModel| step_update(m, it),
                items@.map_values(|it: Item| it@),
                r,
                "Update operation returned false"@,
            ),
    {
        let batch = ItemBatch { items, paging_info: None };
        match self.manage(eng, ctx, BTREE_ACTION_UPDATE, &batch) {
            Ok(true) => Ok(()),
            Ok(false) => Err(String::from_str("Update operation returned false")),
            Err(e) => Err(e),
        }
    }

    /// Updates the key of an existing item — its ride-along fields —
    /// and never touches its value.
    pub fn update_key(&self, eng: &mut Engine, ctx: &Context, item: Item) -> (r: Result<
        (),
        String,
    >)
        requires
            old(eng)@.wf(),
        ensures
            final(eng)@.wf(),
            data_outcome(
                old(eng)@,
                final(eng)@,
                ctx.id as int,
                self.id@,
                |m: StoreModel, it: ItemModel| step_update_key(m, it),
                seq![item@],
                r,
                "UpdateKey operation returned false"@,
            ),
    {
        let ghost iv = item@;
        let items = vec![item];
        proof {
            assert(items@.map_values(|it: Item| it@) =~= seq![iv]);
        }
        self.update_keys(eng, ctx, items)
    }

    /// Updates the keys of a batch of existing items, all or nothing.
    pub fn update_keys(&self, eng: &mut Engine, ctx: &Context, items: Vec<Item>) -> (r: Result<
        (),
        String,
    >)
        requires
            old(eng)@.wf(),
        ensures
            final(eng)@.wf(),
            data_outcome(
                old(eng)@,
                final(eng)@,
                ctx.id as int,
                self.id@,
                |m: StoreModel, it: ItemModel| step_update_key(m, it),
                items@.map_values(|it: Item| it@),
                r,
                "UpdateKey operation returned false"@,
            ),
    {
        let batch = ItemBatch { items, paging_info: None };
        match self.manage(eng, ctx, BTREE_ACTION_UPDATE_KEY, &batch) {
            Ok(true) => Ok(()),
            Ok(false) => Err(String::from_str("UpdateKey operation returned false")),
            Err(e) => Err(e),
        }
    }

    /// Replaces the key fields of the item under the cursor — the new
    /// key must stay equivalent — and never touches the value.
    pub fn update_current_key(&self, eng: &mut Engine, ctx: &Context, item: Item) -> (r: Result<
        (),
        String,
    >)
        requires
            old(eng)@.wf(),
        ensures
            final(eng)@.wf(),
            post_data_op(
                old(eng)@,
                final(eng)@,
                ctx.id as int,
                BTREE_ACTION_UPDATE_CURRENT_KEY as int,
                self.id@,
                seq![item@],
                (match r {
                    Ok(u) => Result::<bool, String>::Ok(true),
                    Err(e) => if e@ == "UpdateCurrentKey operation returned false"@ {
                        Result::<bool, String>::Ok(false)
                    } else {
                        Result::<bool, String>::Err(e)
                    },
                }),
            ),
    {
        proof {
            reveal_strlit("UpdateCurrentKey operation returned false");
            reveal_strlit("unknown btree");
            reveal_strlit("unknown transaction");
            reveal_strlit("transaction is not active");
            reveal_strlit("unknown store");
            reveal_strlit("Unknown error");
            reveal_strlit("unknown action");
            assert("UpdateCurrentKey operation returned false"@.len() == 41);
        }
        let ghost iv = item@;
        let batch = ItemBatch { items: vec![item], paging_info: None };
        proof {
            assert(batch_views(batch) =~= seq![iv]);
        }
        match self.manage(eng, ctx, BTREE_ACTION_UPDATE_CURRENT_KEY, &batch) {
            Ok(true) => Ok(()),
            Ok(false) => Err(String::from_str("UpdateCurrentKey operation returned false")),
            Err(e) => Err(e),
        }
    }

    /// Removes an item from the B-Tree by its key.
    pub fn remove(&self, eng: &mut Engine, ctx: &Context, key: Key) -> (r: Result<(), String>)
        requires
            old(eng)@.wf(),
        ensures
            final(eng)@.wf(),
            data_outcome(
                old(eng)@,
                final(eng)@,
                ctx.id as int,
                self.id@,
                |m: StoreModel, it: ItemModel| step_remove(m, it),
                one_item(key@, None),
                r,
                "Remove operation returned false"@,
            ),
    {
        let ghost kv = key@;
        let keys = vec![key];
        proof {
            assert(key_items(keys@) =~= one_item(kv, None));
        }
        self.remove_batch(eng, ctx, keys)
    }

    /// Removes a batch of items by their keys, all or nothing.
    pub fn remove_batch(&self, eng: &mut Engine, ctx: &Context, keys: Vec<Key>) -> (r: Result<
        (),
        String,
    >)
        requires
            old(eng)@.wf(),
        ensures
            final(eng)@.wf(),
            data_outcome(
                old(eng)@,
                final(eng)@,
                ctx.id as int,
                self.id@,
                |m: StoreModel, it: ItemModel| step_remove(m, it),
                key_items(keys@),
                r,
                "Remove operation returned false"@,
            ),
    {
        let batch = Btree::key_batch(keys);
        match self.manage(eng, ctx, BTREE_ACTION_REMOVE, &batch) {
            Ok(true) => Ok(()),
            Ok(false) => Err(String::from_str("Remove operation returned false")),
            Err(e) => Err(e),
        }
    }

    /// Finds an item by its key, repositioning the cursor onto it, and
    /// reports whether an equivalent key is present.
    pub fn find(&self, eng: &mut Engine, ctx: &Context, key: Key) -> (r: Result<bool, String>)
        requires
            old(eng)@.wf(),
        ensures
            final(eng)@.wf(),
            post_nav_op(
                old(eng)@,
                final(eng)@,
                ctx.id as int,
                BTREE_ACTION_FIND as int,
                self.id@,
                one_item(key@, None),
                r,
            ),
    {
        let ghost kv = key@;
        let batch = Btree::single_batch(Item { key, value: None, id: None });
        proof {
            assert(batch_views(batch) =~= one_item(kv, None));
        }
        self.navigate(eng, ctx, BTREE_ACTION_FIND, &batch)
    }

    /// Moves the cursor to the first item; false means the store is
    /// empty.
    pub fn first(&self, eng: &mut Engine, ctx: &Context) -> (r: Result<bool, String>)
        requires
            old(eng)@.wf(),
        ensures
            final(eng)@.wf(),
            post_nav_op(
                old(eng)@,
                final(eng)@,
                ctx.id as int,
                BTREE_ACTION_MOVE_FIRST as int,
                self.id@,
                Seq::empty(),
                r,
            ),
    {
        let batch = ItemBatch { items: Vec::new(), paging_info: None };
        proof {
            assert(batch_views(batch) =~= Seq::<ItemModel>::empty());
        }
        self.navigate(eng, ctx, BTREE_ACTION_MOVE_FIRST, &batch)
    }

    /// Moves the cursor to the last item; false means the store is
    /// empty.
    pub fn last(&self, eng: &mut Engine, ctx: &Context) -> (r: Result<bool, String>)
        requires
            old(eng)@.wf(),
        ensures
            final(eng)@.wf(),
            post_nav_op(
                old(eng)@,
                final(eng)@,
                ctx.id as int,
                BTREE_ACTION_MOVE_LAST as int,
                self.id@,
                Seq::empty(),
                r,
            ),
    {
        let batch = ItemBatch { items: Vec::new(), paging_info: None };
        proof {
            assert(batch_views(batch) =~= Seq::<ItemModel>::empty());
        }
        self.navigate(eng, ctx, BTREE_ACTION_MOVE_LAST, &batch)
    }

    /// Moves the cursor one item forward; false means the walk is over.
    pub fn next(&self, eng: &mut Engine, ctx: &Context) -> (r: Result<bool, String>)
        requires
            old(eng)@.wf(),
        ensures
            final(eng)@.wf(),
            post_nav_op(
                old(eng)@,
                final(eng)@,
                ctx.id as int,
                BTREE_ACTION_MOVE_NEXT as int,
                self.id@,
                Seq::empty(),
                r,
            ),
    {
        let batch = ItemBatch { items: Vec::new(), paging_info: None };
        proof {
            assert(batch_views(batch) =~= Seq::<ItemModel>::empty());
        }
        self.navigate(eng, ctx, BTREE_ACTION_MOVE_NEXT, &batch)
    }

    /// Moves the cursor one item back; false means the walk is over.
    pub fn previous(&self, eng: &mut Engine, ctx: &Context) -> (r: Result<bool, String>)
        requires
            old(eng)@.wf(),
        ensures
            final(eng)@.wf(),
            post_nav_op(
                old(eng)@,
                final(eng)@,
                ctx.id as int,
                BTREE_ACTION_MOVE_PREVIOUS as int,
                self.id@,
                Seq::empty(),
                r,
            ),
    {
        let batch = ItemBatch { items: Vec::new(), paging_info: None };
        proof {
            assert(batch_views(batch) =~= Seq::<ItemModel>::empty());
        }
        self.navigate(eng, ctx, BTREE_ACTION_MOVE_PREVIOUS, &batch)
    }

    /// Gets the stored item for a key: the first equivalent item, whole,
    /// or nothing when the key is absent.
    pub fn get_value(&self, eng: &Engine, _ctx: &Context, key: Key) -> (r: Result<
        Option<Item>,
        String,
    >)
        requires
            eng@.wf(),
        ensures
            (match spec_resolve_btree(eng@, self.id@) {
                Err(msg) => (r matches Err(e) && e@ == msg),
                Ok((bt, t, w)) => {
                    let found = crate::engine::spec_get_values(
                        eng@.transactions[t].working[w].data,
                        seq![key@],
                    );
                    if found.len() == 0 {
                        r matches Ok(o) && o is None
                    } else {
                        r matches Ok(o) && o matches Some(it) && it@.key == found[0].key
                            && it@.value == Some(found[0].value) && it@.id is None
                    }
                },
            }),
    {
        let ghost kv0 = key@;
        let batch = Btree::single_batch(Item { key, value: None, id: None });
        let ghost kv = batch_views(batch).map_values(|it: ItemModel| it.key);
        proof {
            assert(kv =~= seq![kv0]);
        }
        let mut found = match eng.get_from_btree_values(&self.meta(), &batch) {
            Ok(v) => v,
            Err(e) => {
                return Err(e);
            },
        };
        proof {
            assert(kv =~= seq![batch_views(batch)[0].key]);
        }
        if found.len() == 0 {
            Ok(None)
        } else {
            let it = found.remove(0);
            Ok(Some(it))
        }
    }

    /// Gets the stored items for a list of keys, absent keys skipped.
    pub fn get_values(&self, eng: &Engine, _ctx: &Context, keys: Vec<Key>) -> (r: Result<
        Vec<Item>,
        String,
    >)
        requires
            eng@.wf(),
        ensures
            (match spec_resolve_btree(eng@, self.id@) {
                Err(msg) => (r matches Err(e) && e@ == msg),
                Ok((bt, t, w)) => {
                    let found = crate::engine::spec_get_values(
                        eng@.transactions[t].working[w].data,
                        keys@.map_values(|k: Key| k@),
                    );
                    r matches Ok(v) && v@.len() == found.len() && (forall|i: int|
                        0 <= i < found.len() ==> (#[trigger] v@[i])@.key == found[i].key
                            && v@[i]@.value == Some(found[i].value) && v@[i]@.id is None)
                },
            }),
    {
        let ghost kv = keys@;
        let batch = Btree::key_batch(keys);
        proof {
            assert(batch_views(batch).map_values(|it: ItemModel| it.key) =~= kv.map_values(
                |k: Key| k@,
            ));
        }
        eng.get_from_btree_values(&self.meta(), &batch)
    }

    /// A page of keys, windowed from the cursor position.
    pub fn get_keys(&self, eng: &Engine, _ctx: &Context, paging: Option<PagingInfo>) -> (r: Result<
        Vec<Key>,
        String,
    >)
        requires
            eng@.wf(),
        ensures
            (match spec_resolve_btree(eng@, self.id@) {
                Err(msg) => (r matches Err(e) && e@ == msg),
                Ok((bt, t, w)) => {
                    let m = eng@.transactions[t].working[w].data;
                    let window = crate::engine::spec_key_window(m, eng@.btrees[bt].cursor, paging);
                    r matches Ok(v) && v@.len() == window.1 - window.0 && (forall|i: int|
                        0 <= i < v@.len() ==> (#[trigger] v@[i])@ == m.items[window.0 + i].key)
                },
            }),
    {
        eng.get_from_btree_keys(&self.meta(), &paging)
    }

    /// Every item of the store, in ascending key order.
    pub fn get_items(&self, eng: &Engine, _ctx: &Context) -> (r: Result<Vec<Item>, String>)
        requires
            eng@.wf(),
        ensures
            (match spec_resolve_btree(eng@, self.id@) {
                Err(msg) => (r matches Err(e) && e@ == msg),
                Ok((bt, t, w)) => {
                    let items = eng@.transactions[t].working[w].data.items;
                    r matches Ok(v) && v@.len() == items.len() && (forall|i: int|
                        0 <= i < items.len() ==> (#[trigger] v@[i])@.key == items[i].key
                            && v@[i]@.value == Some(items[i].value) && v@[i]@.id is None)
                },
            }),
    {
        eng.get_from_btree_items(&self.meta())
    }

    /// The number of items the store holds.
    pub fn count(&self, eng: &Engine) -> (r: Result<i64, String>)
        requires
            eng@.wf(),
        ensures
            (match spec_resolve_btree(eng@, self.id@) {
                Err(msg) => (r matches Err(e) && e@ == msg),
                Ok((bt, t, w)) => {
                    let len = eng@.transactions[t].working[w].data.items.len();
                    if len <= i64::MAX {
                        r matches Ok(n) && n == len
                    } else {
                        r matches Err(e) && e@ == "count overflow"@
                    }
                },
            }),
    {
        let (n, err) = eng.get_btree_item_count(&self.meta());
        match err {
            Some(e) => Err(e),
            None => Ok(n),
        }
    }

    /// The item under the cursor, key only, read without moving.
    pub fn current_key(&self, eng: &Engine, _ctx: &Context) -> (r: Result<Option<Item>, String>)
        requires
            eng@.wf(),
        ensures
            (match spec_resolve_btree(eng@, self.id@) {
                Err(msg) => (r matches Err(e) && e@ == msg),
                Ok((bt, t, w)) => {
                    let m = eng@.transactions[t].working[w].data;
                    match eng@.btrees[bt].cursor {
                        CursorModel::Positioned(i) => if 0 <= i < m.items.len() {
                            r matches Ok(o) && o matches Some(it) && it@.key == m.items[i].key
                                && it@.value is None && it@.id is None
                        } else {
                            r matches Ok(o) && o is None
                        },
                        _ => (r matches Ok(o) && o is None),
                    }
                },
            }),
    {
        eng.get_current_key(&self.meta())
    }

    /// The value under the cursor, read without moving.
    pub fn current_value(&self, eng: &Engine, _ctx: &Context) -> (r: Result<Option<String>, String>)
        requires
            eng@.wf(),
        ensures
            (match spec_resolve_btree(eng@, self.id@) {
                Err(msg) => (r matches Err(e) && e@ == msg),
                Ok((bt, t, w)) => {
                    let m = eng@.transactions[t].working[w].data;
                    match eng@.btrees[bt].cursor {
                        CursorModel::Positioned(i) => if 0 <= i < m.items.len() {
                            r matches Ok(o) && o matches Some(v) && v@ == m.items[i].value
                        } else {
                            r matches Ok(o) && o is None
                        },
                        _ => (r matches Ok(o) && o is None),
                    }
                },
            }),
    {
        eng.get_current_value(&self.meta())
    }
}

/// What creating or opening a B-tree does, stated over the effective
/// option pieces: against an active transaction, the named store is
/// bound as a working copy and a fresh handle with an unpositioned
/// cursor is handed back; each failure names its cause.
pub open spec fn post_create_open(
    pre: EngineModel,
    post: EngineModel,
    name: Seq<char>,
    trans_id: Seq<char>,
    uniq: bool,
    isp: Option<Seq<IndexFieldModel>>,
    create: bool,
    r: Result<Btree, String>,
) -> bool {
    match spec_find_txn(pre.transactions, trans_id) {
        None => post == pre && (r matches Err(e) && e@ == "unknown transaction"@),
        Some(t) => if !(pre.transactions[t].state == TxnState::Active) {
            post == pre && (r matches Err(e) && e@ == "transaction is not active"@)
        } else if pre.next_handle >= u64::MAX {
            post == pre && (r matches Err(e) && e@ == "handle space exhausted"@)
        } else {
            match spec_open_working(pre, t, name, uniq, isp, create) {
                None => post == pre && (r matches Err(e) && e@ == "unknown store"@),
                Some(working2) => (r matches Ok(b) && b.id@ == spec_handle(pre.next_handle as nat)
                    && b.transaction_id@ == trans_id) && post == (EngineModel {
                    next_handle: pre.next_handle + 1,
                    transactions: pre.transactions.update(
                        t,
                        (TxnRecModel { working: working2, ..pre.transactions[t] }),
                    ),
                    btrees: pre.btrees.push(
                        BtreeRecModel {
                            id: spec_handle(pre.next_handle as nat),
                            id_num: pre.next_handle,
                            transaction_id: trans_id,
                            name: name,
                            cursor: CursorModel::Unpositioned,
                        },
                    ),
                    ..pre
                }),
            }
        },
    }
}

} // verus!
