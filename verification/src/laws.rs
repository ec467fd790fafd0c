//! The library's laws: what holds of the store model across calls.
//!
//! Each proof function here states one property of the model that the
//! operation contracts promise together, so a reader sees it stated
//! once rather than having to derive it. The store-level statements
//! carry across transactions because commit publishes a transaction's
//! working items unchanged and opening a store hands a new transaction
//! those committed items unchanged — both stated exactly by the commit
//! and open contracts.

use vstd::prelude::*;

use crate::btree::ItemModel;
use crate::engine::item_entry;
use crate::engine::spec_fold_steps;
use crate::engine::step_remove;
use crate::engine::step_upsert;
use crate::keys::IndexFieldModel;
use crate::keys::KeyFieldModel;
use crate::keys::KeyModel;
use crate::keys::key_equiv;
use crate::keys::lemma_key_cmp_basics;
use crate::keys::lemma_ride_along_fields_ignored;
use crate::keys::spec_key_cmp;
use crate::keys::spec_lookup;
use crate::store::EntryModel;
use crate::store::StoreModel;
use crate::store::entries_distinct;
use crate::store::lemma_first_equiv_props;
use crate::store::lemma_first_equiv_respects_equiv;
use crate::store::lemma_insert_pos_props;
use crate::store::lemma_insert_pos_respects_equiv;
use crate::store::lemma_remove_keeps_wf;
use crate::store::spec_contains_key;
use crate::store::spec_first_equiv;
use crate::store::spec_insert_pos;
use crate::store::spec_upsert;

verus! {

/// The first equivalent position is exactly the first position whose
/// key is equivalent.
pub proof fn lemma_first_equiv_exact(
    ispec: Option<Seq<IndexFieldModel>>,
    items: Seq<EntryModel>,
    k: KeyModel,
    i: int,
)
    requires
        0 <= i < items.len(),
        spec_key_cmp(ispec, items[i].key, k) == 0,
        forall|j: int| 0 <= j < i ==> spec_key_cmp(ispec, (#[trigger] items[j]).key, k) != 0,
    ensures
        spec_first_equiv(ispec, items, k) == Some(i),
    decreases items.len(),
{
    if i > 0 {
        assert(forall|j: int| 1 <= j < items.len() ==> items[j] == items.drop_first()[j - 1]);
        lemma_first_equiv_exact(ispec, items.drop_first(), k, i - 1);
    }
}

/// The insert position always lies within the items, sorted or not.
pub proof fn lemma_insert_pos_bounds(
    ispec: Option<Seq<IndexFieldModel>>,
    items: Seq<EntryModel>,
    k: KeyModel,
)
    ensures
        0 <= spec_insert_pos(ispec, items, k) <= items.len(),
    decreases items.len(),
{
    if items.len() != 0 && !(spec_key_cmp(ispec, k, items[0].key) < 0) {
        lemma_insert_pos_bounds(ispec, items.drop_first(), k);
    }
}

/// Round trip: upserting (key, value) into a well-formed store makes a
/// find of that key succeed, and a read of that key hand back exactly
/// the value written. Commit then publishes these items unchanged, and
/// a later transaction opens them unchanged, so the same holds there.
pub proof fn lemma_upsert_round_trip(m: StoreModel, key: KeyModel, value: Seq<char>)
    requires
        m.wf(),
    ensures
        ({
            let items2 = spec_upsert(m.ispec, m.items, EntryModel { key, value });
            &&& spec_contains_key(m.ispec, items2, key)
            &&& (spec_first_equiv(m.ispec, items2, key) matches Some(i) && items2[i].key == key
                && items2[i].value == value)
        }),
{
    let e = EntryModel { key, value };
    let items2 = spec_upsert(m.ispec, m.items, e);
    lemma_key_cmp_basics(m.ispec, key, key);
    lemma_first_equiv_props(m.ispec, m.items, key);
    match spec_first_equiv(m.ispec, m.items, key) {
        Some(i) => {
            assert(items2 == m.items.update(i, e));
            assert forall|j: int| 0 <= j < i implies spec_key_cmp(
                m.ispec,
                (#[trigger] items2[j]).key,
                key,
            ) != 0 by {
                assert(items2[j] == m.items[j]);
            }
            lemma_first_equiv_exact(m.ispec, items2, key, i);
        },
        None => {
            let pos = spec_insert_pos(m.ispec, m.items, key);
            lemma_insert_pos_props(m.ispec, m.items, key);
            assert(items2 == m.items.insert(pos, e));
            assert forall|j: int| 0 <= j < pos implies spec_key_cmp(
                m.ispec,
                (#[trigger] items2[j]).key,
                key,
            ) != 0 by {
                assert(items2[j] == m.items[j]);
            }
            assert(items2[pos] == e);
            lemma_first_equiv_exact(m.ispec, items2, key, pos);
        },
    }
}

/// Round trip for plain adds: adding a key that the store does not yet
/// hold makes a find of it succeed and a read return the added value.
/// (Adding a key a non-unique store already holds appends a second
/// item, and a read then answers the first: that input is left out.)
pub proof fn lemma_add_round_trip(m: StoreModel, key: KeyModel, value: Seq<char>)
    requires
        m.wf(),
        !m.contains_key(key),
    ensures
        ({
            let items2 = m.items.insert(
                spec_insert_pos(m.ispec, m.items, key),
                EntryModel { key, value },
            );
            &&& spec_contains_key(m.ispec, items2, key)
            &&& (spec_first_equiv(m.ispec, items2, key) matches Some(i) && items2[i].key == key
                && items2[i].value == value)
        }),
{
    let e = EntryModel { key, value };
    let pos = spec_insert_pos(m.ispec, m.items, key);
    let items2 = m.items.insert(pos, e);
    lemma_key_cmp_basics(m.ispec, key, key);
    lemma_first_equiv_props(m.ispec, m.items, key);
    lemma_insert_pos_props(m.ispec, m.items, key);
    assert forall|j: int| 0 <= j < pos implies spec_key_cmp(
        m.ispec,
        (#[trigger] items2[j]).key,
        key,
    ) != 0 by {
        assert(items2[j] == m.items[j]);
    }
    assert(items2[pos] == e);
    lemma_first_equiv_exact(m.ispec, items2, key, pos);
}

/// Removal never makes a key appear.
pub proof fn lemma_remove_keeps_absent(
    ispec: Option<Seq<IndexFieldModel>>,
    items: Seq<EntryModel>,
    i: int,
    k: KeyModel,
)
    requires
        0 <= i < items.len(),
        !spec_contains_key(ispec, items, k),
    ensures
        !spec_contains_key(ispec, items.remove(i), k),
{
    let out = items.remove(i);
    lemma_first_equiv_props(ispec, items, k);
    lemma_first_equiv_props(ispec, out, k);
    match spec_first_equiv(ispec, out, k) {
        Some(p) => {
            let p0: int = if p < i {
                p
            } else {
                p + 1
            };
            assert(out[p] == items[p0]);
        },
        None => {},
    }
}

/// Removing a key from a store without duplicate equivalent keys makes
/// a find of it fail.
pub proof fn lemma_remove_then_absent(m: StoreModel, key: KeyModel)
    requires
        m.wf(),
        entries_distinct(m.ispec, m.items),
    ensures
        (match spec_first_equiv(m.ispec, m.items, key) {
            Some(i) => !spec_contains_key(m.ispec, m.items.remove(i), key),
            None => !m.contains_key(key),
        }),
{
    lemma_first_equiv_props(m.ispec, m.items, key);
    match spec_first_equiv(m.ispec, m.items, key) {
        Some(i) => {
            let out = m.items.remove(i);
            lemma_first_equiv_props(m.ispec, out, key);
            match spec_first_equiv(m.ispec, out, key) {
                Some(p) => {
                    let p0: int = if p < i {
                        p
                    } else {
                        p + 1
                    };
                    assert(out[p] == m.items[p0]);
                    crate::keys::lemma_equiv_keys_compare_alike(
                        m.ispec,
                        m.items[i].key,
                        key,
                        m.items[p0].key,
                    );
                    crate::keys::lemma_key_cmp_basics(m.ispec, m.items[p0].key, m.items[i].key);
                    crate::keys::lemma_key_cmp_basics(m.ispec, m.items[p0].key, key);
                    if p0 < i {
                        assert(spec_key_cmp(m.ispec, m.items[p0].key, m.items[i].key) != 0);
                    } else {
                        assert(spec_key_cmp(m.ispec, m.items[i].key, m.items[p0].key) != 0);
                    }
                },
                None => {},
            }
        },
        None => {},
    }
}

/// A batch removal keeps every key it removed absent: once the whole
/// batch goes through on a store without duplicate equivalent keys,
/// finding any of the batch's keys fails.
pub proof fn lemma_remove_batch_then_absent(m: StoreModel, batch: Seq<ItemModel>)
    requires
        m.wf(),
        entries_distinct(m.ispec, m.items),
    ensures
        (match spec_fold_steps(|s: StoreModel, it: ItemModel| step_remove(s, it), m, batch) {
            Some(m1) => m1.ispec == m.ispec && m1.wf() && entries_distinct(m1.ispec, m1.items) && (
            forall|j: int| 0 <= j < batch.len() ==> !m1.contains_key((#[trigger] batch[j]).key)),
            None => true,
        }),
    decreases batch.len(),
{
    let step = |s: StoreModel, it: ItemModel| step_remove(s, it);
    if batch.len() > 0 {
        match step_remove(m, batch[0]) {
            Some(m1) => {
                let i = spec_first_equiv(m.ispec, m.items, batch[0].key)->Some_0;
                lemma_first_equiv_props(m.ispec, m.items, batch[0].key);
                lemma_remove_keeps_wf(m.ispec, m.items, i);
                lemma_remove_then_absent(m, batch[0].key);
                lemma_remove_batch_then_absent(m1, batch.drop_first());
                match spec_fold_steps(step, m1, batch.drop_first()) {
                    Some(mfin) => {
                        assert(!m1.contains_key(batch[0].key));
                        lemma_fold_remove_keeps_absent(m1, batch.drop_first(), batch[0].key);
                        assert forall|j: int| 0 <= j < batch.len() implies !mfin.contains_key(
                            (#[trigger] batch[j]).key,
                        ) by {
                            if j > 0 {
                                assert(batch.drop_first()[j - 1] == batch[j]);
                            }
                        }
                    },
                    None => {},
                }
            },
            None => {},
        }
    }
}

/// A fold of removals keeps an absent key absent.
pub proof fn lemma_fold_remove_keeps_absent(m: StoreModel, batch: Seq<ItemModel>, k: KeyModel)
    requires
        !m.contains_key(k),
    ensures
        (match spec_fold_steps(|s: StoreModel, it: ItemModel| step_remove(s, it), m, batch) {
            Some(m1) => m1.ispec == m.ispec && !m1.contains_key(k),
            None => true,
        }),
    decreases batch.len(),
{
    if batch.len() > 0 {
        match step_remove(m, batch[0]) {
            Some(m1) => {
                let i = spec_first_equiv(m.ispec, m.items, batch[0].key)->Some_0;
                lemma_first_equiv_props(m.ispec, m.items, batch[0].key);
                lemma_remove_keeps_absent(m.ispec, m.items, i, k);
                lemma_fold_remove_keeps_absent(m1, batch.drop_first(), k);
            },
            None => {},
        }
    }
}

/// Replacing an entry whose key is not equivalent to `k` moves the
/// first position of `k` nowhere.
pub proof fn lemma_first_equiv_update_other(
    ispec: Option<Seq<IndexFieldModel>>,
    items: Seq<EntryModel>,
    idx: int,
    e: EntryModel,
    k: KeyModel,
)
    requires
        0 <= idx < items.len(),
        spec_key_cmp(ispec, e.key, k) != 0,
        spec_key_cmp(ispec, items[idx].key, k) != 0,
    ensures
        spec_first_equiv(ispec, items.update(idx, e), k) == spec_first_equiv(ispec, items, k),
    decreases items.len(),
{
    if items.len() != 0 {
        if idx == 0 {
            assert(items.update(idx, e)[0] == e);
            assert(items.update(idx, e).drop_first() =~= items.drop_first());
        } else {
            assert(items.update(idx, e)[0] == items[0]);
            assert(items.update(idx, e).drop_first() =~= items.drop_first().update(idx - 1, e));
            lemma_first_equiv_update_other(ispec, items.drop_first(), idx - 1, e, k);
        }
    }
}

/// Inserting an entry whose key is not equivalent to `k` shifts the
/// first position of `k` past the insertion and no further.
pub proof fn lemma_first_equiv_insert_other(
    ispec: Option<Seq<IndexFieldModel>>,
    items: Seq<EntryModel>,
    p: int,
    e: EntryModel,
    k: KeyModel,
)
    requires
        0 <= p <= items.len(),
        spec_key_cmp(ispec, e.key, k) != 0,
    ensures
        spec_first_equiv(ispec, items.insert(p, e), k) == (match spec_first_equiv(
            ispec,
            items,
            k,
        ) {
            Some(q) => if q < p {
                Some(q)
            } else {
                Some(q + 1)
            },
            None => None::<int>,
        }),
    decreases items.len(),
{
    let out = items.insert(p, e);
    lemma_first_equiv_props(ispec, items, k);
    lemma_first_equiv_props(ispec, out, k);
    if p == 0 {
        assert(out[0] == e);
        assert(out.drop_first() =~= items);
        assert(spec_first_equiv(ispec, out, k) == (match spec_first_equiv(ispec, items, k) {
            Some(q) => Some(q + 1),
            None => None::<int>,
        }));
    } else {
        assert(out[0] == items[0]);
        assert(out.drop_first() =~= items.drop_first().insert(p - 1, e));
        lemma_first_equiv_insert_other(ispec, items.drop_first(), p - 1, e, k);
        if spec_key_cmp(ispec, items[0].key, k) == 0 {
            assert(spec_first_equiv(ispec, items, k) == Some(0int));
            assert(spec_first_equiv(ispec, out, k) == Some(0int));
        } else {
            assert(spec_first_equiv(ispec, out, k) == (match spec_first_equiv(
                ispec,
                out.drop_first(),
                k,
            ) {
                Some(q) => Some(q + 1),
                None => None::<int>,
            }));
            assert(spec_first_equiv(ispec, items, k) == (match spec_first_equiv(
                ispec,
                items.drop_first(),
                k,
            ) {
                Some(q) => Some(q + 1),
                None => None::<int>,
            }));
        }
    }
}

/// An upsert of one key leaves the first entry of any inequivalent key
/// in place, value and all.
pub proof fn lemma_upsert_preserves_other(m: StoreModel, e: EntryModel, k: KeyModel)
    requires
        spec_key_cmp(m.ispec, e.key, k) != 0,
    ensures
        ({
            let items2 = spec_upsert(m.ispec, m.items, e);
            match spec_first_equiv(m.ispec, m.items, k) {
                Some(q) => spec_first_equiv(m.ispec, items2, k) matches Some(q2) && items2[q2]
                    == m.items[q],
                None => spec_first_equiv(m.ispec, items2, k) is None,
            }
        }),
{
    lemma_first_equiv_props(m.ispec, m.items, k);
    lemma_first_equiv_props(m.ispec, m.items, e.key);
    match spec_first_equiv(m.ispec, m.items, e.key) {
        Some(i) => {
            crate::keys::lemma_equiv_keys_compare_alike(m.ispec, m.items[i as int].key, e.key, k);
            lemma_first_equiv_update_other(m.ispec, m.items, i, e, k);
        },
        None => {
            let pos = spec_insert_pos(m.ispec, m.items, e.key);
            lemma_insert_pos_bounds(m.ispec, m.items, e.key);
            lemma_first_equiv_insert_other(m.ispec, m.items, pos, e, k);
        },
    }
}

/// Upserting the same item twice is the same as upserting it once.
pub proof fn lemma_upsert_idempotent_one(m: StoreModel, e: EntryModel)
    ensures
        spec_upsert(m.ispec, spec_upsert(m.ispec, m.items, e), e) == spec_upsert(
            m.ispec,
            m.items,
            e,
        ),
{
    let items2 = spec_upsert(m.ispec, m.items, e);
    lemma_key_cmp_basics(m.ispec, e.key, e.key);
    lemma_first_equiv_props(m.ispec, m.items, e.key);
    match spec_first_equiv(m.ispec, m.items, e.key) {
        Some(i) => {
            assert forall|j: int| 0 <= j < i implies spec_key_cmp(
                m.ispec,
                (#[trigger] items2[j]).key,
                e.key,
            ) != 0 by {
                assert(items2[j] == m.items[j]);
            }
            lemma_first_equiv_exact(m.ispec, items2, e.key, i);
            assert(items2.update(i, e) =~= items2);
        },
        None => {
            let pos = spec_insert_pos(m.ispec, m.items, e.key);
            lemma_insert_pos_bounds(m.ispec, m.items, e.key);
            assert forall|j: int| 0 <= j < pos implies spec_key_cmp(
                m.ispec,
                (#[trigger] items2[j]).key,
                e.key,
            ) != 0 by {
                assert(items2[j] == m.items[j]);
            }
            assert(items2[pos] == e);
            lemma_first_equiv_exact(m.ispec, items2, e.key, pos);
            assert(items2.update(pos, e) =~= items2);
        },
    }
}

/// After a batch of upserts over pairwise-inequivalent keys, each key's
/// first entry is exactly the item the batch carried for it.
pub proof fn lemma_fold_upsert_settles(m: StoreModel, batch: Seq<ItemModel>)
    requires
        m.wf(),
        forall|i: int, j: int|
            0 <= i < j < batch.len() ==> spec_key_cmp(
                m.ispec,
                (#[trigger] batch[i]).key,
                (#[trigger] batch[j]).key,
            ) != 0,
    ensures
        (match spec_fold_steps(|s: StoreModel, it: ItemModel| step_upsert(s, it), m, batch) {
            Some(m1) => m1.ispec == m.ispec && m1.wf() && (forall|j: int|
                0 <= j < batch.len() ==> (spec_first_equiv(
                    m1.ispec,
                    m1.items,
                    (#[trigger] batch[j]).key,
                ) matches Some(p) && m1.items[p] == item_entry(batch[j]))),
            None => false,
        }),
    decreases batch.len(),
{
    let step = |s: StoreModel, it: ItemModel| step_upsert(s, it);
    if batch.len() > 0 {
        let e0 = item_entry(batch[0]);
        let m1 = step_upsert(m, batch[0])->Some_0;
        lemma_upsert_round_trip(m, batch[0].key, e0.value);
        assert(m1.wf()) by {
            lemma_first_equiv_props(m.ispec, m.items, e0.key);
            match spec_first_equiv(m.ispec, m.items, e0.key) {
                Some(i) => {
                    lemma_key_cmp_basics(m.ispec, e0.key, m.items[i].key);
                    crate::store::lemma_replace_equiv_key_keeps_wf(m.ispec, m.items, i, e0);
                },
                None => {
                    crate::store::lemma_insert_keeps_wf(m.ispec, m.items, e0);
                },
            }
        }
        assert forall|u: int, v: int|
            0 <= u < v < batch.drop_first().len() implies spec_key_cmp(
            m1.ispec,
            (#[trigger] batch.drop_first()[u]).key,
            (#[trigger] batch.drop_first()[v]).key,
        ) != 0 by {
            assert(batch.drop_first()[u] == batch[u + 1]);
            assert(batch.drop_first()[v] == batch[v + 1]);
        }
        lemma_fold_upsert_settles(m1, batch.drop_first());
        match spec_fold_steps(step, m1, batch.drop_first()) {
            Some(mfin) => {
                assert forall|j: int|
                    0 <= j < batch.len() implies spec_first_equiv(
                    mfin.ispec,
                    mfin.items,
                    (#[trigger] batch[j]).key,
                ) matches Some(p) && mfin.items[p] == item_entry(batch[j]) by {
                    if j == 0 {
                        assert forall|u: int|
                            0 <= u < batch.drop_first().len() implies spec_key_cmp(
                            m1.ispec,
                            (#[trigger] batch.drop_first()[u]).key,
                            batch[0].key,
                        ) != 0 by {
                            assert(batch.drop_first()[u] == batch[u + 1]);
                            lemma_key_cmp_basics(m.ispec, batch[0].key, batch[u + 1].key);
                        }
                        lemma_fold_upsert_keeps_entry(m1, batch.drop_first(), batch[0].key);
                    } else {
                        assert(batch.drop_first()[j - 1] == batch[j]);
                    }
                }
            },
            None => {},
        }
    }
}

/// A fold of upserts whose keys are all inequivalent to `k` leaves the
/// first entry of `k` in place.
pub proof fn lemma_fold_upsert_keeps_entry(m: StoreModel, batch: Seq<ItemModel>, k: KeyModel)
    requires
        forall|j: int|
            0 <= j < batch.len() ==> spec_key_cmp(m.ispec, (#[trigger] batch[j]).key, k) != 0,
    ensures
        (match spec_fold_steps(|s: StoreModel, it: ItemModel| step_upsert(s, it), m, batch) {
            Some(m1) => m1.ispec == m.ispec && (match spec_first_equiv(m.ispec, m.items, k) {
                Some(q) => spec_first_equiv(m1.ispec, m1.items, k) matches Some(q2) && m1.items[q2]
                    == m.items[q],
                None => spec_first_equiv(m1.ispec, m1.items, k) is None,
            }),
            None => false,
        }),
    decreases batch.len(),
{
    if batch.len() > 0 {
        let m1 = step_upsert(m, batch[0])->Some_0;
        lemma_upsert_preserves_other(m, item_entry(batch[0]), k);
        lemma_fold_upsert_keeps_entry(m1, batch.drop_first(), k);
    }
}

/// A batch whose keys have settled folds through upsert without moving
/// anything.
pub proof fn lemma_fold_upsert_fixed(m: StoreModel, batch: Seq<ItemModel>)
    requires
        forall|j: int|
            0 <= j < batch.len() ==> (spec_first_equiv(
                m.ispec,
                m.items,
                (#[trigger] batch[j]).key,
            ) matches Some(p) && m.items[p] == item_entry(batch[j])),
    ensures
        spec_fold_steps(|s: StoreModel, it: ItemModel| step_upsert(s, it), m, batch) == Some(m),
    decreases batch.len(),
{
    if batch.len() > 0 {
        let e0 = item_entry(batch[0]);
        let p = spec_first_equiv(m.ispec, m.items, batch[0].key)->Some_0;
        lemma_first_equiv_props(m.ispec, m.items, batch[0].key);
        assert(m.items[p] == e0);
        assert(m.items.update(p, e0) =~= m.items);
        assert(step_upsert(m, batch[0]) == Some(m.with_items(m.items)));
        assert(m.with_items(m.items) == m);
        lemma_fold_upsert_fixed(m, batch.drop_first());
    }
}

/// The insert position stops at the first strictly greater item, and
/// not before — sorted or not.
pub proof fn lemma_insert_pos_first(
    ispec: Option<Seq<IndexFieldModel>>,
    items: Seq<EntryModel>,
    k: KeyModel,
)
    ensures
        0 <= spec_insert_pos(ispec, items, k) <= items.len(),
        forall|j: int|
            0 <= j < spec_insert_pos(ispec, items, k) ==> spec_key_cmp(
                ispec,
                k,
                (#[trigger] items[j]).key,
            ) >= 0,
        spec_insert_pos(ispec, items, k) < items.len() ==> spec_key_cmp(
            ispec,
            k,
            items[spec_insert_pos(ispec, items, k)].key,
        ) < 0,
    decreases items.len(),
{
    if items.len() != 0 && !(spec_key_cmp(ispec, k, items[0].key) < 0) {
        lemma_insert_pos_first(ispec, items.drop_first(), k);
        assert(forall|j: int| 1 <= j < items.len() ==> items[j] == items.drop_first()[j - 1]);
    }
}

/// Insert positions follow the key order: a key at or below another is
/// inserted no later.
pub proof fn lemma_insert_pos_monotone(
    ispec: Option<Seq<IndexFieldModel>>,
    items: Seq<EntryModel>,
    a: KeyModel,
    b: KeyModel,
)
    requires
        spec_key_cmp(ispec, a, b) <= 0,
    ensures
        spec_insert_pos(ispec, items, a) <= spec_insert_pos(ispec, items, b),
{
    lemma_insert_pos_first(ispec, items, a);
    lemma_insert_pos_first(ispec, items, b);
    let pa = spec_insert_pos(ispec, items, a);
    let pb = spec_insert_pos(ispec, items, b);
    if pb < pa {
        assert(spec_key_cmp(ispec, a, items[pb].key) >= 0);
        assert(spec_key_cmp(ispec, b, items[pb].key) < 0);
        crate::keys::lemma_key_cmp_trans(ispec, a, b, items[pb].key);
    }
}

/// Replacing an entry with one of an equivalent key moves no insert
/// position.
pub proof fn lemma_insert_pos_update_equiv(
    ispec: Option<Seq<IndexFieldModel>>,
    items: Seq<EntryModel>,
    a: int,
    e: EntryModel,
    k: KeyModel,
)
    requires
        0 <= a < items.len(),
        spec_key_cmp(ispec, items[a].key, e.key) == 0,
    ensures
        spec_insert_pos(ispec, items.update(a, e), k) == spec_insert_pos(ispec, items, k),
    decreases items.len(),
{
    if a == 0 {
        crate::keys::lemma_equiv_keys_compare_alike(ispec, items[0].key, e.key, k);
        assert(items.update(0, e)[0] == e);
        assert(items.update(0, e).drop_first() =~= items.drop_first());
    } else {
        assert(items.update(a, e)[0] == items[0]);
        assert(items.update(a, e).drop_first() =~= items.drop_first().update(a - 1, e));
        lemma_insert_pos_update_equiv(ispec, items.drop_first(), a - 1, e, k);
    }
}

/// Where a key is inserted after another entry has been inserted: an
/// earlier position is untouched, and a later one shifts past the new
/// entry unless the key stops right at it.
pub proof fn lemma_insert_pos_insert(
    ispec: Option<Seq<IndexFieldModel>>,
    items: Seq<EntryModel>,
    p: int,
    e: EntryModel,
    k: KeyModel,
)
    requires
        0 <= p <= items.len(),
    ensures
        spec_insert_pos(ispec, items.insert(p, e), k) == ({
            let q = spec_insert_pos(ispec, items, k);
            if q < p {
                q
            } else if spec_key_cmp(ispec, k, e.key) < 0 {
                p
            } else {
                q + 1
            }
        }),
    decreases items.len(),
{
    let out = items.insert(p, e);
    lemma_insert_pos_first(ispec, items, k);
    if p == 0 {
        assert(out[0] == e);
        assert(out.drop_first() =~= items);
    } else {
        assert(out[0] == items[0]);
        assert(out.drop_first() =~= items.drop_first().insert(p - 1, e));
        lemma_insert_pos_insert(ispec, items.drop_first(), p - 1, e, k);
    }
}

/// Two inserts commute once the later position accounts for the
/// earlier insertion.
pub proof fn lemma_double_insert(
    items: Seq<EntryModel>,
    plo: int,
    elo: EntryModel,
    phi: int,
    ehi: EntryModel,
)
    requires
        0 <= plo <= phi <= items.len(),
    ensures
        items.insert(phi, ehi).insert(plo, elo) =~= items.insert(plo, elo).insert(phi + 1, ehi),
{
}

/// Updates at distinct positions commute.
pub proof fn lemma_update_update_distinct(
    items: Seq<EntryModel>,
    a: int,
    ea: EntryModel,
    b: int,
    eb: EntryModel,
)
    requires
        0 <= a < items.len(),
        0 <= b < items.len(),
        a != b,
    ensures
        items.update(a, ea).update(b, eb) =~= items.update(b, eb).update(a, ea),
{
}

/// An update commutes with an insert once its position accounts for the
/// insertion.
pub proof fn lemma_update_insert_commute(
    items: Seq<EntryModel>,
    a: int,
    ea: EntryModel,
    p: int,
    ej: EntryModel,
)
    requires
        0 <= a < items.len(),
        0 <= p <= items.len(),
    ensures
        items.update(a, ea).insert(p, ej) =~= items.insert(p, ej).update(
            if a < p {
                a
            } else {
                a + 1
            },
            ea,
        ),
{
}

/// One upsert as a whole-store step.
pub open spec fn upsert_m(m: StoreModel, it: ItemModel) -> StoreModel {
    m.with_items(spec_upsert(m.ispec, m.items, item_entry(it)))
}

/// Upserting two equivalent keys in a row collapses to the second
/// upsert alone.
pub proof fn lemma_upsert_equiv_collapse(m: StoreModel, i: ItemModel, j: ItemModel)
    requires
        spec_key_cmp(m.ispec, i.key, j.key) == 0,
    ensures
        upsert_m(upsert_m(m, i), j) == upsert_m(m, j),
{
    let ei = item_entry(i);
    let ej = item_entry(j);
    lemma_key_cmp_basics(m.ispec, i.key, i.key);
    lemma_first_equiv_props(m.ispec, m.items, i.key);
    lemma_first_equiv_respects_equiv(m.ispec, m.items, i.key, j.key);
    match spec_first_equiv(m.ispec, m.items, i.key) {
        Some(a) => {
            let u1 = m.items.update(a, ei);
            assert forall|x: int| 0 <= x < a implies spec_key_cmp(
                m.ispec,
                (#[trigger] u1[x]).key,
                j.key,
            ) != 0 by {
                assert(u1[x] == m.items[x]);
                crate::keys::lemma_equiv_keys_compare_alike(m.ispec, i.key, j.key, m.items[x].key);
                crate::keys::lemma_key_cmp_basics(m.ispec, m.items[x].key, i.key);
                crate::keys::lemma_key_cmp_basics(m.ispec, m.items[x].key, j.key);
            }
            crate::keys::lemma_equiv_keys_compare_alike(m.ispec, i.key, j.key, u1[a].key);
            crate::keys::lemma_key_cmp_basics(m.ispec, u1[a].key, i.key);
            crate::keys::lemma_key_cmp_basics(m.ispec, u1[a].key, j.key);
            lemma_first_equiv_exact(m.ispec, u1, j.key, a);
            assert(u1.update(a, ej) =~= m.items.update(a, ej));
        },
        None => {
            let pos = spec_insert_pos(m.ispec, m.items, i.key);
            lemma_insert_pos_bounds(m.ispec, m.items, i.key);
            lemma_insert_pos_respects_equiv(m.ispec, m.items, i.key, j.key);
            let u1 = m.items.insert(pos, ei);
            assert forall|x: int| 0 <= x < pos implies spec_key_cmp(
                m.ispec,
                (#[trigger] u1[x]).key,
                j.key,
            ) != 0 by {
                assert(u1[x] == m.items[x]);
                crate::keys::lemma_equiv_keys_compare_alike(m.ispec, i.key, j.key, m.items[x].key);
                crate::keys::lemma_key_cmp_basics(m.ispec, m.items[x].key, i.key);
                crate::keys::lemma_key_cmp_basics(m.ispec, m.items[x].key, j.key);
            }
            assert(u1[pos] == ei);
            crate::keys::lemma_equiv_keys_compare_alike(m.ispec, i.key, j.key, ei.key);
            crate::keys::lemma_key_cmp_basics(m.ispec, ei.key, j.key);
            lemma_first_equiv_exact(m.ispec, u1, j.key, pos);
            assert(u1.update(pos, ej) =~= m.items.insert(pos, ej));
        },
    }
}

/// Upserts of inequivalent keys commute.
pub proof fn lemma_upsert_commute(m: StoreModel, i: ItemModel, j: ItemModel)
    requires
        spec_key_cmp(m.ispec, i.key, j.key) != 0,
    ensures
        upsert_m(upsert_m(m, i), j) == upsert_m(upsert_m(m, j), i),
{
    lemma_first_equiv_props(m.ispec, m.items, i.key);
    lemma_first_equiv_props(m.ispec, m.items, j.key);
    match (spec_first_equiv(m.ispec, m.items, i.key), spec_first_equiv(m.ispec, m.items, j.key)) {
        (Some(a), Some(b)) => {
            lemma_upsert_commute_found_found(m, i, j, a, b);
        },
        (Some(a), None) => {
            lemma_upsert_commute_found_missing(m, i, j, a);
        },
        (None, Some(b)) => {
            crate::keys::lemma_key_cmp_basics(m.ispec, i.key, j.key);
            lemma_upsert_commute_found_missing(m, j, i, b);
        },
        (None, None) => {
            lemma_upsert_commute_missing_missing(m, i, j);
        },
    }
}

/// Commutation when both keys are present.
proof fn lemma_upsert_commute_found_found(m: StoreModel, i: ItemModel, j: ItemModel, a: int, b: int)
    requires
        spec_key_cmp(m.ispec, i.key, j.key) != 0,
        spec_first_equiv(m.ispec, m.items, i.key) == Some(a),
        spec_first_equiv(m.ispec, m.items, j.key) == Some(b),
    ensures
        upsert_m(upsert_m(m, i), j) == upsert_m(upsert_m(m, j), i),
{
    let ei = item_entry(i);
    let ej = item_entry(j);
    lemma_first_equiv_props(m.ispec, m.items, i.key);
    lemma_first_equiv_props(m.ispec, m.items, j.key);
    assert(a != b) by {
        if a == b {
            crate::keys::lemma_key_cmp_basics(m.ispec, m.items[a].key, i.key);
            crate::keys::lemma_key_cmp_basics(m.ispec, m.items[a].key, j.key);
            crate::keys::lemma_key_cmp_trans(m.ispec, i.key, m.items[a].key, j.key);
            crate::keys::lemma_key_cmp_trans(m.ispec, j.key, m.items[a].key, i.key);
            crate::keys::lemma_key_cmp_basics(m.ispec, i.key, j.key);
        }
    }
    crate::keys::lemma_equiv_keys_compare_alike(m.ispec, m.items[a].key, i.key, j.key);
    crate::keys::lemma_key_cmp_basics(m.ispec, m.items[a].key, j.key);
    crate::keys::lemma_key_cmp_basics(m.ispec, i.key, j.key);
    crate::keys::lemma_equiv_keys_compare_alike(m.ispec, m.items[b].key, j.key, i.key);
    crate::keys::lemma_key_cmp_basics(m.ispec, m.items[b].key, i.key);
    lemma_first_equiv_update_other(m.ispec, m.items, a, ei, j.key);
    lemma_first_equiv_update_other(m.ispec, m.items, b, ej, i.key);
    lemma_update_update_distinct(m.items, a, ei, b, ej);
}

/// Commutation when the first key is present and the second is not.
proof fn lemma_upsert_commute_found_missing(m: StoreModel, i: ItemModel, j: ItemModel, a: int)
    requires
        spec_key_cmp(m.ispec, i.key, j.key) != 0,
        spec_first_equiv(m.ispec, m.items, i.key) == Some(a),
        spec_first_equiv(m.ispec, m.items, j.key) is None,
    ensures
        upsert_m(upsert_m(m, i), j) == upsert_m(upsert_m(m, j), i),
{
    let ei = item_entry(i);
    let ej = item_entry(j);
    let pj = spec_insert_pos(m.ispec, m.items, j.key);
    lemma_first_equiv_props(m.ispec, m.items, i.key);
    lemma_insert_pos_bounds(m.ispec, m.items, j.key);
    crate::keys::lemma_equiv_keys_compare_alike(m.ispec, m.items[a].key, i.key, j.key);
    crate::keys::lemma_key_cmp_basics(m.ispec, m.items[a].key, j.key);
    crate::keys::lemma_key_cmp_basics(m.ispec, i.key, j.key);
    // Left side: update at a, then insert at the unmoved position.
    lemma_first_equiv_update_other(m.ispec, m.items, a, ei, j.key);
    lemma_insert_pos_update_equiv(m.ispec, m.items, a, ei, j.key);
    // Right side: insert at pj, then update at the shifted position.
    lemma_first_equiv_insert_other(m.ispec, m.items, pj, ej, i.key);
    lemma_update_insert_commute(m.items, a, ei, pj, ej);
}

/// Commutation when neither key is present.
proof fn lemma_upsert_commute_missing_missing(m: StoreModel, i: ItemModel, j: ItemModel)
    requires
        spec_key_cmp(m.ispec, i.key, j.key) != 0,
        spec_first_equiv(m.ispec, m.items, i.key) is None,
        spec_first_equiv(m.ispec, m.items, j.key) is None,
    ensures
        upsert_m(upsert_m(m, i), j) == upsert_m(upsert_m(m, j), i),
{
    let ei = item_entry(i);
    let ej = item_entry(j);
    let pi = spec_insert_pos(m.ispec, m.items, i.key);
    let pj = spec_insert_pos(m.ispec, m.items, j.key);
    lemma_insert_pos_bounds(m.ispec, m.items, i.key);
    lemma_insert_pos_bounds(m.ispec, m.items, j.key);
    crate::keys::lemma_key_cmp_basics(m.ispec, i.key, j.key);
    lemma_first_equiv_insert_other(m.ispec, m.items, pi, ei, j.key);
    lemma_first_equiv_insert_other(m.ispec, m.items, pj, ej, i.key);
    lemma_insert_pos_insert(m.ispec, m.items, pi, ei, j.key);
    lemma_insert_pos_insert(m.ispec, m.items, pj, ej, i.key);
    if spec_key_cmp(m.ispec, j.key, i.key) < 0 {
        lemma_insert_pos_monotone(m.ispec, m.items, j.key, i.key);
        lemma_double_insert(m.items, pj, ej, pi, ei);
    } else {
        lemma_insert_pos_monotone(m.ispec, m.items, i.key, j.key);
        lemma_double_insert(m.items, pi, ei, pj, ej);
    }
}

/// The last item of a batch whose key is equivalent to `k`, or the
/// default when the batch carries none.
pub open spec fn spec_lastitem(
    ispec: Option<Seq<IndexFieldModel>>,
    batch: Seq<ItemModel>,
    k: KeyModel,
    d: ItemModel,
) -> ItemModel
    decreases batch.len(),
{
    if batch.len() == 0 {
        d
    } else {
        let d2 = if spec_key_cmp(ispec, batch[0].key, k) == 0 {
            batch[0]
        } else {
            d
        };
        spec_lastitem(ispec, batch.drop_first(), k, d2)
    }
}

/// The last equivalent item is the same under equivalent keys.
pub proof fn lemma_lastitem_respects_equiv(
    ispec: Option<Seq<IndexFieldModel>>,
    batch: Seq<ItemModel>,
    k1: KeyModel,
    k2: KeyModel,
    d: ItemModel,
)
    requires
        spec_key_cmp(ispec, k1, k2) == 0,
    ensures
        spec_lastitem(ispec, batch, k1, d) == spec_lastitem(ispec, batch, k2, d),
    decreases batch.len(),
{
    if batch.len() != 0 {
        crate::keys::lemma_equiv_keys_compare_alike(ispec, k1, k2, batch[0].key);
        crate::keys::lemma_key_cmp_basics(ispec, batch[0].key, k1);
        crate::keys::lemma_key_cmp_basics(ispec, batch[0].key, k2);
        let d2 = if spec_key_cmp(ispec, batch[0].key, k1) == 0 {
            batch[0]
        } else {
            d
        };
        lemma_lastitem_respects_equiv(ispec, batch.drop_first(), k1, k2, d2);
    }
}

/// A fold of upserts is never refused, and never changes the store's
/// options.
pub proof fn lemma_fold_upsert_total(m: StoreModel, batch: Seq<ItemModel>)
    ensures
        ({
            let fin = spec_fold_steps(|s: StoreModel, it: ItemModel| step_upsert(s, it), m, batch);
            fin matches Some(m1) && m1.ispec == m.ispec && m1.is_unique == m.is_unique
        }),
    decreases batch.len(),
{
    if batch.len() != 0 {
        lemma_fold_upsert_total(upsert_m(m, batch[0]), batch.drop_first());
    }
}

/// A store that has absorbed an item keeps absorbing it across an
/// upsert of an inequivalent key.
proof fn lemma_absorb_preserved(m: StoreModel, y: ItemModel, d: ItemModel)
    requires
        upsert_m(m, d) == m,
        spec_key_cmp(m.ispec, y.key, d.key) != 0,
    ensures
        upsert_m(upsert_m(m, y), d) == upsert_m(m, y),
{
    let m1 = upsert_m(m, y);
    lemma_first_equiv_props(m.ispec, m.items, d.key);
    match spec_first_equiv(m.ispec, m.items, d.key) {
        Some(q) => {
            assert(m.items[q] == item_entry(d)) by {
                assert(m.items.update(q, item_entry(d)) == m.items);
                assert(m.items.update(q, item_entry(d))[q] == item_entry(d));
            }
            crate::keys::lemma_key_cmp_basics(m.ispec, d.key, y.key);
            lemma_upsert_preserves_other(m, item_entry(y), d.key);
            let q2 = spec_first_equiv(m1.ispec, m1.items, d.key)->Some_0;
            lemma_first_equiv_props(m1.ispec, m1.items, d.key);
            assert(m1.items[q2] == item_entry(d));
            assert(m1.items.update(q2, item_entry(d)) =~= m1.items);
        },
        None => {
            lemma_insert_pos_bounds(m.ispec, m.items, d.key);
            assert(upsert_m(m, d).items.len() == m.items.len() + 1);
        },
    }
}

/// Once a store absorbs an item, folding any batch keeps it absorbing
/// the batch's last equivalent item.
proof fn lemma_fold_absorbs(m: StoreModel, batch: Seq<ItemModel>, d: ItemModel)
    requires
        upsert_m(m, d) == m,
    ensures
        ({
            let step = |s: StoreModel, it: ItemModel| step_upsert(s, it);
            let fin = spec_fold_steps(step, m, batch);
            fin matches Some(m1) && upsert_m(m1, spec_lastitem(m.ispec, batch, d.key, d)) == m1
        }),
    decreases batch.len(),
{
    let step = |s: StoreModel, it: ItemModel| step_upsert(s, it);
    lemma_fold_upsert_total(m, batch);
    if batch.len() != 0 {
        let y = batch[0];
        let m1 = upsert_m(m, y);
        if spec_key_cmp(m.ispec, y.key, d.key) == 0 {
            assert(upsert_m(m1, y) == m1) by {
                lemma_upsert_idempotent_one(m, item_entry(y));
            }
            lemma_fold_absorbs(m1, batch.drop_first(), y);
            crate::keys::lemma_key_cmp_basics(m.ispec, y.key, d.key);
            lemma_lastitem_respects_equiv(m.ispec, batch.drop_first(), y.key, d.key, y);
        } else {
            lemma_absorb_preserved(m, y, d);
            lemma_fold_absorbs(m1, batch.drop_first(), d);
        }
    }
}

/// A leading upsert is absorbed by the batch's trailing upsert of the
/// same key class: folding a batch after upserting one item ends where
/// folding the batch alone and then upserting the batch's last
/// equivalent item (or that item itself) ends.
proof fn lemma_fold_upsert_absorption(m: StoreModel, i: ItemModel, batch: Seq<ItemModel>)
    ensures
        ({
            let step = |s: StoreModel, it: ItemModel| step_upsert(s, it);
            let with_i = spec_fold_steps(step, upsert_m(m, i), batch);
            let without = spec_fold_steps(step, m, batch);
            with_i matches Some(l) && without matches Some(r) && l == upsert_m(
                r,
                spec_lastitem(m.ispec, batch, i.key, i),
            )
        }),
    decreases batch.len(),
{
    let step = |s: StoreModel, it: ItemModel| step_upsert(s, it);
    lemma_fold_upsert_total(m, batch);
    lemma_fold_upsert_total(upsert_m(m, i), batch);
    if batch.len() == 0 {
    } else {
        let y = batch[0];
        let rest = batch.drop_first();
        crate::keys::lemma_key_cmp_basics(m.ispec, i.key, y.key);
        if spec_key_cmp(m.ispec, y.key, i.key) == 0 {
            lemma_upsert_equiv_collapse(m, i, y);
            // Both sides continue from the upsert of y alone.
            lemma_fold_upsert_absorption(m, y, rest);
            lemma_fold_upsert_total(m, rest);
            let r2 = spec_fold_steps(step, m, rest)->Some_0;
            let l2 = spec_lastitem(m.ispec, rest, y.key, y);
            lemma_upsert_idempotent_one_m(r2, l2);
            lemma_lastitem_respects_equiv(m.ispec, rest, i.key, y.key, y);
        } else {
            lemma_upsert_commute(m, i, y);
            lemma_fold_upsert_absorption(upsert_m(m, y), i, rest);
            lemma_fold_upsert_total(upsert_m(m, y), rest);
        }
    }
}

/// Upserting the same item twice, as whole-store steps.
proof fn lemma_upsert_idempotent_one_m(m: StoreModel, it: ItemModel)
    ensures
        upsert_m(upsert_m(m, it), it) == upsert_m(m, it),
{
    lemma_upsert_idempotent_one(m, item_entry(it));
}

/// Batch upsert is idempotent, whatever the batch holds: applying the
/// same batch twice yields the same final store contents as applying it
/// once. Duplicate and even conflicting keys within the batch are fine:
/// the batch's last item per key class wins, both times.
pub proof fn lemma_upsert_batch_idempotent(m: StoreModel, batch: Seq<ItemModel>)
    ensures
        ({
            let step = |s: StoreModel, it: ItemModel| step_upsert(s, it);
            let once = spec_fold_steps(step, m, batch);
            once matches Some(m1) && spec_fold_steps(step, m1, batch) == Some(m1)
        }),
    decreases batch.len(),
{
    let step = |s: StoreModel, it: ItemModel| step_upsert(s, it);
    lemma_fold_upsert_total(m, batch);
    if batch.len() != 0 {
        let x = batch[0];
        let rest = batch.drop_first();
        let m1 = upsert_m(m, x);
        let t = spec_fold_steps(step, m, batch)->Some_0;
        lemma_fold_upsert_total(m1, rest);
        assert(t == spec_fold_steps(step, m1, rest)->Some_0);
        // By induction, the batch's tail is idempotent from m1, so
        // folding the tail over t moves nothing.
        lemma_upsert_batch_idempotent(m1, rest);
        assert(spec_fold_steps(step, t, rest) == Some(t));
        // The leading upsert of x is absorbed: t already holds the
        // batch's last item of x's class.
        lemma_fold_upsert_absorption(t, x, rest);
        lemma_upsert_idempotent_one_m(m, x);
        lemma_fold_absorbs(m1, rest, x);
        assert(spec_fold_steps(step, t, batch) == spec_fold_steps(step, upsert_m(t, x), rest));
        assert(spec_fold_steps(step, upsert_m(t, x), rest)->Some_0 == upsert_m(
            spec_fold_steps(step, t, rest)->Some_0,
            spec_lastitem(t.ispec, rest, x.key, x),
        ));
        assert(upsert_m(t, spec_lastitem(m1.ispec, rest, x.key, x)) == t);
        lemma_fold_upsert_total(upsert_m(t, x), rest);
    }
}

/// Ride-along fields never discriminate at the store either: two
/// composite keys agreeing on every indexed field are found at the same
/// position, inserted at the same position, and held or missed
/// together — duplicates to a unique store, the same item to any other.
pub proof fn lemma_ride_along_merge(
    m: StoreModel,
    s: Seq<IndexFieldModel>,
    a: Seq<KeyFieldModel>,
    b: Seq<KeyFieldModel>,
)
    requires
        m.ispec == Some(s),
        forall|i: int|
            0 <= i < s.len() ==> spec_lookup(a, (#[trigger] s[i]).field_name) == spec_lookup(
                b,
                s[i].field_name,
            ),
    ensures
        key_equiv(m.ispec, KeyModel::Composite(a), KeyModel::Composite(b)),
        spec_first_equiv(m.ispec, m.items, KeyModel::Composite(a)) == spec_first_equiv(
            m.ispec,
            m.items,
            KeyModel::Composite(b),
        ),
        spec_insert_pos(m.ispec, m.items, KeyModel::Composite(a)) == spec_insert_pos(
            m.ispec,
            m.items,
            KeyModel::Composite(b),
        ),
        m.contains_key(KeyModel::Composite(a)) <==> m.contains_key(KeyModel::Composite(b)),
{
    lemma_ride_along_fields_ignored(s, a, b);
    lemma_first_equiv_respects_equiv(
        m.ispec,
        m.items,
        KeyModel::Composite(a),
        KeyModel::Composite(b),
    );
    lemma_insert_pos_respects_equiv(
        m.ispec,
        m.items,
        KeyModel::Composite(a),
        KeyModel::Composite(b),
    );
}

} // verus!
