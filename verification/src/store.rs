//! The ordered item store and its cursor state machine.
//!
//! This is the engine-side state a B-tree handle denotes: a sequence of
//! key/value items kept ascending under the store's key comparison, plus
//! the navigation cursor addressed through the handle. Stores created
//! with `is_unique` never hold two equivalent keys; other stores may,
//! and then every mutating operation acts on the first equivalent item.
//!
//! Every mutating operation's contract states the new item sequence
//! exactly, as an insertion, update or removal at a position fixed by
//! the spec-level functions below.

use vstd::prelude::*;

use crate::keys::Key;
use crate::keys::KeyModel;
use crate::keys::IndexFieldModel;
use crate::keys::IndexSpecification;
use crate::keys::ispec_view;
use crate::keys::key_compare;
use crate::keys::key_equiv;
use crate::keys::spec_key_cmp;
use crate::keys::lemma_key_cmp_basics;
use crate::keys::lemma_key_cmp_trans;

verus! {

/// One stored item: a key and its associated value.
#[derive(Debug)]
pub struct Entry {
    /// The item's key, with any ride-along fields it carries.
    pub key: Key,
    /// The item's associated value.
    pub value: String,
}

/// Spec-level image of an [`Entry`].
pub struct EntryModel {
    pub key: KeyModel,
    pub value: Seq<char>,
}

impl View for Entry {
    type V = EntryModel;

    open spec fn view(&self) -> EntryModel {
        EntryModel { key: self.key@, value: self.value@ }
    }
}

/// Spec-level image of a list of entries.
pub open spec fn entry_views(items: Seq<Entry>) -> Seq<EntryModel> {
    items.map_values(|e: Entry| e@)
}

/// The items ascend under the key comparison.
pub open spec fn entries_sorted(ispec: Option<Seq<IndexFieldModel>>, items: Seq<EntryModel>) -> bool {
    forall|i: int, j: int|
        0 <= i < j < items.len() ==> spec_key_cmp(ispec, items[i].key, items[j].key) <= 0
}

/// No two items hold equivalent keys.
pub open spec fn entries_distinct(ispec: Option<Seq<IndexFieldModel>>, items: Seq<EntryModel>) -> bool {
    forall|i: int, j: int|
        0 <= i < j < items.len() ==> spec_key_cmp(ispec, items[i].key, items[j].key) != 0
}

/// The first position holding a key equivalent to `k`, if any.
pub open spec fn spec_first_equiv(
    ispec: Option<Seq<IndexFieldModel>>,
    items: Seq<EntryModel>,
    k: KeyModel,
) -> Option<int>
    decreases items.len(),
{
    if items.len() == 0 {
        None
    } else if spec_key_cmp(ispec, items[0].key, k) == 0 {
        Some(0)
    } else {
        match spec_first_equiv(ispec, items.drop_first(), k) {
            Some(i) => Some(i + 1),
            None => None,
        }
    }
}

/// Whether some item holds a key equivalent to `k`.
pub open spec fn spec_contains_key(
    ispec: Option<Seq<IndexFieldModel>>,
    items: Seq<EntryModel>,
    k: KeyModel,
) -> bool {
    spec_first_equiv(ispec, items, k) is Some
}

/// The position at which a new item with key `k` is inserted: before the
/// first item strictly greater than `k`, hence after any equivalent
/// items already present.
pub open spec fn spec_insert_pos(
    ispec: Option<Seq<IndexFieldModel>>,
    items: Seq<EntryModel>,
    k: KeyModel,
) -> int
    decreases items.len(),
{
    if items.len() == 0 {
        0
    } else if spec_key_cmp(ispec, k, items[0].key) < 0 {
        0
    } else {
        1 + spec_insert_pos(ispec, items.drop_first(), k)
    }
}

/// An ordered item store: the engine-side state behind one open B-tree
/// name within a transaction.
#[derive(Debug)]
pub struct StoreData {
    /// Whether the store refuses a second item with an equivalent key.
    pub is_unique: bool,
    /// The index specification its composite keys compare under.
    pub index_specification: Option<IndexSpecification>,
    /// The items, ascending under the key comparison.
    pub items: Vec<Entry>,
}

/// Spec-level image of a [`StoreData`].
pub struct StoreModel {
    pub is_unique: bool,
    pub ispec: Option<Seq<IndexFieldModel>>,
    pub items: Seq<EntryModel>,
}

impl View for StoreData {
    type V = StoreModel;

    open spec fn view(&self) -> StoreModel {
        StoreModel {
            is_unique: self.is_unique,
            ispec: ispec_view(self.index_specification),
            items: entry_views(self.items@),
        }
    }
}

impl StoreModel {
    /// Well-formedness: the items ascend, and a unique store never holds
    /// two equivalent keys.
    pub open spec fn wf(self) -> bool {
        &&& entries_sorted(self.ispec, self.items)
        &&& self.is_unique ==> entries_distinct(self.ispec, self.items)
    }

    /// Whether some item holds a key equivalent to `k`.
    pub open spec fn contains_key(self, k: KeyModel) -> bool {
        spec_contains_key(self.ispec, self.items, k)
    }

    /// This store with the given item sequence.
    pub open spec fn with_items(self, items: Seq<EntryModel>) -> StoreModel {
        StoreModel { items, ..self }
    }
}

/// The result of [`spec_first_equiv`] is a position whose key is
/// equivalent to `k`, and no earlier position's key is.
pub proof fn lemma_first_equiv_props(
    ispec: Option<Seq<IndexFieldModel>>,
    items: Seq<EntryModel>,
    k: KeyModel,
)
    ensures
        match spec_first_equiv(ispec, items, k) {
            Some(i) => 0 <= i < items.len() && spec_key_cmp(ispec, items[i].key, k) == 0 && forall|
                j: int,
            | 0 <= j < i ==> spec_key_cmp(ispec, items[j].key, k) != 0,
            None => forall|j: int| 0 <= j < items.len() ==> spec_key_cmp(ispec, items[j].key, k)
                != 0,
        },
    decreases items.len(),
{
    if items.len() != 0 && spec_key_cmp(ispec, items[0].key, k) != 0 {
        lemma_first_equiv_props(ispec, items.drop_first(), k);
        assert(forall|j: int| 1 <= j < items.len() ==> items[j] == items.drop_first()[j - 1]);
    }
}

/// The insert position splits the items: everything before it compares
/// at or below `k`, everything at or after it compares strictly above.
pub proof fn lemma_insert_pos_props(
    ispec: Option<Seq<IndexFieldModel>>,
    items: Seq<EntryModel>,
    k: KeyModel,
)
    requires
        entries_sorted(ispec, items),
    ensures
        0 <= spec_insert_pos(ispec, items, k) <= items.len(),
        forall|j: int|
            0 <= j < spec_insert_pos(ispec, items, k) ==> spec_key_cmp(ispec, k, items[j].key)
                >= 0,
        forall|j: int|
            spec_insert_pos(ispec, items, k) <= j < items.len() ==> spec_key_cmp(
                ispec,
                k,
                items[j].key,
            ) < 0,
    decreases items.len(),
{
    if items.len() != 0 {
        if spec_key_cmp(ispec, k, items[0].key) < 0 {
            assert forall|j: int| 0 <= j < items.len() implies spec_key_cmp(ispec, k, items[j].key)
                < 0 by {
                if j > 0 {
                    lemma_key_cmp_trans(ispec, k, items[0].key, items[j].key);
                }
            }
        } else {
            assert(entries_sorted(ispec, items.drop_first())) by {
                assert(forall|j: int|
                    1 <= j < items.len() ==> items[j] == items.drop_first()[j - 1]);
            }
            lemma_insert_pos_props(ispec, items.drop_first(), k);
            assert(forall|j: int| 1 <= j < items.len() ==> items[j] == items.drop_first()[j - 1]);
            lemma_key_cmp_basics(ispec, k, items[0].key);
        }
    }
}

/// Inserting at the insert position keeps the items ascending; if no
/// equivalent key is present, it also keeps them distinct.
pub proof fn lemma_insert_keeps_wf(
    ispec: Option<Seq<IndexFieldModel>>,
    items: Seq<EntryModel>,
    e: EntryModel,
)
    requires
        entries_sorted(ispec, items),
    ensures
        entries_sorted(ispec, items.insert(spec_insert_pos(ispec, items, e.key), e)),
        entries_distinct(ispec, items) && !spec_contains_key(ispec, items, e.key)
            ==> entries_distinct(ispec, items.insert(spec_insert_pos(ispec, items, e.key), e)),
{
    let pos = spec_insert_pos(ispec, items, e.key);
    lemma_insert_pos_props(ispec, items, e.key);
    lemma_first_equiv_props(ispec, items, e.key);
    let out = items.insert(pos, e);
    assert forall|i: int, j: int| 0 <= i < j < out.len() implies spec_key_cmp(
        ispec,
        out[i].key,
        out[j].key,
    ) <= 0 by {
        lemma_key_cmp_basics(ispec, e.key, out[i].key);
        lemma_key_cmp_basics(ispec, e.key, out[j].key);
        if i == pos {
            assert(out[j] == items[j - 1]);
        } else if j == pos {
            assert(out[i] == items[i]);
        } else if i < pos && j > pos {
            assert(out[i] == items[i] && out[j] == items[j - 1]);
        }
    }
    if entries_distinct(ispec, items) && !spec_contains_key(ispec, items, e.key) {
        assert forall|i: int, j: int| 0 <= i < j < out.len() implies spec_key_cmp(
            ispec,
            out[i].key,
            out[j].key,
        ) != 0 by {
            lemma_key_cmp_basics(ispec, e.key, out[i].key);
            lemma_key_cmp_basics(ispec, e.key, out[j].key);
            if i == pos {
                assert(out[j] == items[j - 1]);
            } else if j == pos {
                assert(out[i] == items[i]);
            } else if i < pos && j > pos {
                assert(out[i] == items[i] && out[j] == items[j - 1]);
            }
        }
    }
}

impl StoreData {
    /// An empty store with the given uniqueness and index specification.
    pub fn new(is_unique: bool, index_specification: Option<IndexSpecification>) -> (r: StoreData)
        ensures
            r@.is_unique == is_unique,
            r@.ispec == ispec_view(index_specification),
            r@.items =~= Seq::<EntryModel>::empty(),
            r@.wf(),
    {
        StoreData { is_unique, index_specification, items: Vec::new() }
    }

    /// The number of items held.
    pub fn count(&self) -> (r: usize)
        ensures
            r == self@.items.len(),
    {
        self.items.len()
    }

    /// The position of the first item whose key is equivalent to `key`,
    /// exactly as [`spec_first_equiv`] names it.
    pub fn find_first(&self, key: &Key) -> (r: Option<usize>)
        ensures
            match r {
                Some(i) => spec_first_equiv(self@.ispec, self@.items, key@) == Some(i as int),
                None => spec_first_equiv(self@.ispec, self@.items, key@) is None,
            },
    {
        let ghost iv = self@.items;
        let n = self.items.len();
        let mut i: usize = 0;
        proof {
            assert(iv.skip(0) =~= iv);
        }
        while i < n
            invariant
                i <= n,
                n == self.items@.len(),
                iv == self@.items,
                iv.len() == n,
                spec_first_equiv(self@.ispec, iv, key@) == match spec_first_equiv(
                    self@.ispec,
                    iv.skip(i as int),
                    key@,
                ) {
                    Some(p) => Some(p + i),
                    None => None::<int>,
                },
            decreases n - i,
        {
            proof {
                assert(iv.skip(i as int)[0] == iv[i as int]);
            }
            let c = key_compare(&self.index_specification, &self.items[i].key, key);
            if c == 0 {
                return Some(i);
            }
            proof {
                assert(iv.skip(i as int).drop_first() =~= iv.skip(i + 1));
            }
            i = i + 1;
        }
        None
    }

    /// The position at which an item with key `key` would be inserted,
    /// exactly as [`spec_insert_pos`] names it.
    fn insert_pos(&self, key: &Key) -> (r: usize)
        ensures
            r as int == spec_insert_pos(self@.ispec, self@.items, key@),
            r <= self@.items.len(),
    {
        let ghost iv = self@.items;
        let n = self.items.len();
        let mut i: usize = 0;
        proof {
            assert(iv.skip(0) =~= iv);
        }
        while i < n
            invariant
                i <= n,
                n == self.items@.len(),
                iv == self@.items,
                iv.len() == n,
                spec_insert_pos(self@.ispec, iv, key@) == i + spec_insert_pos(
                    self@.ispec,
                    iv.skip(i as int),
                    key@,
                ),
            decreases n - i,
        {
            proof {
                assert(iv.skip(i as int)[0] == iv[i as int]);
            }
            let c = key_compare(&self.index_specification, key, &self.items[i].key);
            if c < 0 {
                return i;
            }
            proof {
                assert(iv.skip(i as int).drop_first() =~= iv.skip(i + 1));
            }
            i = i + 1;
        }
        proof {
            assert(iv.skip(n as int).len() == 0);
        }
        n
    }
}

/// Replacing an item with one whose key is equivalent keeps the items
/// ascending and distinct.
pub proof fn lemma_replace_equiv_key_keeps_wf(
    ispec: Option<Seq<IndexFieldModel>>,
    items: Seq<EntryModel>,
    i: int,
    e: EntryModel,
)
    requires
        0 <= i < items.len(),
        spec_key_cmp(ispec, e.key, items[i].key) == 0,
        entries_sorted(ispec, items),
    ensures
        entries_sorted(ispec, items.update(i, e)),
        entries_distinct(ispec, items) ==> entries_distinct(ispec, items.update(i, e)),
{
    let out = items.update(i, e);
    assert forall|p: int, q: int| 0 <= p < q < out.len() implies spec_key_cmp(
        ispec,
        out[p].key,
        out[q].key,
    ) <= 0 && (entries_distinct(ispec, items) ==> spec_key_cmp(ispec, out[p].key, out[q].key)
        != 0) by {
        if p == i {
            crate::keys::lemma_equiv_keys_compare_alike(ispec, e.key, items[i].key, items[q].key);
        } else if q == i {
            crate::keys::lemma_equiv_keys_compare_alike(ispec, e.key, items[i].key, items[p].key);
            crate::keys::lemma_key_cmp_basics(ispec, items[p].key, items[i].key);
            crate::keys::lemma_key_cmp_basics(ispec, items[p].key, e.key);
        }
    }
}

/// Removing an item keeps the items ascending and distinct.
pub proof fn lemma_remove_keeps_wf(
    ispec: Option<Seq<IndexFieldModel>>,
    items: Seq<EntryModel>,
    i: int,
)
    requires
        0 <= i < items.len(),
        entries_sorted(ispec, items),
    ensures
        entries_sorted(ispec, items.remove(i)),
        entries_distinct(ispec, items) ==> entries_distinct(ispec, items.remove(i)),
{
}

/// Equivalent keys are found at the same first position.
pub proof fn lemma_first_equiv_respects_equiv(
    ispec: Option<Seq<IndexFieldModel>>,
    items: Seq<EntryModel>,
    k1: KeyModel,
    k2: KeyModel,
)
    requires
        spec_key_cmp(ispec, k1, k2) == 0,
    ensures
        spec_first_equiv(ispec, items, k1) == spec_first_equiv(ispec, items, k2),
    decreases items.len(),
{
    if items.len() != 0 {
        crate::keys::lemma_equiv_keys_compare_alike(ispec, k1, k2, items[0].key);
        lemma_first_equiv_respects_equiv(ispec, items.drop_first(), k1, k2);
    }
}

/// Equivalent keys are inserted at the same position.
pub proof fn lemma_insert_pos_respects_equiv(
    ispec: Option<Seq<IndexFieldModel>>,
    items: Seq<EntryModel>,
    k1: KeyModel,
    k2: KeyModel,
)
    requires
        spec_key_cmp(ispec, k1, k2) == 0,
    ensures
        spec_insert_pos(ispec, items, k1) == spec_insert_pos(ispec, items, k2),
    decreases items.len(),
{
    if items.len() != 0 {
        crate::keys::lemma_equiv_keys_compare_alike(ispec, k1, k2, items[0].key);
        lemma_insert_pos_respects_equiv(ispec, items.drop_first(), k1, k2);
    }
}

/// What upserting one item does to the item sequence: replace the first
/// equivalent item whole, or insert at the sorted position.
pub open spec fn spec_upsert(
    ispec: Option<Seq<IndexFieldModel>>,
    items: Seq<EntryModel>,
    e: EntryModel,
) -> Seq<EntryModel> {
    match spec_first_equiv(ispec, items, e.key) {
        Some(i) => items.update(i, e),
        None => items.insert(spec_insert_pos(ispec, items, e.key), e),
    }
}

impl StoreData {
    /// Adds an item. A unique store refuses a key already present; any
    /// other add inserts at the sorted position, after any items with
    /// equivalent keys.
    pub fn add(&mut self, key: Key, value: String) -> (r: bool)
        ensures
            final(self)@.is_unique == old(self)@.is_unique,
            final(self)@.ispec == old(self)@.ispec,
            r == !(old(self)@.is_unique && old(self)@.contains_key(key@)),
            r ==> final(self)@.items == old(self)@.items.insert(
                spec_insert_pos(old(self)@.ispec, old(self)@.items, key@),
                EntryModel { key: key@, value: value@ },
            ),
            !r ==> final(self)@.items == old(self)@.items,
            old(self)@.wf() ==> final(self)@.wf(),
    {
        if self.is_unique {
            if self.find_first(&key).is_some() {
                return false;
            }
        }
        let pos = self.insert_pos(&key);
        let ghost m = self@;
        let ghost ev = EntryModel { key: key@, value: value@ };
        proof {
            lemma_views_insert(self.items@, pos as int, Entry { key: key, value: value });
            if m.wf() {
                lemma_insert_keeps_wf(m.ispec, m.items, ev);
            }
        }
        self.items.insert(pos, Entry { key, value });
        true
    }

    /// Adds an item only when no equivalent key is present.
    pub fn add_if_absent(&mut self, key: Key, value: String) -> (r: bool)
        ensures
            final(self)@.is_unique == old(self)@.is_unique,
            final(self)@.ispec == old(self)@.ispec,
            r == !old(self)@.contains_key(key@),
            r ==> final(self)@.items == old(self)@.items.insert(
                spec_insert_pos(old(self)@.ispec, old(self)@.items, key@),
                EntryModel { key: key@, value: value@ },
            ),
            !r ==> final(self)@.items == old(self)@.items,
            old(self)@.wf() ==> final(self)@.wf(),
    {
        if self.find_first(&key).is_some() {
            return false;
        }
        let pos = self.insert_pos(&key);
        let ghost m = self@;
        let ghost ev = EntryModel { key: key@, value: value@ };
        proof {
            lemma_views_insert(self.items@, pos as int, Entry { key: key, value: value });
            if m.wf() {
                lemma_insert_keeps_wf(m.ispec, m.items, ev);
            }
        }
        self.items.insert(pos, Entry { key, value });
        true
    }

    /// Replaces the value of the first item with an equivalent key,
    /// leaving that item's stored key untouched: the value path.
    pub fn update(&mut self, key: &Key, value: String) -> (r: bool)
        ensures
            final(self)@.is_unique == old(self)@.is_unique,
            final(self)@.ispec == old(self)@.ispec,
            r == old(self)@.contains_key(key@),
            match spec_first_equiv(old(self)@.ispec, old(self)@.items, key@) {
                Some(i) => final(self)@.items == old(self)@.items.update(
                    i,
                    EntryModel { key: old(self)@.items[i].key, value: value@ },
                ),
                None => final(self)@.items == old(self)@.items,
            },
            old(self)@.wf() ==> final(self)@.wf(),
    {
        match self.find_first(key) {
            Some(i) => {
                let ghost m = self@;
                proof {
                    lemma_first_equiv_props(m.ispec, m.items, key@);
                }
                let k2 = self.items[i].key.duplicate();
                let e = Entry { key: k2, value };
                proof {
                    lemma_views_update(self.items@, i as int, e);
                    if m.wf() {
                        crate::keys::lemma_key_cmp_basics(m.ispec, e@.key, m.items[i as int].key);
                        lemma_replace_equiv_key_keeps_wf(m.ispec, m.items, i as int, e@);
                    }
                }
                self.items.set(i, e);
                true
            },
            None => false,
        }
    }

    /// Inserts the item or replaces the first equivalent item whole —
    /// key, ride-along fields and value — as [`spec_upsert`] states.
    pub fn upsert(&mut self, key: Key, value: String)
        ensures
            final(self)@.is_unique == old(self)@.is_unique,
            final(self)@.ispec == old(self)@.ispec,
            final(self)@.items == spec_upsert(
                old(self)@.ispec,
                old(self)@.items,
                EntryModel { key: key@, value: value@ },
            ),
            old(self)@.wf() ==> final(self)@.wf(),
    {
        let ghost m = self@;
        let ghost ev = EntryModel { key: key@, value: value@ };
        match self.find_first(&key) {
            Some(i) => {
                let e = Entry { key, value };
                proof {
                    lemma_first_equiv_props(m.ispec, m.items, ev.key);
                    lemma_views_update(self.items@, i as int, e);
                    if m.wf() {
                        crate::keys::lemma_key_cmp_basics(m.ispec, ev.key, m.items[i as int].key);
                        lemma_replace_equiv_key_keeps_wf(m.ispec, m.items, i as int, ev);
                    }
                }
                self.items.set(i, e);
            },
            None => {
                let pos = self.insert_pos(&key);
                proof {
                    lemma_views_insert(self.items@, pos as int, Entry { key: key, value: value });
                    if m.wf() {
                        lemma_insert_keeps_wf(m.ispec, m.items, ev);
                    }
                }
                self.items.insert(pos, Entry { key, value });
            },
        }
    }

    /// Replaces the key of the first item equivalent to the given key —
    /// updating its ride-along fields — and never touches its value.
    pub fn update_key(&mut self, key: Key) -> (r: bool)
        ensures
            final(self)@.is_unique == old(self)@.is_unique,
            final(self)@.ispec == old(self)@.ispec,
            r == old(self)@.contains_key(key@),
            match spec_first_equiv(old(self)@.ispec, old(self)@.items, key@) {
                Some(i) => final(self)@.items == old(self)@.items.update(
                    i,
                    EntryModel { key: key@, value: old(self)@.items[i].value },
                ),
                None => final(self)@.items == old(self)@.items,
            },
            old(self)@.wf() ==> final(self)@.wf(),
    {
        match self.find_first(&key) {
            Some(i) => {
                let ghost m = self@;
                proof {
                    lemma_first_equiv_props(m.ispec, m.items, key@);
                }
                let v2 = self.items[i].value.clone();
                let e = Entry { key, value: v2 };
                proof {
                    lemma_views_update(self.items@, i as int, e);
                    if m.wf() {
                        crate::keys::lemma_key_cmp_basics(m.ispec, e@.key, m.items[i as int].key);
                        lemma_replace_equiv_key_keeps_wf(m.ispec, m.items, i as int, e@);
                    }
                }
                self.items.set(i, e);
                true
            },
            None => false,
        }
    }

    /// Removes the first item with an equivalent key, if any.
    pub fn remove_first(&mut self, key: &Key) -> (r: bool)
        ensures
            final(self)@.is_unique == old(self)@.is_unique,
            final(self)@.ispec == old(self)@.ispec,
            r == old(self)@.contains_key(key@),
            match spec_first_equiv(old(self)@.ispec, old(self)@.items, key@) {
                Some(i) => final(self)@.items == old(self)@.items.remove(i),
                None => final(self)@.items == old(self)@.items,
            },
            old(self)@.wf() ==> final(self)@.wf(),
    {
        match self.find_first(key) {
            Some(i) => {
                let ghost m = self@;
                proof {
                    lemma_first_equiv_props(m.ispec, m.items, key@);
                    lemma_views_remove(self.items@, i as int);
                    if m.wf() {
                        lemma_remove_keeps_wf(m.ispec, m.items, i as int);
                    }
                }
                self.items.remove(i);
                true
            },
            None => false,
        }
    }

    /// Replaces the key at one position, provided the new key is
    /// equivalent to the key standing there — the ride-along update the
    /// cursor's `update current key` call performs — and never touches
    /// the value.
    pub fn update_key_at(&mut self, i: usize, key: Key) -> (r: bool)
        ensures
            final(self)@.is_unique == old(self)@.is_unique,
            final(self)@.ispec == old(self)@.ispec,
            (if i < old(self)@.items.len() && key_equiv(
                old(self)@.ispec,
                key@,
                old(self)@.items[i as int].key,
            ) {
                r && final(self)@.items == old(self)@.items.update(
                    i as int,
                    EntryModel { key: key@, value: old(self)@.items[i as int].value },
                )
            } else {
                !r && final(self)@.items == old(self)@.items
            }),
            old(self)@.wf() ==> final(self)@.wf(),
    {
        if i < self.items.len() {
            let c = key_compare(&self.index_specification, &key, &self.items[i].key);
            if c == 0 {
                let ghost m = self@;
                let v2 = self.items[i].value.clone();
                let e = Entry { key, value: v2 };
                proof {
                    lemma_views_update(self.items@, i as int, e);
                    if m.wf() {
                        lemma_replace_equiv_key_keeps_wf(m.ispec, m.items, i as int, e@);
                    }
                }
                self.items.set(i, e);
                return true;
            }
        }
        false
    }

    /// The value of the first item with an equivalent key, if any.
    pub fn get_value(&self, key: &Key) -> (r: Option<String>)
        ensures
            match spec_first_equiv(self@.ispec, self@.items, key@) {
                Some(i) => r matches Some(v) && v@ == self@.items[i].value,
                None => r is None,
            },
    {
        match self.find_first(key) {
            Some(i) => {
                proof {
                    lemma_first_equiv_props(self@.ispec, self@.items, key@);
                }
                Some(self.items[i].value.clone())
            },
            None => None,
        }
    }
}

impl Entry {
    /// A deep copy whose spec-level image equals this one's.
    pub fn duplicate(&self) -> (r: Entry)
        ensures
            r@ == self@,
    {
        Entry { key: self.key.duplicate(), value: self.value.clone() }
    }
}

impl StoreData {
    /// A deep copy whose spec-level image equals this one's.
    pub fn duplicate(&self) -> (r: StoreData)
        ensures
            r@ == self@,
    {
        let spec_copy = match &self.index_specification {
            Some(s) => Some(s.duplicate()),
            None => None,
        };
        let n = self.items.len();
        let mut out: Vec<Entry> = Vec::new();
        let mut i: usize = 0;
        while i < n
            invariant
                i <= n,
                n == self.items@.len(),
                out@.len() == i,
                forall|j: int| 0 <= j < i ==> out@[j]@ == self.items@[j]@,
            decreases n - i,
        {
            out.push(self.items[i].duplicate());
            i = i + 1;
        }
        let r = StoreData {
            is_unique: self.is_unique,
            index_specification: spec_copy,
            items: out,
        };
        proof {
            assert(entry_views(r.items@) =~= entry_views(self.items@));
        }
        r
    }
}

/// The navigation cursor a B-tree handle owns: engine-side state read
/// by the `current` calls and moved by the navigation calls.
#[derive(Debug, Clone, Copy)]
pub enum Cursor {
    /// No position: the initial state, and the state after a failed
    /// `first`/`last` or an unmatched `find` past the end.
    Unpositioned,
    /// On the item at this position.
    Positioned(usize),
    /// Past either end after an exhausted `next` or `previous`.
    EndOfSequence,
}

/// Spec-level image of a [`Cursor`].
pub enum CursorModel {
    Unpositioned,
    Positioned(int),
    EndOfSequence,
}

impl View for Cursor {
    type V = CursorModel;

    open spec fn view(&self) -> CursorModel {
        match self {
            Cursor::Unpositioned => CursorModel::Unpositioned,
            Cursor::Positioned(i) => CursorModel::Positioned(*i as int),
            Cursor::EndOfSequence => CursorModel::EndOfSequence,
        }
    }
}

/// Where `first` moves the cursor, and what it reports.
pub open spec fn spec_cursor_first(m: StoreModel) -> (CursorModel, bool) {
    if m.items.len() > 0 {
        (CursorModel::Positioned(0), true)
    } else {
        (CursorModel::Unpositioned, false)
    }
}

/// Where `last` moves the cursor, and what it reports.
pub open spec fn spec_cursor_last(m: StoreModel) -> (CursorModel, bool) {
    if m.items.len() > 0 {
        (CursorModel::Positioned(m.items.len() - 1), true)
    } else {
        (CursorModel::Unpositioned, false)
    }
}

/// Where `next` moves the cursor, and what it reports: one position
/// forward while an item remains, the end of the sequence otherwise.
pub open spec fn spec_cursor_next(m: StoreModel, c: CursorModel) -> (CursorModel, bool) {
    match c {
        CursorModel::Positioned(i) => if 0 <= i && i + 1 < m.items.len() {
            (CursorModel::Positioned(i + 1), true)
        } else {
            (CursorModel::EndOfSequence, false)
        },
        CursorModel::Unpositioned => (CursorModel::Unpositioned, false),
        CursorModel::EndOfSequence => (CursorModel::EndOfSequence, false),
    }
}

/// Where `previous` moves the cursor, and what it reports.
pub open spec fn spec_cursor_previous(m: StoreModel, c: CursorModel) -> (CursorModel, bool) {
    match c {
        CursorModel::Positioned(i) => if 1 <= i && i - 1 < m.items.len() {
            (CursorModel::Positioned(i - 1), true)
        } else {
            (CursorModel::EndOfSequence, false)
        },
        CursorModel::Unpositioned => (CursorModel::Unpositioned, false),
        CursorModel::EndOfSequence => (CursorModel::EndOfSequence, false),
    }
}

/// Where `find` moves the cursor: to the first equivalent item when the
/// key is present, else to the nearest greater item, else off the end.
pub open spec fn spec_cursor_find(m: StoreModel, k: KeyModel) -> (CursorModel, bool) {
    match spec_first_equiv(m.ispec, m.items, k) {
        Some(i) => (CursorModel::Positioned(i), true),
        None => {
            let pos = spec_insert_pos(m.ispec, m.items, k);
            if pos < m.items.len() {
                (CursorModel::Positioned(pos), false)
            } else {
                (CursorModel::Unpositioned, false)
            }
        },
    }
}

/// Moves the cursor to the first item.
pub fn cursor_first(cur: &mut Cursor, store: &StoreData) -> (r: bool)
    ensures
        (final(cur)@, r) == spec_cursor_first(store@),
{
    if store.items.len() > 0 {
        *cur = Cursor::Positioned(0);
        true
    } else {
        *cur = Cursor::Unpositioned;
        false
    }
}

/// Moves the cursor to the last item.
pub fn cursor_last(cur: &mut Cursor, store: &StoreData) -> (r: bool)
    ensures
        (final(cur)@, r) == spec_cursor_last(store@),
{
    let n = store.items.len();
    if n > 0 {
        *cur = Cursor::Positioned(n - 1);
        true
    } else {
        *cur = Cursor::Unpositioned;
        false
    }
}

/// Moves the cursor one item forward.
pub fn cursor_next(cur: &mut Cursor, store: &StoreData) -> (r: bool)
    ensures
        (final(cur)@, r) == spec_cursor_next(store@, old(cur)@),
{
    let n = store.items.len();
    match cur {
        Cursor::Positioned(i) => {
            let i = *i;
            if n > 0 && i < n - 1 {
                *cur = Cursor::Positioned(i + 1);
                true
            } else {
                *cur = Cursor::EndOfSequence;
                false
            }
        },
        Cursor::Unpositioned => false,
        Cursor::EndOfSequence => false,
    }
}

/// Moves the cursor one item back.
pub fn cursor_previous(cur: &mut Cursor, store: &StoreData) -> (r: bool)
    ensures
        (final(cur)@, r) == spec_cursor_previous(store@, old(cur)@),
{
    let n = store.items.len();
    match cur {
        Cursor::Positioned(i) => {
            let i = *i;
            if i >= 1 && i - 1 < n {
                *cur = Cursor::Positioned(i - 1);
                true
            } else {
                *cur = Cursor::EndOfSequence;
                false
            }
        },
        Cursor::Unpositioned => false,
        Cursor::EndOfSequence => false,
    }
}

/// Repositions the cursor by key and reports whether an equivalent item
/// was found.
pub fn cursor_find(cur: &mut Cursor, store: &StoreData, key: &Key) -> (r: bool)
    ensures
        (final(cur)@, r) == spec_cursor_find(store@, key@),
{
    match store.find_first(key) {
        Some(i) => {
            *cur = Cursor::Positioned(i);
            true
        },
        None => {
            let pos = store.insert_pos(key);
            if pos < store.items.len() {
                *cur = Cursor::Positioned(pos);
            } else {
                *cur = Cursor::Unpositioned;
            }
            false
        },
    }
}

/// The item under the cursor, if the cursor stands on one.
pub fn cursor_current<'a>(cur: &Cursor, store: &'a StoreData) -> (r: Option<&'a Entry>)
    ensures
        match cur@ {
            CursorModel::Positioned(i) => if 0 <= i < store@.items.len() {
                r matches Some(e) && e@ == store@.items[i]
            } else {
                r is None
            },
            CursorModel::Unpositioned => r is None,
            CursorModel::EndOfSequence => r is None,
        },
{
    match cur {
        Cursor::Positioned(i) => {
            let i = *i;
            if i < store.items.len() {
                Some(&store.items[i])
            } else {
                None
            }
        },
        Cursor::Unpositioned => None,
        Cursor::EndOfSequence => None,
    }
}

/// The cursor after `first` followed by `k` calls of `next`.
pub open spec fn spec_walk(m: StoreModel, k: nat) -> (CursorModel, bool)
    decreases k,
{
    if k == 0 {
        spec_cursor_first(m)
    } else {
        spec_cursor_next(m, spec_walk(m, (k - 1) as nat).0)
    }
}

/// Cursor navigation is a total-order walk. On a store of N items,
/// `first` followed by the k-th `next` stands on the item at position k
/// and reports true while k < N; the N-th `next` reports false and ends
/// the walk; and each step ascends in the key order. So the walk visits
/// all N keys, each exactly once, in ascending index order.
pub proof fn lemma_cursor_walk(m: StoreModel, k: nat)
    requires
        m.wf(),
        m.items.len() > 0,
    ensures
        k < m.items.len() ==> spec_walk(m, k) == (CursorModel::Positioned(k as int), true),
        k >= m.items.len() ==> spec_walk(m, k) == (CursorModel::EndOfSequence, false),
        0 < k < m.items.len() ==> spec_key_cmp(m.ispec, m.items[k - 1].key, m.items[k as int].key)
            <= 0,
    decreases k,
{
    if k > 0 {
        lemma_cursor_walk(m, (k - 1) as nat);
    }
}

/// Mapping a view function commutes with push.
pub proof fn lemma_map_values_push<A, B>(s: Seq<A>, f: spec_fn(A) -> B, x: A)
    ensures
        (s.push(x)).map_values(f) =~= s.map_values(f).push(f(x)),
{
}

/// Mapping a view function commutes with update.
pub proof fn lemma_map_values_update<A, B>(s: Seq<A>, f: spec_fn(A) -> B, i: int, x: A)
    requires
        0 <= i < s.len(),
    ensures
        (s.update(i, x)).map_values(f) =~= s.map_values(f).update(i, f(x)),
{
}

/// Mapping entry views commutes with insertion.
pub proof fn lemma_views_insert(items: Seq<Entry>, i: int, e: Entry)
    requires
        0 <= i <= items.len(),
    ensures
        entry_views(items.insert(i, e)) =~= entry_views(items).insert(i, e@),
{
}

/// Mapping entry views commutes with update.
pub proof fn lemma_views_update(items: Seq<Entry>, i: int, e: Entry)
    requires
        0 <= i < items.len(),
    ensures
        entry_views(items.update(i, e)) =~= entry_views(items).update(i, e@),
{
}

/// Mapping entry views commutes with removal.
pub proof fn lemma_views_remove(items: Seq<Entry>, i: int)
    requires
        0 <= i < items.len(),
    ensures
        entry_views(items.remove(i)) =~= entry_views(items).remove(i),
{
}

} // verus!
