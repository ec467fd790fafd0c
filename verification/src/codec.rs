//! The typed payload codec: JSON over byte buffers.
//!
//! The boundary only carries byte buffers, so every operation's
//! arguments are serialized as JSON with stable field names independent
//! of any in-memory type name. The wire schema — the field names
//! written here — is the compatibility contract. Each encoder's
//! contract states its output exactly, as a spec-level function of the
//! value, so the encoding of a value is pinned down byte for byte.

use vstd::prelude::*;

use vstd::utf8::encode_utf8;

use crate::btree::BtreeMeta;
use crate::btree::Item;
use crate::btree::ItemBatch;
use crate::btree::ItemModel;
use crate::btree::PagingInfo;
use crate::keys::FieldValue;
use crate::keys::FieldValueModel;
use crate::keys::IndexFieldModel;
use crate::keys::IndexSpecification;
use crate::keys::Key;
use crate::keys::KeyFieldModel;
use crate::keys::KeyModel;

verus! {

/// One byte escaped for a JSON string: the quote and backslash get a
/// backslash, control bytes become `\u00XX`, and every other byte —
/// UTF-8 continuation bytes included — passes through.
pub open spec fn spec_escape_byte(b: u8) -> Seq<u8> {
    if b == 0x22 {
        seq![0x5cu8, 0x22u8]
    } else if b == 0x5c {
        seq![0x5cu8, 0x5cu8]
    } else if b < 0x20 {
        seq![0x5cu8, 0x75u8, 0x30u8, 0x30u8, spec_hex_byte((b / 16) as int), spec_hex_byte(
            (b % 16) as int,
        )]
    } else {
        seq![b]
    }
}

/// The lowercase hexadecimal digit byte for one value below sixteen.
pub open spec fn spec_hex_byte(d: int) -> u8 {
    if d < 10 {
        (0x30 + d) as u8
    } else {
        (0x61 + (d - 10)) as u8
    }
}

/// A byte sequence escaped for a JSON string.
pub open spec fn spec_escape(s: Seq<u8>) -> Seq<u8>
    decreases s.len(),
{
    if s.len() == 0 {
        Seq::empty()
    } else {
        spec_escape_byte(s[0]) + spec_escape(s.drop_first())
    }
}

/// A JSON string: a quote, the escaped bytes, a quote.
pub open spec fn spec_json_string(s: Seq<u8>) -> Seq<u8> {
    seq![0x22u8] + spec_escape(s) + seq![0x22u8]
}

/// The decimal digit bytes of a natural number, most significant first.
pub open spec fn spec_dec(n: nat) -> Seq<u8>
    decreases n,
{
    if n < 10 {
        seq![(0x30 + n) as u8]
    } else {
        spec_dec(n / 10) + seq![(0x30 + n % 10) as u8]
    }
}

/// A JSON number for a signed integer.
pub open spec fn spec_dec_i64(x: int) -> Seq<u8> {
    if x < 0 {
        seq![0x2du8] + spec_dec((-x) as nat)
    } else {
        spec_dec(x as nat)
    }
}

/// A JSON scalar for a field value: a number, or a string.
pub open spec fn spec_fv_json(v: FieldValueModel) -> Seq<u8> {
    match v {
        FieldValueModel::Int(x) => spec_dec_i64(x),
        FieldValueModel::Text(s) => spec_json_string(encode_utf8(s)),
    }
}

/// The members of a JSON object for a composite key's fields, comma
/// separated: `"name":value` for each field in key order.
pub open spec fn spec_fields_json(fs: Seq<KeyFieldModel>) -> Seq<u8>
    decreases fs.len(),
{
    if fs.len() == 0 {
        Seq::empty()
    } else {
        let one = spec_json_string(encode_utf8(fs[0].field_name)) + seq![0x3au8] + spec_fv_json(
            fs[0].value,
        );
        if fs.len() == 1 {
            one
        } else {
            one + seq![0x2cu8] + spec_fields_json(fs.drop_first())
        }
    }
}

/// A JSON value for a key: a scalar for a primitive key, an object of
/// its named fields for a composite key.
pub open spec fn spec_key_json(k: KeyModel) -> Seq<u8> {
    match k {
        KeyModel::Primitive(v) => spec_fv_json(v),
        KeyModel::Composite(fs) => seq![0x7bu8] + spec_fields_json(fs) + seq![0x7du8],
    }
}

/// A byte sequence for a string literal's UTF-8 bytes.
pub open spec fn lit(s: Seq<char>) -> Seq<u8> {
    encode_utf8(s)
}

/// A JSON object for one item: its key, its value when it carries one,
/// and its engine-assigned id when it carries one.
pub open spec fn spec_item_json(it: ItemModel) -> Seq<u8> {
    let key_part = lit("{\"key\":"@) + spec_key_json(it.key);
    let value_part = match it.value {
        Some(v) => lit(",\"value\":"@) + spec_json_string(encode_utf8(v)),
        None => Seq::empty(),
    };
    let id_part = match it.id {
        Some(v) => lit(",\"id\":"@) + spec_json_string(encode_utf8(v)),
        None => Seq::empty(),
    };
    key_part + value_part + id_part + seq![0x7du8]
}

/// The comma-separated item objects of a batch.
pub open spec fn spec_items_json(items: Seq<ItemModel>) -> Seq<u8>
    decreases items.len(),
{
    if items.len() == 0 {
        Seq::empty()
    } else if items.len() == 1 {
        spec_item_json(items[0])
    } else {
        spec_item_json(items[0]) + seq![0x2cu8] + spec_items_json(items.drop_first())
    }
}

/// The item-batch envelope: the items, and the paging window when one
/// is given.
pub open spec fn spec_batch_json(items: Seq<ItemModel>, paging: Option<PagingInfo>) -> Seq<u8> {
    let items_part = lit("{\"items\":["@) + spec_items_json(items) + seq![0x5du8];
    let paging_part = match paging {
        Some(p) => lit(",\"paging_info\":{\"page_size\":"@) + spec_dec_i64(p.page_size as int)
            + lit(",\"page_offset\":"@) + spec_dec_i64(p.page_offset as int) + seq![0x7du8],
        None => Seq::empty(),
    };
    items_part + paging_part + seq![0x7du8]
}

/// The metadata envelope naming a B-tree call's target.
pub open spec fn spec_meta_json(btree_id: Seq<char>, transaction_id: Seq<char>) -> Seq<u8> {
    lit("{\"btree_id\":"@) + spec_json_string(encode_utf8(btree_id)) + lit(
        ",\"transaction_id\":"@,
    ) + spec_json_string(encode_utf8(transaction_id)) + seq![0x7du8]
}

/// The index specification envelope: the ordered index fields, each
/// with its name and sort direction.
pub open spec fn spec_index_spec_json(fields: Seq<IndexFieldModel>) -> Seq<u8> {
    lit("{\"index_fields\":["@) + spec_index_fields_json(fields) + lit("]}"@)
}

/// The comma-separated index field objects.
pub open spec fn spec_index_fields_json(fields: Seq<IndexFieldModel>) -> Seq<u8>
    decreases fields.len(),
{
    if fields.len() == 0 {
        Seq::empty()
    } else {
        let one = lit("{\"field_name\":"@) + spec_json_string(encode_utf8(fields[0].field_name))
            + lit(",\"ascending_sort_order\":"@) + (if fields[0].ascending_sort_order {
            lit("true"@)
        } else {
            lit("false"@)
        }) + seq![0x7du8];
        if fields.len() == 1 {
            one
        } else {
            one + seq![0x2cu8] + spec_index_fields_json(fields.drop_first())
        }
    }
}

/// Appends the escaped form of every byte of `s`.
fn push_escaped(out: &mut Vec<u8>, s: &[u8])
    ensures
        final(out)@ == old(out)@ + spec_escape(s@),
{
    let n = s.len();
    let mut i: usize = 0;
    proof {
        assert(out@ + spec_escape(s@.take(0)) =~= out@);
        assert(spec_escape(s@.take(0)) =~= Seq::<u8>::empty());
    }
    while i < n
        invariant
            i <= n,
            n == s@.len(),
            out@ == old(out)@ + spec_escape(s@.take(i as int)),
        decreases n - i,
    {
        let b = s[i];
        let ghost pre = out@;
        if b == 0x22 {
            out.push(0x5c);
            out.push(0x22);
        } else if b == 0x5c {
            out.push(0x5c);
            out.push(0x5c);
        } else if b < 0x20 {
            out.push(0x5c);
            out.push(0x75);
            out.push(0x30);
            out.push(0x30);
            out.push(hex_byte(b / 16));
            out.push(hex_byte(b % 16));
        } else {
            out.push(b);
        }
        proof {
            assert(out@ =~= pre + spec_escape_byte(b));
            assert(s@.take(i + 1) =~= s@.take(i as int).push(b));
            lemma_escape_snoc(s@.take(i as int), b);
            assert(out@ =~= old(out)@ + spec_escape(s@.take(i + 1)));
        }
        i = i + 1;
    }
    proof {
        assert(s@.take(n as int) =~= s@);
    }
}

/// Escaping one more byte extends the escaped text.
proof fn lemma_escape_snoc(s: Seq<u8>, b: u8)
    ensures
        spec_escape(s.push(b)) == spec_escape(s) + spec_escape_byte(b),
    decreases s.len(),
{
    if s.len() == 0 {
        assert(s.push(b)[0] == b);
        assert(s.push(b).drop_first() =~= Seq::<u8>::empty());
        assert(spec_escape(Seq::<u8>::empty()) =~= Seq::<u8>::empty());
        assert(spec_escape(s.push(b)) =~= spec_escape_byte(b));
        assert(spec_escape(s) + spec_escape_byte(b) =~= spec_escape_byte(b));
    } else {
        assert(s.push(b)[0] == s[0]);
        assert(s.push(b).drop_first() =~= s.drop_first().push(b));
        lemma_escape_snoc(s.drop_first(), b);
        assert(spec_escape_byte(s[0]) + (spec_escape(s.drop_first()) + spec_escape_byte(b)) =~= (
        spec_escape_byte(s[0]) + spec_escape(s.drop_first())) + spec_escape_byte(b));
    }
}

/// The lowercase hexadecimal digit byte for one value below sixteen.
fn hex_byte(d: u8) -> (r: u8)
    requires
        d < 16,
    ensures
        r == spec_hex_byte(d as int),
{
    if d < 10 {
        0x30 + d
    } else {
        0x61 + (d - 10)
    }
}

/// Appends a JSON string for the given text.
fn push_json_string(out: &mut Vec<u8>, s: &str)
    ensures
        final(out)@ == old(out)@ + spec_json_string(encode_utf8(s@)),
{
    out.push(0x22);
    push_escaped(out, s.as_bytes());
    out.push(0x22);
    proof {
        assert(out@ =~= old(out)@ + spec_json_string(encode_utf8(s@)));
    }
}

/// Appends the decimal digits of `n`.
fn push_dec(out: &mut Vec<u8>, n: u64)
    ensures
        final(out)@ == old(out)@ + spec_dec(n as nat),
    decreases n,
{
    if n < 10 {
        out.push(0x30 + (n as u8));
        proof {
            assert(out@ =~= old(out)@ + spec_dec(n as nat));
        }
    } else {
        push_dec(out, n / 10);
        out.push(0x30 + ((n % 10) as u8));
        proof {
            assert((n / 10) as nat == n as nat / 10);
            assert((n % 10) as nat == n as nat % 10);
            assert(out@ =~= old(out)@ + spec_dec(n as nat));
        }
    }
}

/// Appends a JSON number for a signed integer.
fn push_dec_i64(out: &mut Vec<u8>, x: i64)
    ensures
        final(out)@ == old(out)@ + spec_dec_i64(x as int),
{
    if x < 0 {
        out.push(0x2d);
        let m: u64 = if x == i64::MIN {
            0x8000_0000_0000_0000u64
        } else {
            (-x) as u64
        };
        proof {
            assert(m as nat == (-(x as int)) as nat);
        }
        push_dec(out, m);
        proof {
            assert(out@ =~= old(out)@ + spec_dec_i64(x as int));
        }
    } else {
        push_dec(out, x as u64);
    }
}

/// Appends the UTF-8 bytes of a literal piece of the wire schema.
fn push_lit(out: &mut Vec<u8>, s: &str)
    ensures
        final(out)@ == old(out)@ + lit(s@),
{
    let bytes = s.as_bytes();
    let n = bytes.len();
    let mut i: usize = 0;
    proof {
        assert(out@ + bytes@.take(0) =~= out@);
    }
    while i < n
        invariant
            i <= n,
            n == bytes@.len(),
            bytes@ == encode_utf8(s@),
            out@ == old(out)@ + bytes@.take(i as int),
        decreases n - i,
    {
        out.push(bytes[i]);
        proof {
            assert(bytes@.take(i + 1) =~= bytes@.take(i as int).push(bytes@[i as int]));
            assert(out@ =~= old(out)@ + bytes@.take(i + 1));
        }
        i = i + 1;
    }
    proof {
        assert(bytes@.take(n as int) =~= bytes@);
    }
}

/// Encodes a field value as a JSON scalar.
fn push_fv(out: &mut Vec<u8>, v: &FieldValue)
    ensures
        final(out)@ == old(out)@ + spec_fv_json(v@),
{
    match v {
        FieldValue::Int(x) => push_dec_i64(out, *x),
        FieldValue::Text(s) => push_json_string(out, s.as_str()),
    }
}

/// Encodes a key as a JSON value.
pub fn encode_key(out: &mut Vec<u8>, key: &Key)
    ensures
        final(out)@ == old(out)@ + spec_key_json(key@),
{
    match key {
        Key::Primitive(v) => push_fv(out, v),
        Key::Composite(fs) => {
            out.push(0x7b);
            let ghost fviews = fs@.map_values(|f: crate::keys::KeyField| f@);
            let n = fs.len();
            let mut i: usize = 0;
            let ghost mid = out@;
            while i < n
                invariant
                    i <= n,
                    n == fs@.len(),
                    fviews == fs@.map_values(|f: crate::keys::KeyField| f@),
                    fviews.len() == n,
                    i == 0 ==> out@ == mid,
                    i > 0 ==> out@ == mid + spec_fields_json(fviews.take(i as int)),
                decreases n - i,
            {
                if i > 0 {
                    out.push(0x2c);
                }
                let ghost pre = out@;
                push_json_string(out, fs[i].field_name.as_str());
                out.push(0x3a);
                push_fv(out, &fs[i].value);
                proof {
                    let one = spec_json_string(encode_utf8(fviews[i as int].field_name)) + seq![
                        0x3au8,
                    ] + spec_fv_json(fviews[i as int].value);
                    assert(out@ =~= pre + one);
                    assert(fviews.take(i + 1) =~= fviews.take(i as int).push(fviews[i as int]));
                    lemma_fields_json_snoc(fviews.take(i as int), fviews[i as int]);
                    if i == 0 {
                        assert(out@ =~= mid + spec_fields_json(fviews.take(1)));
                    } else {
                        assert(out@ =~= mid + spec_fields_json(fviews.take(i + 1)));
                    }
                }
                i = i + 1;
            }
            out.push(0x7d);
            proof {
                assert(fviews.take(n as int) =~= fviews);
                if n == 0 {
                    assert(spec_fields_json(fviews) =~= Seq::<u8>::empty());
                }
                assert(out@ =~= old(out)@ + spec_key_json(key@));
            }
        },
    }
}

/// Encodes one item as a JSON object.
pub fn encode_item(out: &mut Vec<u8>, item: &Item)
    ensures
        final(out)@ == old(out)@ + spec_item_json(item@),
{
    push_lit(out, "{\"key\":");
    encode_key(out, &item.key);
    match &item.value {
        Some(v) => {
            push_lit(out, ",\"value\":");
            push_json_string(out, v.as_str());
        },
        None => {},
    }
    match &item.id {
        Some(v) => {
            push_lit(out, ",\"id\":");
            push_json_string(out, v.as_str());
        },
        None => {},
    }
    out.push(0x7d);
    proof {
        assert(out@ =~= old(out)@ + spec_item_json(item@));
    }
}

/// Writing one more item object extends the list.
proof fn lemma_items_json_snoc(items: Seq<ItemModel>, it: ItemModel)
    ensures
        spec_items_json(items.push(it)) == (if items.len() == 0 {
            spec_item_json(it)
        } else {
            spec_items_json(items) + seq![0x2cu8] + spec_item_json(it)
        }),
    decreases items.len(),
{
    if items.len() == 0 {
        assert(items.push(it) =~= seq![it]);
    } else {
        assert(items.push(it)[0] == items[0]);
        assert(items.push(it).drop_first() =~= items.drop_first().push(it));
        lemma_items_json_snoc(items.drop_first(), it);
        if items.len() == 1 {
            assert(items.drop_first().push(it) =~= seq![it]);
        } else {
            assert(spec_item_json(items[0]) + seq![0x2cu8] + (spec_items_json(items.drop_first())
                + seq![0x2cu8] + spec_item_json(it)) =~= (spec_item_json(items[0]) + seq![0x2cu8]
                + spec_items_json(items.drop_first())) + seq![0x2cu8] + spec_item_json(it));
        }
    }
}

/// Encodes an item-batch envelope: the uniform payload of every data
/// operation, single-item calls included.
pub fn encode_batch(batch: &ItemBatch) -> (r: Vec<u8>)
    ensures
        r@ == spec_batch_json(crate::btree::batch_views(*batch), batch.paging_info),
{
    let ghost views = crate::btree::batch_views(*batch);
    let mut out: Vec<u8> = Vec::new();
    push_lit(&mut out, "{\"items\":[");
    let ghost mid = out@;
    let n = batch.items.len();
    let mut i: usize = 0;
    while i < n
        invariant
            i <= n,
            n == batch.items@.len(),
            views == crate::btree::batch_views(*batch),
            views.len() == n,
            i == 0 ==> out@ == mid,
            i > 0 ==> out@ == mid + spec_items_json(views.take(i as int)),
        decreases n - i,
    {
        if i > 0 {
            out.push(0x2c);
        }
        let ghost pre = out@;
        encode_item(&mut out, &batch.items[i]);
        proof {
            assert(views.take(i + 1) =~= views.take(i as int).push(views[i as int]));
            lemma_items_json_snoc(views.take(i as int), views[i as int]);
            if i == 0 {
                assert(out@ =~= mid + spec_items_json(views.take(1)));
            } else {
                assert(out@ =~= mid + spec_items_json(views.take(i + 1)));
            }
        }
        i = i + 1;
    }
    out.push(0x5d);
    proof {
        assert(views.take(n as int) =~= views);
        if n == 0 {
            assert(spec_items_json(views) =~= Seq::<u8>::empty());
        }
    }
    match &batch.paging_info {
        Some(p) => {
            push_lit(&mut out, ",\"paging_info\":{\"page_size\":");
            push_dec_i64(&mut out, p.page_size as i64);
            push_lit(&mut out, ",\"page_offset\":");
            push_dec_i64(&mut out, p.page_offset as i64);
            out.push(0x7d);
        },
        None => {},
    }
    out.push(0x7d);
    proof {
        assert(out@ =~= spec_batch_json(views, batch.paging_info));
    }
    out
}

/// Encodes the metadata envelope naming a B-tree call's target.
pub fn encode_meta(meta: &BtreeMeta) -> (r: Vec<u8>)
    ensures
        r@ == spec_meta_json(meta.btree_id@, meta.transaction_id@),
{
    let mut out: Vec<u8> = Vec::new();
    push_lit(&mut out, "{\"btree_id\":");
    push_json_string(&mut out, meta.btree_id.as_str());
    push_lit(&mut out, ",\"transaction_id\":");
    push_json_string(&mut out, meta.transaction_id.as_str());
    out.push(0x7d);
    proof {
        assert(out@ =~= spec_meta_json(meta.btree_id@, meta.transaction_id@));
    }
    out
}

/// Writing one more index field object extends the list.
proof fn lemma_index_fields_json_snoc(fields: Seq<IndexFieldModel>, f: IndexFieldModel)
    ensures
        ({
            let one = lit("{\"field_name\":"@) + spec_json_string(encode_utf8(f.field_name)) + lit(
                ",\"ascending_sort_order\":"@,
            ) + (if f.ascending_sort_order {
                lit("true"@)
            } else {
                lit("false"@)
            }) + seq![0x7du8];
            spec_index_fields_json(fields.push(f)) == (if fields.len() == 0 {
                one
            } else {
                spec_index_fields_json(fields) + seq![0x2cu8] + one
            })
        }),
    decreases fields.len(),
{
    if fields.len() == 0 {
        assert(fields.push(f) =~= seq![f]);
        assert(seq![f].drop_first() =~= Seq::<IndexFieldModel>::empty());
    } else {
        assert(fields.push(f)[0] == fields[0]);
        assert(fields.push(f).drop_first() =~= fields.drop_first().push(f));
        lemma_index_fields_json_snoc(fields.drop_first(), f);
        let one0 = lit("{\"field_name\":"@) + spec_json_string(
            encode_utf8(fields[0].field_name),
        ) + lit(",\"ascending_sort_order\":"@) + (if fields[0].ascending_sort_order {
            lit("true"@)
        } else {
            lit("false"@)
        }) + seq![0x7du8];
        let onef = lit("{\"field_name\":"@) + spec_json_string(encode_utf8(f.field_name)) + lit(
            ",\"ascending_sort_order\":"@,
        ) + (if f.ascending_sort_order {
            lit("true"@)
        } else {
            lit("false"@)
        }) + seq![0x7du8];
        if fields.len() == 1 {
            assert(fields.drop_first().push(f) =~= seq![f]);
            assert(one0 + seq![0x2cu8] + onef =~= one0 + seq![0x2cu8] + onef);
        } else {
            assert(one0 + seq![0x2cu8] + (spec_index_fields_json(fields.drop_first()) + seq![
                0x2cu8,
            ] + onef) =~= (one0 + seq![0x2cu8] + spec_index_fields_json(fields.drop_first()))
                + seq![0x2cu8] + onef);
        }
    }
}

/// Encodes an index specification envelope: supplied once at store
/// creation time, it tells the engine which key fields are load-bearing
/// for ordering and equality.
pub fn encode_index_specification(spec: &IndexSpecification) -> (r: Vec<u8>)
    ensures
        r@ == spec_index_spec_json(spec@),
{
    let ghost views = spec@;
    let mut out: Vec<u8> = Vec::new();
    push_lit(&mut out, "{\"index_fields\":[");
    let ghost mid = out@;
    let n = spec.index_fields.len();
    let mut i: usize = 0;
    while i < n
        invariant
            i <= n,
            n == spec.index_fields@.len(),
            views == spec@,
            views.len() == n,
            i == 0 ==> out@ == mid,
            i > 0 ==> out@ == mid + spec_index_fields_json(views.take(i as int)),
        decreases n - i,
    {
        if i > 0 {
            out.push(0x2c);
        }
        let ghost pre = out@;
        push_lit(&mut out, "{\"field_name\":");
        push_json_string(&mut out, spec.index_fields[i].field_name.as_str());
        push_lit(&mut out, ",\"ascending_sort_order\":");
        if spec.index_fields[i].ascending_sort_order {
            push_lit(&mut out, "true");
        } else {
            push_lit(&mut out, "false");
        }
        out.push(0x7d);
        proof {
            let one = lit("{\"field_name\":"@) + spec_json_string(
                encode_utf8(views[i as int].field_name),
            ) + lit(",\"ascending_sort_order\":"@) + (if views[i as int].ascending_sort_order {
                lit("true"@)
            } else {
                lit("false"@)
            }) + seq![0x7du8];
            assert(out@ =~= pre + one);
            assert(views.take(i + 1) =~= views.take(i as int).push(views[i as int]));
            lemma_index_fields_json_snoc(views.take(i as int), views[i as int]);
            if i == 0 {
                assert(out@ =~= mid + spec_index_fields_json(views.take(1)));
            } else {
                assert(out@ =~= mid + spec_index_fields_json(views.take(i + 1)));
            }
        }
        i = i + 1;
    }
    push_lit(&mut out, "]}");
    proof {
        assert(views.take(n as int) =~= views);
        if n == 0 {
            assert(spec_index_fields_json(views) =~= Seq::<u8>::empty());
        }
        assert(out@ =~= spec_index_spec_json(views));
    }
    out
}

/// Writing one more field object extends the members.
proof fn lemma_fields_json_snoc(fs: Seq<KeyFieldModel>, f: KeyFieldModel)
    ensures
        spec_fields_json(fs.push(f)) == (if fs.len() == 0 {
            spec_fields_json(seq![f])
        } else {
            spec_fields_json(fs) + seq![0x2cu8] + (spec_json_string(encode_utf8(f.field_name))
                + seq![0x3au8] + spec_fv_json(f.value))
        }),
    decreases fs.len(),
{
    if fs.len() == 0 {
        assert(fs.push(f) =~= seq![f]);
    } else {
        assert(fs.push(f)[0] == fs[0]);
        assert(fs.push(f).drop_first() =~= fs.drop_first().push(f));
        lemma_fields_json_snoc(fs.drop_first(), f);
        let one0 = spec_json_string(encode_utf8(fs[0].field_name)) + seq![0x3au8] + spec_fv_json(
            fs[0].value,
        );
        let onef = spec_json_string(encode_utf8(f.field_name)) + seq![0x3au8] + spec_fv_json(
            f.value,
        );
        if fs.len() == 1 {
            assert(fs.drop_first().push(f) =~= seq![f]);
            assert(spec_fields_json(seq![f]) == onef);
            assert(one0 + seq![0x2cu8] + spec_fields_json(seq![f]) =~= (one0 + seq![0x2cu8])
                + onef);
            assert(spec_fields_json(fs) + seq![0x2cu8] + onef =~= one0 + seq![0x2cu8] + onef);
        } else {
            assert(one0 + seq![0x2cu8] + (spec_fields_json(fs.drop_first()) + seq![0x2cu8] + onef)
                =~= (one0 + seq![0x2cu8] + spec_fields_json(fs.drop_first())) + seq![0x2cu8]
                + onef);
        }
    }
}

} // verus!
