//! Keys, composite keys, and index specifications.
//!
//! A key is either a primitive scalar or a composite of named fields.
//! For composite keys, an index specification — an ordered list of field
//! names, each with a sort direction — declares which fields participate
//! in ordering and equality. Fields omitted from the specification are
//! ride-along metadata: stored with the key but ignored by comparisons.
//!
//! All comparisons bottom out in integer order and byte-wise
//! (UTF-8) lexicographic order on text, so the order used by the store
//! model is fully determined by the data. The proof functions here
//! establish that each comparison level is a total preorder: results lie
//! in `{-1, 0, 1}`, comparison is antisymmetric and transitive, and
//! equal inputs compare as zero.

use vstd::prelude::*;
use vstd::utf8::encode_utf8;

verus! {

/// A primitive scalar that can appear as a key or as a composite key's
/// field value: an integer or a piece of text.
#[derive(Debug, Clone)]
pub enum FieldValue {
    /// An integer scalar.
    Int(i64),
    /// A text scalar, ordered by its UTF-8 bytes.
    Text(String),
}

/// Spec-level image of a [`FieldValue`].
pub enum FieldValueModel {
    Int(int),
    Text(Seq<char>),
}

impl View for FieldValue {
    type V = FieldValueModel;

    open spec fn view(&self) -> FieldValueModel {
        match self {
            FieldValue::Int(x) => FieldValueModel::Int(*x as int),
            FieldValue::Text(s) => FieldValueModel::Text(s@),
        }
    }
}

/// One named field of a composite key.
#[derive(Debug, Clone)]
pub struct KeyField {
    /// The name of the field in the key object.
    pub field_name: String,
    /// The field's value.
    pub value: FieldValue,
}

/// Spec-level image of a [`KeyField`].
pub struct KeyFieldModel {
    pub field_name: Seq<char>,
    pub value: FieldValueModel,
}

impl View for KeyField {
    type V = KeyFieldModel;

    open spec fn view(&self) -> KeyFieldModel {
        KeyFieldModel { field_name: self.field_name@, value: self.value@ }
    }
}

/// A key: a primitive scalar, or a composite of named fields compared
/// under an index specification.
#[derive(Debug, Clone)]
pub enum Key {
    /// A primitive scalar key.
    Primitive(FieldValue),
    /// A structured key of named fields.
    Composite(Vec<KeyField>),
}

/// Spec-level image of a [`Key`].
pub enum KeyModel {
    Primitive(FieldValueModel),
    Composite(Seq<KeyFieldModel>),
}

impl View for Key {
    type V = KeyModel;

    open spec fn view(&self) -> KeyModel {
        match self {
            Key::Primitive(v) => KeyModel::Primitive(v@),
            Key::Composite(fs) => KeyModel::Composite(fs@.map_values(|f: KeyField| f@)),
        }
    }
}

/// Specifies a field to be included in a composite index.
#[derive(Debug, Clone)]
pub struct IndexFieldSpecification {
    /// The name of the field/property in the key object.
    pub field_name: String,
    /// If true, sorts in ascending order. False for descending.
    pub ascending_sort_order: bool,
}

/// Spec-level image of an [`IndexFieldSpecification`].
pub struct IndexFieldModel {
    pub field_name: Seq<char>,
    pub ascending_sort_order: bool,
}

impl View for IndexFieldSpecification {
    type V = IndexFieldModel;

    open spec fn view(&self) -> IndexFieldModel {
        IndexFieldModel {
            field_name: self.field_name@,
            ascending_sort_order: self.ascending_sort_order,
        }
    }
}

/// Defines the structure of a composite index for complex keys.
#[derive(Debug, Clone)]
pub struct IndexSpecification {
    /// List of fields that make up the index.
    pub index_fields: Vec<IndexFieldSpecification>,
}

impl View for IndexSpecification {
    type V = Seq<IndexFieldModel>;

    open spec fn view(&self) -> Seq<IndexFieldModel> {
        self.index_fields@.map_values(|f: IndexFieldSpecification| f@)
    }
}

/// Byte-wise lexicographic three-way comparison: `-1`, `0` or `1`.
pub open spec fn bytes_cmp(a: Seq<u8>, b: Seq<u8>) -> int
    decreases a.len(),
{
    if a.len() == 0 && b.len() == 0 {
        0
    } else if a.len() == 0 {
        -1
    } else if b.len() == 0 {
        1
    } else if a[0] < b[0] {
        -1
    } else if a[0] > b[0] {
        1
    } else {
        bytes_cmp(a.drop_first(), b.drop_first())
    }
}

/// Three-way comparison of primitive scalars. Integers order among
/// themselves, text orders by UTF-8 bytes, and every integer orders
/// before every text value.
pub open spec fn spec_fv_cmp(a: FieldValueModel, b: FieldValueModel) -> int {
    match (a, b) {
        (FieldValueModel::Int(x), FieldValueModel::Int(y)) => if x < y {
            -1int
        } else if x > y {
            1int
        } else {
            0int
        },
        (FieldValueModel::Int(_), FieldValueModel::Text(_)) => -1,
        (FieldValueModel::Text(_), FieldValueModel::Int(_)) => 1,
        (FieldValueModel::Text(x), FieldValueModel::Text(y)) => bytes_cmp(
            encode_utf8(x),
            encode_utf8(y),
        ),
    }
}

/// The value of the first field named `name`, if any.
pub open spec fn spec_lookup(fields: Seq<KeyFieldModel>, name: Seq<char>) -> Option<FieldValueModel>
    decreases fields.len(),
{
    if fields.len() == 0 {
        None
    } else if fields[0].field_name == name {
        Some(fields[0].value)
    } else {
        spec_lookup(fields.drop_first(), name)
    }
}

/// Three-way comparison of optional field values: a key lacking the
/// field orders before any key that has it.
pub open spec fn spec_opt_cmp(a: Option<FieldValueModel>, b: Option<FieldValueModel>) -> int {
    match (a, b) {
        (Option::None, Option::None) => 0,
        (Option::None, Option::Some(_)) => -1,
        (Option::Some(_), Option::None) => 1,
        (Option::Some(x), Option::Some(y)) => spec_fv_cmp(x, y),
    }
}

/// Three-way comparison of one index field between two composite keys,
/// honouring the field's sort direction.
pub open spec fn spec_field_cmp(
    f: IndexFieldModel,
    a: Seq<KeyFieldModel>,
    b: Seq<KeyFieldModel>,
) -> int {
    let c = spec_opt_cmp(spec_lookup(a, f.field_name), spec_lookup(b, f.field_name));
    if f.ascending_sort_order {
        c
    } else {
        -c
    }
}

/// Three-way comparison of two composite keys under an index
/// specification: the first index field on which they differ decides;
/// keys agreeing on every index field compare as equal, whatever their
/// ride-along fields hold.
pub open spec fn spec_indexed_cmp(
    ispec: Seq<IndexFieldModel>,
    a: Seq<KeyFieldModel>,
    b: Seq<KeyFieldModel>,
) -> int
    decreases ispec.len(),
{
    if ispec.len() == 0 {
        0
    } else {
        let c = spec_field_cmp(ispec[0], a, b);
        if c != 0 {
            c
        } else {
            spec_indexed_cmp(ispec.drop_first(), a, b)
        }
    }
}

/// Three-way positional comparison of two composite keys without an
/// index specification: field names then values, in key order, with a
/// shorter key ordering before any extension of it.
pub open spec fn spec_fields_cmp(a: Seq<KeyFieldModel>, b: Seq<KeyFieldModel>) -> int
    decreases a.len(),
{
    if a.len() == 0 && b.len() == 0 {
        0
    } else if a.len() == 0 {
        -1
    } else if b.len() == 0 {
        1
    } else {
        let c = bytes_cmp(encode_utf8(a[0].field_name), encode_utf8(b[0].field_name));
        if c != 0 {
            c
        } else {
            let c2 = spec_fv_cmp(a[0].value, b[0].value);
            if c2 != 0 {
                c2
            } else {
                spec_fields_cmp(a.drop_first(), b.drop_first())
            }
        }
    }
}

/// Three-way comparison of two keys under an optional index
/// specification. Primitive keys order before composite keys; composite
/// keys use the index specification when one is present and positional
/// comparison otherwise.
pub open spec fn spec_key_cmp(ispec: Option<Seq<IndexFieldModel>>, a: KeyModel, b: KeyModel) -> int {
    match (a, b) {
        (KeyModel::Primitive(x), KeyModel::Primitive(y)) => spec_fv_cmp(x, y),
        (KeyModel::Primitive(_), KeyModel::Composite(_)) => -1,
        (KeyModel::Composite(_), KeyModel::Primitive(_)) => 1,
        (KeyModel::Composite(x), KeyModel::Composite(y)) => match ispec {
            Option::Some(s) => spec_indexed_cmp(s, x, y),
            Option::None => spec_fields_cmp(x, y),
        },
    }
}

/// Two keys are equivalent under an index specification when they
/// compare as equal: for composite keys, when every index field agrees.
pub open spec fn key_equiv(ispec: Option<Seq<IndexFieldModel>>, a: KeyModel, b: KeyModel) -> bool {
    spec_key_cmp(ispec, a, b) == 0
}

/// Byte comparison is a total order: results lie in `{-1, 0, 1}`, it is
/// antisymmetric, and it compares as zero exactly on equal sequences.
pub proof fn lemma_bytes_cmp_basics(a: Seq<u8>, b: Seq<u8>)
    ensures
        -1 <= bytes_cmp(a, b) <= 1,
        bytes_cmp(a, b) == -bytes_cmp(b, a),
        bytes_cmp(a, b) == 0 <==> a == b,
    decreases a.len(),
{
    if a.len() != 0 && b.len() != 0 && a[0] == b[0] {
        lemma_bytes_cmp_basics(a.drop_first(), b.drop_first());
        if bytes_cmp(a, b) == 0 {
            assert(a.drop_first() == b.drop_first());
            assert forall|i: int| 0 <= i < a.len() implies a[i] == b[i] by {
                if i > 0 {
                    assert(a[i] == a.drop_first()[i - 1]);
                    assert(b[i] == b.drop_first()[i - 1]);
                }
            }
            assert(a =~= b);
        }
        if a == b {
            assert(a.drop_first() =~= b.drop_first());
        }
    } else if a.len() == 0 && b.len() == 0 {
        assert(a =~= b);
    }
}

/// Byte comparison is transitive, both in its strict and its weak form.
pub proof fn lemma_bytes_cmp_trans(a: Seq<u8>, b: Seq<u8>, c: Seq<u8>)
    ensures
        bytes_cmp(a, b) <= 0 && bytes_cmp(b, c) <= 0 ==> bytes_cmp(a, c) <= 0,
        bytes_cmp(a, b) <= 0 && bytes_cmp(b, c) < 0 ==> bytes_cmp(a, c) < 0,
        bytes_cmp(a, b) < 0 && bytes_cmp(b, c) <= 0 ==> bytes_cmp(a, c) < 0,
    decreases a.len() + b.len() + c.len(),
{
    lemma_bytes_cmp_basics(a, b);
    lemma_bytes_cmp_basics(b, c);
    lemma_bytes_cmp_basics(a, c);
    if a.len() != 0 && b.len() != 0 && c.len() != 0 {
        lemma_bytes_cmp_trans(a.drop_first(), b.drop_first(), c.drop_first());
    }
}

/// Scalar comparison is a total preorder, and equal scalars compare as
/// zero.
pub proof fn lemma_fv_cmp_basics(a: FieldValueModel, b: FieldValueModel)
    ensures
        -1 <= spec_fv_cmp(a, b) <= 1,
        spec_fv_cmp(a, b) == -spec_fv_cmp(b, a),
        a == b ==> spec_fv_cmp(a, b) == 0,
{
    match (a, b) {
        (FieldValueModel::Text(x), FieldValueModel::Text(y)) => {
            lemma_bytes_cmp_basics(encode_utf8(x), encode_utf8(y));
        },
        _ => {},
    }
}

/// Scalar comparison is transitive.
pub proof fn lemma_fv_cmp_trans(a: FieldValueModel, b: FieldValueModel, c: FieldValueModel)
    ensures
        spec_fv_cmp(a, b) <= 0 && spec_fv_cmp(b, c) <= 0 ==> spec_fv_cmp(a, c) <= 0,
        spec_fv_cmp(a, b) <= 0 && spec_fv_cmp(b, c) < 0 ==> spec_fv_cmp(a, c) < 0,
        spec_fv_cmp(a, b) < 0 && spec_fv_cmp(b, c) <= 0 ==> spec_fv_cmp(a, c) < 0,
{
    match (a, b, c) {
        (FieldValueModel::Text(x), FieldValueModel::Text(y), FieldValueModel::Text(z)) => {
            lemma_bytes_cmp_trans(encode_utf8(x), encode_utf8(y), encode_utf8(z));
        },
        _ => {},
    }
}

/// Optional-scalar comparison is a total preorder, and equal operands
/// compare as zero.
pub proof fn lemma_opt_cmp_basics(a: Option<FieldValueModel>, b: Option<FieldValueModel>)
    ensures
        -1 <= spec_opt_cmp(a, b) <= 1,
        spec_opt_cmp(a, b) == -spec_opt_cmp(b, a),
        a == b ==> spec_opt_cmp(a, b) == 0,
{
    match (a, b) {
        (Option::Some(x), Option::Some(y)) => lemma_fv_cmp_basics(x, y),
        _ => {},
    }
}

/// Optional-scalar comparison is transitive.
pub proof fn lemma_opt_cmp_trans(
    a: Option<FieldValueModel>,
    b: Option<FieldValueModel>,
    c: Option<FieldValueModel>,
)
    ensures
        spec_opt_cmp(a, b) <= 0 && spec_opt_cmp(b, c) <= 0 ==> spec_opt_cmp(a, c) <= 0,
        spec_opt_cmp(a, b) <= 0 && spec_opt_cmp(b, c) < 0 ==> spec_opt_cmp(a, c) < 0,
        spec_opt_cmp(a, b) < 0 && spec_opt_cmp(b, c) <= 0 ==> spec_opt_cmp(a, c) < 0,
{
    match (a, b, c) {
        (Option::Some(x), Option::Some(y), Option::Some(z)) => lemma_fv_cmp_trans(x, y, z),
        _ => {},
    }
}

/// Per-index-field comparison keeps the preorder properties whatever the
/// field's sort direction.
pub proof fn lemma_field_cmp_basics(f: IndexFieldModel, a: Seq<KeyFieldModel>, b: Seq<KeyFieldModel>)
    ensures
        -1 <= spec_field_cmp(f, a, b) <= 1,
        spec_field_cmp(f, a, b) == -spec_field_cmp(f, b, a),
        a == b ==> spec_field_cmp(f, a, b) == 0,
{
    lemma_opt_cmp_basics(spec_lookup(a, f.field_name), spec_lookup(b, f.field_name));
}

/// Per-index-field comparison is transitive whatever the field's sort
/// direction.
pub proof fn lemma_field_cmp_trans(
    f: IndexFieldModel,
    a: Seq<KeyFieldModel>,
    b: Seq<KeyFieldModel>,
    c: Seq<KeyFieldModel>,
)
    ensures
        spec_field_cmp(f, a, b) <= 0 && spec_field_cmp(f, b, c) <= 0 ==> spec_field_cmp(f, a, c)
            <= 0,
        spec_field_cmp(f, a, b) <= 0 && spec_field_cmp(f, b, c) < 0 ==> spec_field_cmp(f, a, c)
            < 0,
        spec_field_cmp(f, a, b) < 0 && spec_field_cmp(f, b, c) <= 0 ==> spec_field_cmp(f, a, c)
            < 0,
{
    let av = spec_lookup(a, f.field_name);
    let bv = spec_lookup(b, f.field_name);
    let cv = spec_lookup(c, f.field_name);
    lemma_opt_cmp_trans(av, bv, cv);
    lemma_opt_cmp_trans(cv, bv, av);
    lemma_opt_cmp_basics(av, bv);
    lemma_opt_cmp_basics(bv, cv);
    lemma_opt_cmp_basics(av, cv);
}

/// Indexed comparison of composite keys is a total preorder, and equal
/// field lists compare as zero.
pub proof fn lemma_indexed_cmp_basics(
    ispec: Seq<IndexFieldModel>,
    a: Seq<KeyFieldModel>,
    b: Seq<KeyFieldModel>,
)
    ensures
        -1 <= spec_indexed_cmp(ispec, a, b) <= 1,
        spec_indexed_cmp(ispec, a, b) == -spec_indexed_cmp(ispec, b, a),
        a == b ==> spec_indexed_cmp(ispec, a, b) == 0,
    decreases ispec.len(),
{
    if ispec.len() != 0 {
        lemma_field_cmp_basics(ispec[0], a, b);
        lemma_indexed_cmp_basics(ispec.drop_first(), a, b);
    }
}

/// Indexed comparison of composite keys is transitive.
pub proof fn lemma_indexed_cmp_trans(
    ispec: Seq<IndexFieldModel>,
    a: Seq<KeyFieldModel>,
    b: Seq<KeyFieldModel>,
    c: Seq<KeyFieldModel>,
)
    ensures
        spec_indexed_cmp(ispec, a, b) <= 0 && spec_indexed_cmp(ispec, b, c) <= 0
            ==> spec_indexed_cmp(ispec, a, c) <= 0,
        spec_indexed_cmp(ispec, a, b) <= 0 && spec_indexed_cmp(ispec, b, c) < 0
            ==> spec_indexed_cmp(ispec, a, c) < 0,
        spec_indexed_cmp(ispec, a, b) < 0 && spec_indexed_cmp(ispec, b, c) <= 0
            ==> spec_indexed_cmp(ispec, a, c) < 0,
    decreases ispec.len(),
{
    if ispec.len() != 0 {
        lemma_field_cmp_basics(ispec[0], a, b);
        lemma_field_cmp_basics(ispec[0], b, c);
        lemma_field_cmp_basics(ispec[0], a, c);
        lemma_field_cmp_trans(ispec[0], a, b, c);
        lemma_indexed_cmp_trans(ispec.drop_first(), a, b, c);
    }
}

/// Positional comparison of composite keys is a total preorder, and
/// equal field lists compare as zero.
pub proof fn lemma_fields_cmp_basics(a: Seq<KeyFieldModel>, b: Seq<KeyFieldModel>)
    ensures
        -1 <= spec_fields_cmp(a, b) <= 1,
        spec_fields_cmp(a, b) == -spec_fields_cmp(b, a),
        a == b ==> spec_fields_cmp(a, b) == 0,
    decreases a.len(),
{
    if a.len() != 0 && b.len() != 0 {
        lemma_bytes_cmp_basics(encode_utf8(a[0].field_name), encode_utf8(b[0].field_name));
        lemma_fv_cmp_basics(a[0].value, b[0].value);
        lemma_fields_cmp_basics(a.drop_first(), b.drop_first());
        if a == b {
            assert(a.drop_first() =~= b.drop_first());
        }
    }
}

/// Positional comparison of composite keys is transitive.
pub proof fn lemma_fields_cmp_trans(
    a: Seq<KeyFieldModel>,
    b: Seq<KeyFieldModel>,
    c: Seq<KeyFieldModel>,
)
    ensures
        spec_fields_cmp(a, b) <= 0 && spec_fields_cmp(b, c) <= 0 ==> spec_fields_cmp(a, c) <= 0,
        spec_fields_cmp(a, b) <= 0 && spec_fields_cmp(b, c) < 0 ==> spec_fields_cmp(a, c) < 0,
        spec_fields_cmp(a, b) < 0 && spec_fields_cmp(b, c) <= 0 ==> spec_fields_cmp(a, c) < 0,
    decreases a.len() + b.len() + c.len(),
{
    lemma_fields_cmp_basics(a, b);
    lemma_fields_cmp_basics(b, c);
    lemma_fields_cmp_basics(a, c);
    if a.len() != 0 && b.len() != 0 && c.len() != 0 {
        lemma_bytes_cmp_basics(encode_utf8(a[0].field_name), encode_utf8(b[0].field_name));
        lemma_bytes_cmp_basics(encode_utf8(b[0].field_name), encode_utf8(c[0].field_name));
        lemma_bytes_cmp_basics(encode_utf8(a[0].field_name), encode_utf8(c[0].field_name));
        lemma_bytes_cmp_trans(
            encode_utf8(a[0].field_name),
            encode_utf8(b[0].field_name),
            encode_utf8(c[0].field_name),
        );
        lemma_bytes_cmp_trans(
            encode_utf8(c[0].field_name),
            encode_utf8(b[0].field_name),
            encode_utf8(a[0].field_name),
        );
        lemma_fv_cmp_basics(a[0].value, b[0].value);
        lemma_fv_cmp_basics(b[0].value, c[0].value);
        lemma_fv_cmp_basics(a[0].value, c[0].value);
        lemma_fv_cmp_trans(a[0].value, b[0].value, c[0].value);
        lemma_fv_cmp_trans(c[0].value, b[0].value, a[0].value);
        lemma_fields_cmp_trans(a.drop_first(), b.drop_first(), c.drop_first());
    }
}

/// Key comparison is a total preorder: results lie in `{-1, 0, 1}`, it
/// is antisymmetric, and equal keys compare as zero.
pub proof fn lemma_key_cmp_basics(ispec: Option<Seq<IndexFieldModel>>, a: KeyModel, b: KeyModel)
    ensures
        -1 <= spec_key_cmp(ispec, a, b) <= 1,
        spec_key_cmp(ispec, a, b) == -spec_key_cmp(ispec, b, a),
        a == b ==> spec_key_cmp(ispec, a, b) == 0,
{
    match (a, b) {
        (KeyModel::Primitive(x), KeyModel::Primitive(y)) => lemma_fv_cmp_basics(x, y),
        (KeyModel::Composite(x), KeyModel::Composite(y)) => match ispec {
            Option::Some(s) => lemma_indexed_cmp_basics(s, x, y),
            Option::None => lemma_fields_cmp_basics(x, y),
        },
        _ => {},
    }
}

/// Key comparison is transitive, so key equivalence is an equivalence
/// relation and the strict order is irreflexive and transitive.
pub proof fn lemma_key_cmp_trans(
    ispec: Option<Seq<IndexFieldModel>>,
    a: KeyModel,
    b: KeyModel,
    c: KeyModel,
)
    ensures
        spec_key_cmp(ispec, a, b) <= 0 && spec_key_cmp(ispec, b, c) <= 0 ==> spec_key_cmp(
            ispec,
            a,
            c,
        ) <= 0,
        spec_key_cmp(ispec, a, b) <= 0 && spec_key_cmp(ispec, b, c) < 0 ==> spec_key_cmp(
            ispec,
            a,
            c,
        ) < 0,
        spec_key_cmp(ispec, a, b) < 0 && spec_key_cmp(ispec, b, c) <= 0 ==> spec_key_cmp(
            ispec,
            a,
            c,
        ) < 0,
{
    match (a, b, c) {
        (KeyModel::Primitive(x), KeyModel::Primitive(y), KeyModel::Primitive(z)) => {
            lemma_fv_cmp_trans(x, y, z);
        },
        (KeyModel::Composite(x), KeyModel::Composite(y), KeyModel::Composite(z)) => match ispec {
            Option::Some(s) => lemma_indexed_cmp_trans(s, x, y, z),
            Option::None => lemma_fields_cmp_trans(x, y, z),
        },
        _ => {},
    }
}

impl FieldValue {
    /// A deep copy whose spec-level image equals this one's.
    pub fn duplicate(&self) -> (r: FieldValue)
        ensures
            r@ == self@,
    {
        match self {
            FieldValue::Int(x) => FieldValue::Int(*x),
            FieldValue::Text(s) => FieldValue::Text(s.clone()),
        }
    }
}

impl KeyField {
    /// A deep copy whose spec-level image equals this one's.
    pub fn duplicate(&self) -> (r: KeyField)
        ensures
            r@ == self@,
    {
        KeyField { field_name: self.field_name.clone(), value: self.value.duplicate() }
    }
}

impl Key {
    /// A deep copy whose spec-level image equals this one's.
    pub fn duplicate(&self) -> (r: Key)
        ensures
            r@ == self@,
    {
        match self {
            Key::Primitive(v) => Key::Primitive(v.duplicate()),
            Key::Composite(fs) => {
                let n = fs.len();
                let mut out: Vec<KeyField> = Vec::new();
                let mut i: usize = 0;
                while i < n
                    invariant
                        i <= n,
                        n == fs@.len(),
                        out@.len() == i,
                        forall|j: int| 0 <= j < i ==> out@[j]@ == fs@[j]@,
                    decreases n - i,
                {
                    out.push(fs[i].duplicate());
                    i = i + 1;
                }
                proof {
                    assert(out@.map_values(|f: KeyField| f@) =~= fs@.map_values(
                        |f: KeyField| f@,
                    ));
                }
                Key::Composite(out)
            },
        }
    }
}

impl IndexSpecification {
    /// A deep copy whose spec-level image equals this one's.
    pub fn duplicate(&self) -> (r: IndexSpecification)
        ensures
            r@ == self@,
    {
        let n = self.index_fields.len();
        let mut out: Vec<IndexFieldSpecification> = Vec::new();
        let mut i: usize = 0;
        while i < n
            invariant
                i <= n,
                n == self.index_fields@.len(),
                out@.len() == i,
                forall|j: int| 0 <= j < i ==> out@[j]@ == self.index_fields@[j]@,
            decreases n - i,
        {
            out.push(
                IndexFieldSpecification {
                    field_name: self.index_fields[i].field_name.clone(),
                    ascending_sort_order: self.index_fields[i].ascending_sort_order,
                },
            );
            i = i + 1;
        }
        let r = IndexSpecification { index_fields: out };
        proof {
            assert(r@ =~= self@);
        }
        r
    }
}

/// Byte-wise lexicographic comparison of two byte slices.
pub fn cmp_bytes(a: &[u8], b: &[u8]) -> (r: i8)
    ensures
        r as int == bytes_cmp(a@, b@),
{
    let alen = a.len();
    let blen = b.len();
    let mut i: usize = 0;
    proof {
        assert(a@.skip(0) =~= a@);
        assert(b@.skip(0) =~= b@);
    }
    while i < alen && i < blen
        invariant
            i <= alen,
            i <= blen,
            alen == a@.len(),
            blen == b@.len(),
            bytes_cmp(a@, b@) == bytes_cmp(a@.skip(i as int), b@.skip(i as int)),
        decreases alen - i,
    {
        if a[i] < b[i] {
            return -1;
        }
        if a[i] > b[i] {
            return 1;
        }
        proof {
            assert(a@.skip(i as int).drop_first() =~= a@.skip(i + 1));
            assert(b@.skip(i as int).drop_first() =~= b@.skip(i + 1));
        }
        i = i + 1;
    }
    proof {
        assert(a@.skip(i as int).len() == alen - i);
        assert(b@.skip(i as int).len() == blen - i);
    }
    if alen == blen {
        0
    } else if alen < blen {
        -1
    } else {
        1
    }
}

/// Three-way comparison of two primitive scalars.
pub fn cmp_field_values(a: &FieldValue, b: &FieldValue) -> (r: i8)
    ensures
        r as int == spec_fv_cmp(a@, b@),
{
    match (a, b) {
        (FieldValue::Int(x), FieldValue::Int(y)) => {
            if x < y {
                -1
            } else if x > y {
                1
            } else {
                0
            }
        },
        (FieldValue::Int(_), FieldValue::Text(_)) => -1,
        (FieldValue::Text(_), FieldValue::Int(_)) => 1,
        (FieldValue::Text(x), FieldValue::Text(y)) => cmp_bytes(
            x.as_str().as_bytes(),
            y.as_str().as_bytes(),
        ),
    }
}

/// Spec-level image of a list of key fields.
pub open spec fn fields_view(fields: Seq<KeyField>) -> Seq<KeyFieldModel> {
    fields.map_values(|f: KeyField| f@)
}

/// Finds the first field with the given name, as [`spec_lookup`] does.
pub fn lookup_field<'a>(fields: &'a Vec<KeyField>, name: &String) -> (r: Option<&'a FieldValue>)
    ensures
        match r {
            Some(v) => spec_lookup(fields_view(fields@), name@) == Some(v@),
            None => spec_lookup(fields_view(fields@), name@) is None,
        },
{
    let ghost fv = fields_view(fields@);
    let n = fields.len();
    let mut i: usize = 0;
    proof {
        assert(fv.skip(0) =~= fv);
    }
    while i < n
        invariant
            i <= n,
            n == fields@.len(),
            fv == fields_view(fields@),
            fv.len() == n,
            spec_lookup(fv, name@) == spec_lookup(fv.skip(i as int), name@),
        decreases n - i,
    {
        if fields[i].field_name == *name {
            proof {
                assert(fv.skip(i as int)[0] == fv[i as int]);
            }
            return Some(&fields[i].value);
        }
        proof {
            assert(fv.skip(i as int)[0] == fv[i as int]);
            assert(fv.skip(i as int).drop_first() =~= fv.skip(i + 1));
        }
        i = i + 1;
    }
    None
}

/// Spec-level image of an optional index specification.
pub open spec fn ispec_view(o: Option<IndexSpecification>) -> Option<Seq<IndexFieldModel>> {
    match o {
        Some(s) => Some(s@),
        None => None,
    }
}

/// Three-way comparison of one index field between two composite keys.
fn cmp_one_field(f: &IndexFieldSpecification, a: &Vec<KeyField>, b: &Vec<KeyField>) -> (r: i8)
    ensures
        r as int == spec_field_cmp(f@, fields_view(a@), fields_view(b@)),
{
    let va = lookup_field(a, &f.field_name);
    let vb = lookup_field(b, &f.field_name);
    proof {
        lemma_opt_cmp_basics(
            spec_lookup(fields_view(a@), f.field_name@),
            spec_lookup(fields_view(b@), f.field_name@),
        );
    }
    let (x, y) = if f.ascending_sort_order {
        (va, vb)
    } else {
        (vb, va)
    };
    match (x, y) {
        (Some(xv), Some(yv)) => cmp_field_values(xv, yv),
        (Some(_), None) => 1,
        (None, Some(_)) => -1,
        (None, None) => 0,
    }
}

/// Three-way comparison of two composite keys under an index
/// specification.
fn cmp_indexed(ispec: &Vec<IndexFieldSpecification>, a: &Vec<KeyField>, b: &Vec<KeyField>) -> (r:
    i8)
    ensures
        r as int == spec_indexed_cmp(
            ispec@.map_values(|f: IndexFieldSpecification| f@),
            fields_view(a@),
            fields_view(b@),
        ),
{
    let ghost sv = ispec@.map_values(|f: IndexFieldSpecification| f@);
    let ghost av = fields_view(a@);
    let ghost bv = fields_view(b@);
    let n = ispec.len();
    let mut i: usize = 0;
    proof {
        assert(sv.skip(0) =~= sv);
    }
    while i < n
        invariant
            i <= n,
            n == ispec@.len(),
            sv == ispec@.map_values(|f: IndexFieldSpecification| f@),
            av == fields_view(a@),
            bv == fields_view(b@),
            sv.len() == n,
            spec_indexed_cmp(sv, av, bv) == spec_indexed_cmp(sv.skip(i as int), av, bv),
        decreases n - i,
    {
        let c = cmp_one_field(&ispec[i], a, b);
        proof {
            assert(sv.skip(i as int)[0] == sv[i as int]);
        }
        if c != 0 {
            return c;
        }
        proof {
            assert(sv.skip(i as int).drop_first() =~= sv.skip(i + 1));
        }
        i = i + 1;
    }
    0
}

/// Three-way positional comparison of two composite keys.
fn cmp_positional(a: &Vec<KeyField>, b: &Vec<KeyField>) -> (r: i8)
    ensures
        r as int == spec_fields_cmp(fields_view(a@), fields_view(b@)),
{
    let ghost av = fields_view(a@);
    let ghost bv = fields_view(b@);
    let alen = a.len();
    let blen = b.len();
    let mut i: usize = 0;
    proof {
        assert(av.skip(0) =~= av);
        assert(bv.skip(0) =~= bv);
    }
    while i < alen && i < blen
        invariant
            i <= alen,
            i <= blen,
            alen == a@.len(),
            blen == b@.len(),
            av == fields_view(a@),
            bv == fields_view(b@),
            spec_fields_cmp(av, bv) == spec_fields_cmp(av.skip(i as int), bv.skip(i as int)),
        decreases alen - i,
    {
        proof {
            assert(av.skip(i as int)[0] == av[i as int]);
            assert(bv.skip(i as int)[0] == bv[i as int]);
        }
        let c = cmp_bytes(a[i].field_name.as_str().as_bytes(), b[i].field_name.as_str().as_bytes());
        if c != 0 {
            return c;
        }
        let c2 = cmp_field_values(&a[i].value, &b[i].value);
        if c2 != 0 {
            return c2;
        }
        proof {
            assert(av.skip(i as int).drop_first() =~= av.skip(i + 1));
            assert(bv.skip(i as int).drop_first() =~= bv.skip(i + 1));
        }
        i = i + 1;
    }
    proof {
        assert(av.skip(i as int).len() == alen - i);
        assert(bv.skip(i as int).len() == blen - i);
    }
    if alen == blen {
        0
    } else if alen < blen {
        -1
    } else {
        1
    }
}

/// Three-way comparison of two keys under an optional index
/// specification: the one executable entry point the store model orders
/// by, exactly matching [`spec_key_cmp`].
pub fn key_compare(ispec: &Option<IndexSpecification>, a: &Key, b: &Key) -> (r: i8)
    ensures
        r as int == spec_key_cmp(ispec_view(*ispec), a@, b@),
{
    match (a, b) {
        (Key::Primitive(x), Key::Primitive(y)) => cmp_field_values(x, y),
        (Key::Primitive(_), Key::Composite(_)) => -1,
        (Key::Composite(_), Key::Primitive(_)) => 1,
        (Key::Composite(x), Key::Composite(y)) => {
            match ispec {
                Some(s) => cmp_indexed(&s.index_fields, x, y),
                None => cmp_positional(x, y),
            }
        },
    }
}

/// Equivalent keys compare alike against every other key, so the store
/// order cannot tell them apart.
pub proof fn lemma_equiv_keys_compare_alike(
    ispec: Option<Seq<IndexFieldModel>>,
    a: KeyModel,
    b: KeyModel,
    x: KeyModel,
)
    requires
        spec_key_cmp(ispec, a, b) == 0,
    ensures
        spec_key_cmp(ispec, a, x) == spec_key_cmp(ispec, b, x),
        spec_key_cmp(ispec, x, a) == spec_key_cmp(ispec, x, b),
{
    lemma_key_cmp_basics(ispec, a, b);
    lemma_key_cmp_basics(ispec, a, x);
    lemma_key_cmp_basics(ispec, b, x);
    lemma_key_cmp_basics(ispec, x, a);
    lemma_key_cmp_basics(ispec, x, b);
    lemma_key_cmp_trans(ispec, a, b, x);
    lemma_key_cmp_trans(ispec, b, a, x);
    lemma_key_cmp_trans(ispec, x, a, b);
    lemma_key_cmp_trans(ispec, x, b, a);
}

/// Ride-along fields never discriminate: two composite keys that agree
/// on every field named by the index specification compare as equal,
/// whatever their other fields hold.
pub proof fn lemma_ride_along_fields_ignored(
    ispec: Seq<IndexFieldModel>,
    a: Seq<KeyFieldModel>,
    b: Seq<KeyFieldModel>,
)
    requires
        forall|i: int|
            0 <= i < ispec.len() ==> spec_lookup(a, ispec[i].field_name) == spec_lookup(
                b,
                ispec[i].field_name,
            ),
    ensures
        spec_indexed_cmp(ispec, a, b) == 0,
        key_equiv(Some(ispec), KeyModel::Composite(a), KeyModel::Composite(b)),
    decreases ispec.len(),
{
    if ispec.len() != 0 {
        lemma_opt_cmp_basics(
            spec_lookup(a, ispec[0].field_name),
            spec_lookup(b, ispec[0].field_name),
        );
        assert(forall|i: int|
            0 <= i < ispec.drop_first().len() ==> ispec.drop_first()[i] == ispec[i + 1]);
        lemma_ride_along_fields_ignored(ispec.drop_first(), a, b);
    }
}

} // verus!

