use vstd::prelude::*;

verus! {

/// Fixed cost, in bytes, charged for any non-null, non-mapping field
/// value during size estimation: the footprint of a tagged-value handle.
/// The estimator deliberately never inspects string lengths or array
/// contents, so this constant fully defines the reported numbers.
pub const LEAF_COST: u128 = 8;

/// One JSON-like value as the analyzer models it.
///
/// Nulls and nested mappings are kept structurally, since the size policy
/// treats them specially; strings keep their text, since the `"type"`
/// discriminator is read as a string; numbers, booleans and arrays are
/// collapsed into one opaque `Leaf` variant, since the analyzer never
/// looks inside them.
pub enum JsonValue {
    Null,
    Text(String),
    Leaf,
    Mapping(Vec<(String, JsonValue)>),
}

/// The mathematical model of a [`JsonValue`].
pub enum JsonModel {
    Null,
    Text(Seq<char>),
    Leaf,
    Mapping(Seq<(Seq<char>, JsonModel)>),
}

/// The model of one value: structure kept, strings viewed as character
/// sequences.
pub open spec fn value_model(v: JsonValue) -> JsonModel
    decreases v,
{
    match v {
        JsonValue::Null => JsonModel::Null,
        JsonValue::Text(text) => JsonModel::Text(text@),
        JsonValue::Leaf => JsonModel::Leaf,
        JsonValue::Mapping(fields) => JsonModel::Mapping(fields_model(fields@)),
    }
}

/// The model of a mapping's fields, element by element.
pub open spec fn fields_model(fields: Seq<(String, JsonValue)>) -> Seq<(Seq<char>, JsonModel)>
    decreases fields,
{
    if fields.len() == 0 {
        Seq::empty()
    } else {
        fields_model(fields.drop_last()).push(
            (fields.last().0@, value_model(fields.last().1)),
        )
    }
}

impl View for JsonValue {
    type V = JsonModel;

    open spec fn view(&self) -> JsonModel {
        value_model(*self)
    }
}

/// One parsed input record: the fields of its top-level JSON mapping, in
/// the order the parser yields them.
pub struct TypeRecord {
    pub fields: Vec<(String, JsonValue)>,
}

impl View for TypeRecord {
    type V = Seq<(Seq<char>, JsonModel)>;

    open spec fn view(&self) -> Seq<(Seq<char>, JsonModel)> {
        fields_model(self.fields@)
    }
}

/// Estimated byte size of one modelled value: null is free, a nested
/// mapping costs the sum over its own fields, and everything else costs
/// [`LEAF_COST`].
pub open spec fn model_size(v: JsonModel) -> nat
    decreases v,
{
    match v {
        JsonModel::Null => 0,
        JsonModel::Text(_) => LEAF_COST as nat,
        JsonModel::Leaf => LEAF_COST as nat,
        JsonModel::Mapping(fields) => fields_size(fields),
    }
}

/// Estimated byte size of a sequence of fields: the sum of the sizes of
/// their values.
pub open spec fn fields_size(fields: Seq<(Seq<char>, JsonModel)>) -> nat
    decreases fields,
{
    if fields.len() == 0 {
        0
    } else {
        model_size(fields[0].1) + fields_size(fields.drop_first())
    }
}

/// The name of the field that classifies a record.
pub open spec fn type_key() -> Seq<char> {
    "type"@
}

/// The first field with the given name, if any.
pub open spec fn lookup(fields: Seq<(Seq<char>, JsonModel)>, key: Seq<char>) -> Option<JsonModel>
    decreases fields,
{
    if fields.len() == 0 {
        None
    } else if fields[0].0 == key {
        Some(fields[0].1)
    } else {
        lookup(fields.drop_first(), key)
    }
}

/// The fields of a record with every field named "type" removed: the
/// discriminator is metadata, not payload.
pub open spec fn except_type(fields: Seq<(Seq<char>, JsonModel)>) -> Seq<(Seq<char>, JsonModel)>
    decreases fields,
{
    if fields.len() == 0 {
        fields
    } else if fields[0].0 == type_key() {
        except_type(fields.drop_first())
    } else {
        seq![fields[0]] + except_type(fields.drop_first())
    }
}

/// The reported byte size of a record: the size of every field except
/// the discriminator.
pub open spec fn payload_size(fields: Seq<(Seq<char>, JsonModel)>) -> nat {
    fields_size(except_type(fields))
}

/// The model of a field sequence is the same sequence, field by field.
pub proof fn lemma_fields_model(fields: Seq<(String, JsonValue)>)
    ensures
        fields_model(fields).len() == fields.len(),
        forall|i: int|
            0 <= i < fields.len() ==> #[trigger] fields_model(fields)[i] == (
            fields[i].0@,
            value_model(fields[i].1),
            ),
    decreases fields,
{
    if fields.len() > 0 {
        lemma_fields_model(fields.drop_last());
    }
}

/// One step of summing a field sequence from the front.
pub proof fn lemma_fields_size_skip(fields: Seq<(Seq<char>, JsonModel)>, i: int)
    requires
        0 <= i < fields.len(),
    ensures
        fields_size(fields.skip(i)) == model_size(fields[i].1) + fields_size(fields.skip(i + 1)),
{
    assert(fields.skip(i).drop_first() =~= fields.skip(i + 1));
    assert(fields.skip(i)[0] == fields[i]);
}

/// Size is additive: the size of two field sequences laid end to end is
/// the sum of their sizes.
pub proof fn lemma_fields_size_concat(a: Seq<(Seq<char>, JsonModel)>, b: Seq<(Seq<char>, JsonModel)>)
    ensures
        fields_size(a + b) == fields_size(a) + fields_size(b),
    decreases a.len(),
{
    if a.len() == 0 {
        assert(a + b =~= b);
    } else {
        assert((a + b).drop_first() =~= a.drop_first() + b);
        assert((a + b)[0] == a[0]);
        lemma_fields_size_concat(a.drop_first(), b);
    }
}

/// A scan that has ruled out the first `i` fields may keep looking in
/// the rest.
pub proof fn lemma_lookup_skip(fields: Seq<(Seq<char>, JsonModel)>, key: Seq<char>, i: int)
    requires
        0 <= i <= fields.len(),
        forall|j: int| 0 <= j < i ==> fields[j].0 != key,
    ensures
        lookup(fields, key) == lookup(fields.skip(i), key),
    decreases i,
{
    if i == 0 {
        assert(fields.skip(0) =~= fields);
    } else {
        assert forall|j: int| 0 <= j < i - 1 implies fields.drop_first()[j].0 != key by {
            assert(fields.drop_first()[j] == fields[j + 1]);
        }
        lemma_lookup_skip(fields.drop_first(), key, i - 1);
        assert(fields.drop_first().skip(i - 1) =~= fields.skip(i));
        assert(fields[0].0 != key);
    }
}

/// One step of removing the discriminator from the front.
pub proof fn lemma_except_type_skip(fields: Seq<(Seq<char>, JsonModel)>, i: int)
    requires
        0 <= i < fields.len(),
    ensures
        fields[i].0 == type_key() ==> except_type(fields.skip(i)) == except_type(
            fields.skip(i + 1),
        ),
        fields[i].0 != type_key() ==> except_type(fields.skip(i)) == seq![fields[i]]
            + except_type(fields.skip(i + 1)),
{
    assert(fields.skip(i).drop_first() =~= fields.skip(i + 1));
    assert(fields.skip(i)[0] == fields[i]);
}

/// The size of a single field.
pub proof fn lemma_fields_size_singleton(field: (Seq<char>, JsonModel))
    ensures
        fields_size(seq![field]) == model_size(field.1),
{
    assert(seq![field].drop_first() =~= Seq::<(Seq<char>, JsonModel)>::empty());
    assert(fields_size(Seq::<(Seq<char>, JsonModel)>::empty()) == 0);
    assert(seq![field][0] == field);
}

/// Size estimation is order-independent: two field sequences holding
/// the same fields, in any order, have the same size.
pub proof fn lemma_fields_size_permutation(
    a: Seq<(Seq<char>, JsonModel)>,
    b: Seq<(Seq<char>, JsonModel)>,
)
    requires
        a.to_multiset() == b.to_multiset(),
    ensures
        fields_size(a) == fields_size(b),
    decreases a.len(),
{
    broadcast use vstd::seq_lib::group_to_multiset_ensures;

    if a.len() == 0 {
        assert(b.to_multiset().len() == 0);
    } else {
        let x = a.last();
        assert(a.to_multiset().count(x) > 0) by {
            assert(a.contains(x));
        }
        assert(b.contains(x));
        let j = choose|j: int| 0 <= j < b.len() && b[j] == x;
        assert(a.remove(a.len() - 1) =~= a.drop_last());
        assert(a.drop_last().to_multiset() == a.to_multiset().remove(x));
        assert(b.remove(j).to_multiset() == b.to_multiset().remove(x));
        lemma_fields_size_permutation(a.drop_last(), b.remove(j));
        assert(a =~= a.drop_last() + seq![x]);
        lemma_fields_size_concat(a.drop_last(), seq![x]);
        lemma_fields_size_singleton(x);
        assert(b =~= b.take(j) + (seq![x] + b.skip(j + 1)));
        assert(b.remove(j) =~= b.take(j) + b.skip(j + 1));
        lemma_fields_size_concat(b.take(j), seq![x] + b.skip(j + 1));
        lemma_fields_size_concat(seq![x], b.skip(j + 1));
        lemma_fields_size_concat(b.take(j), b.skip(j + 1));
    }
}

/// A field whose value is null contributes exactly nothing: inserting
/// it anywhere in a mapping leaves the size unchanged.
pub proof fn lemma_null_field_free(fields: Seq<(Seq<char>, JsonModel)>, i: int, name: Seq<char>)
    requires
        0 <= i <= fields.len(),
    ensures
        fields_size(fields.insert(i, (name, JsonModel::Null))) == fields_size(fields),
{
    let null_field = (name, JsonModel::Null);
    assert(fields.insert(i, null_field) =~= fields.take(i) + (seq![null_field] + fields.skip(i)));
    assert(fields =~= fields.take(i) + fields.skip(i));
    lemma_fields_size_concat(fields.take(i), seq![null_field] + fields.skip(i));
    lemma_fields_size_concat(seq![null_field], fields.skip(i));
    lemma_fields_size_concat(fields.take(i), fields.skip(i));
    lemma_fields_size_singleton(null_field);
}

/// A nested mapping's contribution is exactly the recursive sum over
/// its own fields.
pub proof fn lemma_nested_mapping_size(fields: Seq<(Seq<char>, JsonModel)>)
    ensures
        model_size(JsonModel::Mapping(fields)) == fields_size(fields),
{
}

/// Sizes one value exactly, or reports that the total does not fit in a
/// `u128`.
pub fn try_value_size(v: &JsonValue) -> (r: Option<u128>)
    ensures
        r is Some <==> model_size(v@) <= u128::MAX,
        r matches Some(n) ==> n == model_size(v@),
    decreases *v,
{
    match v {
        JsonValue::Null => Some(0),
        JsonValue::Text(_) => Some(LEAF_COST),
        JsonValue::Leaf => Some(LEAF_COST),
        JsonValue::Mapping(fields) => try_fields_size(fields),
    }
}

/// Sums the sizes of a mapping's fields exactly, or reports that the sum
/// does not fit in a `u128`.
pub fn try_fields_size(fields: &Vec<(String, JsonValue)>) -> (r: Option<u128>)
    ensures
        r is Some <==> fields_size(fields_model(fields@)) <= u128::MAX,
        r matches Some(n) ==> n == fields_size(fields_model(fields@)),
    decreases fields@,
{
    let ghost m = fields_model(fields@);
    proof {
        lemma_fields_model(fields@);
        assert(m.skip(0) =~= m);
    }
    let mut total: u128 = 0;
    let mut i: usize = 0;
    while i < fields.len()
        invariant
            i <= fields.len(),
            m == fields_model(fields@),
            m.len() == fields@.len(),
            fields_size(m) == total + fields_size(m.skip(i as int)),
        decreases fields@.len() - i,
    {
        proof {
            lemma_fields_model(fields@);
            lemma_fields_size_skip(m, i as int);
        }
        match try_value_size(&fields[i].1) {
            None => {
                return None;
            },
            Some(n) => {
                match total.checked_add(n) {
                    None => {
                        return None;
                    },
                    Some(t) => {
                        total = t;
                    },
                }
            },
        }
        i = i + 1;
    }
    proof {
        assert(m.skip(fields@.len() as int) =~= Seq::<(Seq<char>, JsonModel)>::empty());
    }
    Some(total)
}

} // verus!
