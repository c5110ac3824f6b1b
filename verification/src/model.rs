use vstd::prelude::*;

use crate::enumerable::EnumDef;
use crate::field::NamedField;
use crate::named_values::NamedValues;
use crate::slice::Slice;
use crate::structable::StructDef;
use crate::tuplable::TupleDef;
use crate::value::{EnumValue, FieldValues, ListValue, MapValue, StructValue, TupleValue, Value};

verus! {

/// The mathematical content of a `Value`: what the value is, independent of
/// borrowing, batching into slices, or the split of fields into batches'
/// storage.
pub ghost enum Model {
    Bool(bool),
    Char(char),
    I8(int),
    I16(int),
    I32(int),
    I64(int),
    I128(int),
    Isize(int),
    Str(Seq<char>),
    U8(int),
    U16(int),
    U32(int),
    U64(int),
    U128(int),
    Usize(int),
    Error(Seq<char>),
    Rendered(Seq<char>),
    List(Seq<Model>),
    Mapping(Seq<(Model, Model)>),
    Struct(StructModel),
    Enum(EnumModel),
    Tuple(TupleModel),
    Unit,
}

/// The content of a struct-like value.
pub ghost struct StructModel {
    /// The struct's name.
    pub name: Seq<char>,
    /// Whether the definition is static (fixed ahead of time).
    pub fixed: bool,
    /// The field contents, split into the batches the producer delivers.
    pub fields: FieldsModel,
}

/// The content of an enum-like value.
pub ghost struct EnumModel {
    /// The enum's name.
    pub name: Seq<char>,
    /// Whether the definition is static (fixed ahead of time).
    pub fixed: bool,
    /// The current variant's name.
    pub variant: Seq<char>,
    /// Whether the current variant declares named fields.
    pub variant_named: bool,
    /// The field contents, split into the batches the producer delivers.
    pub fields: FieldsModel,
}

/// The content of a tuple-like value.
pub ghost struct TupleModel {
    /// The tuple's arity information.
    pub def: TupleDef,
    /// The positional fields, split into the batches the producer delivers.
    pub batches: Seq<Seq<Model>>,
}

/// Field contents: batches of named fields, or batches of unnamed fields.
pub ghost enum FieldsModel {
    Named(Seq<Seq<(Seq<char>, Model)>>),
    Unnamed(Seq<Seq<Model>>),
}

impl FieldsModel {
    /// All named pairs, with the batch split flattened away.
    pub open spec fn named_pairs(self) -> Seq<(Seq<char>, Model)>
        recommends
            self is Named,
    {
        self->Named_0.flatten()
    }

    /// All unnamed fields, with the batch split flattened away.
    pub open spec fn unnamed_fields(self) -> Seq<Model>
        recommends
            self is Unnamed,
    {
        self->Unnamed_0.flatten()
    }
}

/// The model of one element of a primitive run.
pub open spec fn slice_elem_model(s: Slice<'_>, i: int) -> Model {
    match s {
        Slice::Bool(e) => Model::Bool(e@[i]),
        Slice::Char(e) => Model::Char(e@[i]),
        Slice::I8(e) => Model::I8(e@[i] as int),
        Slice::I16(e) => Model::I16(e@[i] as int),
        Slice::I32(e) => Model::I32(e@[i] as int),
        Slice::I64(e) => Model::I64(e@[i] as int),
        Slice::I128(e) => Model::I128(e@[i] as int),
        Slice::Isize(e) => Model::Isize(e@[i] as int),
        Slice::Str(e) => Model::Str(e@[i]@),
        Slice::String(e) => Model::Str(e@[i]@),
        Slice::U8(e) => Model::U8(e@[i] as int),
        Slice::U16(e) => Model::U16(e@[i] as int),
        Slice::U32(e) => Model::U32(e@[i] as int),
        Slice::U64(e) => Model::U64(e@[i] as int),
        Slice::U128(e) => Model::U128(e@[i] as int),
        Slice::Usize(e) => Model::Usize(e@[i] as int),
        Slice::Unit(_) => Model::Unit,
    }
}

/// The models of a primitive run's elements, in order.
pub open spec fn slice_model(s: Slice<'_>) -> Seq<Model> {
    Seq::new(s.spec_len(), |i: int| slice_elem_model(s, i))
}

/// The model of a single value.
pub open spec fn value_model(v: Value<'_>) -> Model
    decreases v,
{
    match v {
        Value::Bool(b) => Model::Bool(b),
        Value::Char(c) => Model::Char(c),
        Value::I8(n) => Model::I8(n as int),
        Value::I16(n) => Model::I16(n as int),
        Value::I32(n) => Model::I32(n as int),
        Value::I64(n) => Model::I64(n as int),
        Value::I128(n) => Model::I128(n as int),
        Value::Isize(n) => Model::Isize(n as int),
        Value::String(s) => Model::Str(s@),
        Value::U8(n) => Model::U8(n as int),
        Value::U16(n) => Model::U16(n as int),
        Value::U32(n) => Model::U32(n as int),
        Value::U64(n) => Model::U64(n as int),
        Value::U128(n) => Model::U128(n as int),
        Value::Usize(n) => Model::Usize(n as int),
        Value::Error(s) => Model::Error(s@),
        Value::Renderable(s) => Model::Rendered(s@),
        Value::Listable(l) => Model::List(list_model(l)),
        Value::Mappable(m) => Model::Mapping(map_model(m)),
        Value::Structable(s) => Model::Struct(struct_model(s)),
        Value::Enumerable(e) => Model::Enum(enum_model(e)),
        Value::Tuplable(t) => Model::Tuple(tuple_model(t)),
        Value::Unit => Model::Unit,
    }
}

/// The models of a sequence of values, in order.
pub open spec fn values_model(s: Seq<Value<'_>>) -> Seq<Model>
    decreases s,
{
    if s.len() == 0 {
        Seq::empty()
    } else {
        seq![value_model(s[0])] + values_model(s.drop_first())
    }
}

/// The models of a list-like value's elements, in order.
pub open spec fn list_model(l: ListValue<'_>) -> Seq<Model>
    decreases l,
{
    match l {
        ListValue::Slice(s) => slice_model(s),
        ListValue::Values(vs) => values_model(vs@),
    }
}

/// The models of a map-like value's entries, in order.
pub open spec fn map_model(m: MapValue<'_>) -> Seq<(Model, Model)>
    decreases m,
{
    entries_model(m.entries@)
}

/// The models of a sequence of map entries, in order.
pub open spec fn entries_model(es: Seq<(Value<'_>, Value<'_>)>) -> Seq<(Model, Model)>
    decreases es,
{
    if es.len() == 0 {
        Seq::empty()
    } else {
        seq![(value_model(es[0].0), value_model(es[0].1))] + entries_model(es.drop_first())
    }
}

/// The named pairs of one batch: the i-th field name with the model of the
/// i-th value.
pub open spec fn pairs_model(fields: Seq<NamedField<'_>>, values: Seq<Value<'_>>) -> Seq<
    (Seq<char>, Model),
>
    decreases values,
{
    if values.len() == 0 || fields.len() == 0 {
        Seq::empty()
    } else {
        seq![(fields[0].spec_name(), value_model(values[0]))] + pairs_model(
            fields.drop_first(),
            values.drop_first(),
        )
    }
}

/// The named pairs of one `NamedValues` batch.
pub open spec fn named_values_model(nv: NamedValues<'_>) -> Seq<(Seq<char>, Model)>
    decreases nv,
{
    pairs_model(nv.fields@, nv.values@)
}

/// The models of a sequence of named batches.
pub open spec fn named_batches_model(s: Seq<NamedValues<'_>>) -> Seq<Seq<(Seq<char>, Model)>>
    decreases s,
{
    if s.len() == 0 {
        Seq::empty()
    } else {
        seq![named_values_model(s[0])] + named_batches_model(s.drop_first())
    }
}

/// The models of a sequence of unnamed batches.
pub open spec fn unnamed_batches_model(s: Seq<Vec<Value<'_>>>) -> Seq<Seq<Model>>
    decreases s,
{
    if s.len() == 0 {
        Seq::empty()
    } else {
        seq![values_model(s[0]@)] + unnamed_batches_model(s.drop_first())
    }
}

/// The model of a struct-like or enum-like value's field batches.
pub open spec fn field_values_model(fv: FieldValues<'_>) -> FieldsModel
    decreases fv,
{
    match fv {
        FieldValues::Named(batches) => FieldsModel::Named(named_batches_model(batches@)),
        FieldValues::Unnamed(batches) => FieldsModel::Unnamed(unnamed_batches_model(batches@)),
    }
}

/// The model of a struct-like value.
pub open spec fn struct_model(s: StructValue<'_>) -> StructModel
    decreases s,
{
    StructModel {
        name: s.def.spec_name(),
        fixed: s.def is Static,
        fields: field_values_model(s.fields),
    }
}

/// The model of an enum-like value.
pub open spec fn enum_model(e: EnumValue<'_>) -> EnumModel
    decreases e,
{
    EnumModel {
        name: e.def.spec_name(),
        fixed: e.def is Static,
        variant: e.variant.spec_def().spec_name(),
        variant_named: e.variant.spec_def().spec_fields() is Named,
        fields: field_values_model(e.fields),
    }
}

/// The model of a tuple-like value.
pub open spec fn tuple_model(t: TupleValue<'_>) -> TupleModel
    decreases t,
{
    TupleModel { def: t.def, batches: unnamed_batches_model(t.fields@) }
}

/// `values_model` maps each value to its model, position by position.
pub proof fn lemma_values_model(s: Seq<Value<'_>>)
    ensures
        values_model(s).len() == s.len(),
        forall|i: int| 0 <= i < s.len() ==> values_model(s)[i] == value_model(s[i]),
    decreases s.len(),
{
    if s.len() > 0 {
        lemma_values_model(s.drop_first());
        assert forall|i: int| 0 <= i < s.len() implies values_model(s)[i] == value_model(s[i]) by {
            if i > 0 {
                assert(s.drop_first()[i - 1] == s[i]);
            }
        }
    }
}

/// `entries_model` maps each entry to its model pair, position by position.
pub proof fn lemma_entries_model(s: Seq<(Value<'_>, Value<'_>)>)
    ensures
        entries_model(s).len() == s.len(),
        forall|i: int|
            0 <= i < s.len() ==> entries_model(s)[i] == (
                value_model(s[i].0),
                value_model(s[i].1),
            ),
    decreases s.len(),
{
    if s.len() > 0 {
        lemma_entries_model(s.drop_first());
        assert forall|i: int|
            0 <= i < s.len() implies entries_model(s)[i] == (
            value_model(s[i].0),
            value_model(s[i].1),
        ) by {
            if i > 0 {
                assert(s.drop_first()[i - 1] == s[i]);
            }
        }
    }
}

/// `pairs_model` binds the i-th name to the i-th value's model, for as many
/// positions as both lists cover.
pub proof fn lemma_pairs_model(fields: Seq<NamedField<'_>>, values: Seq<Value<'_>>)
    ensures
        pairs_model(fields, values).len() == vstd::math::min(
            fields.len() as int,
            values.len() as int,
        ),
        forall|i: int|
            0 <= i < pairs_model(fields, values).len() ==> pairs_model(fields, values)[i] == (
                fields[i].spec_name(),
                value_model(values[i]),
            ),
    decreases values.len(),
{
    if values.len() > 0 && fields.len() > 0 {
        lemma_pairs_model(fields.drop_first(), values.drop_first());
        assert forall|i: int|
            0 <= i < pairs_model(fields, values).len() implies pairs_model(fields, values)[i] == (
            fields[i].spec_name(),
            value_model(values[i]),
        ) by {
            if i > 0 {
                assert(values.drop_first()[i - 1] == values[i]);
                assert(fields.drop_first()[i - 1] == fields[i]);
            }
        }
    }
}

/// Two value lists with the same element content give the same named pairs.
pub proof fn lemma_pairs_model_congruence(
    fields: Seq<NamedField<'_>>,
    v1: Seq<Value<'_>>,
    v2: Seq<Value<'_>>,
)
    requires
        v1.len() == v2.len(),
        forall|i: int| 0 <= i < v1.len() ==> value_model(v1[i]) == value_model(v2[i]),
    ensures
        pairs_model(fields, v1) == pairs_model(fields, v2),
    decreases v1.len(),
{
    if v1.len() == 0 || fields.len() == 0 {
        assert(pairs_model(fields, v1) =~= pairs_model(fields, v2));
    } else {
        assert forall|i: int|
            0 <= i < v1.drop_first().len() implies value_model(
            #[trigger] v1.drop_first()[i],
        ) == value_model(v2.drop_first()[i]) by {
            assert(v1.drop_first()[i] == v1[i + 1]);
            assert(v2.drop_first()[i] == v2[i + 1]);
        }
        lemma_pairs_model_congruence(fields.drop_first(), v1.drop_first(), v2.drop_first());
        assert(value_model(v1[0]) == value_model(v2[0]));
        assert(pairs_model(fields, v1) =~= pairs_model(fields, v2));
    }
}

/// `named_batches_model` maps each batch to its model, position by position.
pub proof fn lemma_named_batches_model(s: Seq<NamedValues<'_>>)
    ensures
        named_batches_model(s).len() == s.len(),
        forall|i: int| 0 <= i < s.len() ==> named_batches_model(s)[i] == named_values_model(s[i]),
    decreases s.len(),
{
    if s.len() > 0 {
        lemma_named_batches_model(s.drop_first());
        assert forall|i: int|
            0 <= i < s.len() implies named_batches_model(s)[i] == named_values_model(s[i]) by {
            if i > 0 {
                assert(s.drop_first()[i - 1] == s[i]);
            }
        }
    }
}

/// `unnamed_batches_model` maps each batch to its model, position by
/// position.
pub proof fn lemma_unnamed_batches_model(s: Seq<Vec<Value<'_>>>)
    ensures
        unnamed_batches_model(s).len() == s.len(),
        forall|i: int| 0 <= i < s.len() ==> unnamed_batches_model(s)[i] == values_model(s[i]@),
    decreases s.len(),
{
    if s.len() > 0 {
        lemma_unnamed_batches_model(s.drop_first());
        assert forall|i: int|
            0 <= i < s.len() implies unnamed_batches_model(s)[i] == values_model(s[i]@) by {
            if i > 0 {
                assert(s.drop_first()[i - 1] == s[i]);
            }
        }
    }
}

} // verus!
