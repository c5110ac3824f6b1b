use vstd::prelude::*;

use crate::field::NamedField;
use crate::model::{
    lemma_named_batches_model, lemma_pairs_model, lemma_values_model, list_model,
    named_values_model, struct_model, value_model, values_model, FieldsModel, Model,
};
use crate::named_values::{spec_name_index, NamedValues};
use crate::pointer::{spec_entry_lookup, spec_pointee, spec_select_item, spec_select_pair, Segment};
use crate::render::render_model;
use crate::valuable::Valuable;
use crate::value::{EnumValue, ListValue, StructValue, Value};
use crate::visit::{
    all_elem_events, events_elems, lemma_value_events_elems, named_batches_events, slice_visited,
    VisitEvent,
};

verus! {

/// Round-trip shape fidelity: visiting a named-fields producer delivers one
/// `visit_named_fields` batch per stored batch, in order, and the pairs of
/// each batch bind the i-th field name to the i-th value — so collecting
/// `(name, value)` pairs from the visit reproduces the producer's fields
/// and values exactly.
pub proof fn lemma_round_trip_fidelity(sv: StructValue<'_>)
    requires
        sv.spec_fields() is Named,
    ensures
        sv.spec_batches() == named_batches_events(sv.spec_fields()->Named_0@),
        sv.spec_batches().len() == sv.spec_fields()->Named_0@.len(),
        forall|i: int|
            0 <= i < sv.spec_batches().len() ==> #[trigger] sv.spec_batches()[i]
                == VisitEvent::NamedFields(named_values_model(sv.spec_fields()->Named_0@[i])),
        forall|i: int, j: int|
            0 <= i < sv.spec_batches().len() && 0 <= j < named_values_model(
                sv.spec_fields()->Named_0@[i],
            ).len() ==> #[trigger] named_values_model(sv.spec_fields()->Named_0@[i])[j] == (
                sv.spec_fields()->Named_0@[i].fields@[j].spec_name(),
                value_model(sv.spec_fields()->Named_0@[i].values@[j]),
            ),
{
    lemma_named_batches_model(sv.spec_fields()->Named_0@);
    assert forall|i: int, j: int|
        0 <= i < sv.spec_batches().len() && 0 <= j < named_values_model(
            sv.spec_fields()->Named_0@[i],
        ).len() implies #[trigger] named_values_model(sv.spec_fields()->Named_0@[i])[j] == (
        sv.spec_fields()->Named_0@[i].fields@[j].spec_name(),
        value_model(sv.spec_fields()->Named_0@[i].values@[j]),
    ) by {
        let nv = sv.spec_fields()->Named_0@[i];
        lemma_pairs_model(nv.fields@, nv.values@);
    }
}

/// Lookup consistency. In a batch whose field list is well indexed — the
/// i-th descriptor stores position i — looking up the i-th descriptor finds
/// exactly the i-th value, whether or not names repeat. A foreign
/// descriptor that carries no position is never found, whatever its name.
/// And wherever names are unique, `get` and `get_by_name` agree: both
/// resolve the i-th descriptor to the i-th value.
pub proof fn lemma_lookup_consistency(nv: NamedValues<'_>)
    requires
        nv.wf(),
        forall|i: int|
            0 <= i < nv.spec_fields().len() ==> ((#[trigger] nv.spec_fields()[i].spec_index())
                matches Some(k) && k == i),
    ensures
        forall|i: int|
            0 <= i < nv.spec_fields().len() ==> nv.spec_position_of(
                #[trigger] nv.spec_fields()[i],
            ) == Some(i),
        forall|field: NamedField<'_>|
            (#[trigger] field.spec_index()) is None ==> nv.spec_position_of(field) is None,
        (forall|i: int, j: int|
            0 <= i < j < nv.spec_fields().len() ==> nv.spec_fields()[i].spec_name()
                != nv.spec_fields()[j].spec_name()) ==> forall|i: int|
            0 <= i < nv.spec_fields().len() ==> spec_name_index(
                nv.spec_fields(),
                (#[trigger] nv.spec_fields()[i]).spec_name(),
            ) == Some(i),
{
    assert forall|i: int| 0 <= i < nv.spec_fields().len() implies nv.spec_position_of(
        #[trigger] nv.spec_fields()[i],
    ) == Some(i) by {
        assert(nv.spec_fields()[i].spec_index() matches Some(k) && k == i);
        assert(nv.spec_position_of(nv.spec_fields()[i]) == Some(i));
    }
    if forall|i: int, j: int|
        0 <= i < j < nv.spec_fields().len() ==> nv.spec_fields()[i].spec_name()
            != nv.spec_fields()[j].spec_name() {
        assert forall|i: int| 0 <= i < nv.spec_fields().len() implies spec_name_index(
            nv.spec_fields(),
            (#[trigger] nv.spec_fields()[i]).spec_name(),
        ) == Some(i) by {
            crate::named_values::lemma_name_index(
                nv.spec_fields(),
                nv.spec_fields()[i].spec_name(),
            );
        }
    }
}

/// Slice batching invariant: however a list-like value stores its elements,
/// one visit delivers batches whose elements, taken together and in order,
/// are exactly the list's elements; for an empty primitive run the visit
/// still delivers exactly one (empty) batch call.
pub proof fn lemma_slice_batching(lv: ListValue<'_>)
    ensures
        all_elem_events(lv.spec_batches()),
        events_elems(lv.spec_batches()) == list_model(lv),
        lv is Slice ==> lv.spec_batches().len() == 1,
        slice_visited(Seq::<VisitEvent>::empty(), lv.spec_batches(), list_model(lv)),
{
    match lv {
        ListValue::Slice(s) => {
            let evs = lv.spec_batches();
            assert(evs.drop_first() =~= Seq::<VisitEvent>::empty());
            assert(events_elems(Seq::<VisitEvent>::empty()) =~= Seq::<Model>::empty());
            assert(events_elems(evs) =~= list_model(lv));
        },
        ListValue::Values(vs) => {
            lemma_values_model(vs@);
            let ms = values_model(vs@);
            assert(lv.spec_batches() =~= Seq::new(ms.len(), |i: int| VisitEvent::Value(ms[i])));
            lemma_value_events_elems(ms);
        },
    }
    assert(Seq::<VisitEvent>::empty() + lv.spec_batches() =~= lv.spec_batches());
}

/// Iterator symmetry for primitive runs: the elements listed back to front
/// are exactly the reversal of the elements listed front to back, so
/// collecting a run forward and reversing equals collecting it backward.
pub proof fn lemma_slice_iter_symmetry(s: crate::slice::Slice<'_>)
    ensures
        Seq::new(s.spec_len(), |i: int| crate::model::slice_elem_model(s, s.spec_len() - 1 - i))
            == crate::model::slice_model(s).reverse(),
{
    assert(Seq::new(s.spec_len(), |i: int| crate::model::slice_elem_model(s, s.spec_len() - 1 - i))
        =~= crate::model::slice_model(s).reverse());
}

/// One step of pointer traversal: what a single segment selects inside a
/// value, if anything.
pub open spec fn pointer_step(m: Model, seg: Segment<'_>) -> Option<Model> {
    match (m, seg) {
        (Model::List(ms), Segment::Index(iv)) => {
            match crate::value::spec_num(iv) {
                Some(n) => if 0 <= n < ms.len() {
                    Some(ms[n])
                } else {
                    None
                },
                None => None,
            }
        },
        (Model::Mapping(es), Segment::Index(iv)) => spec_entry_lookup(es, iv),
        (Model::Tuple(tm), Segment::TupleIndex(n)) => spec_select_item(tm.batches, n as int),
        (Model::Struct(sm), Segment::TupleIndex(n)) => {
            match sm.fields {
                FieldsModel::Unnamed(bs) => spec_select_item(bs, n as int),
                FieldsModel::Named(_) => None,
            }
        },
        (Model::Struct(sm), Segment::Field(name)) => {
            match sm.fields {
                FieldsModel::Named(bs) => spec_select_pair(bs, name@),
                FieldsModel::Unnamed(_) => None,
            }
        },
        _ => None,
    }
}

/// Pointer equivalence: walking a non-empty path equals taking one step off
/// its head and walking the rest from what the step selected. Applied twice
/// to a path `[Field(y), Field(z)]`, the pointee is exactly the value found
/// by extracting field `y` and then field `z` by hand.
pub proof fn lemma_pointer_equivalence(m: Model, path: Seq<Segment<'_>>)
    requires
        path.len() > 0,
    ensures
        spec_pointee(m, path) == (match pointer_step(m, path[0]) {
            Some(child) => spec_pointee(child, path.drop_first()),
            None => None,
        }),
{
}

/// Static/dynamic equivalence: two struct-like values with the same name
/// and the same field contents deliver identical visit batches and render
/// identically, whether their definitions are static or dynamic.
pub proof fn lemma_static_dynamic_equivalence(sv1: StructValue<'_>, sv2: StructValue<'_>)
    requires
        sv1.spec_def().spec_name() == sv2.spec_def().spec_name(),
        sv1.spec_fields() == sv2.spec_fields(),
    ensures
        sv1.spec_batches() == sv2.spec_batches(),
        render_model(value_model(Value::Structable(sv1))) == render_model(
            value_model(Value::Structable(sv2)),
        ),
{
    assert(struct_model(sv1).name == struct_model(sv2).name);
    assert(struct_model(sv1).fields == struct_model(sv2).fields);
}

/// Shape consistency: a producer built to the shape its definition
/// declares delivers named-field batches exactly when the definition
/// declares named fields, and unnamed batches otherwise — the two batch
/// kinds are never mixed. An enum-like producer follows its current
/// variant's declared shape the same way.
pub proof fn lemma_shape_consistency(sv: StructValue<'_>, ev: EnumValue<'_>)
    requires
        sv.spec_fields().matches_shape(sv.spec_def().spec_fields()),
        ev.spec_fields().matches_shape(ev.spec_variant().spec_def().spec_fields()),
    ensures
        sv.spec_def().spec_fields() is Named ==> forall|i: int|
            0 <= i < sv.spec_batches().len() ==> (#[trigger] sv.spec_batches()[i]) is NamedFields,
        sv.spec_def().spec_fields() is Unnamed ==> forall|i: int|
            0 <= i < sv.spec_batches().len() ==> (
            #[trigger] sv.spec_batches()[i]) is UnnamedFields,
        ev.spec_variant().spec_def().spec_fields() is Named ==> forall|i: int|
            0 <= i < ev.spec_batches().len() ==> (#[trigger] ev.spec_batches()[i]) is NamedFields,
        ev.spec_variant().spec_def().spec_fields() is Unnamed ==> forall|i: int|
            0 <= i < ev.spec_batches().len() ==> (
            #[trigger] ev.spec_batches()[i]) is UnnamedFields,
{
}

} // verus!
