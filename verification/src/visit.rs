use vstd::prelude::*;

use crate::model::{named_values_model, slice_model, value_model, values_model, Model};
use crate::named_values::NamedValues;
use crate::slice::Slice;
use crate::valuable::Valuable;
use crate::value::{FieldValues, Value};

verus! {

/// One call a consumer receives, with the mathematical content it carried.
pub ghost enum VisitEvent {
    /// One `visit_value` call.
    Value(Model),
    /// One `visit_named_fields` call: a batch of `(name, value)` pairs.
    NamedFields(Seq<(Seq<char>, Model)>),
    /// One `visit_unnamed_fields` call: a batch of positional values.
    UnnamedFields(Seq<Model>),
    /// One `visit_primitive_slice` call: a batch of primitive values.
    PrimitiveSlice(Seq<Model>),
    /// One `visit_entry` call: one map entry.
    Entry(Model, Model),
}

/// The elements that a sequence of element-carrying events delivers:
/// a `Value` event carries one element, a `PrimitiveSlice` event carries one
/// element per slice member.
pub open spec fn events_elems(evs: Seq<VisitEvent>) -> Seq<Model>
    decreases evs.len(),
{
    if evs.len() == 0 {
        Seq::empty()
    } else {
        (match evs[0] {
            VisitEvent::Value(m) => seq![m],
            VisitEvent::PrimitiveSlice(ms) => ms,
            _ => Seq::empty(),
        }) + events_elems(evs.drop_first())
    }
}

/// True if every event in the sequence carries list elements: single values
/// or primitive runs.
pub open spec fn all_elem_events(evs: Seq<VisitEvent>) -> bool {
    forall|i: int|
        0 <= i < evs.len() ==> (evs[i] is Value || evs[i] is PrimitiveSlice)
}

/// True if the visitor went from observations `before` to observations
/// `after` by receiving the elements `ms`, in order, split into element
/// batches in some way. However the batching is chosen, the total of the
/// elements observed is exactly `ms`.
pub open spec fn slice_visited(
    before: Seq<VisitEvent>,
    after: Seq<VisitEvent>,
    ms: Seq<Model>,
) -> bool {
    exists|evs: Seq<VisitEvent>|
        {
            &&& after == #[trigger] (before + evs)
            &&& all_elem_events(evs)
            &&& events_elems(evs) == ms
        }
}

/// The entries that a sequence of entry events delivers, in order; events
/// of other kinds deliver none.
pub open spec fn events_entries(evs: Seq<VisitEvent>) -> Seq<(Model, Model)>
    decreases evs.len(),
{
    if evs.len() == 0 {
        Seq::empty()
    } else {
        (match evs[0] {
            VisitEvent::Entry(k, m) => seq![(k, m)],
            _ => Seq::empty(),
        }) + events_entries(evs.drop_first())
    }
}

/// True if every event in the sequence carries one map entry.
pub open spec fn all_entry_events(evs: Seq<VisitEvent>) -> bool {
    forall|i: int| 0 <= i < evs.len() ==> evs[i] is Entry
}

/// A sequence of entry events delivers exactly the entries it was built
/// from.
pub proof fn lemma_entry_events_entries(es: Seq<(Model, Model)>)
    ensures
        events_entries(Seq::new(es.len(), |i: int| VisitEvent::Entry(es[i].0, es[i].1))) == es,
    decreases es.len(),
{
    let evs = Seq::new(es.len(), |i: int| VisitEvent::Entry(es[i].0, es[i].1));
    if es.len() == 0 {
        assert(events_entries(evs) =~= es);
    } else {
        lemma_entry_events_entries(es.drop_first());
        assert(evs.drop_first() =~= Seq::new(
            es.drop_first().len(),
            |i: int| VisitEvent::Entry(es.drop_first()[i].0, es.drop_first()[i].1),
        ));
        assert(events_entries(evs) =~= es);
    }
}

/// The batch events of a run of named-field batches, in order.
pub open spec fn named_batches_events(s: Seq<NamedValues<'_>>) -> Seq<VisitEvent> {
    Seq::new(s.len(), |i: int| VisitEvent::NamedFields(named_values_model(s[i])))
}

/// The batch events of a run of unnamed-field batches, in order.
pub open spec fn unnamed_batches_events(s: Seq<Vec<Value<'_>>>) -> Seq<VisitEvent> {
    Seq::new(s.len(), |i: int| VisitEvent::UnnamedFields(values_model(s[i]@)))
}

/// The batch events that a struct-like or enum-like producer's field
/// batches deliver.
pub open spec fn field_batches_events(fv: FieldValues<'_>) -> Seq<VisitEvent> {
    match fv {
        FieldValues::Named(bs) => named_batches_events(bs@),
        FieldValues::Unnamed(bs) => unnamed_batches_events(bs@),
    }
}

/// The entry events of a run of map entries, in order.
pub open spec fn entry_events(es: Seq<(Value<'_>, Value<'_>)>) -> Seq<VisitEvent> {
    Seq::new(es.len(), |i: int| VisitEvent::Entry(value_model(es[i].0), value_model(es[i].1)))
}

/// The consumer side of the protocol: one method per batch kind a producer
/// can emit. `obs` is the consumer's ghost record of the batches it has
/// observed; every method appends exactly the batch it was called with.
///
/// Everything proved through this trait holds of consumers whose `obs`
/// faithfully records what they observe — the natural definition is a
/// `Ghost` field pushed in every method. A consumer compiled without
/// verification still receives every call, but nothing is proved about
/// what it does with them.
pub trait Visit {
    /// The batches this consumer has observed so far.
    spec fn obs(&self) -> Seq<VisitEvent>;

    /// Visit a single value.
    fn visit_value(&mut self, value: &Value<'_>)
        ensures
            final(self).obs() == old(self).obs().push(VisitEvent::Value(value_model(*value))),
    ;

    /// Visit one batch of a struct's or enum variant's named fields.
    fn visit_named_fields(&mut self, named_values: &NamedValues<'_>)
        ensures
            final(self).obs() == old(self).obs().push(
                VisitEvent::NamedFields(named_values_model(*named_values)),
            ),
    ;

    /// Visit one batch of positional fields.
    fn visit_unnamed_fields(&mut self, values: &[Value<'_>])
        ensures
            final(self).obs() == old(self).obs().push(VisitEvent::UnnamedFields(values_model(values@))),
    ;

    /// Visit one contiguous run of same-typed primitives.
    fn visit_primitive_slice(&mut self, slice: Slice<'_>)
        ensures
            final(self).obs() == old(self).obs().push(VisitEvent::PrimitiveSlice(slice_model(slice))),
    ;

    /// Visit one map entry.
    fn visit_entry(&mut self, key: &Value<'_>, value: &Value<'_>)
        ensures
            final(self).obs() == old(self).obs().push(
                VisitEvent::Entry(value_model(*key), value_model(*value)),
            ),
    ;
}

/// Visit a producer's value: issues exactly one top-level `visit_value` call
/// carrying the producer's value.
pub fn visit<T: Valuable, V: Visit>(value: &T, visit: &mut V)
    ensures
        final(visit).obs() == old(visit).obs().push(VisitEvent::Value(value.spec_model())),
{
    let v = value.as_value();
    visit.visit_value(&v);
}

/// A sequence of single-value events delivers exactly the values it was
/// built from.
pub proof fn lemma_value_events_elems(ms: Seq<Model>)
    ensures
        events_elems(Seq::new(ms.len(), |i: int| VisitEvent::Value(ms[i]))) == ms,
    decreases ms.len(),
{
    let evs = Seq::new(ms.len(), |i: int| VisitEvent::Value(ms[i]));
    if ms.len() == 0 {
        assert(events_elems(evs) =~= ms);
    } else {
        lemma_value_events_elems(ms.drop_first());
        assert(evs.drop_first() =~= Seq::new(
            ms.drop_first().len(),
            |i: int| VisitEvent::Value(ms.drop_first()[i]),
        ));
        assert(events_elems(evs) =~= ms);
    }
}

/// Appending one single-value event per element is a valid element batching.
pub proof fn lemma_per_value_batch(before: Seq<VisitEvent>, after: Seq<VisitEvent>, ms: Seq<Model>)
    requires
        after == before + Seq::new(ms.len(), |i: int| VisitEvent::Value(ms[i])),
    ensures
        slice_visited(before, after, ms),
{
    let evs = Seq::new(ms.len(), |i: int| VisitEvent::Value(ms[i]));
    lemma_value_events_elems(ms);
    assert(after == before + evs);
    assert(all_elem_events(evs));
}

/// Appending one primitive-run event holding all the elements is a valid
/// element batching.
pub proof fn lemma_one_slice_batch(before: Seq<VisitEvent>, after: Seq<VisitEvent>, ms: Seq<Model>)
    requires
        after == before.push(VisitEvent::PrimitiveSlice(ms)),
    ensures
        slice_visited(before, after, ms),
{
    let evs = seq![VisitEvent::PrimitiveSlice(ms)];
    assert(evs.drop_first() =~= Seq::<VisitEvent>::empty());
    assert(events_elems(Seq::<VisitEvent>::empty()) =~= Seq::<Model>::empty());
    assert(events_elems(evs) =~= ms);
    assert(after =~= before + evs);
    assert(all_elem_events(evs));
    assert(after == before + evs);
}

} // verus!
