use vstd::prelude::*;

use crate::model::{list_model, Model};
use crate::valuable::Valuable;
use crate::value::{ListValue, Value};
use crate::visit::{all_elem_events, events_elems, Visit, VisitEvent};

verus! {

/// A list-like producer: a homogeneous sequence of values, visited through
/// `visit_value` and `visit_primitive_slice` batches.
pub trait Listable: Valuable {
    /// The elements the list stands for, in order.
    spec fn spec_elems(&self) -> Seq<Model>;

    /// The producer obligation: one visit delivers element batches whose
    /// elements, taken together and in order, are exactly the list's
    /// elements.
    proof fn batches_deliver_elems(&self)
        ensures
            all_elem_events(self.spec_batches()),
            events_elems(self.spec_batches()) == self.spec_elems(),
    ;

    /// Bounds on the number of elements: a lower bound, and an upper bound
    /// where one is known. The bounds must hold of what `visit` emits.
    fn size_hint(&self) -> (r: (usize, Option<usize>))
        ensures
            r.0 <= self.spec_elems().len(),
            r.1 matches Some(u) ==> self.spec_elems().len() <= u,
    ;
}

impl<'a> Listable for ListValue<'a> {
    open spec fn spec_elems(&self) -> Seq<Model> {
        list_model(*self)
    }

    proof fn batches_deliver_elems(&self) {
        crate::laws::lemma_slice_batching(*self);
    }

    fn size_hint(&self) -> (r: (usize, Option<usize>))
        ensures
            r.0 == self.spec_elems().len(),
            r.1 == Some(r.0),
    {
        let n = self.len();
        (n, Some(n))
    }
}

impl<T: Valuable> Valuable for Vec<T> {
    open spec fn spec_model(&self) -> Model {
        Model::List(Seq::new(self@.len(), |i: int| self@[i].spec_model()))
    }

    open spec fn spec_batches(&self) -> Seq<VisitEvent> {
        Seq::new(self@.len(), |i: int| VisitEvent::Value(self@[i].spec_model()))
    }

    #[verifier::loop_isolation(false)]
    fn as_value(&self) -> (v: Value<'_>) {
        let items = self.as_slice();
        let mut out: Vec<Value<'_>> = Vec::new();
        let mut i: usize = 0;
        while i < items.len()
            invariant
                i <= self@.len(),
                items@ == self@,
                out@.len() == i,
                forall|j: int|
                    0 <= j < i ==> crate::model::value_model(#[trigger] out@[j])
                        == self@[j].spec_model(),
            decreases self@.len() - i,
        {
            let item = vstd::slice::slice_index_get(items, i);
            out.push(item.as_value());
            i = i + 1;
        }
        proof {
            crate::model::lemma_values_model(out@);
            assert(crate::model::values_model(out@) =~= Seq::new(
                self@.len(),
                |j: int| self@[j].spec_model(),
            ));
        }
        Value::Listable(ListValue::Values(out))
    }

    #[verifier::loop_isolation(false)]
    fn visit<V: Visit>(&self, visit: &mut V) {
        let items = self.as_slice();
        let mut i: usize = 0;
        proof {
            assert(visit.obs() =~= old(visit).obs() + self.spec_batches().subrange(0, 0));
        }
        while i < items.len()
            invariant
                i <= self@.len(),
                items@ == self@,
                visit.obs() == old(visit).obs() + self.spec_batches().subrange(0, i as int),
            decreases self@.len() - i,
        {
            let item = vstd::slice::slice_index_get(items, i);
            let v = item.as_value();
            visit.visit_value(&v);
            proof {
                assert(visit.obs() =~= old(visit).obs() + self.spec_batches().subrange(
                    0,
                    i as int + 1,
                ));
            }
            i = i + 1;
        }
        proof {
            assert(self.spec_batches().subrange(0, self@.len() as int) =~= self.spec_batches());
        }
    }
}

impl<T: Valuable> Listable for Vec<T> {
    open spec fn spec_elems(&self) -> Seq<Model> {
        Seq::new(self@.len(), |i: int| self@[i].spec_model())
    }

    proof fn batches_deliver_elems(&self) {
        let ms = self.spec_elems();
        assert(self.spec_batches() =~= Seq::new(ms.len(), |i: int| VisitEvent::Value(ms[i])));
        crate::visit::lemma_value_events_elems(ms);
    }

    fn size_hint(&self) -> (r: (usize, Option<usize>))
        ensures
            r.0 == self.spec_elems().len(),
            r.1 == Some(r.0),
    {
        let n = self.len();
        (n, Some(n))
    }
}

} // verus!
