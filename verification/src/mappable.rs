use vstd::prelude::*;

use crate::model::{map_model, Model};
use crate::valuable::Valuable;
use crate::value::MapValue;
use crate::visit::{all_entry_events, events_entries, VisitEvent};

verus! {

/// A map-like producer: a sequence of key/value entries, visited through
/// `visit_entry` calls.
pub trait Mappable: Valuable {
    /// The entries the map stands for, in the order they are visited.
    spec fn spec_entry_models(&self) -> Seq<(Model, Model)>;

    /// The producer obligation: one visit delivers one `visit_entry` call
    /// per entry, carrying exactly the map's entries, in order.
    proof fn batches_deliver_entries(&self)
        ensures
            all_entry_events(self.spec_batches()),
            events_entries(self.spec_batches()) == self.spec_entry_models(),
    ;

    /// Bounds on the number of entries: a lower bound, and an upper bound
    /// where one is known. The bounds must hold of what `visit` emits.
    fn size_hint(&self) -> (r: (usize, Option<usize>))
        ensures
            r.0 <= self.spec_entry_models().len(),
            r.1 matches Some(u) ==> self.spec_entry_models().len() <= u,
    ;
}

impl<'a> Mappable for MapValue<'a> {
    open spec fn spec_entry_models(&self) -> Seq<(Model, Model)> {
        map_model(*self)
    }

    proof fn batches_deliver_entries(&self) {
        let es = map_model(*self);
        crate::model::lemma_entries_model(self.spec_entries());
        assert(self.spec_batches() =~= Seq::new(
            es.len(),
            |i: int| VisitEvent::Entry(es[i].0, es[i].1),
        ));
        crate::visit::lemma_entry_events_entries(es);
    }

    fn size_hint(&self) -> (r: (usize, Option<usize>))
        ensures
            r.0 == self.spec_entry_models().len(),
            r.1 == Some(r.0),
    {
        proof {
            crate::model::lemma_entries_model(self.spec_entries());
        }
        let n = self.len();
        (n, Some(n))
    }
}

} // verus!
