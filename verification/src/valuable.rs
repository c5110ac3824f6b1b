use vstd::prelude::*;

use crate::model::{value_model, Model};
use crate::slice::Slice;
use crate::value::Value;
use crate::visit::{
    lemma_one_slice_batch, lemma_per_value_batch, slice_visited, Visit, VisitEvent,
};

verus! {

/// A producer: a type whose value can be inspected through the protocol.
///
/// `as_value` converts the producer to a `Value` without visiting anything;
/// `visit` delivers the producer's batches to a consumer. What a producer
/// delivers is pinned down by its `spec_model` and `spec_batches`.
pub trait Valuable {
    /// The mathematical content of this producer's value.
    spec fn spec_model(&self) -> Model;

    /// The batches one `visit` call delivers.
    spec fn spec_batches(&self) -> Seq<VisitEvent>;

    /// Converts the producer to a `Value`.
    fn as_value(&self) -> (v: Value<'_>)
        ensures
            value_model(v) == self.spec_model(),
    ;

    /// Delivers the producer's batches to the consumer, appending exactly
    /// `spec_batches` to what the consumer has observed.
    fn visit<V: Visit>(&self, visit: &mut V)
        ensures
            final(visit).obs() == old(visit).obs() + self.spec_batches(),
    ;

    /// Visits a homogeneous run of producers. However the elements are
    /// batched, the consumer observes exactly the run's elements, in order.
    /// The default delivers one `visit_value` call per element — and so no
    /// call at all for an empty run; primitive element types override it
    /// with one batched `visit_primitive_slice` call over the untouched
    /// backing array, delivered even when the run is empty, so that a
    /// consumer still learns it was handed a (empty) primitive run. Each
    /// override's own contract pins that single batch.
    #[verifier::loop_isolation(false)]
    fn visit_slice<V: Visit>(slice: &[Self], visit: &mut V) where Self: Sized
        ensures
            slice_visited(
                old(visit).obs(),
                final(visit).obs(),
                Seq::new(slice@.len(), |i: int| slice@[i].spec_model()),
            ),
    {
        let ghost ms = Seq::new(slice@.len(), |i: int| slice@[i].spec_model());
        let mut i: usize = 0;
        while i < slice.len()
            invariant
                i <= slice@.len(),
                visit.obs() == old(visit).obs() + Seq::new(
                    i as nat,
                    |j: int| VisitEvent::Value(ms[j]),
                ),
            decreases slice@.len() - i,
        {
            let item = vstd::slice::slice_index_get(slice, i);
            let v = item.as_value();
            visit.visit_value(&v);
            proof {
                assert(visit.obs() =~= old(visit).obs() + Seq::new(
                    (i + 1) as nat,
                    |j: int| VisitEvent::Value(ms[j]),
                ));
            }
            i = i + 1;
        }
        proof {
            assert(visit.obs() == old(visit).obs() + Seq::new(
                ms.len(),
                |j: int| VisitEvent::Value(ms[j]),
            ));
            lemma_per_value_batch(old(visit).obs(), visit.obs(), ms);
        }
    }
}

impl Valuable for bool {
    open spec fn spec_model(&self) -> Model {
        Model::Bool(*self)
    }

    open spec fn spec_batches(&self) -> Seq<VisitEvent> {
        seq![VisitEvent::Value(self.spec_model())]
    }

    fn as_value(&self) -> (v: Value<'_>) {
        Value::Bool(*self)
    }

    fn visit<V: Visit>(&self, visit: &mut V) {
        let v = self.as_value();
        visit.visit_value(&v);
        proof {
            assert(visit.obs() =~= old(visit).obs() + self.spec_batches());
        }
    }

    fn visit_slice<V: Visit>(slice: &[bool], visit: &mut V)
        ensures
            final(visit).obs() == old(visit).obs().push(
                VisitEvent::PrimitiveSlice(crate::model::slice_model(Slice::Bool(slice))),
            ),
    {
        visit.visit_primitive_slice(Slice::Bool(slice));
        proof {
            lemma_one_slice_batch(
                old(visit).obs(),
                visit.obs(),
                crate::model::slice_model(Slice::Bool(slice)),
            );
            assert(crate::model::slice_model(Slice::Bool(slice)) =~= Seq::new(slice@.len(), |i: int| slice@[i].spec_model()));
        }
    }
}

impl Valuable for char {
    open spec fn spec_model(&self) -> Model {
        Model::Char(*self)
    }

    open spec fn spec_batches(&self) -> Seq<VisitEvent> {
        seq![VisitEvent::Value(self.spec_model())]
    }

    fn as_value(&self) -> (v: Value<'_>) {
        Value::Char(crate::strings::char_copy(self))
    }

    fn visit<V: Visit>(&self, visit: &mut V) {
        let v = self.as_value();
        visit.visit_value(&v);
        proof {
            assert(visit.obs() =~= old(visit).obs() + self.spec_batches());
        }
    }

    fn visit_slice<V: Visit>(slice: &[char], visit: &mut V)
        ensures
            final(visit).obs() == old(visit).obs().push(
                VisitEvent::PrimitiveSlice(crate::model::slice_model(Slice::Char(slice))),
            ),
    {
        visit.visit_primitive_slice(Slice::Char(slice));
        proof {
            lemma_one_slice_batch(
                old(visit).obs(),
                visit.obs(),
                crate::model::slice_model(Slice::Char(slice)),
            );
            assert(crate::model::slice_model(Slice::Char(slice)) =~= Seq::new(slice@.len(), |i: int| slice@[i].spec_model()));
        }
    }
}

impl Valuable for i8 {
    open spec fn spec_model(&self) -> Model {
        Model::I8(*self as int)
    }

    open spec fn spec_batches(&self) -> Seq<VisitEvent> {
        seq![VisitEvent::Value(self.spec_model())]
    }

    fn as_value(&self) -> (v: Value<'_>) {
        Value::I8(*self)
    }

    fn visit<V: Visit>(&self, visit: &mut V) {
        let v = self.as_value();
        visit.visit_value(&v);
        proof {
            assert(visit.obs() =~= old(visit).obs() + self.spec_batches());
        }
    }

    fn visit_slice<V: Visit>(slice: &[i8], visit: &mut V)
        ensures
            final(visit).obs() == old(visit).obs().push(
                VisitEvent::PrimitiveSlice(crate::model::slice_model(Slice::I8(slice))),
            ),
    {
        visit.visit_primitive_slice(Slice::I8(slice));
        proof {
            lemma_one_slice_batch(
                old(visit).obs(),
                visit.obs(),
                crate::model::slice_model(Slice::I8(slice)),
            );
            assert(crate::model::slice_model(Slice::I8(slice)) =~= Seq::new(slice@.len(), |i: int| slice@[i].spec_model()));
        }
    }
}

impl Valuable for i16 {
    open spec fn spec_model(&self) -> Model {
        Model::I16(*self as int)
    }

    open spec fn spec_batches(&self) -> Seq<VisitEvent> {
        seq![VisitEvent::Value(self.spec_model())]
    }

    fn as_value(&self) -> (v: Value<'_>) {
        Value::I16(*self)
    }

    fn visit<V: Visit>(&self, visit: &mut V) {
        let v = self.as_value();
        visit.visit_value(&v);
        proof {
            assert(visit.obs() =~= old(visit).obs() + self.spec_batches());
        }
    }

    fn visit_slice<V: Visit>(slice: &[i16], visit: &mut V)
        ensures
            final(visit).obs() == old(visit).obs().push(
                VisitEvent::PrimitiveSlice(crate::model::slice_model(Slice::I16(slice))),
            ),
    {
        visit.visit_primitive_slice(Slice::I16(slice));
        proof {
            lemma_one_slice_batch(
                old(visit).obs(),
                visit.obs(),
                crate::model::slice_model(Slice::I16(slice)),
            );
            assert(crate::model::slice_model(Slice::I16(slice)) =~= Seq::new(slice@.len(), |i: int| slice@[i].spec_model()));
        }
    }
}

impl Valuable for i32 {
    open spec fn spec_model(&self) -> Model {
        Model::I32(*self as int)
    }

    open spec fn spec_batches(&self) -> Seq<VisitEvent> {
        seq![VisitEvent::Value(self.spec_model())]
    }

    fn as_value(&self) -> (v: Value<'_>) {
        Value::I32(*self)
    }

    fn visit<V: Visit>(&self, visit: &mut V) {
        let v = self.as_value();
        visit.visit_value(&v);
        proof {
            assert(visit.obs() =~= old(visit).obs() + self.spec_batches());
        }
    }

    fn visit_slice<V: Visit>(slice: &[i32], visit: &mut V)
        ensures
            final(visit).obs() == old(visit).obs().push(
                VisitEvent::PrimitiveSlice(crate::model::slice_model(Slice::I32(slice))),
            ),
    {
        visit.visit_primitive_slice(Slice::I32(slice));
        proof {
            lemma_one_slice_batch(
                old(visit).obs(),
                visit.obs(),
                crate::model::slice_model(Slice::I32(slice)),
            );
            assert(crate::model::slice_model(Slice::I32(slice)) =~= Seq::new(slice@.len(), |i: int| slice@[i].spec_model()));
        }
    }
}

impl Valuable for i64 {
    open spec fn spec_model(&self) -> Model {
        Model::I64(*self as int)
    }

    open spec fn spec_batches(&self) -> Seq<VisitEvent> {
        seq![VisitEvent::Value(self.spec_model())]
    }

    fn as_value(&self) -> (v: Value<'_>) {
        Value::I64(*self)
    }

    fn visit<V: Visit>(&self, visit: &mut V) {
        let v = self.as_value();
        visit.visit_value(&v);
        proof {
            assert(visit.obs() =~= old(visit).obs() + self.spec_batches());
        }
    }

    fn visit_slice<V: Visit>(slice: &[i64], visit: &mut V)
        ensures
            final(visit).obs() == old(visit).obs().push(
                VisitEvent::PrimitiveSlice(crate::model::slice_model(Slice::I64(slice))),
            ),
    {
        visit.visit_primitive_slice(Slice::I64(slice));
        proof {
            lemma_one_slice_batch(
                old(visit).obs(),
                visit.obs(),
                crate::model::slice_model(Slice::I64(slice)),
            );
            assert(crate::model::slice_model(Slice::I64(slice)) =~= Seq::new(slice@.len(), |i: int| slice@[i].spec_model()));
        }
    }
}

impl Valuable for i128 {
    open spec fn spec_model(&self) -> Model {
        Model::I128(*self as int)
    }

    open spec fn spec_batches(&self) -> Seq<VisitEvent> {
        seq![VisitEvent::Value(self.spec_model())]
    }

    fn as_value(&self) -> (v: Value<'_>) {
        Value::I128(*self)
    }

    fn visit<V: Visit>(&self, visit: &mut V) {
        let v = self.as_value();
        visit.visit_value(&v);
        proof {
            assert(visit.obs() =~= old(visit).obs() + self.spec_batches());
        }
    }

    fn visit_slice<V: Visit>(slice: &[i128], visit: &mut V)
        ensures
            final(visit).obs() == old(visit).obs().push(
                VisitEvent::PrimitiveSlice(crate::model::slice_model(Slice::I128(slice))),
            ),
    {
        visit.visit_primitive_slice(Slice::I128(slice));
        proof {
            lemma_one_slice_batch(
                old(visit).obs(),
                visit.obs(),
                crate::model::slice_model(Slice::I128(slice)),
            );
            assert(crate::model::slice_model(Slice::I128(slice)) =~= Seq::new(slice@.len(), |i: int| slice@[i].spec_model()));
        }
    }
}

impl Valuable for isize {
    open spec fn spec_model(&self) -> Model {
        Model::Isize(*self as int)
    }

    open spec fn spec_batches(&self) -> Seq<VisitEvent> {
        seq![VisitEvent::Value(self.spec_model())]
    }

    fn as_value(&self) -> (v: Value<'_>) {
        Value::Isize(*self)
    }

    fn visit<V: Visit>(&self, visit: &mut V) {
        let v = self.as_value();
        visit.visit_value(&v);
        proof {
            assert(visit.obs() =~= old(visit).obs() + self.spec_batches());
        }
    }

    fn visit_slice<V: Visit>(slice: &[isize], visit: &mut V)
        ensures
            final(visit).obs() == old(visit).obs().push(
                VisitEvent::PrimitiveSlice(crate::model::slice_model(Slice::Isize(slice))),
            ),
    {
        visit.visit_primitive_slice(Slice::Isize(slice));
        proof {
            lemma_one_slice_batch(
                old(visit).obs(),
                visit.obs(),
                crate::model::slice_model(Slice::Isize(slice)),
            );
            assert(crate::model::slice_model(Slice::Isize(slice)) =~= Seq::new(slice@.len(), |i: int| slice@[i].spec_model()));
        }
    }
}

impl Valuable for u8 {
    open spec fn spec_model(&self) -> Model {
        Model::U8(*self as int)
    }

    open spec fn spec_batches(&self) -> Seq<VisitEvent> {
        seq![VisitEvent::Value(self.spec_model())]
    }

    fn as_value(&self) -> (v: Value<'_>) {
        Value::U8(*self)
    }

    fn visit<V: Visit>(&self, visit: &mut V) {
        let v = self.as_value();
        visit.visit_value(&v);
        proof {
            assert(visit.obs() =~= old(visit).obs() + self.spec_batches());
        }
    }

    fn visit_slice<V: Visit>(slice: &[u8], visit: &mut V)
        ensures
            final(visit).obs() == old(visit).obs().push(
                VisitEvent::PrimitiveSlice(crate::model::slice_model(Slice::U8(slice))),
            ),
    {
        visit.visit_primitive_slice(Slice::U8(slice));
        proof {
            lemma_one_slice_batch(
                old(visit).obs(),
                visit.obs(),
                crate::model::slice_model(Slice::U8(slice)),
            );
            assert(crate::model::slice_model(Slice::U8(slice)) =~= Seq::new(slice@.len(), |i: int| slice@[i].spec_model()));
        }
    }
}

impl Valuable for u16 {
    open spec fn spec_model(&self) -> Model {
        Model::U16(*self as int)
    }

    open spec fn spec_batches(&self) -> Seq<VisitEvent> {
        seq![VisitEvent::Value(self.spec_model())]
    }

    fn as_value(&self) -> (v: Value<'_>) {
        Value::U16(*self)
    }

    fn visit<V: Visit>(&self, visit: &mut V) {
        let v = self.as_value();
        visit.visit_value(&v);
        proof {
            assert(visit.obs() =~= old(visit).obs() + self.spec_batches());
        }
    }

    fn visit_slice<V: Visit>(slice: &[u16], visit: &mut V)
        ensures
            final(visit).obs() == old(visit).obs().push(
                VisitEvent::PrimitiveSlice(crate::model::slice_model(Slice::U16(slice))),
            ),
    {
        visit.visit_primitive_slice(Slice::U16(slice));
        proof {
            lemma_one_slice_batch(
                old(visit).obs(),
                visit.obs(),
                crate::model::slice_model(Slice::U16(slice)),
            );
            assert(crate::model::slice_model(Slice::U16(slice)) =~= Seq::new(slice@.len(), |i: int| slice@[i].spec_model()));
        }
    }
}

impl Valuable for u32 {
    open spec fn spec_model(&self) -> Model {
        Model::U32(*self as int)
    }

    open spec fn spec_batches(&self) -> Seq<VisitEvent> {
        seq![VisitEvent::Value(self.spec_model())]
    }

    fn as_value(&self) -> (v: Value<'_>) {
        Value::U32(*self)
    }

    fn visit<V: Visit>(&self, visit: &mut V) {
        let v = self.as_value();
        visit.visit_value(&v);
        proof {
            assert(visit.obs() =~= old(visit).obs() + self.spec_batches());
        }
    }

    fn visit_slice<V: Visit>(slice: &[u32], visit: &mut V)
        ensures
            final(visit).obs() == old(visit).obs().push(
                VisitEvent::PrimitiveSlice(crate::model::slice_model(Slice::U32(slice))),
            ),
    {
        visit.visit_primitive_slice(Slice::U32(slice));
        proof {
            lemma_one_slice_batch(
                old(visit).obs(),
                visit.obs(),
                crate::model::slice_model(Slice::U32(slice)),
            );
            assert(crate::model::slice_model(Slice::U32(slice)) =~= Seq::new(slice@.len(), |i: int| slice@[i].spec_model()));
        }
    }
}

impl Valuable for u64 {
    open spec fn spec_model(&self) -> Model {
        Model::U64(*self as int)
    }

    open spec fn spec_batches(&self) -> Seq<VisitEvent> {
        seq![VisitEvent::Value(self.spec_model())]
    }

    fn as_value(&self) -> (v: Value<'_>) {
        Value::U64(*self)
    }

    fn visit<V: Visit>(&self, visit: &mut V) {
        let v = self.as_value();
        visit.visit_value(&v);
        proof {
            assert(visit.obs() =~= old(visit).obs() + self.spec_batches());
        }
    }

    fn visit_slice<V: Visit>(slice: &[u64], visit: &mut V)
        ensures
            final(visit).obs() == old(visit).obs().push(
                VisitEvent::PrimitiveSlice(crate::model::slice_model(Slice::U64(slice))),
            ),
    {
        visit.visit_primitive_slice(Slice::U64(slice));
        proof {
            lemma_one_slice_batch(
                old(visit).obs(),
                visit.obs(),
                crate::model::slice_model(Slice::U64(slice)),
            );
            assert(crate::model::slice_model(Slice::U64(slice)) =~= Seq::new(slice@.len(), |i: int| slice@[i].spec_model()));
        }
    }
}

impl Valuable for u128 {
    open spec fn spec_model(&self) -> Model {
        Model::U128(*self as int)
    }

    open spec fn spec_batches(&self) -> Seq<VisitEvent> {
        seq![VisitEvent::Value(self.spec_model())]
    }

    fn as_value(&self) -> (v: Value<'_>) {
        Value::U128(*self)
    }

    fn visit<V: Visit>(&self, visit: &mut V) {
        let v = self.as_value();
        visit.visit_value(&v);
        proof {
            assert(visit.obs() =~= old(visit).obs() + self.spec_batches());
        }
    }

    fn visit_slice<V: Visit>(slice: &[u128], visit: &mut V)
        ensures
            final(visit).obs() == old(visit).obs().push(
                VisitEvent::PrimitiveSlice(crate::model::slice_model(Slice::U128(slice))),
            ),
    {
        visit.visit_primitive_slice(Slice::U128(slice));
        proof {
            lemma_one_slice_batch(
                old(visit).obs(),
                visit.obs(),
                crate::model::slice_model(Slice::U128(slice)),
            );
            assert(crate::model::slice_model(Slice::U128(slice)) =~= Seq::new(slice@.len(), |i: int| slice@[i].spec_model()));
        }
    }
}

impl Valuable for usize {
    open spec fn spec_model(&self) -> Model {
        Model::Usize(*self as int)
    }

    open spec fn spec_batches(&self) -> Seq<VisitEvent> {
        seq![VisitEvent::Value(self.spec_model())]
    }

    fn as_value(&self) -> (v: Value<'_>) {
        Value::Usize(*self)
    }

    fn visit<V: Visit>(&self, visit: &mut V) {
        let v = self.as_value();
        visit.visit_value(&v);
        proof {
            assert(visit.obs() =~= old(visit).obs() + self.spec_batches());
        }
    }

    fn visit_slice<V: Visit>(slice: &[usize], visit: &mut V)
        ensures
            final(visit).obs() == old(visit).obs().push(
                VisitEvent::PrimitiveSlice(crate::model::slice_model(Slice::Usize(slice))),
            ),
    {
        visit.visit_primitive_slice(Slice::Usize(slice));
        proof {
            lemma_one_slice_batch(
                old(visit).obs(),
                visit.obs(),
                crate::model::slice_model(Slice::Usize(slice)),
            );
            assert(crate::model::slice_model(Slice::Usize(slice)) =~= Seq::new(slice@.len(), |i: int| slice@[i].spec_model()));
        }
    }
}

impl Valuable for () {
    open spec fn spec_model(&self) -> Model {
        Model::Unit
    }

    open spec fn spec_batches(&self) -> Seq<VisitEvent> {
        seq![VisitEvent::Value(Model::Unit)]
    }

    fn as_value(&self) -> (v: Value<'_>) {
        Value::Unit
    }

    fn visit<V: Visit>(&self, visit: &mut V) {
        let v = self.as_value();
        visit.visit_value(&v);
        proof {
            assert(visit.obs() =~= old(visit).obs() + self.spec_batches());
        }
    }

    fn visit_slice<V: Visit>(slice: &[()], visit: &mut V)
        ensures
            final(visit).obs() == old(visit).obs().push(
                VisitEvent::PrimitiveSlice(crate::model::slice_model(Slice::Unit(slice))),
            ),
    {
        visit.visit_primitive_slice(Slice::Unit(slice));
        proof {
            lemma_one_slice_batch(
                old(visit).obs(),
                visit.obs(),
                crate::model::slice_model(Slice::Unit(slice)),
            );
            assert(crate::model::slice_model(Slice::Unit(slice)) =~= Seq::new(slice@.len(), |i: int| slice@[i].spec_model()));
        }
    }
}

impl<'s> Valuable for &'s str {
    open spec fn spec_model(&self) -> Model {
        Model::Str((*self)@)
    }

    open spec fn spec_batches(&self) -> Seq<VisitEvent> {
        seq![VisitEvent::Value(self.spec_model())]
    }

    fn as_value(&self) -> (v: Value<'_>) {
        Value::String(*self)
    }

    fn visit<V: Visit>(&self, visit: &mut V) {
        let v = self.as_value();
        visit.visit_value(&v);
        proof {
            assert(visit.obs() =~= old(visit).obs() + self.spec_batches());
        }
    }

    fn visit_slice<V: Visit>(slice: &[&'s str], visit: &mut V)
        ensures
            final(visit).obs() == old(visit).obs().push(
                VisitEvent::PrimitiveSlice(crate::model::slice_model(Slice::Str(slice))),
            ),
    {
        visit.visit_primitive_slice(Slice::Str(slice));
        proof {
            lemma_one_slice_batch(
                old(visit).obs(),
                visit.obs(),
                crate::model::slice_model(Slice::Str(slice)),
            );
            assert(crate::model::slice_model(Slice::Str(slice)) =~= Seq::new(slice@.len(), |i: int| slice@[i].spec_model()));
        }
    }
}

impl Valuable for String {
    open spec fn spec_model(&self) -> Model {
        Model::Str(self@)
    }

    open spec fn spec_batches(&self) -> Seq<VisitEvent> {
        seq![VisitEvent::Value(self.spec_model())]
    }

    fn as_value(&self) -> (v: Value<'_>) {
        Value::String(self.as_str())
    }

    fn visit<V: Visit>(&self, visit: &mut V) {
        let v = self.as_value();
        visit.visit_value(&v);
        proof {
            assert(visit.obs() =~= old(visit).obs() + self.spec_batches());
        }
    }

    fn visit_slice<V: Visit>(slice: &[String], visit: &mut V)
        ensures
            final(visit).obs() == old(visit).obs().push(
                VisitEvent::PrimitiveSlice(crate::model::slice_model(Slice::String(slice))),
            ),
    {
        visit.visit_primitive_slice(Slice::String(slice));
        proof {
            lemma_one_slice_batch(
                old(visit).obs(),
                visit.obs(),
                crate::model::slice_model(Slice::String(slice)),
            );
            assert(crate::model::slice_model(Slice::String(slice)) =~= Seq::new(slice@.len(), |i: int| slice@[i].spec_model()));
        }
    }
}

impl<T: Valuable> Valuable for Option<T> {
    open spec fn spec_model(&self) -> Model {
        match self {
            Some(v) => v.spec_model(),
            None => Model::Unit,
        }
    }

    open spec fn spec_batches(&self) -> Seq<VisitEvent> {
        seq![VisitEvent::Value(self.spec_model())]
    }

    fn as_value(&self) -> (v: Value<'_>) {
        match self {
            Some(v) => v.as_value(),
            None => Value::Unit,
        }
    }

    fn visit<V: Visit>(&self, visit: &mut V) {
        let v = self.as_value();
        visit.visit_value(&v);
        proof {
            assert(visit.obs() =~= old(visit).obs() + self.spec_batches());
        }
    }
}

impl<'r, T: Valuable> Valuable for &'r T {
    open spec fn spec_model(&self) -> Model {
        (**self).spec_model()
    }

    open spec fn spec_batches(&self) -> Seq<VisitEvent> {
        (**self).spec_batches()
    }

    fn as_value(&self) -> (v: Value<'_>) {
        (**self).as_value()
    }

    fn visit<V: Visit>(&self, visit: &mut V) {
        (**self).visit(visit);
    }
}

impl<T: Valuable> Valuable for Box<T> {
    open spec fn spec_model(&self) -> Model {
        (**self).spec_model()
    }

    open spec fn spec_batches(&self) -> Seq<VisitEvent> {
        (**self).spec_batches()
    }

    fn as_value(&self) -> (v: Value<'_>) {
        (&**self).as_value()
    }

    fn visit<V: Visit>(&self, visit: &mut V) {
        (&**self).visit(visit);
    }
}

} // verus!
