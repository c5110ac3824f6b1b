use vstd::prelude::*;

use crate::model::{
    lemma_entries_model, lemma_pairs_model, lemma_unnamed_batches_model, lemma_values_model,
    named_batches_model, named_values_model, unnamed_batches_model, value_model, FieldsModel,
    Model,
};
use crate::named_values::NamedValues;
use crate::valuable::Valuable;
use crate::value::{spec_num, FieldValues, ListValue, Value};
use crate::visit::{Visit, VisitEvent};

verus! {

/// A segment of a path into a nested value.
pub enum Segment<'a> {
    /// Access of a named struct field.
    Field(&'a str),
    /// Access of an unnamed struct field or a tuple field.
    TupleIndex(usize),
    /// Indexing of a list or a map.
    Index(Value<'a>),
}

/// A pointer to a value nested inside another value: an ordered sequence of
/// segments describing one path from the root down to the target.
#[derive(Clone, Copy)]
pub struct Pointer<'a> {
    path: &'a [Segment<'a>],
}

impl<'a> Pointer<'a> {
    /// The segments of the path.
    pub closed spec fn spec_path(&self) -> Seq<Segment<'a>> {
        self.path@
    }

    /// Creates a new pointer from its segments.
    pub fn new(path: &'a [Segment<'a>]) -> (r: Pointer<'a>)
        ensures
            r.spec_path() == path@,
    {
        Pointer { path }
    }

    /// Returns the path this pointer walks. An empty path points at the
    /// value itself.
    pub fn path(self) -> (r: &'a [Segment<'a>])
        ensures
            r@ == self.spec_path(),
    {
        self.path
    }

    /// Steps past the first segment of the path.
    pub fn step(self) -> (r: Pointer<'a>)
        requires
            self.spec_path().len() >= 1,
        ensures
            r.spec_path() == self.spec_path().skip(1),
    {
        Pointer { path: vstd::slice::slice_subrange(self.path, 1, self.path.len()) }
    }
}

/// True if a map key matches the value an `Index` segment carries: equal
/// scalars, with numeric values compared across widths.
pub open spec fn spec_key_matches(key: Model, iv: Value<'_>) -> bool {
    match key {
        Model::Bool(b) => iv is Bool && iv->Bool_0 == b,
        Model::Char(c) => iv is Char && iv->Char_0 == c,
        Model::I8(n) => spec_num(iv) == Some(n),
        Model::I16(n) => spec_num(iv) == Some(n),
        Model::I32(n) => spec_num(iv) == Some(n),
        Model::I64(n) => spec_num(iv) == Some(n),
        Model::I128(n) => spec_num(iv) == Some(n),
        Model::Isize(n) => spec_num(iv) == Some(n),
        Model::Str(s) => iv is String && iv->String_0@ == s,
        Model::U8(n) => spec_num(iv) == Some(n),
        Model::U16(n) => spec_num(iv) == Some(n),
        Model::U32(n) => spec_num(iv) == Some(n),
        Model::U64(n) => spec_num(iv) == Some(n),
        Model::U128(n) => spec_num(iv) == Some(n),
        Model::Usize(n) => spec_num(iv) == Some(n),
        _ => false,
    }
}

/// The first entry whose key matches the `Index` segment's value, if any.
pub open spec fn spec_entry_lookup(es: Seq<(Model, Model)>, iv: Value<'_>) -> Option<Model>
    decreases es.len(),
{
    if es.len() == 0 {
        None
    } else if spec_key_matches(es[0].0, iv) {
        Some(es[0].1)
    } else {
        spec_entry_lookup(es.drop_first(), iv)
    }
}

/// The element at flattened position `n` across a run of batches, if any.
pub open spec fn spec_select_item(bs: Seq<Seq<Model>>, n: int) -> Option<Model>
    decreases bs.len(),
{
    if bs.len() == 0 {
        None
    } else if 0 <= n < bs[0].len() {
        Some(bs[0][n])
    } else if n >= bs[0].len() {
        spec_select_item(bs.drop_first(), n - bs[0].len())
    } else {
        None
    }
}

/// The value of the first pair with the given name, if any.
pub open spec fn spec_pair_lookup(ps: Seq<(Seq<char>, Model)>, name: Seq<char>) -> Option<Model>
    decreases ps.len(),
{
    if ps.len() == 0 {
        None
    } else if ps[0].0 == name {
        Some(ps[0].1)
    } else {
        spec_pair_lookup(ps.drop_first(), name)
    }
}

/// The value of the first pair with the given name across a run of named
/// batches, if any.
pub open spec fn spec_select_pair(
    bs: Seq<Seq<(Seq<char>, Model)>>,
    name: Seq<char>,
) -> Option<Model>
    decreases bs.len(),
{
    if bs.len() == 0 {
        None
    } else {
        match spec_pair_lookup(bs[0], name) {
            Some(m) => Some(m),
            None => spec_select_pair(bs.drop_first(), name),
        }
    }
}

/// The value a path points at inside a value, if the path finds one.
pub open spec fn spec_pointee(m: Model, path: Seq<Segment<'_>>) -> Option<Model>
    decreases path.len(),
{
    if path.len() == 0 {
        Some(m)
    } else {
        match (m, path[0]) {
            (Model::List(ms), Segment::Index(iv)) => {
                match spec_num(iv) {
                    Some(n) => if 0 <= n < ms.len() {
                        spec_pointee(ms[n], path.drop_first())
                    } else {
                        None
                    },
                    None => None,
                }
            },
            (Model::Mapping(es), Segment::Index(iv)) => {
                match spec_entry_lookup(es, iv) {
                    Some(child) => spec_pointee(child, path.drop_first()),
                    None => None,
                }
            },
            (Model::Tuple(tm), Segment::TupleIndex(n)) => {
                match spec_select_item(tm.batches, n as int) {
                    Some(child) => spec_pointee(child, path.drop_first()),
                    None => None,
                }
            },
            (Model::Struct(sm), Segment::TupleIndex(n)) => {
                match sm.fields {
                    FieldsModel::Unnamed(bs) => match spec_select_item(bs, n as int) {
                        Some(child) => spec_pointee(child, path.drop_first()),
                        None => None,
                    },
                    FieldsModel::Named(_) => None,
                }
            },
            (Model::Struct(sm), Segment::Field(name)) => {
                match sm.fields {
                    FieldsModel::Named(bs) => match spec_select_pair(bs, name@) {
                        Some(child) => spec_pointee(child, path.drop_first()),
                        None => None,
                    },
                    FieldsModel::Unnamed(_) => None,
                }
            },
            _ => None,
        }
    }
}

/// True if walking the path never pairs a segment with a value of the wrong
/// shape: an `Index` segment applies only to a list or a map, a
/// `TupleIndex` segment only to a tuple or an unnamed-field struct, and a
/// `Field` segment only to a named-field struct. Where a segment finds no
/// target the walk stops, which is allowed.
pub open spec fn pointer_ok(m: Model, path: Seq<Segment<'_>>) -> bool
    decreases path.len(),
{
    if path.len() == 0 {
        true
    } else {
        match (m, path[0]) {
            (Model::List(ms), Segment::Index(iv)) => {
                match spec_num(iv) {
                    Some(n) => 0 <= n < ms.len() ==> pointer_ok(ms[n], path.drop_first()),
                    None => true,
                }
            },
            (Model::Mapping(es), Segment::Index(iv)) => {
                match spec_entry_lookup(es, iv) {
                    Some(child) => pointer_ok(child, path.drop_first()),
                    None => true,
                }
            },
            (Model::Tuple(tm), Segment::TupleIndex(n)) => {
                match spec_select_item(tm.batches, n as int) {
                    Some(child) => pointer_ok(child, path.drop_first()),
                    None => true,
                }
            },
            (Model::Struct(sm), Segment::TupleIndex(n)) => {
                match sm.fields {
                    FieldsModel::Unnamed(bs) => match spec_select_item(bs, n as int) {
                        Some(child) => pointer_ok(child, path.drop_first()),
                        None => true,
                    },
                    FieldsModel::Named(_) => false,
                }
            },
            (Model::Struct(sm), Segment::Field(name)) => {
                match sm.fields {
                    FieldsModel::Named(bs) => match spec_select_pair(bs, name@) {
                        Some(child) => pointer_ok(child, path.drop_first()),
                        None => true,
                    },
                    FieldsModel::Unnamed(_) => false,
                }
            },
            _ => false,
        }
    }
}

/// The single event that delivering a found pointee produces.
pub open spec fn pointee_events(o: Option<Model>) -> Seq<VisitEvent> {
    match o {
        Some(m) => seq![VisitEvent::Value(m)],
        None => Seq::empty(),
    }
}

/// Returns whether a map key matches the value an `Index` segment carries.
fn key_matches(key: &Value<'_>, iv: &Value<'_>) -> (r: bool)
    ensures
        r == spec_key_matches(value_model(*key), *iv),
{
    match key {
        Value::Bool(b) => {
            match iv.as_bool() {
                Some(x) => x == *b,
                None => false,
            }
        },
        Value::Char(c) => {
            match iv.as_char() {
                Some(x) => {
                    let cc = crate::strings::char_copy(c);
                    let xx = x;
                    crate::strings::char_eq(xx, cc)
                },
                None => false,
            }
        },
        Value::I8(n) => {
            match iv.as_i8() {
                Some(x) => x == *n,
                None => false,
            }
        },
        Value::I16(n) => {
            match iv.as_i16() {
                Some(x) => x == *n,
                None => false,
            }
        },
        Value::I32(n) => {
            match iv.as_i32() {
                Some(x) => x == *n,
                None => false,
            }
        },
        Value::I64(n) => {
            match iv.as_i64() {
                Some(x) => x == *n,
                None => false,
            }
        },
        Value::I128(n) => {
            match iv.as_i128() {
                Some(x) => x == *n,
                None => false,
            }
        },
        Value::Isize(n) => {
            match iv.as_isize() {
                Some(x) => x == *n,
                None => false,
            }
        },
        Value::String(s) => {
            match iv.as_str() {
                Some(x) => crate::strings::str_eq(x, s),
                None => false,
            }
        },
        Value::U8(n) => {
            match iv.as_u8() {
                Some(x) => x == *n,
                None => false,
            }
        },
        Value::U16(n) => {
            match iv.as_u16() {
                Some(x) => x == *n,
                None => false,
            }
        },
        Value::U32(n) => {
            match iv.as_u32() {
                Some(x) => x == *n,
                None => false,
            }
        },
        Value::U64(n) => {
            match iv.as_u64() {
                Some(x) => x == *n,
                None => false,
            }
        },
        Value::U128(n) => {
            match iv.as_u128() {
                Some(x) => x == *n,
                None => false,
            }
        },
        Value::Usize(n) => {
            match iv.as_usize() {
                Some(x) => x == *n,
                None => false,
            }
        },
        _ => false,
    }
}

/// Walks the path suffix starting at `idx` down from `v`, delivering the
/// pointee to the consumer when the path finds one.
#[verifier::loop_isolation(false)]
#[verifier::rlimit(60)]
fn visit_pointer_at<V: Visit>(v: &Value<'_>, path: &[Segment<'_>], idx: usize, visit: &mut V)
    requires
        idx <= path@.len(),
        pointer_ok(value_model(*v), path@.skip(idx as int)),
    ensures
        final(visit).obs() == old(visit).obs() + pointee_events(
            spec_pointee(value_model(*v), path@.skip(idx as int)),
        ),
    decreases path@.len() - idx, 0nat,
{
    let ghost suffix = path@.skip(idx as int);
    if idx == path.len() {
        visit.visit_value(v);
        proof {
            assert(suffix.len() == 0);
            assert(visit.obs() =~= old(visit).obs() + pointee_events(
                spec_pointee(value_model(*v), suffix),
            ));
        }
        return ;
    }
    proof {
        assert(suffix[0] == path@[idx as int]);
        assert(suffix.drop_first() =~= path@.skip(idx as int + 1));
    }
    let seg = vstd::slice::slice_index_get(path, idx);
    match (v, seg) {
        (Value::Listable(l), Segment::Index(iv)) => {
            let ghost ms = crate::model::list_model(*l);
            let llen = l.len();
            proof {
                assert(value_model(*v) == Model::List(ms));
                assert(ms.len() == llen);
            }
            match iv.as_usize() {
                Some(n) => {
                    match l {
                        ListValue::Slice(s) => {
                            if n < s.len() {
                                proof {
                                    assert(value_model(*v) == Model::List(ms));
                                    assert(spec_num(*iv) == Some(n as int));
                                    assert(ms[n as int] == crate::model::slice_elem_model(
                                        *s,
                                        n as int,
                                    ));
                                    assert(spec_pointee(value_model(*v), suffix) == spec_pointee(
                                        ms[n as int],
                                        suffix.drop_first(),
                                    ));
                                    assert(pointer_ok(ms[n as int], suffix.drop_first()));
                                }
                                if idx + 1 == path.len() {
                                    let elem = s.get(n);
                                    proof {
                                        assert(suffix.drop_first().len() == 0);
                                        assert(spec_pointee(ms[n as int], suffix.drop_first())
                                            == Some(ms[n as int]));
                                    }
                                    visit.visit_value(&elem);
                                    proof {
                                        assert(visit.obs() =~= old(visit).obs() + pointee_events(
                                            spec_pointee(value_model(*v), suffix),
                                        ));
                                    }
                                } else {
                                    proof {
                                        let rest = suffix.drop_first();
                                        assert(rest.len() > 0);
                                        assert(crate::render::is_scalar_model(ms[n as int]));
                                        assert(!pointer_ok(ms[n as int], rest));
                                        assert(false);
                                    }
                                }
                            } else {
                                proof {
                                    assert(visit.obs() =~= old(visit).obs());
                                    assert(pointee_events(spec_pointee(value_model(*v), suffix))
                                        =~= Seq::<VisitEvent>::empty());
                                }
                            }
                        },
                        ListValue::Values(vs) => {
                            proof {
                                lemma_values_model(vs@);
                            }
                            if n < vs.len() {
                                proof {
                                    assert(decreases_to!(path@.len() - idx => path@.len() - (idx
                                        + 1)));
                                }
                                visit_pointer_at(&vs[n], path, idx + 1, visit);
                                proof {
                                    assert(visit.obs() =~= old(visit).obs() + pointee_events(
                                        spec_pointee(value_model(*v), suffix),
                                    ));
                                }
                            } else {
                                proof {
                                    assert(spec_num(*iv) == Some(n as int));
                                    assert(n as int >= ms.len());
                                    assert(pointee_events(spec_pointee(value_model(*v), suffix))
                                        =~= Seq::<VisitEvent>::empty());
                                }
                            }
                        },
                    }
                },
                None => {
                    proof {
                        assert(spec_pointee(value_model(*v), suffix) is None);
                        assert(pointee_events(spec_pointee(value_model(*v), suffix))
                            =~= Seq::<VisitEvent>::empty());
                    }
                },
            }
        },
        (Value::Mappable(m), Segment::Index(iv)) => {
            let ghost es = crate::model::map_model(*m);
            proof {
                lemma_entries_model(m.entries@);
            }
            let items = m.entries.as_slice();
            let mut i: usize = 0;
            proof {
                assert(es.skip(0) =~= es);
            }
            while i < items.len()
                invariant
                    items@ == m.entries@,
                    i <= m.entries@.len(),
                    es == crate::model::map_model(*m),
                    es.len() == m.entries@.len(),
                    visit.obs() == old(visit).obs(),
                    spec_entry_lookup(es, *iv) == spec_entry_lookup(es.skip(i as int), *iv),
                decreases m.entries@.len() - i,
            {
                let entry = vstd::slice::slice_index_get(items, i);
                proof {
                    assert(es.skip(i as int)[0] == es[i as int]);
                }
                if key_matches(&entry.0, iv) {
                    visit_pointer_at(&entry.1, path, idx + 1, visit);
                    proof {
                        assert(spec_entry_lookup(es, *iv) == Some(es[i as int].1));
                        assert(visit.obs() =~= old(visit).obs() + pointee_events(
                            spec_pointee(value_model(*v), suffix),
                        ));
                    }
                    return ;
                }
                proof {
                    assert(es.skip(i as int).drop_first() =~= es.skip(i as int + 1));
                }
                i = i + 1;
            }
            proof {
                assert(es.skip(es.len() as int) =~= Seq::<(Model, Model)>::empty());
                assert(spec_entry_lookup(es, *iv) is None);
                assert(pointee_events(spec_pointee(value_model(*v), suffix))
                    =~= Seq::<VisitEvent>::empty());
            }
        },
        (Value::Tuplable(t), Segment::TupleIndex(n)) => {
            select_and_visit(&t.fields, *n, path, idx + 1, visit);
            proof {
                assert(visit.obs() =~= old(visit).obs() + pointee_events(
                    spec_pointee(value_model(*v), suffix),
                ));
            }
        },
        (Value::Structable(s), Segment::TupleIndex(n)) => {
            match &s.fields {
                FieldValues::Unnamed(bs) => {
                    select_and_visit(bs, *n, path, idx + 1, visit);
                    proof {
                        assert(visit.obs() =~= old(visit).obs() + pointee_events(
                            spec_pointee(value_model(*v), suffix),
                        ));
                    }
                },
                FieldValues::Named(_) => {
                    proof {
                        assert(false);
                    }
                },
            }
        },
        (Value::Structable(s), Segment::Field(name)) => {
            match &s.fields {
                FieldValues::Named(bs) => {
                    select_pair_and_visit(bs, name, path, idx + 1, visit);
                    proof {
                        assert(visit.obs() =~= old(visit).obs() + pointee_events(
                            spec_pointee(value_model(*v), suffix),
                        ));
                    }
                },
                FieldValues::Unnamed(_) => {
                    proof {
                        assert(false);
                    }
                },
            }
        },
        _ => {
            proof {
                assert(false);
            }
        },
    }
}

/// Finds the value at flattened position `n` across unnamed batches and
/// walks on from it.
#[verifier::loop_isolation(false)]
fn select_and_visit<V: Visit>(
    bs: &Vec<Vec<Value<'_>>>,
    n: usize,
    path: &[Segment<'_>],
    next: usize,
    visit: &mut V,
)
    requires
        next <= path@.len(),
        match spec_select_item(unnamed_batches_model(bs@), n as int) {
            Some(child) => pointer_ok(child, path@.skip(next as int)),
            None => true,
        },
    ensures
        final(visit).obs() == old(visit).obs() + (match spec_select_item(
            unnamed_batches_model(bs@),
            n as int,
        ) {
            Some(child) => pointee_events(spec_pointee(child, path@.skip(next as int))),
            None => Seq::empty(),
        }),
    decreases path@.len() - next, 1nat,
{
    let ghost bm = unnamed_batches_model(bs@);
    proof {
        lemma_unnamed_batches_model(bs@);
    }
    let items = bs.as_slice();
    let mut i: usize = 0;
    let mut rem: usize = n;
    proof {
        assert(bm.skip(0) =~= bm);
    }
    while i < items.len()
        invariant
            items@ == bs@,
            i <= bs@.len(),
            bm == unnamed_batches_model(bs@),
            bm.len() == bs@.len(),
            rem <= n,
            visit.obs() == old(visit).obs(),
            spec_select_item(bm, n as int) == spec_select_item(bm.skip(i as int), rem as int),
        decreases bs@.len() - i,
    {
        let b = vstd::slice::slice_index_get(items, i);
        proof {
            lemma_values_model(b@);
            assert(bm.skip(i as int)[0] == bm[i as int]);
            assert(bm.skip(i as int).drop_first() =~= bm.skip(i as int + 1));
        }
        if rem < b.len() {
            proof {
                assert(spec_select_item(bm, n as int) == Some(bm[i as int][rem as int]));
            }
            visit_pointer_at(&b[rem], path, next, visit);
            return ;
        }
        rem = rem - b.len();
        i = i + 1;
    }
    proof {
        assert(bm.skip(bm.len() as int) =~= Seq::<Seq<Model>>::empty());
        assert(spec_select_item(bm, n as int) is None);
    }
}

/// Finds the first field with the given name across named batches and walks
/// on from it.
#[verifier::loop_isolation(false)]
#[verifier::rlimit(60)]
fn select_pair_and_visit<V: Visit>(
    bs: &Vec<NamedValues<'_>>,
    name: &str,
    path: &[Segment<'_>],
    next: usize,
    visit: &mut V,
)
    requires
        next <= path@.len(),
        match spec_select_pair(named_batches_model(bs@), name@) {
            Some(child) => pointer_ok(child, path@.skip(next as int)),
            None => true,
        },
    ensures
        final(visit).obs() == old(visit).obs() + (match spec_select_pair(
            named_batches_model(bs@),
            name@,
        ) {
            Some(child) => pointee_events(spec_pointee(child, path@.skip(next as int))),
            None => Seq::empty(),
        }),
    decreases path@.len() - next, 1nat,
{
    let ghost bm = named_batches_model(bs@);
    proof {
        crate::model::lemma_named_batches_model(bs@);
    }
    let items = bs.as_slice();
    let mut i: usize = 0;
    proof {
        assert(bm.skip(0) =~= bm);
    }
    while i < items.len()
        invariant
            items@ == bs@,
            i <= bs@.len(),
            bm == named_batches_model(bs@),
            bm.len() == bs@.len(),
            visit.obs() == old(visit).obs(),
            spec_select_pair(bm, name@) == spec_select_pair(bm.skip(i as int), name@),
        decreases bs@.len() - i,
    {
        let nv = vstd::slice::slice_index_get(items, i);
        let ghost pm = named_values_model(*nv);
        proof {
            lemma_pairs_model(nv.fields@, nv.values@);
            assert(bm.skip(i as int)[0] == bm[i as int]);
            assert(bm.skip(i as int).drop_first() =~= bm.skip(i as int + 1));
        }
        let fl = nv.fields.len();
        let vl = nv.values.len();
        let k = if fl < vl {
            fl
        } else {
            vl
        };
        let mut j: usize = 0;
        proof {
            assert(pm.skip(0) =~= pm);
        }
        while j < k
            invariant
                k == pm.len(),
                j <= k,
                pm == named_values_model(bs@[i as int]),
                i < bs@.len(),
                items@ == bs@,
                bm == named_batches_model(bs@),
                bm.len() == bs@.len(),
                visit.obs() == old(visit).obs(),
                spec_select_pair(bm, name@) == spec_select_pair(bm.skip(i as int), name@),
                spec_pair_lookup(pm, name@) == spec_pair_lookup(pm.skip(j as int), name@),
            decreases k - j,
        {
            proof {
                assert(pm.skip(j as int)[0] == pm[j as int]);
                assert(pm.skip(j as int).drop_first() =~= pm.skip(j as int + 1));
            }
            let field = nv.fields[j];
            if crate::strings::str_eq(field.name(), name) {
                proof {
                    assert(spec_pair_lookup(pm, name@) == Some(pm[j as int].1));
                    assert(spec_select_pair(bm, name@) == Some(pm[j as int].1));
                }
                visit_pointer_at(&nv.values[j], path, next, visit);
                return ;
            }
            j = j + 1;
        }
        proof {
            assert(pm.skip(pm.len() as int) =~= Seq::<(Seq<char>, Model)>::empty());
            assert(spec_pair_lookup(pm, name@) is None);
            assert(bm.skip(i as int).drop_first() =~= bm.skip(i as int + 1));
        }
        i = i + 1;
    }
    proof {
        assert(bm.skip(bm.len() as int) =~= Seq::<Seq<(Seq<char>, Model)>>::empty());
        assert(spec_select_pair(bm, name@) is None);
    }
}

/// Walks a pointer down from a producer's value and delivers the pointee,
/// when the path finds one, to the consumer with a single `visit_value`
/// call. Every segment must match the shape of the value it is applied to.
pub fn visit_pointer<T: Valuable, V: Visit>(value: &T, pointer: Pointer<'_>, visit: &mut V)
    requires
        pointer_ok(value.spec_model(), pointer.spec_path()),
    ensures
        final(visit).obs() == old(visit).obs() + pointee_events(
            spec_pointee(value.spec_model(), pointer.spec_path()),
        ),
{
    let v = value.as_value();
    let path = pointer.path();
    proof {
        assert(path@.skip(0) =~= path@);
    }
    visit_pointer_at(&v, path, 0, visit);
}

} // verus!
