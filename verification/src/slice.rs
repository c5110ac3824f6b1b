use vstd::prelude::*;

use crate::model::{slice_elem_model, Model};
use crate::value::Value;

verus! {

/// A batched, contiguous run of same-typed primitive values, borrowed from
/// the producer. Handing a consumer one `Slice` stands for handing it one
/// `Value` per element, without boxing each element.
#[derive(Clone, Copy)]
pub enum Slice<'a> {
    /// A run of `bool` values.
    Bool(&'a [bool]),
    /// A run of `char` values.
    Char(&'a [char]),
    /// A run of `i8` values.
    I8(&'a [i8]),
    /// A run of `i16` values.
    I16(&'a [i16]),
    /// A run of `i32` values.
    I32(&'a [i32]),
    /// A run of `i64` values.
    I64(&'a [i64]),
    /// A run of `i128` values.
    I128(&'a [i128]),
    /// A run of `isize` values.
    Isize(&'a [isize]),
    /// A run of string slices.
    Str(&'a [&'a str]),
    /// A run of owned strings.
    String(&'a [String]),
    /// A run of `u8` values.
    U8(&'a [u8]),
    /// A run of `u16` values.
    U16(&'a [u16]),
    /// A run of `u32` values.
    U32(&'a [u32]),
    /// A run of `u64` values.
    U64(&'a [u64]),
    /// A run of `u128` values.
    U128(&'a [u128]),
    /// A run of `usize` values.
    Usize(&'a [usize]),
    /// A run of unit values.
    Unit(&'a [()]),
}

impl<'a> Slice<'a> {
    /// How many elements the run holds.
    pub open spec fn spec_len(&self) -> nat {
        match self {
            Slice::Bool(s) => s@.len(),
            Slice::Char(s) => s@.len(),
            Slice::I8(s) => s@.len(),
            Slice::I16(s) => s@.len(),
            Slice::I32(s) => s@.len(),
            Slice::I64(s) => s@.len(),
            Slice::I128(s) => s@.len(),
            Slice::Isize(s) => s@.len(),
            Slice::Str(s) => s@.len(),
            Slice::String(s) => s@.len(),
            Slice::U8(s) => s@.len(),
            Slice::U16(s) => s@.len(),
            Slice::U32(s) => s@.len(),
            Slice::U64(s) => s@.len(),
            Slice::U128(s) => s@.len(),
            Slice::Usize(s) => s@.len(),
            Slice::Unit(s) => s@.len(),
        }
    }

    /// Returns the number of elements in the run. The declared length is
    /// exact: it equals the number of values the run stands for.
    pub fn len(&self) -> (r: usize)
        ensures
            r == self.spec_len(),
    {
        match self {
            Slice::Bool(s) => s.len(),
            Slice::Char(s) => s.len(),
            Slice::I8(s) => s.len(),
            Slice::I16(s) => s.len(),
            Slice::I32(s) => s.len(),
            Slice::I64(s) => s.len(),
            Slice::I128(s) => s.len(),
            Slice::Isize(s) => s.len(),
            Slice::Str(s) => s.len(),
            Slice::String(s) => s.len(),
            Slice::U8(s) => s.len(),
            Slice::U16(s) => s.len(),
            Slice::U32(s) => s.len(),
            Slice::U64(s) => s.len(),
            Slice::U128(s) => s.len(),
            Slice::Usize(s) => s.len(),
            Slice::Unit(s) => s.len(),
        }
    }

    /// Returns `true` if the run holds no elements.
    pub fn is_empty(&self) -> (r: bool)
        ensures
            r == (self.spec_len() == 0),
    {
        self.len() == 0
    }

    /// Returns the element at the given position, as a `Value`.
    pub fn get(&self, index: usize) -> (r: Value<'a>)
        requires
            index < self.spec_len(),
        ensures
            crate::model::value_model(r) == slice_elem_model(*self, index as int),
            spec_elem_matches(*self, index as int, r),
    {
        match self {
            Slice::Bool(s) => {
                let e: bool = s[index];
                Value::Bool(e)
            },
            Slice::Char(s) => {
                let e: char = crate::strings::char_at(s, index);
                Value::Char(e)
            },
            Slice::I8(s) => {
                let e: i8 = s[index];
                Value::I8(e)
            },
            Slice::I16(s) => {
                let e: i16 = s[index];
                Value::I16(e)
            },
            Slice::I32(s) => {
                let e: i32 = s[index];
                Value::I32(e)
            },
            Slice::I64(s) => {
                let e: i64 = s[index];
                Value::I64(e)
            },
            Slice::I128(s) => {
                let e: i128 = s[index];
                Value::I128(e)
            },
            Slice::Isize(s) => {
                let e: isize = s[index];
                Value::Isize(e)
            },
            Slice::Str(s) => {
                let e: &str = s[index];
                Value::String(e)
            },
            Slice::String(s) => {
                let e: &String = &s[index];
                Value::String(e.as_str())
            },
            Slice::U8(s) => {
                let e: u8 = s[index];
                Value::U8(e)
            },
            Slice::U16(s) => {
                let e: u16 = s[index];
                Value::U16(e)
            },
            Slice::U32(s) => {
                let e: u32 = s[index];
                Value::U32(e)
            },
            Slice::U64(s) => {
                let e: u64 = s[index];
                Value::U64(e)
            },
            Slice::U128(s) => {
                let e: u128 = s[index];
                Value::U128(e)
            },
            Slice::Usize(s) => {
                let e: usize = s[index];
                Value::Usize(e)
            },
            Slice::Unit(_) => Value::Unit,
        }
    }

    /// Returns the elements in order, one `Value` per element.
    pub fn iter(&self) -> (r: Vec<Value<'a>>)
        ensures
            r@.len() == self.spec_len(),
            forall|i: int| 0 <= i < r@.len() ==> #[trigger] spec_elem_matches(*self, i, r@[i]),
            forall|i: int|
                0 <= i < r@.len() ==> #[trigger] crate::model::value_model(r@[i])
                    == slice_elem_model(*self, i),
    {
        let n = self.len();
        let mut out: Vec<Value<'a>> = Vec::new();
        let mut i: usize = 0;
        while i < n
            invariant
                n == self.spec_len(),
                i <= n,
                out@.len() == i,
                forall|j: int| 0 <= j < i ==> #[trigger] spec_elem_matches(*self, j, out@[j]),
                forall|j: int|
                    0 <= j < i ==> #[trigger] crate::model::value_model(out@[j])
                        == slice_elem_model(*self, j),
            decreases n - i,
        {
            out.push(self.get(i));
            i = i + 1;
        }
        out
    }

    /// Returns the elements in reverse order, one `Value` per element.
    pub fn iter_rev(&self) -> (r: Vec<Value<'a>>)
        ensures
            r@.len() == self.spec_len(),
            forall|i: int|
                0 <= i < r@.len() ==> #[trigger] spec_elem_matches(
                    *self,
                    r@.len() - 1 - i,
                    r@[i],
                ),
            forall|i: int|
                0 <= i < r@.len() ==> #[trigger] crate::model::value_model(r@[i])
                    == slice_elem_model(*self, r@.len() - 1 - i),
    {
        let n = self.len();
        let mut out: Vec<Value<'a>> = Vec::new();
        let mut i: usize = 0;
        while i < n
            invariant
                n == self.spec_len(),
                i <= n,
                out@.len() == i,
                forall|j: int| 0 <= j < i ==> #[trigger] spec_elem_matches(*self, n - 1 - j, out@[j]),
                forall|j: int|
                    0 <= j < i ==> #[trigger] crate::model::value_model(out@[j])
                        == slice_elem_model(*self, n - 1 - j),
            decreases n - i,
        {
            out.push(self.get(n - 1 - i));
            i = i + 1;
        }
        out
    }
}

/// True if `v` is exactly the `Value` form of element `i` of the run.
pub open spec fn spec_elem_matches(s: Slice<'_>, i: int, v: Value<'_>) -> bool {
    match s {
        Slice::Bool(e) => v == Value::<'_>::Bool(e@[i]),
        Slice::Char(e) => v == Value::<'_>::Char(e@[i]),
        Slice::I8(e) => v == Value::<'_>::I8(e@[i]),
        Slice::I16(e) => v == Value::<'_>::I16(e@[i]),
        Slice::I32(e) => v == Value::<'_>::I32(e@[i]),
        Slice::I64(e) => v == Value::<'_>::I64(e@[i]),
        Slice::I128(e) => v == Value::<'_>::I128(e@[i]),
        Slice::Isize(e) => v == Value::<'_>::Isize(e@[i]),
        Slice::Str(e) => v is String && v->String_0@ == e@[i]@,
        Slice::String(e) => v is String && v->String_0@ == e@[i]@,
        Slice::U8(e) => v == Value::<'_>::U8(e@[i]),
        Slice::U16(e) => v == Value::<'_>::U16(e@[i]),
        Slice::U32(e) => v == Value::<'_>::U32(e@[i]),
        Slice::U64(e) => v == Value::<'_>::U64(e@[i]),
        Slice::U128(e) => v == Value::<'_>::U128(e@[i]),
        Slice::Usize(e) => v == Value::<'_>::Usize(e@[i]),
        Slice::Unit(_) => v is Unit,
    }
}

} // verus!
