use vstd::prelude::*;

use crate::enumerable::{EnumDef, Variant};
use crate::named_values::NamedValues;
use crate::slice::Slice;
use crate::structable::StructDef;
use crate::tuplable::TupleDef;
use crate::model::{
    field_values_model, list_model, map_model, struct_model, tuple_model, value_model, Model,
};
use crate::valuable::Valuable;
use crate::visit::{
    entry_events, field_batches_events, named_batches_events, unnamed_batches_events, Visit,
    VisitEvent,
};

verus! {

/// Any inspectable value.
///
/// `Value` is the closed tagged union used to pass single values to a
/// visitor. Primitive types are enumerated, and structured data is carried by
/// one of the extension arms (`Listable`, `Mappable`, `Structable`,
/// `Enumerable`, `Tuplable`).
pub enum Value<'a> {
    /// A `bool` value.
    Bool(bool),
    /// A `char` value.
    Char(char),
    /// An `i8` value.
    I8(i8),
    /// An `i16` value.
    I16(i16),
    /// An `i32` value.
    I32(i32),
    /// An `i64` value.
    I64(i64),
    /// An `i128` value.
    I128(i128),
    /// An `isize` value.
    Isize(isize),
    /// A string value.
    String(&'a str),
    /// A `u8` value.
    U8(u8),
    /// A `u16` value.
    U16(u16),
    /// A `u32` value.
    U32(u32),
    /// A `u64` value.
    U64(u64),
    /// A `u128` value.
    U128(u128),
    /// A `usize` value.
    Usize(usize),
    /// An error, carried as its rendered message.
    Error(&'a str),
    /// A value of a type outside the protocol, carried as text rendered
    /// ahead of time through its formatting implementation; the rim around
    /// the library produces the text.
    Renderable(&'a str),
    /// A list-like value.
    Listable(ListValue<'a>),
    /// A map-like value.
    Mappable(MapValue<'a>),
    /// A struct-like value.
    Structable(StructValue<'a>),
    /// An enum-like value.
    Enumerable(EnumValue<'a>),
    /// A tuple-like value.
    Tuplable(TupleValue<'a>),
    /// The unit value, also standing for an absent value.
    Unit,
}

/// The contents of a list-like value: one contiguous primitive run, or a
/// general sequence of values.
pub enum ListValue<'a> {
    /// A batched run of same-typed primitives, borrowed from the producer.
    Slice(Slice<'a>),
    /// A general sequence of values.
    Values(Vec<Value<'a>>),
}

/// The contents of a map-like value: its entries, in the order the producer
/// yields them.
pub struct MapValue<'a> {
    pub entries: Vec<(Value<'a>, Value<'a>)>,
}

/// The field contents of a struct-like or enum-like value, split into
/// batches: a producer may deliver its fields across several batches of the
/// same kind, but never mixes named and unnamed batches.
pub enum FieldValues<'a> {
    /// Batches of named fields.
    Named(Vec<NamedValues<'a>>),
    /// Batches of unnamed (positional) fields.
    Unnamed(Vec<Vec<Value<'a>>>),
}

/// A struct-like value: a definition and the field contents.
pub struct StructValue<'a> {
    pub def: StructDef<'a>,
    pub fields: FieldValues<'a>,
}

/// An enum-like value: a definition, the current variant, and the variant's
/// field contents.
pub struct EnumValue<'a> {
    pub def: EnumDef<'a>,
    pub variant: Variant<'a>,
    pub fields: FieldValues<'a>,
}

/// A tuple-like value: a definition and batches of positional fields.
pub struct TupleValue<'a> {
    pub def: TupleDef,
    pub fields: Vec<Vec<Value<'a>>>,
}

impl<'a> FieldValues<'a> {
    /// True if the batches match the shape that `fields` declares: named
    /// batches for named fields, unnamed batches for unnamed fields.
    pub open spec fn matches_shape(&self, fields: crate::field::Fields<'a>) -> bool {
        match self {
            FieldValues::Named(_) => fields is Named,
            FieldValues::Unnamed(_) => fields is Unnamed,
        }
    }
}

impl<'a> MapValue<'a> {
    /// The map's entries.
    pub open spec fn spec_entries(&self) -> Seq<(Value<'a>, Value<'a>)> {
        self.entries@
    }

    /// Create a map value from its entries, kept in the given order.
    pub fn new(entries: Vec<(Value<'a>, Value<'a>)>) -> (r: MapValue<'a>)
        ensures
            r.spec_entries() == entries@,
    {
        MapValue { entries }
    }

    /// Returns the entries, in order.
    pub fn entries(&self) -> (r: &[(Value<'a>, Value<'a>)])
        ensures
            r@ == self.spec_entries(),
    {
        self.entries.as_slice()
    }

    /// Returns how many entries the map holds.
    pub fn len(&self) -> (r: usize)
        ensures
            r == self.spec_entries().len(),
    {
        self.entries.len()
    }
}

impl<'a> StructValue<'a> {
    /// The struct's definition.
    pub open spec fn spec_def(&self) -> StructDef<'a> {
        self.def
    }

    /// The struct's field batches.
    pub open spec fn spec_fields(&self) -> FieldValues<'a> {
        self.fields
    }

    /// Create a struct-like value. The batches must have the shape that the
    /// definition declares.
    pub fn new(def: StructDef<'a>, fields: FieldValues<'a>) -> (r: StructValue<'a>)
        requires
            fields.matches_shape(def.spec_fields()),
        ensures
            r.spec_def() == def,
            r.spec_fields() == fields,
    {
        StructValue { def, fields }
    }

    /// Returns the struct's definition.
    pub fn definition(&self) -> (r: &StructDef<'a>)
        ensures
            *r == self.spec_def(),
    {
        &self.def
    }

    /// Returns the struct's field batches.
    pub fn field_values(&self) -> (r: &FieldValues<'a>)
        ensures
            *r == self.spec_fields(),
    {
        &self.fields
    }
}

impl<'a> EnumValue<'a> {
    /// The enum's definition.
    pub open spec fn spec_def(&self) -> EnumDef<'a> {
        self.def
    }

    /// The current variant.
    pub open spec fn spec_variant(&self) -> Variant<'a> {
        self.variant
    }

    /// The variant's field batches.
    pub open spec fn spec_fields(&self) -> FieldValues<'a> {
        self.fields
    }

    /// Create an enum-like value. The batches must have the shape that the
    /// variant declares.
    pub fn new(def: EnumDef<'a>, variant: Variant<'a>, fields: FieldValues<'a>) -> (r: EnumValue<
        'a,
    >)
        requires
            fields.matches_shape(variant.spec_def().spec_fields()),
        ensures
            r.spec_def() == def,
            r.spec_variant() == variant,
            r.spec_fields() == fields,
    {
        EnumValue { def, variant, fields }
    }

    /// Returns the enum's definition.
    pub fn definition(&self) -> (r: &EnumDef<'a>)
        ensures
            *r == self.spec_def(),
    {
        &self.def
    }

    /// Returns the current variant.
    pub fn variant(&self) -> (r: &Variant<'a>)
        ensures
            *r == self.spec_variant(),
    {
        &self.variant
    }

    /// Returns the variant's field batches.
    pub fn field_values(&self) -> (r: &FieldValues<'a>)
        ensures
            *r == self.spec_fields(),
    {
        &self.fields
    }
}

impl<'a> TupleValue<'a> {
    /// The tuple's definition.
    pub open spec fn spec_def(&self) -> TupleDef {
        self.def
    }

    /// The tuple's field batches.
    pub open spec fn spec_fields(&self) -> Seq<Vec<Value<'a>>> {
        self.fields@
    }

    /// Create a tuple-like value from its definition and field batches.
    pub fn new(def: TupleDef, fields: Vec<Vec<Value<'a>>>) -> (r: TupleValue<'a>)
        ensures
            r.spec_def() == def,
            r.spec_fields() == fields@,
    {
        TupleValue { def, fields }
    }

    /// Returns the tuple's definition.
    pub fn definition(&self) -> (r: &TupleDef)
        ensures
            *r == self.spec_def(),
    {
        &self.def
    }

    /// Returns the tuple's field batches.
    pub fn field_values(&self) -> (r: &Vec<Vec<Value<'a>>>)
        ensures
            r@ == self.spec_fields(),
    {
        &self.fields
    }
}

/// The mathematical integer a numeric `Value` arm carries, or `None` for a
/// non-numeric value.
pub open spec fn spec_num(v: Value<'_>) -> Option<int> {
    match v {
        Value::I8(n) => Some(n as int),
        Value::I16(n) => Some(n as int),
        Value::I32(n) => Some(n as int),
        Value::I64(n) => Some(n as int),
        Value::I128(n) => Some(n as int),
        Value::Isize(n) => Some(n as int),
        Value::U8(n) => Some(n as int),
        Value::U16(n) => Some(n as int),
        Value::U32(n) => Some(n as int),
        Value::U64(n) => Some(n as int),
        Value::U128(n) => Some(n as int),
        Value::Usize(n) => Some(n as int),
        _ => None,
    }
}

impl<'a> Value<'a> {
    /// Returns the value if it is a `bool`.
    pub fn as_bool(&self) -> (r: Option<bool>)
        ensures
            r == (if self is Bool {
                Some(self->Bool_0)
            } else {
                Option::<bool>::None
            }),
    {
        match self {
            Value::Bool(v) => Some(*v),
            _ => None,
        }
    }

    /// Returns the value if it is a `char`.
    pub fn as_char(&self) -> (r: Option<char>)
        ensures
            r == (if self is Char {
                Some(self->Char_0)
            } else {
                Option::<char>::None
            }),
    {
        match self {
            Value::Char(v) => Some(*v),
            _ => None,
        }
    }

    /// Returns the value if it is a string.
    pub fn as_str(&self) -> (r: Option<&str>)
        ensures
            match r {
                Some(s) => self is String && s@ == self->String_0@,
                None => !(self is String),
            },
    {
        match self {
            Value::String(v) => Some(v),
            _ => None,
        }
    }

    /// Returns the error message if the value is an error.
    pub fn as_error(&self) -> (r: Option<&str>)
        ensures
            match r {
                Some(s) => self is Error && s@ == self->Error_0@,
                None => !(self is Error),
            },
    {
        match self {
            Value::Error(v) => Some(v),
            _ => None,
        }
    }

    /// Returns the pre-rendered text if the value is renderable.
    pub fn as_renderable(&self) -> (r: Option<&str>)
        ensures
            match r {
                Some(s) => self is Renderable && s@ == self->Renderable_0@,
                None => !(self is Renderable),
            },
    {
        match self {
            Value::Renderable(v) => Some(v),
            _ => None,
        }
    }

    /// Returns the list contents if the value is list-like.
    pub fn as_listable(&self) -> (r: Option<&ListValue<'a>>)
        ensures
            match r {
                Some(l) => self is Listable && *l == self->Listable_0,
                None => !(self is Listable),
            },
    {
        match self {
            Value::Listable(v) => Some(v),
            _ => None,
        }
    }

    /// Returns the map contents if the value is map-like.
    pub fn as_mappable(&self) -> (r: Option<&MapValue<'a>>)
        ensures
            match r {
                Some(m) => self is Mappable && *m == self->Mappable_0,
                None => !(self is Mappable),
            },
    {
        match self {
            Value::Mappable(v) => Some(v),
            _ => None,
        }
    }

    /// Returns the struct contents if the value is struct-like.
    pub fn as_structable(&self) -> (r: Option<&StructValue<'a>>)
        ensures
            match r {
                Some(s) => self is Structable && *s == self->Structable_0,
                None => !(self is Structable),
            },
    {
        match self {
            Value::Structable(v) => Some(v),
            _ => None,
        }
    }

    /// Returns the enum contents if the value is enum-like.
    pub fn as_enumerable(&self) -> (r: Option<&EnumValue<'a>>)
        ensures
            match r {
                Some(e) => self is Enumerable && *e == self->Enumerable_0,
                None => !(self is Enumerable),
            },
    {
        match self {
            Value::Enumerable(v) => Some(v),
            _ => None,
        }
    }

    /// Returns the tuple contents if the value is tuple-like.
    pub fn as_tuplable(&self) -> (r: Option<&TupleValue<'a>>)
        ensures
            match r {
                Some(t) => self is Tuplable && *t == self->Tuplable_0,
                None => !(self is Tuplable),
            },
    {
        match self {
            Value::Tuplable(v) => Some(v),
            _ => None,
        }
    }
}

impl<'a> Value<'a> {
    /// Returns the value as `i8` if it is numeric and fits.
    pub fn as_i8(&self) -> (r: Option<i8>)
        ensures
            (r is Some) <==> (spec_num(*self) matches Some(n) && i8::MIN <= n <= i8::MAX),
            r matches Some(x) ==> spec_num(*self) == Some(x as int),
    {
        match self {
            Value::I8(v) => {
                let x = *v as i128;
                if i8::MIN as i128 <= x && x <= i8::MAX as i128 {
                    Some(x as i8)
                } else {
                    None
                }
            },
            Value::I16(v) => {
                let x = *v as i128;
                if i8::MIN as i128 <= x && x <= i8::MAX as i128 {
                    Some(x as i8)
                } else {
                    None
                }
            },
            Value::I32(v) => {
                let x = *v as i128;
                if i8::MIN as i128 <= x && x <= i8::MAX as i128 {
                    Some(x as i8)
                } else {
                    None
                }
            },
            Value::I64(v) => {
                let x = *v as i128;
                if i8::MIN as i128 <= x && x <= i8::MAX as i128 {
                    Some(x as i8)
                } else {
                    None
                }
            },
            Value::I128(v) => {
                let x = *v as i128;
                if i8::MIN as i128 <= x && x <= i8::MAX as i128 {
                    Some(x as i8)
                } else {
                    None
                }
            },
            Value::Isize(v) => {
                let x = *v as i128;
                if i8::MIN as i128 <= x && x <= i8::MAX as i128 {
                    Some(x as i8)
                } else {
                    None
                }
            },
            Value::U8(v) => {
                let y = *v as u128;
                if y <= i8::MAX as u128 {
                    Some(y as i8)
                } else {
                    None
                }
            },
            Value::U16(v) => {
                let y = *v as u128;
                if y <= i8::MAX as u128 {
                    Some(y as i8)
                } else {
                    None
                }
            },
            Value::U32(v) => {
                let y = *v as u128;
                if y <= i8::MAX as u128 {
                    Some(y as i8)
                } else {
                    None
                }
            },
            Value::U64(v) => {
                let y = *v as u128;
                if y <= i8::MAX as u128 {
                    Some(y as i8)
                } else {
                    None
                }
            },
            Value::U128(v) => {
                let y = *v as u128;
                if y <= i8::MAX as u128 {
                    Some(y as i8)
                } else {
                    None
                }
            },
            Value::Usize(v) => {
                let y = *v as u128;
                if y <= i8::MAX as u128 {
                    Some(y as i8)
                } else {
                    None
                }
            },
            _ => None,
        }
    }

    /// Returns the value as `i16` if it is numeric and fits.
    pub fn as_i16(&self) -> (r: Option<i16>)
        ensures
            (r is Some) <==> (spec_num(*self) matches Some(n) && i16::MIN <= n <= i16::MAX),
            r matches Some(x) ==> spec_num(*self) == Some(x as int),
    {
        match self {
            Value::I8(v) => {
                let x = *v as i128;
                if i16::MIN as i128 <= x && x <= i16::MAX as i128 {
                    Some(x as i16)
                } else {
                    None
                }
            },
            Value::I16(v) => {
                let x = *v as i128;
                if i16::MIN as i128 <= x && x <= i16::MAX as i128 {
                    Some(x as i16)
                } else {
                    None
                }
            },
            Value::I32(v) => {
                let x = *v as i128;
                if i16::MIN as i128 <= x && x <= i16::MAX as i128 {
                    Some(x as i16)
                } else {
                    None
                }
            },
            Value::I64(v) => {
                let x = *v as i128;
                if i16::MIN as i128 <= x && x <= i16::MAX as i128 {
                    Some(x as i16)
                } else {
                    None
                }
            },
            Value::I128(v) => {
                let x = *v as i128;
                if i16::MIN as i128 <= x && x <= i16::MAX as i128 {
                    Some(x as i16)
                } else {
                    None
                }
            },
            Value::Isize(v) => {
                let x = *v as i128;
                if i16::MIN as i128 <= x && x <= i16::MAX as i128 {
                    Some(x as i16)
                } else {
                    None
                }
            },
            Value::U8(v) => {
                let y = *v as u128;
                if y <= i16::MAX as u128 {
                    Some(y as i16)
                } else {
                    None
                }
            },
            Value::U16(v) => {
                let y = *v as u128;
                if y <= i16::MAX as u128 {
                    Some(y as i16)
                } else {
                    None
                }
            },
            Value::U32(v) => {
                let y = *v as u128;
                if y <= i16::MAX as u128 {
                    Some(y as i16)
                } else {
                    None
                }
            },
            Value::U64(v) => {
                let y = *v as u128;
                if y <= i16::MAX as u128 {
                    Some(y as i16)
                } else {
                    None
                }
            },
            Value::U128(v) => {
                let y = *v as u128;
                if y <= i16::MAX as u128 {
                    Some(y as i16)
                } else {
                    None
                }
            },
            Value::Usize(v) => {
                let y = *v as u128;
                if y <= i16::MAX as u128 {
                    Some(y as i16)
                } else {
                    None
                }
            },
            _ => None,
        }
    }

    /// Returns the value as `i32` if it is numeric and fits.
    pub fn as_i32(&self) -> (r: Option<i32>)
        ensures
            (r is Some) <==> (spec_num(*self) matches Some(n) && i32::MIN <= n <= i32::MAX),
            r matches Some(x) ==> spec_num(*self) == Some(x as int),
    {
        match self {
            Value::I8(v) => {
                let x = *v as i128;
                if i32::MIN as i128 <= x && x <= i32::MAX as i128 {
                    Some(x as i32)
                } else {
                    None
                }
            },
            Value::I16(v) => {
                let x = *v as i128;
                if i32::MIN as i128 <= x && x <= i32::MAX as i128 {
                    Some(x as i32)
                } else {
                    None
                }
            },
            Value::I32(v) => {
                let x = *v as i128;
                if i32::MIN as i128 <= x && x <= i32::MAX as i128 {
                    Some(x as i32)
                } else {
                    None
                }
            },
            Value::I64(v) => {
                let x = *v as i128;
                if i32::MIN as i128 <= x && x <= i32::MAX as i128 {
                    Some(x as i32)
                } else {
                    None
                }
            },
            Value::I128(v) => {
                let x = *v as i128;
                if i32::MIN as i128 <= x && x <= i32::MAX as i128 {
                    Some(x as i32)
                } else {
                    None
                }
            },
            Value::Isize(v) => {
                let x = *v as i128;
                if i32::MIN as i128 <= x && x <= i32::MAX as i128 {
                    Some(x as i32)
                } else {
                    None
                }
            },
            Value::U8(v) => {
                let y = *v as u128;
                if y <= i32::MAX as u128 {
                    Some(y as i32)
                } else {
                    None
                }
            },
            Value::U16(v) => {
                let y = *v as u128;
                if y <= i32::MAX as u128 {
                    Some(y as i32)
                } else {
                    None
                }
            },
            Value::U32(v) => {
                let y = *v as u128;
                if y <= i32::MAX as u128 {
                    Some(y as i32)
                } else {
                    None
                }
            },
            Value::U64(v) => {
                let y = *v as u128;
                if y <= i32::MAX as u128 {
                    Some(y as i32)
                } else {
                    None
                }
            },
            Value::U128(v) => {
                let y = *v as u128;
                if y <= i32::MAX as u128 {
                    Some(y as i32)
                } else {
                    None
                }
            },
            Value::Usize(v) => {
                let y = *v as u128;
                if y <= i32::MAX as u128 {
                    Some(y as i32)
                } else {
                    None
                }
            },
            _ => None,
        }
    }

    /// Returns the value as `i64` if it is numeric and fits.
    pub fn as_i64(&self) -> (r: Option<i64>)
        ensures
            (r is Some) <==> (spec_num(*self) matches Some(n) && i64::MIN <= n <= i64::MAX),
            r matches Some(x) ==> spec_num(*self) == Some(x as int),
    {
        match self {
            Value::I8(v) => {
                let x = *v as i128;
                if i64::MIN as i128 <= x && x <= i64::MAX as i128 {
                    Some(x as i64)
                } else {
                    None
                }
            },
            Value::I16(v) => {
                let x = *v as i128;
                if i64::MIN as i128 <= x && x <= i64::MAX as i128 {
                    Some(x as i64)
                } else {
                    None
                }
            },
            Value::I32(v) => {
                let x = *v as i128;
                if i64::MIN as i128 <= x && x <= i64::MAX as i128 {
                    Some(x as i64)
                } else {
                    None
                }
            },
            Value::I64(v) => {
                let x = *v as i128;
                if i64::MIN as i128 <= x && x <= i64::MAX as i128 {
                    Some(x as i64)
                } else {
                    None
                }
            },
            Value::I128(v) => {
                let x = *v as i128;
                if i64::MIN as i128 <= x && x <= i64::MAX as i128 {
                    Some(x as i64)
                } else {
                    None
                }
            },
            Value::Isize(v) => {
                let x = *v as i128;
                if i64::MIN as i128 <= x && x <= i64::MAX as i128 {
                    Some(x as i64)
                } else {
                    None
                }
            },
            Value::U8(v) => {
                let y = *v as u128;
                if y <= i64::MAX as u128 {
                    Some(y as i64)
                } else {
                    None
                }
            },
            Value::U16(v) => {
                let y = *v as u128;
                if y <= i64::MAX as u128 {
                    Some(y as i64)
                } else {
                    None
                }
            },
            Value::U32(v) => {
                let y = *v as u128;
                if y <= i64::MAX as u128 {
                    Some(y as i64)
                } else {
                    None
                }
            },
            Value::U64(v) => {
                let y = *v as u128;
                if y <= i64::MAX as u128 {
                    Some(y as i64)
                } else {
                    None
                }
            },
            Value::U128(v) => {
                let y = *v as u128;
                if y <= i64::MAX as u128 {
                    Some(y as i64)
                } else {
                    None
                }
            },
            Value::Usize(v) => {
                let y = *v as u128;
                if y <= i64::MAX as u128 {
                    Some(y as i64)
                } else {
                    None
                }
            },
            _ => None,
        }
    }

    /// Returns the value as `i128` if it is numeric and fits.
    pub fn as_i128(&self) -> (r: Option<i128>)
        ensures
            (r is Some) <==> (spec_num(*self) matches Some(n) && i128::MIN <= n <= i128::MAX),
            r matches Some(x) ==> spec_num(*self) == Some(x as int),
    {
        match self {
            Value::I8(v) => {
                let x = *v as i128;
                Some(x as i128)
            },
            Value::I16(v) => {
                let x = *v as i128;
                Some(x as i128)
            },
            Value::I32(v) => {
                let x = *v as i128;
                Some(x as i128)
            },
            Value::I64(v) => {
                let x = *v as i128;
                Some(x as i128)
            },
            Value::I128(v) => {
                let x = *v as i128;
                Some(x as i128)
            },
            Value::Isize(v) => {
                let x = *v as i128;
                Some(x as i128)
            },
            Value::U8(v) => {
                let y = *v as u128;
                if y <= i128::MAX as u128 {
                    Some(y as i128)
                } else {
                    None
                }
            },
            Value::U16(v) => {
                let y = *v as u128;
                if y <= i128::MAX as u128 {
                    Some(y as i128)
                } else {
                    None
                }
            },
            Value::U32(v) => {
                let y = *v as u128;
                if y <= i128::MAX as u128 {
                    Some(y as i128)
                } else {
                    None
                }
            },
            Value::U64(v) => {
                let y = *v as u128;
                if y <= i128::MAX as u128 {
                    Some(y as i128)
                } else {
                    None
                }
            },
            Value::U128(v) => {
                let y = *v as u128;
                if y <= i128::MAX as u128 {
                    Some(y as i128)
                } else {
                    None
                }
            },
            Value::Usize(v) => {
                let y = *v as u128;
                if y <= i128::MAX as u128 {
                    Some(y as i128)
                } else {
                    None
                }
            },
            _ => None,
        }
    }

    /// Returns the value as `isize` if it is numeric and fits.
    pub fn as_isize(&self) -> (r: Option<isize>)
        ensures
            (r is Some) <==> (spec_num(*self) matches Some(n) && isize::MIN <= n <= isize::MAX),
            r matches Some(x) ==> spec_num(*self) == Some(x as int),
    {
        match self {
            Value::I8(v) => {
                let x = *v as i128;
                if isize::MIN as i128 <= x && x <= isize::MAX as i128 {
                    Some(x as isize)
                } else {
                    None
                }
            },
            Value::I16(v) => {
                let x = *v as i128;
                if isize::MIN as i128 <= x && x <= isize::MAX as i128 {
                    Some(x as isize)
                } else {
                    None
                }
            },
            Value::I32(v) => {
                let x = *v as i128;
                if isize::MIN as i128 <= x && x <= isize::MAX as i128 {
                    Some(x as isize)
                } else {
                    None
                }
            },
            Value::I64(v) => {
                let x = *v as i128;
                if isize::MIN as i128 <= x && x <= isize::MAX as i128 {
                    Some(x as isize)
                } else {
                    None
                }
            },
            Value::I128(v) => {
                let x = *v as i128;
                if isize::MIN as i128 <= x && x <= isize::MAX as i128 {
                    Some(x as isize)
                } else {
                    None
                }
            },
            Value::Isize(v) => {
                let x = *v as i128;
                if isize::MIN as i128 <= x && x <= isize::MAX as i128 {
                    Some(x as isize)
                } else {
                    None
                }
            },
            Value::U8(v) => {
                let y = *v as u128;
                if y <= isize::MAX as u128 {
                    Some(y as isize)
                } else {
                    None
                }
            },
            Value::U16(v) => {
                let y = *v as u128;
                if y <= isize::MAX as u128 {
                    Some(y as isize)
                } else {
                    None
                }
            },
            Value::U32(v) => {
                let y = *v as u128;
                if y <= isize::MAX as u128 {
                    Some(y as isize)
                } else {
                    None
                }
            },
            Value::U64(v) => {
                let y = *v as u128;
                if y <= isize::MAX as u128 {
                    Some(y as isize)
                } else {
                    None
                }
            },
            Value::U128(v) => {
                let y = *v as u128;
                if y <= isize::MAX as u128 {
                    Some(y as isize)
                } else {
                    None
                }
            },
            Value::Usize(v) => {
                let y = *v as u128;
                if y <= isize::MAX as u128 {
                    Some(y as isize)
                } else {
                    None
                }
            },
            _ => None,
        }
    }

    /// Returns the value as `u8` if it is numeric and fits.
    pub fn as_u8(&self) -> (r: Option<u8>)
        ensures
            (r is Some) <==> (spec_num(*self) matches Some(n) && u8::MIN <= n <= u8::MAX),
            r matches Some(x) ==> spec_num(*self) == Some(x as int),
    {
        match self {
            Value::I8(v) => {
                let x = *v as i128;
                if x >= 0 && x as u128 <= u8::MAX as u128 {
                    Some(x as u8)
                } else {
                    None
                }
            },
            Value::I16(v) => {
                let x = *v as i128;
                if x >= 0 && x as u128 <= u8::MAX as u128 {
                    Some(x as u8)
                } else {
                    None
                }
            },
            Value::I32(v) => {
                let x = *v as i128;
                if x >= 0 && x as u128 <= u8::MAX as u128 {
                    Some(x as u8)
                } else {
                    None
                }
            },
            Value::I64(v) => {
                let x = *v as i128;
                if x >= 0 && x as u128 <= u8::MAX as u128 {
                    Some(x as u8)
                } else {
                    None
                }
            },
            Value::I128(v) => {
                let x = *v as i128;
                if x >= 0 && x as u128 <= u8::MAX as u128 {
                    Some(x as u8)
                } else {
                    None
                }
            },
            Value::Isize(v) => {
                let x = *v as i128;
                if x >= 0 && x as u128 <= u8::MAX as u128 {
                    Some(x as u8)
                } else {
                    None
                }
            },
            Value::U8(v) => {
                let y = *v as u128;
                if y <= u8::MAX as u128 {
                    Some(y as u8)
                } else {
                    None
                }
            },
            Value::U16(v) => {
                let y = *v as u128;
                if y <= u8::MAX as u128 {
                    Some(y as u8)
                } else {
                    None
                }
            },
            Value::U32(v) => {
                let y = *v as u128;
                if y <= u8::MAX as u128 {
                    Some(y as u8)
                } else {
                    None
                }
            },
            Value::U64(v) => {
                let y = *v as u128;
                if y <= u8::MAX as u128 {
                    Some(y as u8)
                } else {
                    None
                }
            },
            Value::U128(v) => {
                let y = *v as u128;
                if y <= u8::MAX as u128 {
                    Some(y as u8)
                } else {
                    None
                }
            },
            Value::Usize(v) => {
                let y = *v as u128;
                if y <= u8::MAX as u128 {
                    Some(y as u8)
                } else {
                    None
                }
            },
            _ => None,
        }
    }

    /// Returns the value as `u16` if it is numeric and fits.
    pub fn as_u16(&self) -> (r: Option<u16>)
        ensures
            (r is Some) <==> (spec_num(*self) matches Some(n) && u16::MIN <= n <= u16::MAX),
            r matches Some(x) ==> spec_num(*self) == Some(x as int),
    {
        match self {
            Value::I8(v) => {
                let x = *v as i128;
                if x >= 0 && x as u128 <= u16::MAX as u128 {
                    Some(x as u16)
                } else {
                    None
                }
            },
            Value::I16(v) => {
                let x = *v as i128;
                if x >= 0 && x as u128 <= u16::MAX as u128 {
                    Some(x as u16)
                } else {
                    None
                }
            },
            Value::I32(v) => {
                let x = *v as i128;
                if x >= 0 && x as u128 <= u16::MAX as u128 {
                    Some(x as u16)
                } else {
                    None
                }
            },
            Value::I64(v) => {
                let x = *v as i128;
                if x >= 0 && x as u128 <= u16::MAX as u128 {
                    Some(x as u16)
                } else {
                    None
                }
            },
            Value::I128(v) => {
                let x = *v as i128;
                if x >= 0 && x as u128 <= u16::MAX as u128 {
                    Some(x as u16)
                } else {
                    None
                }
            },
            Value::Isize(v) => {
                let x = *v as i128;
                if x >= 0 && x as u128 <= u16::MAX as u128 {
                    Some(x as u16)
                } else {
                    None
                }
            },
            Value::U8(v) => {
                let y = *v as u128;
                if y <= u16::MAX as u128 {
                    Some(y as u16)
                } else {
                    None
                }
            },
            Value::U16(v) => {
                let y = *v as u128;
                if y <= u16::MAX as u128 {
                    Some(y as u16)
                } else {
                    None
                }
            },
            Value::U32(v) => {
                let y = *v as u128;
                if y <= u16::MAX as u128 {
                    Some(y as u16)
                } else {
                    None
                }
            },
            Value::U64(v) => {
                let y = *v as u128;
                if y <= u16::MAX as u128 {
                    Some(y as u16)
                } else {
                    None
                }
            },
            Value::U128(v) => {
                let y = *v as u128;
                if y <= u16::MAX as u128 {
                    Some(y as u16)
                } else {
                    None
                }
            },
            Value::Usize(v) => {
                let y = *v as u128;
                if y <= u16::MAX as u128 {
                    Some(y as u16)
                } else {
                    None
                }
            },
            _ => None,
        }
    }

    /// Returns the value as `u32` if it is numeric and fits.
    pub fn as_u32(&self) -> (r: Option<u32>)
        ensures
            (r is Some) <==> (spec_num(*self) matches Some(n) && u32::MIN <= n <= u32::MAX),
            r matches Some(x) ==> spec_num(*self) == Some(x as int),
    {
        match self {
            Value::I8(v) => {
                let x = *v as i128;
                if x >= 0 && x as u128 <= u32::MAX as u128 {
                    Some(x as u32)
                } else {
                    None
                }
            },
            Value::I16(v) => {
                let x = *v as i128;
                if x >= 0 && x as u128 <= u32::MAX as u128 {
                    Some(x as u32)
                } else {
                    None
                }
            },
            Value::I32(v) => {
                let x = *v as i128;
                if x >= 0 && x as u128 <= u32::MAX as u128 {
                    Some(x as u32)
                } else {
                    None
                }
            },
            Value::I64(v) => {
                let x = *v as i128;
                if x >= 0 && x as u128 <= u32::MAX as u128 {
                    Some(x as u32)
                } else {
                    None
                }
            },
            Value::I128(v) => {
                let x = *v as i128;
                if x >= 0 && x as u128 <= u32::MAX as u128 {
                    Some(x as u32)
                } else {
                    None
                }
            },
            Value::Isize(v) => {
                let x = *v as i128;
                if x >= 0 && x as u128 <= u32::MAX as u128 {
                    Some(x as u32)
                } else {
                    None
                }
            },
            Value::U8(v) => {
                let y = *v as u128;
                if y <= u32::MAX as u128 {
                    Some(y as u32)
                } else {
                    None
                }
            },
            Value::U16(v) => {
                let y = *v as u128;
                if y <= u32::MAX as u128 {
                    Some(y as u32)
                } else {
                    None
                }
            },
            Value::U32(v) => {
                let y = *v as u128;
                if y <= u32::MAX as u128 {
                    Some(y as u32)
                } else {
                    None
                }
            },
            Value::U64(v) => {
                let y = *v as u128;
                if y <= u32::MAX as u128 {
                    Some(y as u32)
                } else {
                    None
                }
            },
            Value::U128(v) => {
                let y = *v as u128;
                if y <= u32::MAX as u128 {
                    Some(y as u32)
                } else {
                    None
                }
            },
            Value::Usize(v) => {
                let y = *v as u128;
                if y <= u32::MAX as u128 {
                    Some(y as u32)
                } else {
                    None
                }
            },
            _ => None,
        }
    }

    /// Returns the value as `u64` if it is numeric and fits.
    pub fn as_u64(&self) -> (r: Option<u64>)
        ensures
            (r is Some) <==> (spec_num(*self) matches Some(n) && u64::MIN <= n <= u64::MAX),
            r matches Some(x) ==> spec_num(*self) == Some(x as int),
    {
        match self {
            Value::I8(v) => {
                let x = *v as i128;
                if x >= 0 && x as u128 <= u64::MAX as u128 {
                    Some(x as u64)
                } else {
                    None
                }
            },
            Value::I16(v) => {
                let x = *v as i128;
                if x >= 0 && x as u128 <= u64::MAX as u128 {
                    Some(x as u64)
                } else {
                    None
                }
            },
            Value::I32(v) => {
                let x = *v as i128;
                if x >= 0 && x as u128 <= u64::MAX as u128 {
                    Some(x as u64)
                } else {
                    None
                }
            },
            Value::I64(v) => {
                let x = *v as i128;
                if x >= 0 && x as u128 <= u64::MAX as u128 {
                    Some(x as u64)
                } else {
                    None
                }
            },
            Value::I128(v) => {
                let x = *v as i128;
                if x >= 0 && x as u128 <= u64::MAX as u128 {
                    Some(x as u64)
                } else {
                    None
                }
            },
            Value::Isize(v) => {
                let x = *v as i128;
                if x >= 0 && x as u128 <= u64::MAX as u128 {
                    Some(x as u64)
                } else {
                    None
                }
            },
            Value::U8(v) => {
                let y = *v as u128;
                if y <= u64::MAX as u128 {
                    Some(y as u64)
                } else {
                    None
                }
            },
            Value::U16(v) => {
                let y = *v as u128;
                if y <= u64::MAX as u128 {
                    Some(y as u64)
                } else {
                    None
                }
            },
            Value::U32(v) => {
                let y = *v as u128;
                if y <= u64::MAX as u128 {
                    Some(y as u64)
                } else {
                    None
                }
            },
            Value::U64(v) => {
                let y = *v as u128;
                if y <= u64::MAX as u128 {
                    Some(y as u64)
                } else {
                    None
                }
            },
            Value::U128(v) => {
                let y = *v as u128;
                if y <= u64::MAX as u128 {
                    Some(y as u64)
                } else {
                    None
                }
            },
            Value::Usize(v) => {
                let y = *v as u128;
                if y <= u64::MAX as u128 {
                    Some(y as u64)
                } else {
                    None
                }
            },
            _ => None,
        }
    }

    /// Returns the value as `u128` if it is numeric and fits.
    pub fn as_u128(&self) -> (r: Option<u128>)
        ensures
            (r is Some) <==> (spec_num(*self) matches Some(n) && u128::MIN <= n <= u128::MAX),
            r matches Some(x) ==> spec_num(*self) == Some(x as int),
    {
        match self {
            Value::I8(v) => {
                let x = *v as i128;
                if x >= 0 {
                    Some(x as u128)
                } else {
                    None
                }
            },
            Value::I16(v) => {
                let x = *v as i128;
                if x >= 0 {
                    Some(x as u128)
                } else {
                    None
                }
            },
            Value::I32(v) => {
                let x = *v as i128;
                if x >= 0 {
                    Some(x as u128)
                } else {
                    None
                }
            },
            Value::I64(v) => {
                let x = *v as i128;
                if x >= 0 {
                    Some(x as u128)
                } else {
                    None
                }
            },
            Value::I128(v) => {
                let x = *v as i128;
                if x >= 0 {
                    Some(x as u128)
                } else {
                    None
                }
            },
            Value::Isize(v) => {
                let x = *v as i128;
                if x >= 0 {
                    Some(x as u128)
                } else {
                    None
                }
            },
            Value::U8(v) => {
                let y = *v as u128;
                Some(y as u128)
            },
            Value::U16(v) => {
                let y = *v as u128;
                Some(y as u128)
            },
            Value::U32(v) => {
                let y = *v as u128;
                Some(y as u128)
            },
            Value::U64(v) => {
                let y = *v as u128;
                Some(y as u128)
            },
            Value::U128(v) => {
                let y = *v as u128;
                Some(y as u128)
            },
            Value::Usize(v) => {
                let y = *v as u128;
                Some(y as u128)
            },
            _ => None,
        }
    }

    /// Returns the value as `usize` if it is numeric and fits.
    pub fn as_usize(&self) -> (r: Option<usize>)
        ensures
            (r is Some) <==> (spec_num(*self) matches Some(n) && usize::MIN <= n <= usize::MAX),
            r matches Some(x) ==> spec_num(*self) == Some(x as int),
    {
        match self {
            Value::I8(v) => {
                let x = *v as i128;
                if x >= 0 && x as u128 <= usize::MAX as u128 {
                    Some(x as usize)
                } else {
                    None
                }
            },
            Value::I16(v) => {
                let x = *v as i128;
                if x >= 0 && x as u128 <= usize::MAX as u128 {
                    Some(x as usize)
                } else {
                    None
                }
            },
            Value::I32(v) => {
                let x = *v as i128;
                if x >= 0 && x as u128 <= usize::MAX as u128 {
                    Some(x as usize)
                } else {
                    None
                }
            },
            Value::I64(v) => {
                let x = *v as i128;
                if x >= 0 && x as u128 <= usize::MAX as u128 {
                    Some(x as usize)
                } else {
                    None
                }
            },
            Value::I128(v) => {
                let x = *v as i128;
                if x >= 0 && x as u128 <= usize::MAX as u128 {
                    Some(x as usize)
                } else {
                    None
                }
            },
            Value::Isize(v) => {
                let x = *v as i128;
                if x >= 0 && x as u128 <= usize::MAX as u128 {
                    Some(x as usize)
                } else {
                    None
                }
            },
            Value::U8(v) => {
                let y = *v as u128;
                if y <= usize::MAX as u128 {
                    Some(y as usize)
                } else {
                    None
                }
            },
            Value::U16(v) => {
                let y = *v as u128;
                if y <= usize::MAX as u128 {
                    Some(y as usize)
                } else {
                    None
                }
            },
            Value::U32(v) => {
                let y = *v as u128;
                if y <= usize::MAX as u128 {
                    Some(y as usize)
                } else {
                    None
                }
            },
            Value::U64(v) => {
                let y = *v as u128;
                if y <= usize::MAX as u128 {
                    Some(y as usize)
                } else {
                    None
                }
            },
            Value::U128(v) => {
                let y = *v as u128;
                if y <= usize::MAX as u128 {
                    Some(y as usize)
                } else {
                    None
                }
            },
            Value::Usize(v) => {
                let y = *v as u128;
                if y <= usize::MAX as u128 {
                    Some(y as usize)
                } else {
                    None
                }
            },
            _ => None,
        }
    }

}


/// Clones a value: the copy carries the same content as the original.
pub fn clone_value<'a>(v: &Value<'a>) -> (r: Value<'a>)
    ensures
        crate::model::value_model(r) == crate::model::value_model(*v),
    decreases *v,
{
    match v {
        Value::Bool(b) => Value::Bool(*b),
        Value::Char(c) => Value::Char(crate::strings::char_copy(c)),
        Value::I8(n) => Value::I8(*n),
        Value::I16(n) => Value::I16(*n),
        Value::I32(n) => Value::I32(*n),
        Value::I64(n) => Value::I64(*n),
        Value::I128(n) => Value::I128(*n),
        Value::Isize(n) => Value::Isize(*n),
        Value::String(s) => Value::String(s),
        Value::U8(n) => Value::U8(*n),
        Value::U16(n) => Value::U16(*n),
        Value::U32(n) => Value::U32(*n),
        Value::U64(n) => Value::U64(*n),
        Value::U128(n) => Value::U128(*n),
        Value::Usize(n) => Value::Usize(*n),
        Value::Error(s) => Value::Error(s),
        Value::Renderable(s) => Value::Renderable(s),
        Value::Listable(l) => {
            proof {
                assert(decreases_to!(*v => *l)) by {
                    assert(decreases_to!(*v => v->Listable_0));
                }
            }
            Value::Listable(clone_list_value(l))
        },
        Value::Mappable(m) => {
            proof {
                assert(decreases_to!(*v => *m)) by {
                    assert(decreases_to!(*v => v->Mappable_0));
                }
            }
            Value::Mappable(clone_map_value(m))
        },
        Value::Structable(s) => {
            proof {
                assert(decreases_to!(*v => s.fields)) by {
                    assert(decreases_to!(*v => v->Structable_0));
                    assert(decreases_to!(v->Structable_0 => v->Structable_0.fields));
                }
            }
            Value::Structable(StructValue { def: s.def, fields: clone_field_values(&s.fields) })
        },
        Value::Enumerable(e) => {
            proof {
                assert(decreases_to!(*v => e.fields)) by {
                    assert(decreases_to!(*v => v->Enumerable_0));
                    assert(decreases_to!(v->Enumerable_0 => v->Enumerable_0.fields));
                }
            }
            Value::Enumerable(
                EnumValue { def: e.def, variant: e.variant, fields: clone_field_values(&e.fields) },
            )
        },
        Value::Tuplable(t) => {
            proof {
                assert(decreases_to!(*v => t.fields@)) by {
                    assert(decreases_to!(*v => v->Tuplable_0));
                    assert(decreases_to!(v->Tuplable_0 => v->Tuplable_0.fields));
                    assert(decreases_to!(v->Tuplable_0.fields => v->Tuplable_0.fields@));
                }
            }
            Value::Tuplable(TupleValue { def: t.def, fields: clone_batches(&t.fields) })
        },
        Value::Unit => Value::Unit,
    }
}

/// Clones a sequence of values, keeping each element's content.
#[verifier::loop_isolation(false)]
pub(crate) fn clone_values<'a>(vs: &Vec<Value<'a>>) -> (r: Vec<Value<'a>>)
    ensures
        r@.len() == vs@.len(),
        crate::model::values_model(r@) == crate::model::values_model(vs@),
    decreases vs@,
{
    let mut out: Vec<Value<'a>> = Vec::new();
    let mut i: usize = 0;
    while i < vs.len()
        invariant
            i <= vs@.len(),
            out@.len() == i,
            forall|j: int|
                0 <= j < i ==> crate::model::value_model(#[trigger] out@[j])
                    == crate::model::value_model(vs@[j]),
        decreases vs@.len() - i,
    {
        proof {
            assert(decreases_to!(vs@ => vs@[i as int]));
        }
        let item = clone_value(&vs[i]);
        out.push(item);
        i = i + 1;
    }
    proof {
        crate::model::lemma_values_model(out@);
        crate::model::lemma_values_model(vs@);
        assert(crate::model::values_model(out@) =~= crate::model::values_model(vs@));
    }
    out
}

/// Clones a sequence of unnamed batches, keeping each batch's content.
#[verifier::loop_isolation(false)]
pub(crate) fn clone_batches<'a>(bs: &Vec<Vec<Value<'a>>>) -> (r: Vec<Vec<Value<'a>>>)
    ensures
        r@.len() == bs@.len(),
        crate::model::unnamed_batches_model(r@) == crate::model::unnamed_batches_model(bs@),
    decreases bs@,
{
    let mut out: Vec<Vec<Value<'a>>> = Vec::new();
    let mut i: usize = 0;
    while i < bs.len()
        invariant
            i <= bs@.len(),
            out@.len() == i,
            forall|j: int|
                0 <= j < i ==> crate::model::values_model(#[trigger] out@[j]@)
                    == crate::model::values_model(bs@[j]@),
        decreases bs@.len() - i,
    {
        proof {
            assert(decreases_to!(bs@ => bs@[i as int]));
            assert(decreases_to!(bs@[i as int] => bs@[i as int]@));
        }
        let item = clone_values(&bs[i]);
        out.push(item);
        i = i + 1;
    }
    proof {
        crate::model::lemma_unnamed_batches_model(out@);
        crate::model::lemma_unnamed_batches_model(bs@);
        assert(crate::model::unnamed_batches_model(out@) =~= crate::model::unnamed_batches_model(
            bs@,
        ));
    }
    out
}

/// Clones the field batches of a struct-like or enum-like value, keeping
/// their content and shape.
#[verifier::loop_isolation(false)]
pub(crate) fn clone_field_values<'a>(fv: &FieldValues<'a>) -> (r: FieldValues<'a>)
    ensures
        crate::model::field_values_model(r) == crate::model::field_values_model(*fv),
        r is Named <==> fv is Named,
    decreases *fv,
{
    match fv {
        FieldValues::Named(bs) => {
            let mut out: Vec<NamedValues<'a>> = Vec::new();
            let mut i: usize = 0;
            while i < bs.len()
                invariant
                    i <= bs@.len(),
                    out@.len() == i,
                    forall|j: int|
                        0 <= j < i ==> crate::model::named_values_model(#[trigger] out@[j])
                            == crate::model::named_values_model(bs@[j]),
                decreases bs@.len() - i,
            {
                proof {
                    assert(decreases_to!(*fv => bs@[i as int].values)) by {
                        assert(decreases_to!(*fv => fv->Named_0));
                        assert(decreases_to!(fv->Named_0 => fv->Named_0@));
                        assert(decreases_to!(fv->Named_0@ => fv->Named_0@[i as int]));
                        assert(decreases_to!(
                            fv->Named_0@[i as int] => fv->Named_0@[i as int].values
                        ));
                    }
                    assert(decreases_to!(bs@[i as int].values => bs@[i as int].values@));
                }
                let nv = &bs[i];
                let values = clone_values(&nv.values);
                proof {
                    crate::model::lemma_values_model(values@);
                    crate::model::lemma_values_model(nv.values@);
                    assert forall|k: int| 0 <= k < values@.len() implies crate::model::value_model(
                        #[trigger] values@[k],
                    ) == crate::model::value_model(nv.values@[k]) by {
                        assert(crate::model::values_model(values@)[k] == crate::model::values_model(
                            nv.values@,
                        )[k]);
                    }
                    crate::model::lemma_pairs_model_congruence(nv.fields@, values@, nv.values@);
                }
                out.push(NamedValues { fields: nv.fields, values });
                i = i + 1;
            }
            proof {
                crate::model::lemma_named_batches_model(out@);
                crate::model::lemma_named_batches_model(bs@);
                assert(crate::model::named_batches_model(out@)
                    =~= crate::model::named_batches_model(bs@));
            }
            FieldValues::Named(out)
        },
        FieldValues::Unnamed(bs) => {
            proof {
                assert(decreases_to!(*fv => *bs)) by {
                    assert(decreases_to!(*fv => fv->Unnamed_0));
                }
            }
            FieldValues::Unnamed(clone_batches(bs))
        },
    }
}

/// Clones the contents of a list-like value.
pub(crate) fn clone_list_value<'a>(l: &ListValue<'a>) -> (r: ListValue<'a>)
    ensures
        crate::model::list_model(r) == crate::model::list_model(*l),
    decreases *l,
{
    match l {
        ListValue::Slice(s) => ListValue::Slice(*s),
        ListValue::Values(vs) => {
            proof {
                assert(decreases_to!(*l => *vs)) by {
                    assert(decreases_to!(*l => l->Values_0));
                }
                assert(decreases_to!(*vs => vs@));
            }
            ListValue::Values(clone_values(vs))
        },
    }
}

/// Clones the contents of a map-like value.
#[verifier::loop_isolation(false)]
pub(crate) fn clone_map_value<'a>(m: &MapValue<'a>) -> (r: MapValue<'a>)
    ensures
        crate::model::map_model(r) == crate::model::map_model(*m),
    decreases *m,
{
    let mut out: Vec<(Value<'a>, Value<'a>)> = Vec::new();
    let mut i: usize = 0;
    let n = m.entries.len();
    while i < n
        invariant
            i <= m.entries@.len(),
            n == m.entries@.len(),
            out@.len() == i,
            forall|j: int|
                0 <= j < i ==> crate::model::value_model(#[trigger] out@[j].0)
                    == crate::model::value_model(m.entries@[j].0) && crate::model::value_model(
                    out@[j].1,
                ) == crate::model::value_model(m.entries@[j].1),
        decreases n - i,
    {
        proof {
            assert(decreases_to!(*m => m.entries@[i as int].0)) by {
                assert(decreases_to!(*m => m.entries));
                assert(decreases_to!(m.entries => m.entries@));
                assert(decreases_to!(m.entries@ => m.entries@[i as int]));
                assert(decreases_to!(m.entries@[i as int] => m.entries@[i as int].0));
            }
            assert(decreases_to!(*m => m.entries@[i as int].1)) by {
                assert(decreases_to!(m.entries@[i as int] => m.entries@[i as int].1));
            }
        }
        let entry = &m.entries[i];
        let k = clone_value(&entry.0);
        let v = clone_value(&entry.1);
        out.push((k, v));
        i = i + 1;
    }
    proof {
        crate::model::lemma_entries_model(out@);
        crate::model::lemma_entries_model(m.entries@);
        assert(crate::model::entries_model(out@) =~= crate::model::entries_model(m.entries@));
    }
    MapValue { entries: out }
}

impl<'a> Clone for Value<'a> {
    /// The copy carries the same content as the original.
    fn clone(&self) -> (r: Self)
        ensures
            crate::model::value_model(r) == crate::model::value_model(*self),
    {
        clone_value(self)
    }
}


impl<'a> ListValue<'a> {
    /// Returns the number of elements the list holds.
    pub fn len(&self) -> (r: usize)
        ensures
            r == list_model(*self).len(),
    {
        match self {
            ListValue::Slice(s) => s.len(),
            ListValue::Values(vs) => {
                proof {
                    crate::model::lemma_values_model(vs@);
                }
                vs.len()
            },
        }
    }
}

/// Delivers a run of named-field batches to the consumer, one
/// `visit_named_fields` call per batch.
#[verifier::loop_isolation(false)]
pub(crate) fn visit_named_batches<'a, V: Visit>(bs: &Vec<NamedValues<'a>>, visit: &mut V)
    ensures
        final(visit).obs() == old(visit).obs() + named_batches_events(bs@),
{
    let items = bs.as_slice();
    let mut i: usize = 0;
    proof {
        assert(visit.obs() =~= old(visit).obs() + named_batches_events(bs@).subrange(0, 0));
    }
    while i < items.len()
        invariant
            i <= bs@.len(),
            items@ == bs@,
            visit.obs() == old(visit).obs() + named_batches_events(bs@).subrange(0, i as int),
        decreases bs@.len() - i,
    {
        let nv = vstd::slice::slice_index_get(items, i);
        visit.visit_named_fields(nv);
        proof {
            assert(visit.obs() =~= old(visit).obs() + named_batches_events(bs@).subrange(
                0,
                i as int + 1,
            ));
        }
        i = i + 1;
    }
    proof {
        assert(named_batches_events(bs@).subrange(0, bs@.len() as int) =~= named_batches_events(
            bs@,
        ));
    }
}

/// Delivers a run of unnamed-field batches to the consumer, one
/// `visit_unnamed_fields` call per batch.
#[verifier::loop_isolation(false)]
pub(crate) fn visit_unnamed_batches<'a, V: Visit>(bs: &Vec<Vec<Value<'a>>>, visit: &mut V)
    ensures
        final(visit).obs() == old(visit).obs() + unnamed_batches_events(bs@),
{
    let items = bs.as_slice();
    let mut i: usize = 0;
    proof {
        assert(visit.obs() =~= old(visit).obs() + unnamed_batches_events(bs@).subrange(0, 0));
    }
    while i < items.len()
        invariant
            i <= bs@.len(),
            items@ == bs@,
            visit.obs() == old(visit).obs() + unnamed_batches_events(bs@).subrange(0, i as int),
        decreases bs@.len() - i,
    {
        let batch = vstd::slice::slice_index_get(items, i);
        visit.visit_unnamed_fields(batch.as_slice());
        proof {
            assert(visit.obs() =~= old(visit).obs() + unnamed_batches_events(bs@).subrange(
                0,
                i as int + 1,
            ));
        }
        i = i + 1;
    }
    proof {
        assert(unnamed_batches_events(bs@).subrange(0, bs@.len() as int)
            =~= unnamed_batches_events(bs@));
    }
}

/// Delivers a producer's field batches to the consumer.
pub(crate) fn visit_field_values<'a, V: Visit>(fv: &FieldValues<'a>, visit: &mut V)
    ensures
        final(visit).obs() == old(visit).obs() + field_batches_events(*fv),
{
    match fv {
        FieldValues::Named(bs) => visit_named_batches(bs, visit),
        FieldValues::Unnamed(bs) => visit_unnamed_batches(bs, visit),
    }
}

impl<'a> Valuable for Value<'a> {
    open spec fn spec_model(&self) -> Model {
        value_model(*self)
    }

    open spec fn spec_batches(&self) -> Seq<VisitEvent> {
        seq![VisitEvent::Value(value_model(*self))]
    }

    fn as_value(&self) -> (v: Value<'_>) {
        clone_value(self)
    }

    fn visit<V: Visit>(&self, visit: &mut V) {
        visit.visit_value(self);
        proof {
            assert(visit.obs() =~= old(visit).obs() + self.spec_batches());
        }
    }
}

impl<'a> Valuable for ListValue<'a> {
    open spec fn spec_model(&self) -> Model {
        Model::List(list_model(*self))
    }

    open spec fn spec_batches(&self) -> Seq<VisitEvent> {
        match self {
            ListValue::Slice(s) => seq![
                VisitEvent::PrimitiveSlice(crate::model::slice_model(*s)),
            ],
            ListValue::Values(vs) => Seq::new(
                vs@.len(),
                |i: int| VisitEvent::Value(value_model(vs@[i])),
            ),
        }
    }

    fn as_value(&self) -> (v: Value<'_>) {
        Value::Listable(clone_list_value(self))
    }

    #[verifier::loop_isolation(false)]
    fn visit<V: Visit>(&self, visit: &mut V) {
        match self {
            ListValue::Slice(s) => {
                visit.visit_primitive_slice(*s);
                proof {
                    assert(visit.obs() =~= old(visit).obs() + self.spec_batches());
                }
            },
            ListValue::Values(vs) => {
                let items = vs.as_slice();
                let mut i: usize = 0;
                proof {
                    assert(visit.obs() =~= old(visit).obs() + self.spec_batches().subrange(0, 0));
                }
                while i < items.len()
                    invariant
                        i <= vs@.len(),
                        items@ == vs@,
                        visit.obs() == old(visit).obs() + self.spec_batches().subrange(
                            0,
                            i as int,
                        ),
                    decreases vs@.len() - i,
                {
                    let item = vstd::slice::slice_index_get(items, i);
                    visit.visit_value(item);
                    proof {
                        assert(visit.obs() =~= old(visit).obs() + self.spec_batches().subrange(
                            0,
                            i as int + 1,
                        ));
                    }
                    i = i + 1;
                }
                proof {
                    assert(self.spec_batches().subrange(0, vs@.len() as int)
                        =~= self.spec_batches());
                }
            },
        }
    }
}

impl<'a> Valuable for MapValue<'a> {
    open spec fn spec_model(&self) -> Model {
        Model::Mapping(map_model(*self))
    }

    open spec fn spec_batches(&self) -> Seq<VisitEvent> {
        entry_events(self.entries@)
    }

    fn as_value(&self) -> (v: Value<'_>) {
        Value::Mappable(clone_map_value(self))
    }

    #[verifier::loop_isolation(false)]
    fn visit<V: Visit>(&self, visit: &mut V) {
        let items = self.entries.as_slice();
        let mut i: usize = 0;
        proof {
            assert(visit.obs() =~= old(visit).obs() + self.spec_batches().subrange(0, 0));
        }
        while i < items.len()
            invariant
                i <= self.entries@.len(),
                items@ == self.entries@,
                visit.obs() == old(visit).obs() + self.spec_batches().subrange(0, i as int),
            decreases self.entries@.len() - i,
        {
            let entry = vstd::slice::slice_index_get(items, i);
            visit.visit_entry(&entry.0, &entry.1);
            proof {
                assert(visit.obs() =~= old(visit).obs() + self.spec_batches().subrange(
                    0,
                    i as int + 1,
                ));
            }
            i = i + 1;
        }
        proof {
            assert(self.spec_batches().subrange(0, self.entries@.len() as int)
                =~= self.spec_batches());
        }
    }
}

impl<'a> Valuable for StructValue<'a> {
    open spec fn spec_model(&self) -> Model {
        Model::Struct(struct_model(*self))
    }

    open spec fn spec_batches(&self) -> Seq<VisitEvent> {
        field_batches_events(self.fields)
    }

    fn as_value(&self) -> (v: Value<'_>) {
        Value::Structable(StructValue { def: self.def, fields: clone_field_values(&self.fields) })
    }

    fn visit<V: Visit>(&self, visit: &mut V) {
        visit_field_values(&self.fields, visit);
    }
}

impl<'a> Valuable for EnumValue<'a> {
    open spec fn spec_model(&self) -> Model {
        Model::Enum(crate::model::enum_model(*self))
    }

    open spec fn spec_batches(&self) -> Seq<VisitEvent> {
        field_batches_events(self.fields)
    }

    fn as_value(&self) -> (v: Value<'_>) {
        Value::Enumerable(
            EnumValue { def: self.def, variant: self.variant, fields: clone_field_values(
                &self.fields,
            ) },
        )
    }

    fn visit<V: Visit>(&self, visit: &mut V) {
        visit_field_values(&self.fields, visit);
    }
}

impl<'a> Valuable for TupleValue<'a> {
    open spec fn spec_model(&self) -> Model {
        Model::Tuple(tuple_model(*self))
    }

    open spec fn spec_batches(&self) -> Seq<VisitEvent> {
        unnamed_batches_events(self.fields@)
    }

    fn as_value(&self) -> (v: Value<'_>) {
        Value::Tuplable(TupleValue { def: self.def, fields: clone_batches(&self.fields) })
    }

    fn visit<V: Visit>(&self, visit: &mut V) {
        visit_unnamed_batches(&self.fields, visit);
    }
}

impl<'a> From<bool> for Value<'a> {
    fn from(src: bool) -> (r: Value<'a>) {
        Value::Bool(src)
    }
}

impl<'a> vstd::std_specs::convert::FromSpecImpl<bool> for Value<'a> {
    open spec fn obeys_from_spec() -> bool {
        true
    }

    open spec fn from_spec(src: bool) -> Value<'a> {
        Value::Bool(src)
    }
}

impl<'a> From<char> for Value<'a> {
    fn from(src: char) -> (r: Value<'a>) {
        Value::Char(src)
    }
}

impl<'a> vstd::std_specs::convert::FromSpecImpl<char> for Value<'a> {
    open spec fn obeys_from_spec() -> bool {
        true
    }

    open spec fn from_spec(src: char) -> Value<'a> {
        Value::Char(src)
    }
}

impl<'a> From<i8> for Value<'a> {
    fn from(src: i8) -> (r: Value<'a>) {
        Value::I8(src)
    }
}

impl<'a> vstd::std_specs::convert::FromSpecImpl<i8> for Value<'a> {
    open spec fn obeys_from_spec() -> bool {
        true
    }

    open spec fn from_spec(src: i8) -> Value<'a> {
        Value::I8(src)
    }
}

impl<'a> From<i16> for Value<'a> {
    fn from(src: i16) -> (r: Value<'a>) {
        Value::I16(src)
    }
}

impl<'a> vstd::std_specs::convert::FromSpecImpl<i16> for Value<'a> {
    open spec fn obeys_from_spec() -> bool {
        true
    }

    open spec fn from_spec(src: i16) -> Value<'a> {
        Value::I16(src)
    }
}

impl<'a> From<i32> for Value<'a> {
    fn from(src: i32) -> (r: Value<'a>) {
        Value::I32(src)
    }
}

impl<'a> vstd::std_specs::convert::FromSpecImpl<i32> for Value<'a> {
    open spec fn obeys_from_spec() -> bool {
        true
    }

    open spec fn from_spec(src: i32) -> Value<'a> {
        Value::I32(src)
    }
}

impl<'a> From<i64> for Value<'a> {
    fn from(src: i64) -> (r: Value<'a>) {
        Value::I64(src)
    }
}

impl<'a> vstd::std_specs::convert::FromSpecImpl<i64> for Value<'a> {
    open spec fn obeys_from_spec() -> bool {
        true
    }

    open spec fn from_spec(src: i64) -> Value<'a> {
        Value::I64(src)
    }
}

impl<'a> From<i128> for Value<'a> {
    fn from(src: i128) -> (r: Value<'a>) {
        Value::I128(src)
    }
}

impl<'a> vstd::std_specs::convert::FromSpecImpl<i128> for Value<'a> {
    open spec fn obeys_from_spec() -> bool {
        true
    }

    open spec fn from_spec(src: i128) -> Value<'a> {
        Value::I128(src)
    }
}

impl<'a> From<isize> for Value<'a> {
    fn from(src: isize) -> (r: Value<'a>) {
        Value::Isize(src)
    }
}

impl<'a> vstd::std_specs::convert::FromSpecImpl<isize> for Value<'a> {
    open spec fn obeys_from_spec() -> bool {
        true
    }

    open spec fn from_spec(src: isize) -> Value<'a> {
        Value::Isize(src)
    }
}

impl<'a> From<u8> for Value<'a> {
    fn from(src: u8) -> (r: Value<'a>) {
        Value::U8(src)
    }
}

impl<'a> vstd::std_specs::convert::FromSpecImpl<u8> for Value<'a> {
    open spec fn obeys_from_spec() -> bool {
        true
    }

    open spec fn from_spec(src: u8) -> Value<'a> {
        Value::U8(src)
    }
}

impl<'a> From<u16> for Value<'a> {
    fn from(src: u16) -> (r: Value<'a>) {
        Value::U16(src)
    }
}

impl<'a> vstd::std_specs::convert::FromSpecImpl<u16> for Value<'a> {
    open spec fn obeys_from_spec() -> bool {
        true
    }

    open spec fn from_spec(src: u16) -> Value<'a> {
        Value::U16(src)
    }
}

impl<'a> From<u32> for Value<'a> {
    fn from(src: u32) -> (r: Value<'a>) {
        Value::U32(src)
    }
}

impl<'a> vstd::std_specs::convert::FromSpecImpl<u32> for Value<'a> {
    open spec fn obeys_from_spec() -> bool {
        true
    }

    open spec fn from_spec(src: u32) -> Value<'a> {
        Value::U32(src)
    }
}

impl<'a> From<u64> for Value<'a> {
    fn from(src: u64) -> (r: Value<'a>) {
        Value::U64(src)
    }
}

impl<'a> vstd::std_specs::convert::FromSpecImpl<u64> for Value<'a> {
    open spec fn obeys_from_spec() -> bool {
        true
    }

    open spec fn from_spec(src: u64) -> Value<'a> {
        Value::U64(src)
    }
}

impl<'a> From<u128> for Value<'a> {
    fn from(src: u128) -> (r: Value<'a>) {
        Value::U128(src)
    }
}

impl<'a> vstd::std_specs::convert::FromSpecImpl<u128> for Value<'a> {
    open spec fn obeys_from_spec() -> bool {
        true
    }

    open spec fn from_spec(src: u128) -> Value<'a> {
        Value::U128(src)
    }
}

impl<'a> From<usize> for Value<'a> {
    fn from(src: usize) -> (r: Value<'a>) {
        Value::Usize(src)
    }
}

impl<'a> vstd::std_specs::convert::FromSpecImpl<usize> for Value<'a> {
    open spec fn obeys_from_spec() -> bool {
        true
    }

    open spec fn from_spec(src: usize) -> Value<'a> {
        Value::Usize(src)
    }
}

impl<'a> From<&'a str> for Value<'a> {
    fn from(src: &'a str) -> (r: Value<'a>) {
        Value::String(src)
    }
}

impl<'a> vstd::std_specs::convert::FromSpecImpl<&'a str> for Value<'a> {
    open spec fn obeys_from_spec() -> bool {
        true
    }

    open spec fn from_spec(src: &'a str) -> Value<'a> {
        Value::String(src)
    }
}

impl<'a> From<()> for Value<'a> {
    fn from(_src: ()) -> (r: Value<'a>) {
        Value::Unit
    }
}

impl<'a> vstd::std_specs::convert::FromSpecImpl<()> for Value<'a> {
    open spec fn obeys_from_spec() -> bool {
        true
    }

    open spec fn from_spec(_src: ()) -> Value<'a> {
        Value::Unit
    }
}

impl Default for Value<'_> {
    /// The default value is `Unit`.
    fn default() -> (r: Self)
        ensures
            r is Unit,
    {
        Value::Unit
    }
}

} // verus!
