use vstd::prelude::*;

use crate::field::Fields;
use crate::valuable::Valuable;
use crate::value::StructValue;

verus! {

/// A struct-like producer: fields are delivered in named or unnamed
/// batches, matching the shape the definition declares.
pub trait Structable: Valuable {
    /// Returns the struct's definition.
    fn definition(&self) -> (r: StructDef<'_>);
}

impl<'a> Structable for StructValue<'a> {
    fn definition(&self) -> StructDef<'_> {
        self.def
    }
}

/// A struct's name, fields, and other struct-level information.
///
/// A `Static` definition describes a shape that is fixed ahead of time and
/// can be shared between instances; a `Dynamic` definition is computed per
/// instance.
#[derive(Clone, Copy)]
pub enum StructDef<'a> {
    /// The struct's fields are all known ahead of time.
    Static {
        /// The struct's name.
        name: &'a str,
        /// The struct's fields.
        fields: Fields<'a>,
    },
    /// The struct is dynamically defined: not all fields are known ahead of
    /// time.
    Dynamic {
        /// The struct's name.
        name: &'a str,
        /// The struct's fields.
        fields: Fields<'a>,
    },
}

impl<'a> StructDef<'a> {
    /// The struct's name, as a sequence of characters.
    pub open spec fn spec_name(&self) -> Seq<char> {
        match self {
            StructDef::Static { name, .. } => name@,
            StructDef::Dynamic { name, .. } => name@,
        }
    }

    /// The struct's field shape.
    pub open spec fn spec_fields(&self) -> Fields<'a> {
        match self {
            StructDef::Static { fields, .. } => *fields,
            StructDef::Dynamic { fields, .. } => *fields,
        }
    }

    /// Create a new `StructDef::Static` instance, for a struct whose fields
    /// are fixed and known ahead of time.
    pub fn new_static(name: &'a str, fields: Fields<'a>) -> (r: StructDef<'a>)
        ensures
            r == (StructDef::Static { name, fields }),
    {
        StructDef::Static { name, fields }
    }

    /// Create a new `StructDef::Dynamic` instance, for a struct whose fields
    /// may vary at run time.
    pub fn new_dynamic(name: &'a str, fields: Fields<'a>) -> (r: StructDef<'a>)
        ensures
            r == (StructDef::Dynamic { name, fields }),
    {
        StructDef::Dynamic { name, fields }
    }

    /// Returns the struct's name.
    pub fn name(&self) -> (r: &'a str)
        ensures
            r@ == self.spec_name(),
    {
        match self {
            StructDef::Static { name, .. } => name,
            StructDef::Dynamic { name, .. } => name,
        }
    }

    /// Returns the struct's fields.
    pub fn fields(&self) -> (r: &Fields<'a>)
        ensures
            *r == self.spec_fields(),
    {
        match self {
            StructDef::Static { fields, .. } => fields,
            StructDef::Dynamic { fields, .. } => fields,
        }
    }

    /// Returns `true` if the struct is statically defined.
    pub fn is_static(&self) -> (r: bool)
        ensures
            r == (self is Static),
    {
        matches!(self, StructDef::Static { .. })
    }

    /// Returns `true` if the struct is dynamically defined.
    pub fn is_dynamic(&self) -> (r: bool)
        ensures
            r == (self is Dynamic),
    {
        matches!(self, StructDef::Dynamic { .. })
    }
}

} // verus!
