use vstd::prelude::*;

use crate::valuable::Valuable;
use crate::value::TupleValue;

verus! {

/// A tuple-like producer: positional fields are delivered in unnamed
/// batches.
pub trait Tuplable: Valuable {
    /// Returns the tuple's definition.
    fn definition(&self) -> (r: TupleDef);
}

impl<'a> Tuplable for TupleValue<'a> {
    fn definition(&self) -> TupleDef {
        self.def
    }
}

/// A tuple's arity information.
#[derive(Clone, Copy, Debug)]
#[allow(inconsistent_fields)]
pub enum TupleDef {
    /// The arity is fixed and known ahead of time.
    Static {
        /// How many fields the tuple has.
        fields: usize,
    },
    /// The arity may vary at run time; the bounds follow the convention of a
    /// size hint: a lower bound, and an upper bound where one is known.
    Dynamic {
        /// Lower and optional upper bound on the number of fields.
        fields: (usize, Option<usize>),
    },
}

impl TupleDef {
    /// Create a new `TupleDef::Static` instance, for a tuple whose arity is
    /// fixed and known ahead of time.
    pub fn new_static(fields: usize) -> (r: TupleDef)
        ensures
            r == (TupleDef::Static { fields }),
    {
        TupleDef::Static { fields }
    }

    /// Create a new `TupleDef::Dynamic` instance.
    pub fn new_dynamic(fields: (usize, Option<usize>)) -> (r: TupleDef)
        ensures
            r == (TupleDef::Dynamic { fields }),
    {
        TupleDef::Dynamic { fields }
    }

    /// Returns `true` if the tuple is statically defined.
    pub fn is_static(&self) -> (r: bool)
        ensures
            r == (self is Static),
    {
        matches!(self, TupleDef::Static { .. })
    }

    /// Returns `true` if the tuple is dynamically defined.
    pub fn is_dynamic(&self) -> (r: bool)
        ensures
            r == (self is Dynamic),
    {
        matches!(self, TupleDef::Dynamic { .. })
    }

    /// Returns `true` if the tuple is statically known to have no fields.
    pub fn is_unit(&self) -> (r: bool)
        ensures
            r == (*self == (TupleDef::Static { fields: 0usize })),
    {
        matches!(self, TupleDef::Static { fields: 0 })
    }
}

} // verus!
