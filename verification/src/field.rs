use vstd::prelude::*;

verus! {

/// Data stored within a `Structable` or an `Enumerable`: either a list of
/// named fields or unnamed (positional) fields.
#[derive(Clone, Copy)]
pub enum Fields<'a> {
    /// Named fields, described by a field-name list.
    Named(&'a Names<'a>),
    /// Unnamed (positional) fields or unit.
    Unnamed,
}

/// A named field descriptor: a field name, and — for descriptors that
/// belong to a producer's field list — the field's position in that list.
///
/// Field identity is positional: `NamedValues::get` resolves a descriptor
/// through its stored position, never through name equality. A descriptor
/// built with `new` carries no position and is never found by `get`; the
/// positions take the place of the address arithmetic that a shared static
/// field table would allow.
#[derive(Clone, Copy, Debug)]
pub struct NamedField<'a> {
    name: &'a str,
    index: Option<usize>,
}

/// A list of field names, either borrowed or owned.
pub enum Names<'a> {
    /// Names borrowed from the producer or from a shared table.
    Borrowed(&'a [NamedField<'a>]),
    /// Names built at run time for one producer instance.
    Owned(Vec<NamedField<'a>>),
}

impl<'a> NamedField<'a> {
    /// The field's name, as a sequence of characters.
    pub closed spec fn spec_name(&self) -> Seq<char> {
        self.name@
    }

    /// The field's position in the field list it belongs to, if it carries
    /// one.
    pub closed spec fn spec_index(&self) -> Option<usize> {
        self.index
    }

    /// Create a new `NamedField` with the given name and no position. Such
    /// a descriptor names a field but does not identify one: it can be
    /// looked up by name, never by position.
    pub fn new(name: &'a str) -> (r: NamedField<'a>)
        ensures
            r.spec_name() == name@,
            r.spec_index() is None,
    {
        NamedField { name, index: None }
    }

    /// Create a new `NamedField` standing at the given position of its
    /// field list. Producers build their field lists with this constructor
    /// so that `NamedValues::get` can resolve each descriptor in constant
    /// time.
    pub fn with_index(name: &'a str, index: usize) -> (r: NamedField<'a>)
        ensures
            r.spec_name() == name@,
            r.spec_index() == Some(index),
    {
        NamedField { name, index: Some(index) }
    }

    /// Returns the field name.
    pub fn name(&self) -> (r: &'a str)
        ensures
            r@ == self.spec_name(),
    {
        self.name
    }

    /// Returns the field's position in its field list, if it carries one.
    pub fn index(&self) -> (r: Option<usize>)
        ensures
            r == self.spec_index(),
    {
        self.index
    }
}

impl<'a> Names<'a> {
    /// The name list as a sequence of field descriptors.
    pub closed spec fn spec_names(&self) -> Seq<NamedField<'a>> {
        match self {
            Names::Borrowed(names) => names@,
            Names::Owned(names) => names@,
        }
    }

    /// Create a list of names borrowed from elsewhere.
    pub fn new(names: &'a [NamedField<'a>]) -> (r: Names<'a>)
        ensures
            r.spec_names() == names@,
    {
        Names::Borrowed(names)
    }

    /// Create a list of names owned by this value.
    pub fn new_owned(names: Vec<NamedField<'a>>) -> (r: Names<'a>)
        ensures
            r.spec_names() == names@,
    {
        Names::Owned(names)
    }

    /// Returns the names as a slice of field descriptors.
    pub fn names(&self) -> (r: &[NamedField<'a>])
        ensures
            r@ == self.spec_names(),
    {
        match self {
            Names::Borrowed(names) => names,
            Names::Owned(names) => names.as_slice(),
        }
    }

    /// Returns how many names the list holds.
    pub fn len(&self) -> (r: usize)
        ensures
            r == self.spec_names().len(),
    {
        match self {
            Names::Borrowed(names) => names.len(),
            Names::Owned(names) => names.len(),
        }
    }

    /// Returns `true` if the list holds no names.
    pub fn is_empty(&self) -> (r: bool)
        ensures
            r == (self.spec_names().len() == 0),
    {
        self.len() == 0
    }

    /// Returns the names, one owned descriptor per entry.
    pub fn iter(&self) -> (r: Vec<NamedField<'a>>)
        ensures
            r@ == self.spec_names(),
    {
        let names = self.names();
        let mut out: Vec<NamedField<'a>> = Vec::new();
        let mut i: usize = 0;
        while i < names.len()
            invariant
                i <= names@.len(),
                out@ == names@.subrange(0, i as int),
            decreases names@.len() - i,
        {
            out.push(names[i]);
            i = i + 1;
        }
        proof {
            assert(out@ =~= names@);
        }
        out
    }
}

impl<'a> Fields<'a> {
    /// The names of the fields, or `None` for unnamed fields.
    pub open spec fn spec_names(&self) -> Option<Seq<NamedField<'a>>> {
        match self {
            Fields::Named(names) => Some(names.spec_names()),
            Fields::Unnamed => None,
        }
    }

    /// Returns `true` if the fields are named.
    pub fn is_named(&self) -> (r: bool)
        ensures
            r == (self is Named),
    {
        matches!(self, Fields::Named(..))
    }

    /// Returns `true` if the fields are unnamed.
    pub fn is_unnamed(&self) -> (r: bool)
        ensures
            r == (self is Unnamed),
    {
        matches!(self, Fields::Unnamed)
    }
}

} // verus!
