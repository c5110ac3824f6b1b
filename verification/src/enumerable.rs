use vstd::prelude::*;

use crate::field::Fields;
use crate::valuable::Valuable;
use crate::value::EnumValue;

verus! {

/// An enum-like producer: one variant is current, and its fields are
/// delivered in named or unnamed batches, matching the variant's shape.
pub trait Enumerable: Valuable {
    /// Returns the enum's definition.
    fn definition(&self) -> (r: EnumDef<'_>);

    /// Returns the current variant.
    fn variant(&self) -> (r: Variant<'_>);
}

impl<'a> Enumerable for EnumValue<'a> {
    fn definition(&self) -> EnumDef<'_> {
        self.def
    }

    fn variant(&self) -> Variant<'_> {
        self.variant
    }
}

/// An enum's name and variant list.
#[derive(Clone, Copy)]
pub enum EnumDef<'a> {
    /// All variants are known ahead of time.
    Static {
        /// The enum's name.
        name: &'a str,
        /// The enum's variants.
        variants: &'a [VariantDef<'a>],
    },
    /// The enum is dynamically defined.
    Dynamic {
        /// The enum's name.
        name: &'a str,
        /// The enum's variants.
        variants: &'a [VariantDef<'a>],
    },
}

/// One variant of an enum: its name and field shape.
#[derive(Clone, Copy)]
pub struct VariantDef<'a> {
    name: &'a str,
    fields: Fields<'a>,
}

/// The variant that an enum-like producer currently holds.
#[derive(Clone, Copy)]
pub enum Variant<'a> {
    /// A reference to a variant descriptor shared between instances.
    Static(&'a VariantDef<'a>),
    /// A variant descriptor built for this instance.
    Dynamic(VariantDef<'a>),
}

impl<'a> EnumDef<'a> {
    /// The enum's name, as a sequence of characters.
    pub open spec fn spec_name(&self) -> Seq<char> {
        match self {
            EnumDef::Static { name, .. } => name@,
            EnumDef::Dynamic { name, .. } => name@,
        }
    }

    /// The enum's variant descriptors.
    pub open spec fn spec_variants(&self) -> Seq<VariantDef<'a>> {
        match self {
            EnumDef::Static { variants, .. } => variants@,
            EnumDef::Dynamic { variants, .. } => variants@,
        }
    }

    /// Create a new `EnumDef::Static` instance, for an enum whose variants
    /// are fixed and known ahead of time.
    pub fn new_static(name: &'a str, variants: &'a [VariantDef<'a>]) -> (r: EnumDef<'a>)
        ensures
            r == (EnumDef::Static { name, variants }),
    {
        EnumDef::Static { name, variants }
    }

    /// Create a new `EnumDef::Dynamic` instance, for an enum whose variants
    /// may vary at run time.
    pub fn new_dynamic(name: &'a str, variants: &'a [VariantDef<'a>]) -> (r: EnumDef<'a>)
        ensures
            r == (EnumDef::Dynamic { name, variants }),
    {
        EnumDef::Dynamic { name, variants }
    }

    /// Returns the enum's name.
    pub fn name(&self) -> (r: &'a str)
        ensures
            r@ == self.spec_name(),
    {
        match self {
            EnumDef::Static { name, .. } => name,
            EnumDef::Dynamic { name, .. } => name,
        }
    }

    /// Returns the enum's variants.
    pub fn variants(&self) -> (r: &'a [VariantDef<'a>])
        ensures
            r@ == self.spec_variants(),
    {
        match self {
            EnumDef::Static { variants, .. } => variants,
            EnumDef::Dynamic { variants, .. } => variants,
        }
    }

    /// Returns `true` if the enum is statically defined.
    pub fn is_static(&self) -> (r: bool)
        ensures
            r == (self is Static),
    {
        matches!(self, EnumDef::Static { .. })
    }

    /// Returns `true` if the enum is dynamically defined.
    pub fn is_dynamic(&self) -> (r: bool)
        ensures
            r == (self is Dynamic),
    {
        matches!(self, EnumDef::Dynamic { .. })
    }
}

impl<'a> VariantDef<'a> {
    /// The variant's name, as a sequence of characters.
    pub closed spec fn spec_name(&self) -> Seq<char> {
        self.name@
    }

    /// The variant's field shape.
    pub closed spec fn spec_fields(&self) -> Fields<'a> {
        self.fields
    }

    /// Create a new variant descriptor.
    pub fn new(name: &'a str, fields: Fields<'a>) -> (r: VariantDef<'a>)
        ensures
            r.spec_name() == name@,
            r.spec_fields() == fields,
    {
        VariantDef { name, fields }
    }

    /// Returns the variant's name.
    pub fn name(&self) -> (r: &'a str)
        ensures
            r@ == self.spec_name(),
    {
        self.name
    }

    /// Returns the variant's fields.
    pub fn fields(&self) -> (r: &Fields<'a>)
        ensures
            *r == self.spec_fields(),
    {
        &self.fields
    }
}

impl<'a> Variant<'a> {
    /// The descriptor this variant refers to.
    pub open spec fn spec_def(&self) -> VariantDef<'a> {
        match self {
            Variant::Static(v) => **v,
            Variant::Dynamic(v) => *v,
        }
    }

    /// Returns the variant's name.
    pub fn name(&self) -> (r: &str)
        ensures
            r@ == self.spec_def().spec_name(),
    {
        match self {
            Variant::Static(v) => v.name(),
            Variant::Dynamic(v) => v.name(),
        }
    }

    /// Returns `true` if the variant declares named fields.
    pub fn is_named_fields(&self) -> (r: bool)
        ensures
            r == (self.spec_def().spec_fields() is Named),
    {
        match self {
            Variant::Static(v) => v.fields().is_named(),
            Variant::Dynamic(v) => v.fields().is_named(),
        }
    }

    /// Returns `true` if the variant declares unnamed fields.
    pub fn is_unnamed_fields(&self) -> (r: bool)
        ensures
            r == (self.spec_def().spec_fields() is Unnamed),
    {
        !self.is_named_fields()
    }
}

} // verus!
