use vstd::prelude::*;

use crate::field::NamedField;
use crate::value::Value;

verus! {

/// One batch of named fields: field descriptors bound to a parallel list of
/// values. The i-th field describes the i-th value.
pub struct NamedValues<'a> {
    pub fields: &'a [NamedField<'a>],
    pub values: Vec<Value<'a>>,
}

/// The position of the first field in `fields` whose name is `name`, if any.
pub open spec fn spec_name_index(fields: Seq<NamedField<'_>>, name: Seq<char>) -> Option<int>
    decreases fields.len(),
{
    if fields.len() == 0 {
        None
    } else if fields[0].spec_name() == name {
        Some(0int)
    } else {
        match spec_name_index(fields.drop_first(), name) {
            Some(i) => Some(i + 1),
            None => None,
        }
    }
}

/// What holds of the index that `spec_name_index` finds.
pub proof fn lemma_name_index(fields: Seq<NamedField<'_>>, name: Seq<char>)
    ensures
        match spec_name_index(fields, name) {
            Some(i) => 0 <= i < fields.len() && fields[i].spec_name() == name && (forall|j: int|
                0 <= j < i ==> fields[j].spec_name() != name),
            None => forall|j: int| 0 <= j < fields.len() ==> fields[j].spec_name() != name,
        },
    decreases fields.len(),
{
    if fields.len() > 0 && fields[0].spec_name() != name {
        lemma_name_index(fields.drop_first(), name);
        assert forall|j: int| 0 <= j < fields.len() implies fields[j].spec_name() != name || (
        spec_name_index(fields, name) matches Some(i) && j >= i) by {
            if j > 0 {
                assert(fields.drop_first()[j - 1] == fields[j]);
            }
        }
    }
}

impl<'a> NamedValues<'a> {
    /// The field descriptors of this batch.
    pub open spec fn spec_fields(&self) -> Seq<NamedField<'a>> {
        self.fields@
    }

    /// The values of this batch.
    pub open spec fn spec_values(&self) -> Seq<Value<'a>> {
        self.values@
    }

    /// True if the batch is well formed: one value for each field.
    pub open spec fn wf(&self) -> bool {
        self.spec_fields().len() == self.spec_values().len()
    }

    /// Create a batch binding each field to the value at the same position.
    /// Both lists must have the same length.
    pub fn new(fields: &'a [NamedField<'a>], values: Vec<Value<'a>>) -> (r: NamedValues<'a>)
        requires
            fields@.len() == values@.len(),
        ensures
            r.spec_fields() == fields@,
            r.spec_values() == values@,
            r.wf(),
    {
        NamedValues { fields, values }
    }

    /// Returns how many fields the batch holds.
    pub fn len(&self) -> (r: usize)
        ensures
            r == self.spec_fields().len(),
    {
        self.fields.len()
    }

    /// The position at which this batch resolves the given descriptor:
    /// the descriptor's stored position, provided the batch holds a field
    /// of that name at that position. A descriptor without a position, or
    /// one whose position does not carry the same name here, resolves to
    /// nothing.
    pub open spec fn spec_position_of(&self, field: NamedField<'_>) -> Option<int> {
        match field.spec_index() {
            Some(i) => if i < self.spec_fields().len() && i < self.spec_values().len()
                && self.spec_fields()[i as int].spec_name() == field.spec_name() {
                Some(i as int)
            } else {
                None
            },
            None => None,
        }
    }

    /// Returns the value at the given descriptor's position, in constant
    /// time, or `None` if the descriptor does not identify a field of this
    /// batch. Resolution is by the position stored in the descriptor, never
    /// by name equality: a descriptor that did not come from this batch's
    /// field list — even one that happens to carry the same name as a
    /// field — is not found.
    pub fn get(&self, field: &NamedField<'_>) -> (r: Option<&Value<'a>>)
        ensures
            match self.spec_position_of(*field) {
                Some(i) => r matches Some(v) && *v == self.spec_values()[i],
                None => r is None,
            },
    {
        match field.index() {
            Some(i) => {
                if i < self.fields.len() && i < self.values.len() {
                    let here: &str = self.fields[i].name();
                    if crate::strings::str_eq(here, field.name()) {
                        Some(&self.values[i])
                    } else {
                        None
                    }
                } else {
                    None
                }
            },
            None => None,
        }
    }

    /// Returns the value bound to the first field with the given name, or
    /// `None` if no field carries that name.
    pub fn get_by_name(&self, name: &str) -> (r: Option<&Value<'a>>)
        requires
            self.wf(),
        ensures
            match spec_name_index(self.spec_fields(), name@) {
                Some(i) => r matches Some(v) && *v == self.spec_values()[i],
                None => r is None,
            },
    {
        let n = self.fields.len();
        let mut i: usize = 0;
        while i < n
            invariant
                self.wf(),
                n == self.spec_fields().len(),
                i <= n,
                forall|j: int| 0 <= j < i ==> self.spec_fields()[j].spec_name() != name@,
            decreases n - i,
        {
            let field_name: &str = self.fields[i].name();
            if crate::strings::str_eq(field_name, name) {
                proof {
                    lemma_name_index(self.spec_fields(), name@);
                }
                return Some(&self.values[i]);
            }
            i = i + 1;
        }
        proof {
            lemma_name_index(self.spec_fields(), name@);
        }
        None
    }

    /// Returns the batch's `(field, value)` pairs, in order.
    pub fn entries<'b>(&'b self) -> (r: Vec<(NamedField<'a>, &'b Value<'a>)>)
        requires
            self.wf(),
        ensures
            r@.len() == self.spec_fields().len(),
            forall|i: int|
                0 <= i < r@.len() ==> r@[i].0 == self.spec_fields()[i] && *r@[i].1
                    == self.spec_values()[i],
    {
        let n = self.fields.len();
        let mut out: Vec<(NamedField<'a>, &'b Value<'a>)> = Vec::new();
        let mut i: usize = 0;
        while i < n
            invariant
                self.wf(),
                n == self.spec_fields().len(),
                i <= n,
                out@.len() == i,
                forall|j: int|
                    0 <= j < i ==> out@[j].0 == self.spec_fields()[j] && *out@[j].1
                        == self.spec_values()[j],
            decreases n - i,
        {
            out.push((self.fields[i], &self.values[i]));
            i = i + 1;
        }
        out
    }
}

} // verus!
