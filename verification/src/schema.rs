//! Column types, fields and schemas.

use vstd::prelude::*;

verus! {

/// The type of a column as far as this core distinguishes it.
#[derive(Clone, Copy, Debug, PartialEq, Eq, Structural)]
pub enum DataType {
    Null,
    Boolean,
    Int64,
    Utf8,
    Unknown,
}

/// A named, typed column of a schema.
#[derive(Debug)]
pub struct Field {
    pub name: String,
    pub dtype: DataType,
}

impl Field {
    pub fn new(name: String, dtype: DataType) -> (r: Field)
        ensures
            r.name == name,
            r.dtype == dtype,
    {
        Field { name, dtype }
    }

    /// The field as a pair of name and type.
    pub open spec fn pair(self) -> (Seq<char>, DataType) {
        (self.name@, self.dtype)
    }

    pub fn duplicate(&self) -> (r: Field)
        ensures
            r == *self,
    {
        Field { name: self.name.clone(), dtype: self.dtype }
    }
}

/// Whether some field of the list has the given name.
pub open spec fn named(fields: Seq<Field>, name: Seq<char>) -> bool {
    exists|i: int| 0 <= i < fields.len() && fields[i].name@ == name
}

/// An ordered list of fields.
#[derive(Debug)]
pub struct Schema {
    pub fields: Vec<Field>,
}

impl View for Schema {
    type V = Seq<(Seq<char>, DataType)>;

    open spec fn view(&self) -> Seq<(Seq<char>, DataType)> {
        Seq::new(self.fields@.len(), |i: int| self.fields@[i].pair())
    }
}

impl Schema {
    pub fn new(fields: Vec<Field>) -> (r: Schema)
        ensures
            r.fields == fields,
    {
        Schema { fields }
    }

    /// The names of the columns, in order.
    pub open spec fn names(self) -> Seq<Seq<char>> {
        Seq::new(self.fields@.len(), |i: int| self.fields@[i].name@)
    }

    pub fn len(&self) -> (n: usize)
        ensures
            n == self@.len(),
    {
        self.fields.len()
    }

    /// Whether some column has the given name.
    pub open spec fn has(self, name: Seq<char>) -> bool {
        named(self.fields@, name)
    }

    /// The position of the first column named `name`.
    pub fn index_of(&self, name: &String) -> (r: Option<usize>)
        ensures
            r is Some <==> self.has(name@),
            r matches Some(i) ==> {
                &&& i < self.fields@.len()
                &&& self.fields@[i as int].name@ == name@
                &&& forall|j: int| 0 <= j < i ==> self.fields@[j].name@ != name@
            },
    {
        let mut i: usize = 0;
        while i < self.fields.len()
            invariant
                i <= self.fields@.len(),
                forall|j: int| 0 <= j < i ==> self.fields@[j].name@ != name@,
            decreases self.fields@.len() - i,
        {
            if self.fields[i].name == *name {
                return Some(i);
            }
            i += 1;
        }
        None
    }

    pub fn has_field(&self, name: &String) -> (r: bool)
        ensures
            r == self.has(name@),
    {
        self.index_of(name).is_some()
    }

    /// An independent copy with the same fields.
    pub fn duplicate(&self) -> (r: Schema)
        ensures
            r@ == self@,
            r.fields@ == self.fields@,
    {
        let mut fields: Vec<Field> = Vec::new();
        let mut i: usize = 0;
        while i < self.fields.len()
            invariant
                i <= self.fields@.len(),
                fields@ == self.fields@.take(i as int),
            decreases self.fields@.len() - i,
        {
            fields.push(self.fields[i].duplicate());
            i += 1;
            assert(fields@ =~= self.fields@.take(i as int));
        }
        assert(fields@ =~= self.fields@);
        let r = Schema { fields };
        assert(r@ =~= self@);
        r
    }
}

} // verus!
