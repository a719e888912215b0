use vstd::prelude::*;

use crate::error::Error;

verus! {

/// The logical type of a column or of a scalar value.
#[derive(Clone, Copy, Debug, PartialEq, Eq, Structural)]
pub enum DataType {
    Null,
    Boolean,
    Int64,
    UInt64,
    Float64,
    Utf8,
}

impl DataType {
    /// The name under which the type is shown.
    pub fn name(&self) -> (r: String)
        ensures
            r@ == self.name_spec(),
    {
        match self {
            DataType::Null => "Null".to_string(),
            DataType::Boolean => "Boolean".to_string(),
            DataType::Int64 => "Int64".to_string(),
            DataType::UInt64 => "UInt64".to_string(),
            DataType::Float64 => "Float64".to_string(),
            DataType::Utf8 => "Utf8".to_string(),
        }
    }

    pub open spec fn name_spec(&self) -> Seq<char> {
        match self {
            DataType::Null => "Null"@,
            DataType::Boolean => "Boolean"@,
            DataType::Int64 => "Int64"@,
            DataType::UInt64 => "UInt64"@,
            DataType::Float64 => "Float64"@,
            DataType::Utf8 => "Utf8"@,
        }
    }
}

/// The name, type and nullability of one column.
#[derive(Debug)]
pub struct Field {
    pub name: String,
    pub data_type: DataType,
    pub nullable: bool,
}

impl Clone for Field {
    fn clone(&self) -> (r: Self)
        ensures
            r == *self,
    {
        Field { name: self.name.clone(), data_type: self.data_type, nullable: self.nullable }
    }
}

impl Field {
    pub fn new(name: &str, data_type: DataType, nullable: bool) -> (r: Field)
        ensures
            r.name@ == name@,
            r.data_type == data_type,
            r.nullable == nullable,
    {
        Field { name: name.to_string(), data_type, nullable }
    }

    pub fn name(&self) -> (r: &String)
        ensures
            r == &self.name,
    {
        &self.name
    }

    pub fn data_type(&self) -> (r: DataType)
        ensures
            r == self.data_type,
    {
        self.data_type
    }

    pub fn is_nullable(&self) -> (r: bool)
        ensures
            r == self.nullable,
    {
        self.nullable
    }
}

/// An ordered sequence of fields. Names need not be unique; a lookup by
/// name finds the first field that carries it.
#[derive(Debug)]
pub struct Schema {
    pub fields: Vec<Field>,
}

/// A field named `name` stands at `i`, and at no earlier position.
pub open spec fn is_first_index(fields: Seq<Field>, name: Seq<char>, i: int) -> bool {
    &&& 0 <= i < fields.len()
    &&& fields[i].name@ == name
    &&& forall|j: int| 0 <= j < i ==> fields[j].name@ != name
}

pub open spec fn has_name(fields: Seq<Field>, name: Seq<char>) -> bool {
    exists|i: int| 0 <= i < fields.len() && fields[i].name@ == name
}

/// Copies a vector of fields.
pub fn copy_fields(fields: &Vec<Field>) -> (r: Vec<Field>)
    ensures
        r@ == fields@,
{
    let mut out: Vec<Field> = Vec::new();
    let mut i: usize = 0;
    while i < fields.len()
        invariant
            i <= fields@.len(),
            out@ == fields@.subrange(0, i as int),
        decreases fields@.len() - i,
    {
        out.push(fields[i].clone());
        i = i + 1;
        assert(out@ =~= fields@.subrange(0, i as int));
    }
    assert(fields@.subrange(0, fields@.len() as int) =~= fields@);
    out
}

impl Clone for Schema {
    fn clone(&self) -> (r: Self)
        ensures
            r.fields@ == self.fields@,
    {
        Schema { fields: copy_fields(&self.fields) }
    }
}

impl Schema {
    pub fn new_null_schema() -> (r: Schema)
        ensures
            r.fields@.len() == 0,
    {
        Schema { fields: Vec::new() }
    }

    pub fn new(fields: Vec<Field>) -> (r: Schema)
        ensures
            r.fields@ == fields@,
    {
        Schema { fields }
    }

    pub fn fields(&self) -> (r: &Vec<Field>)
        ensures
            r@ == self.fields@,
    {
        &self.fields
    }

    pub fn field(&self, i: usize) -> (r: &Field)
        requires
            i < self.fields@.len(),
        ensures
            *r == self.fields@[i as int],
    {
        &self.fields[i]
    }

    /// The position of the first field named `name`.
    pub fn index_of(&self, name: &str) -> (r: Result<usize, Error>)
        ensures
            match r {
                Ok(i) => is_first_index(self.fields@, name@, i as int),
                Err(e) => e == Error::NoSuchField && !has_name(self.fields@, name@),
            },
    {
        let mut i: usize = 0;
        while i < self.fields.len()
            invariant
                i <= self.fields@.len(),
                forall|j: int| 0 <= j < i ==> self.fields@[j].name@ != name@,
            decreases self.fields@.len() - i,
        {
            if str_eq(self.fields[i].name.as_str(), name) {
                return Ok(i);
            }
            i = i + 1;
        }
        Err(Error::NoSuchField)
    }

    /// The first field named `name`.
    pub fn find_field_by_name(&self, name: &str) -> (r: Result<Field, Error>)
        ensures
            match r {
                Ok(f) => exists|i: int| is_first_index(self.fields@, name@, i) && f == self.fields@[i],
                Err(e) => e == Error::NoSuchField && !has_name(self.fields@, name@),
            },
    {
        match self.index_of(name) {
            Ok(i) => Ok(self.fields[i].clone()),
            Err(e) => Err(e),
        }
    }

    /// The fields of `self` followed by those of `right`.
    pub fn join(&self, right: &Schema) -> (r: Schema)
        ensures
            r.fields@ == self.fields@ + right.fields@,
    {
        let mut fields = copy_fields(&self.fields);
        let mut tail = copy_fields(&right.fields);
        fields.append(&mut tail);
        Schema { fields }
    }
}

/// Compares two strings character by character.
pub fn str_eq(a: &str, b: &str) -> (r: bool)
    ensures
        r == (a@ == b@),
{
    let la = a.unicode_len();
    let lb = b.unicode_len();
    if la != lb {
        return false;
    }
    let mut i: usize = 0;
    while i < la
        invariant
            la == a@.len(),
            lb == b@.len(),
            la == lb,
            i <= la,
            forall|j: int| 0 <= j < i ==> a@[j] == b@[j],
        decreases la - i,
    {
        if a.get_char(i) != b.get_char(i) {
            return false;
        }
        i = i + 1;
    }
    assert(a@ =~= b@);
    true
}

} // verus!
