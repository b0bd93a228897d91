//! Field descriptors, schemas, and field resolution by name.

use vstd::prelude::*;

verus! {

/// The column data kinds this execution core understands.
#[derive(Clone, Copy, PartialEq, Eq, Structural, Debug)]
pub enum DataType {
    Int64,
    Boolean,
    Null,
}

/// One scalar: the content of a constant expression or of a single cell.
/// `Null` doubles as the null marker inside columns of any type.
#[derive(Clone, Copy, PartialEq, Eq, Structural, Debug)]
pub enum ScalarValue {
    Int64(i64),
    Boolean(bool),
    Null,
}

impl ScalarValue {
    /// The data type of this scalar; the null marker has the dedicated null type.
    pub open spec fn spec_data_type(self) -> DataType {
        match self {
            ScalarValue::Int64(_) => DataType::Int64,
            ScalarValue::Boolean(_) => DataType::Boolean,
            ScalarValue::Null => DataType::Null,
        }
    }

    pub fn data_type(&self) -> (r: DataType)
        ensures
            r == self.spec_data_type(),
    {
        match self {
            ScalarValue::Int64(_) => DataType::Int64,
            ScalarValue::Boolean(_) => DataType::Boolean,
            ScalarValue::Null => DataType::Null,
        }
    }

    pub fn is_null(&self) -> (r: bool)
        ensures
            r == (self is Null),
    {
        matches!(self, ScalarValue::Null)
    }
}

/// Mathematical view of a field descriptor.
pub ghost struct FieldV {
    pub name: Seq<char>,
    pub data_type: DataType,
    pub nullable: bool,
}

/// A named, typed, nullable field descriptor.
#[derive(Debug)]
pub struct Field {
    pub name: String,
    pub data_type: DataType,
    pub nullable: bool,
}

impl View for Field {
    type V = FieldV;

    open spec fn view(&self) -> FieldV {
        FieldV { name: self.name@, data_type: self.data_type, nullable: self.nullable }
    }
}

impl Field {
    pub fn new(name: String, data_type: DataType, nullable: bool) -> (r: Field)
        ensures
            r@ == (FieldV { name: name@, data_type: data_type, nullable: nullable }),
    {
        Field { name, data_type, nullable }
    }
}

impl Clone for Field {
    fn clone(&self) -> (r: Field)
        ensures
            r@ == self@,
    {
        Field { name: self.name.clone(), data_type: self.data_type, nullable: self.nullable }
    }
}

/// The reserved name of the trailing retraction-flag field.
pub open spec fn retraction_name() -> Seq<char> {
    "__retraction"@
}

/// The retraction-flag field descriptor every pipeline schema ends with:
/// a non-nullable boolean under the reserved name.
pub open spec fn retraction_field() -> FieldV {
    FieldV { name: retraction_name(), data_type: DataType::Boolean, nullable: false }
}

/// The reserved retraction-flag field name, as an owned string.
pub fn retraction_field_name() -> (r: String)
    ensures
        r@ == retraction_name(),
{
    String::from_str("__retraction")
}

/// A named reference to a field, resolved by exact match against a schema.
#[derive(Debug)]
pub struct Identifier {
    pub name: String,
}

impl View for Identifier {
    type V = Seq<char>;

    open spec fn view(&self) -> Seq<char> {
        self.name@
    }
}

impl Identifier {
    pub fn new(name: String) -> (r: Identifier)
        ensures
            r@ == name@,
    {
        Identifier { name }
    }
}

impl Clone for Identifier {
    fn clone(&self) -> (r: Identifier)
        ensures
            r@ == self@,
    {
        Identifier { name: self.name.clone() }
    }
}

/// The views of a sequence of field descriptors.
pub open spec fn fields_view(fs: Seq<Field>) -> Seq<FieldV> {
    Seq::new(fs.len(), |i: int| fs[i]@)
}

/// An ordered sequence of field descriptors describing a batch's shape.
#[derive(Debug)]
pub struct Schema {
    pub fields: Vec<Field>,
}

impl View for Schema {
    type V = Seq<FieldV>;

    open spec fn view(&self) -> Seq<FieldV> {
        fields_view(self.fields@)
    }
}

/// `i` is the index of the first field of `s` named `name`.
pub open spec fn is_field_index(s: Seq<FieldV>, name: Seq<char>, i: int) -> bool {
    &&& 0 <= i < s.len()
    &&& s[i].name == name
    &&& forall|j: int| 0 <= j < i ==> s[j].name != name
}

/// Some field of `s` is named `name`.
pub open spec fn has_field(s: Seq<FieldV>, name: Seq<char>) -> bool {
    exists|i: int| 0 <= i < s.len() && s[i].name == name
}

/// The index of the first field of `s` named `name`; meaningful only when
/// `has_field(s, name)` holds.
pub open spec fn first_field_index(s: Seq<FieldV>, name: Seq<char>) -> int {
    choose|i: int| is_field_index(s, name, i)
}

/// When some field of `s` is named `name`, a first such field exists and
/// `first_field_index` denotes it.
pub proof fn lemma_first_field_index(s: Seq<FieldV>, name: Seq<char>)
    requires
        has_field(s, name),
    ensures
        is_field_index(s, name, first_field_index(s, name)),
    decreases s.len(),
{
    if s[0].name == name {
        assert(is_field_index(s, name, 0));
    } else {
        let sub = s.subrange(1, s.len() as int);
        let w = choose|i: int| 0 <= i < s.len() && s[i].name == name;
        assert(sub[w - 1] == s[w]);
        assert(has_field(sub, name));
        lemma_first_field_index(sub, name);
        let i = first_field_index(sub, name);
        assert(s[i + 1] == sub[i]);
        assert forall|j: int| 0 <= j < i + 1 implies s[j].name != name by {
            if j > 0 {
                assert(s[j] == sub[j - 1]);
            }
        };
        assert(is_field_index(s, name, i + 1));
    }
}

/// At most one index is the first index of `name` in `s`.
pub proof fn lemma_field_index_unique(s: Seq<FieldV>, name: Seq<char>, i: int, j: int)
    requires
        is_field_index(s, name, i),
        is_field_index(s, name, j),
    ensures
        i == j,
{
}

/// Field names are unique within the schema.
pub open spec fn schema_unique(s: Seq<FieldV>) -> bool {
    forall|i: int, j: int| 0 <= i < j < s.len() ==> s[i].name != s[j].name
}

/// A well-formed pipeline schema: at least one field, uniquely named fields,
/// and the reserved retraction-flag field in trailing position.
pub open spec fn schema_wf(s: Seq<FieldV>) -> bool {
    &&& s.len() > 0
    &&& schema_unique(s)
    &&& s[s.len() - 1] == retraction_field()
}

impl Schema {
    pub fn new(fields: Vec<Field>) -> (r: Schema)
        ensures
            r@ == fields_view(fields@),
    {
        Schema { fields }
    }

    pub fn len(&self) -> (r: usize)
        ensures
            r == self@.len(),
    {
        self.fields.len()
    }

    /// The index of the first field named `name`, if any field bears it.
    pub fn index_of(&self, name: &String) -> (r: Option<usize>)
        ensures
            match r {
                Some(i) => is_field_index(self@, name@, i as int),
                None => !has_field(self@, name@),
            },
    {
        let mut i: usize = 0;
        while i < self.fields.len()
            invariant
                i <= self.fields@.len(),
                forall|j: int| 0 <= j < i ==> self@[j].name != name@,
            decreases self.fields@.len() - i,
        {
            if self.fields[i].name == *name {
                return Some(i);
            }
            i += 1;
        }
        None
    }

    /// A clone of the first field named `name`, if any field bears it.
    pub fn field_with_name(&self, name: &String) -> (r: Option<Field>)
        ensures
            match r {
                Some(f) => has_field(self@, name@) && f@ == self@[first_field_index(
                    self@,
                    name@,
                )],
                None => !has_field(self@, name@),
            },
    {
        match self.index_of(name) {
            Some(i) => {
                proof {
                    lemma_first_field_index(self@, name@);
                    lemma_field_index_unique(
                        self@,
                        name@,
                        i as int,
                        first_field_index(self@, name@),
                    );
                }
                Some(self.fields[i].clone())
            },
            None => None,
        }
    }
}

impl Clone for Schema {
    fn clone(&self) -> (r: Schema)
        ensures
            r@ == self@,
    {
        let fields = self.fields.clone();
        proof {
            assert forall|i: int| 0 <= i < fields@.len() implies fields@[i]@ == self.fields@[i]@ by {
                assert(cloned::<Field>(self.fields@[i], fields@[i]));
            };
            assert(fields_view(fields@) =~= fields_view(self.fields@));
        }
        Schema { fields }
    }
}

} // verus!
