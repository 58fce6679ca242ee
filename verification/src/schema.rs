//! Response shapes: what a handler's output looks like, independent of its
//! wire encoding.
//!
//! A shape is either a bare primitive value or an object, that is a mapping
//! from field names to primitive types. The fields of an object keep the order
//! in which they were declared, and no name occurs twice.

use crate::json::{
    decimal, join, joined, json_string, member, member_text, object_json, quote, texts,
};
use vstd::prelude::*;
use vstd::string::StringExecFns;

verus! {

/// The primitive types a response value can have.
#[derive(Clone, Copy, Debug, PartialEq, Eq, Structural)]
pub enum PrimitiveType {
    /// UTF-8 text.
    Text,
    /// An unsigned 32-bit integer.
    UInt32,
    /// An unsigned 64-bit integer.
    UInt64,
    /// A signed 64-bit integer.
    Int64,
    /// `true` or `false`.
    Boolean,
}

/// One field of an object shape, as a mathematical value.
pub struct FieldView {
    pub name: Seq<char>,
    pub kind: PrimitiveType,
}

/// A response shape as a mathematical value.
pub enum SchemaView {
    /// A bare primitive value.
    Scalar(PrimitiveType),
    /// An object with the given fields, in declaration order.
    Object(Seq<FieldView>),
}

/// Whether some field of `fields` is called `name`.
pub open spec fn has_name(fields: Seq<FieldView>, name: Seq<char>) -> bool {
    exists|i: int| 0 <= i < fields.len() && (#[trigger] fields[i]).name == name
}

/// No two fields share a name.
pub open spec fn distinct_names(fields: Seq<FieldView>) -> bool {
    forall|i: int, j: int|
        0 <= i < j < fields.len() ==> (#[trigger] fields[i]).name != (#[trigger] fields[j]).name
}

/// The fields of a shape; a scalar has none.
pub open spec fn fields_of(shape: SchemaView) -> Seq<FieldView> {
    match shape {
        SchemaView::Scalar(_) => Seq::empty(),
        SchemaView::Object(fields) => fields,
    }
}

/// A shape is well formed when its field names are pairwise distinct.
pub open spec fn well_formed(shape: SchemaView) -> bool {
    distinct_names(fields_of(shape))
}

/// `fields` with `field` declared: a field of that name takes the new type in
/// place, a new name goes to the end.
pub open spec fn declare(fields: Seq<FieldView>, field: FieldView) -> Seq<FieldView> {
    if has_name(fields, field.name) {
        Seq::new(
            fields.len(),
            |i: int|
                if fields[i].name == field.name {
                    field
                } else {
                    fields[i]
                },
        )
    } else {
        fields.push(field)
    }
}

/// The type of the field called `name`, if there is one.
pub open spec fn kind_of(fields: Seq<FieldView>, name: Seq<char>) -> Option<PrimitiveType> {
    if has_name(fields, name) {
        Some(fields[choose|i: int| 0 <= i < fields.len() && (#[trigger] fields[i]).name == name].kind)
    } else {
        None
    }
}

/// Declaring a field keeps the names distinct.
pub proof fn lemma_declare_distinct(fields: Seq<FieldView>, field: FieldView)
    requires
        distinct_names(fields),
    ensures
        distinct_names(declare(fields, field)),
        has_name(declare(fields, field), field.name),
        kind_of(declare(fields, field), field.name) == Some(field.kind),
{
    let out = declare(fields, field);
    if has_name(fields, field.name) {
        let k = choose|i: int| 0 <= i < fields.len() && (#[trigger] fields[i]).name == field.name;
        assert(out[k].name == field.name);
    } else {
        let k = fields.len() as int;
        assert(out[k].name == field.name);
    }
}

/// The JSON schema of a primitive type.
pub open spec fn primitive_json(kind: PrimitiveType) -> Seq<char> {
    match kind {
        PrimitiveType::Text => "{\"type\":\"string\"}"@,
        PrimitiveType::UInt32 => "{\"type\":\"integer\",\"format\":\"uint32\",\"minimum\":0}"@,
        PrimitiveType::UInt64 => "{\"type\":\"integer\",\"format\":\"uint64\",\"minimum\":0}"@,
        PrimitiveType::Int64 => "{\"type\":\"integer\",\"format\":\"int64\"}"@,
        PrimitiveType::Boolean => "{\"type\":\"boolean\"}"@,
    }
}

/// The names of `fields` as JSON string literals, in order.
pub open spec fn required_names(fields: Seq<FieldView>) -> Seq<Seq<char>> {
    fields.map_values(|f: FieldView| json_string(f.name))
}

/// One member of `properties` for each field: its name and the schema of its
/// type.
pub open spec fn property_members(fields: Seq<FieldView>) -> Seq<Seq<char>> {
    fields.map_values(|f: FieldView| member(f.name, primitive_json(f.kind)))
}

/// The JSON schema of a shape. An object requires every field, and lists its
/// properties in declaration order.
pub open spec fn schema_json(shape: SchemaView) -> Seq<char> {
    match shape {
        SchemaView::Scalar(kind) => primitive_json(kind),
        SchemaView::Object(fields) => "{\"type\":\"object\",\"required\":["@ + joined(
            required_names(fields),
            ","@,
        ) + "],\"properties\":{"@ + joined(property_members(fields), ","@) + "}}"@,
    }
}

/// Whether `text` is a JSON value of the primitive type: a string literal, a
/// number of the type's range in decimal, or one of the two truth values.
pub open spec fn is_value_of(kind: PrimitiveType, text: Seq<char>) -> bool {
    match kind {
        PrimitiveType::Text => exists|s: Seq<char>| text == #[trigger] json_string(s),
        PrimitiveType::UInt32 => exists|n: nat| n <= u32::MAX && text == #[trigger] decimal(n),
        PrimitiveType::UInt64 => exists|n: nat| n <= u64::MAX && text == #[trigger] decimal(n),
        PrimitiveType::Int64 => exists|n: nat|
            (n <= i64::MAX && text == #[trigger] decimal(n)) || (0 < n <= i64::MAX + 1 && text
                == "-"@ + decimal(n)),
        PrimitiveType::Boolean => text == "true"@ || text == "false"@,
    }
}

/// Whether `values` holds one value for each field, of the field's type.
pub open spec fn values_fit(fields: Seq<FieldView>, values: Seq<Seq<char>>) -> bool {
    &&& values.len() == fields.len()
    &&& forall|i: int| 0 <= i < fields.len() ==> is_value_of(fields[i].kind, #[trigger] values[i])
}

/// The object that gives the fields the values, in the order of the fields.
pub open spec fn object_of(fields: Seq<FieldView>, values: Seq<Seq<char>>) -> Seq<char> {
    object_json(Seq::new(fields.len(), |i: int| member(fields[i].name, values[i])))
}

/// Whether `text` is an object with exactly the given fields, in their order,
/// each with a value of its type.
pub open spec fn is_object_of(fields: Seq<FieldView>, text: Seq<char>) -> bool {
    exists|values: Seq<Seq<char>>| #[trigger]
        values_fit(fields, values) && text == object_of(fields, values)
}

/// One field of an object shape.
struct SchemaField {
    name: String,
    kind: PrimitiveType,
}

impl View for SchemaField {
    type V = FieldView;

    closed spec fn view(&self) -> FieldView {
        FieldView { name: self.name@, kind: self.kind }
    }
}

/// The shape of a handler's output.
pub struct ResponseSchema {
    scalar: Option<PrimitiveType>,
    fields: Vec<SchemaField>,
}

impl View for ResponseSchema {
    type V = SchemaView;

    closed spec fn view(&self) -> SchemaView {
        match self.scalar {
            Some(kind) => SchemaView::Scalar(kind),
            None => SchemaView::Object(self.fields@.map_values(|f: SchemaField| f@)),
        }
    }
}

impl ResponseSchema {
    #[verifier::type_invariant]
    spec fn inv(&self) -> bool {
        &&& well_formed(self@)
        &&& self.scalar is Some ==> self.fields@.len() == 0
    }

    /// The shape of a bare primitive value.
    pub fn scalar(kind: PrimitiveType) -> (r: ResponseSchema)
        ensures
            r@ == SchemaView::Scalar(kind),
    {
        ResponseSchema { scalar: Some(kind), fields: Vec::new() }
    }

    /// The shape of an object without fields.
    pub fn object() -> (r: ResponseSchema)
        ensures
            r@ == SchemaView::Object(Seq::empty()),
    {
        let r = ResponseSchema { scalar: None, fields: Vec::new() };
        assert(r.fields@.map_values(|f: SchemaField| f@) =~= Seq::empty());
        r
    }

    /// Declares a field: the result is an object with the fields of `self` and
    /// `name` of type `kind`. A field that is already called `name` takes the
    /// new type and keeps its place; a new name goes to the end.
    pub fn with_field(self, name: String, kind: PrimitiveType) -> (r: ResponseSchema)
        ensures
            r@ == SchemaView::Object(
                declare(fields_of(self@), FieldView { name: name@, kind: kind }),
            ),
            well_formed(r@),
    {
        proof {
            use_type_invariant(&self);
        }
        let ghost before = fields_of(self@);
        let ghost field = FieldView { name: name@, kind: kind };
        let mut fields = self.fields;
        let n = fields.len();
        let mut i: usize = 0;
        let mut found: Option<usize> = None;
        while i < n
            invariant
                i <= n,
                n == fields.len(),
                fields@.map_values(|f: SchemaField| f@) == before,
                found matches Some(k) ==> k < n && before[k as int].name == name@,
                found is None ==> forall|j: int| 0 <= j < i ==> (#[trigger] before[j]).name != name@,
            decreases n - i,
        {
            if fields[i].name == name {
                found = Some(i);
            }
            i += 1;
        }
        match found {
            Some(k) => {
                fields.set(k, SchemaField { name, kind });
                proof {
                    let after = fields@.map_values(|f: SchemaField| f@);
                    let want = declare(before, field);
                    assert(after =~= want);
                }
            },
            None => {
                fields.push(SchemaField { name, kind });
                proof {
                    let after = fields@.map_values(|f: SchemaField| f@);
                    assert(after =~= declare(before, field));
                }
            },
        }
        ResponseSchema { scalar: None, fields }
    }

    /// Whether the shape is a bare primitive value.
    pub fn is_scalar(&self) -> (r: bool)
        ensures
            r == (self@ is Scalar),
    {
        self.scalar.is_some()
    }

    /// Whether two shapes are structurally identical: the same primitive, or
    /// the same fields with the same types in the same order.
    pub fn same_shape(&self, other: &ResponseSchema) -> (r: bool)
        ensures
            r == (self@ == other@),
    {
        match (self.scalar, other.scalar) {
            (Some(a), Some(b)) => a == b,
            (None, None) => {
                let n = self.fields.len();
                if other.fields.len() != n {
                    assert(fields_of(self@).len() != fields_of(other@).len());
                    return false;
                }
                let mut i: usize = 0;
                while i < n
                    invariant
                        i <= n,
                        n == self.fields.len(),
                        n == other.fields.len(),
                        self.scalar is None,
                        other.scalar is None,
                        forall|j: int| 0 <= j < i ==> (#[trigger] self.fields@[j])@ == other.fields@[j]@,
                    decreases n - i,
                {
                    if !(self.fields[i].name == other.fields[i].name && self.fields[i].kind
                        == other.fields[i].kind) {
                        assert(fields_of(self@)[i as int] != fields_of(other@)[i as int]);
                        return false;
                    }
                    i += 1;
                }
                assert(fields_of(self@) =~= fields_of(other@));
                true
            },
            _ => false,
        }
    }

    /// The primitive type of a scalar shape.
    pub fn scalar_kind(&self) -> (r: Option<PrimitiveType>)
        ensures
            r == (match self@ {
                SchemaView::Scalar(kind) => Some(kind),
                SchemaView::Object(_) => None,
            }),
    {
        self.scalar
    }

    /// How many fields the shape has; a scalar has none. Every shape that
    /// exists is well formed, which a caller learns here.
    pub fn field_count(&self) -> (r: usize)
        ensures
            r == fields_of(self@).len(),
            well_formed(self@),
    {
        proof {
            use_type_invariant(self);
        }
        self.fields.len()
    }

    /// The type of the field called `name`, if there is one.
    pub fn field_kind(&self, name: &String) -> (r: Option<PrimitiveType>)
        ensures
            r == kind_of(fields_of(self@), name@),
    {
        proof {
            use_type_invariant(self);
        }
        let ghost fields = fields_of(self@);
        let n = self.fields.len();
        let mut i: usize = 0;
        while i < n
            invariant
                i <= n,
                n == self.fields.len(),
                fields == self.fields@.map_values(|f: SchemaField| f@),
                fields == fields_of(self@),
                distinct_names(fields),
                forall|j: int| 0 <= j < i ==> (#[trigger] fields[j]).name != name@,
            decreases n - i,
        {
            assert(fields[i as int] == self.fields@[i as int]@);
            if self.fields[i].name == *name {
                return Some(self.fields[i].kind);
            }
            i += 1;
        }
        None
    }

    /// The JSON schema of the shape.
    pub fn to_json(&self) -> (r: String)
        ensures
            r@ == schema_json(self@),
    {
        match self.scalar {
            Some(kind) => String::from_str(primitive_text(kind)),
            None => {
                let ghost fields = fields_of(self@);
                let n = self.fields.len();
                let mut names: Vec<String> = Vec::new();
                let mut members: Vec<String> = Vec::new();
                let mut i: usize = 0;
                while i < n
                    invariant
                        i <= n,
                        n == self.fields.len(),
                        fields == self.fields@.map_values(|f: SchemaField| f@),
                        names.len() == i,
                        members.len() == i,
                        forall|j: int|
                            0 <= j < i ==> (#[trigger] names@[j])@ == json_string(fields[j].name),
                        forall|j: int|
                            0 <= j < i ==> (#[trigger] members@[j])@ == member(
                                fields[j].name,
                                primitive_json(fields[j].kind),
                            ),
                    decreases n - i,
                {
                    let field = &self.fields[i];
                    names.push(quote(field.name.as_str()));
                    members.push(member_text(field.name.as_str(), primitive_text(field.kind)));
                    i += 1;
                }
                assert(texts(names@) =~= required_names(fields));
                assert(texts(members@) =~= property_members(fields));
                let mut out = String::from_str("{\"type\":\"object\",\"required\":[");
                out.append(join(&names, ",").as_str());
                out.append("],\"properties\":{");
                out.append(join(&members, ",").as_str());
                out.append("}}");
                out
            },
        }
    }
}

/// The JSON schema of a primitive type.
fn primitive_text(kind: PrimitiveType) -> (r: &'static str)
    ensures
        r@ == primitive_json(kind),
{
    match kind {
        PrimitiveType::Text => "{\"type\":\"string\"}",
        PrimitiveType::UInt32 => "{\"type\":\"integer\",\"format\":\"uint32\",\"minimum\":0}",
        PrimitiveType::UInt64 => "{\"type\":\"integer\",\"format\":\"uint64\",\"minimum\":0}",
        PrimitiveType::Int64 => "{\"type\":\"integer\",\"format\":\"int64\"}",
        PrimitiveType::Boolean => "{\"type\":\"boolean\"}",
    }
}

impl Clone for ResponseSchema {
    fn clone(&self) -> (r: ResponseSchema)
        ensures
            r@ == self@,
    {
        proof {
            use_type_invariant(self);
        }
        let n = self.fields.len();
        let mut fields: Vec<SchemaField> = Vec::new();
        let mut i: usize = 0;
        while i < n
            invariant
                i <= n,
                n == self.fields.len(),
                fields.len() == i,
                forall|j: int| 0 <= j < i ==> (#[trigger] fields@[j])@ == self.fields@[j]@,
            decreases n - i,
        {
            fields.push(SchemaField { name: self.fields[i].name.clone(), kind: self.fields[i].kind });
            i += 1;
        }
        assert(fields@.map_values(|f: SchemaField| f@) =~= self.fields@.map_values(
            |f: SchemaField| f@,
        ));
        ResponseSchema { scalar: self.scalar, fields }
    }
}

} // verus!
