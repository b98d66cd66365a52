//! The schema model: a read-only representation of one JSON-Schema-like
//! node of an OpenRPC document (reference, union, composition, or
//! primitive), and the document's named-schema container.

use vstd::prelude::*;

verus! {

/// Optional documentation carried by a schema node.
pub struct SchemaDoc {
    pub title: Option<String>,
    pub description: Option<String>,
    pub summary: Option<String>,
}

/// One schema node of the input document.
pub enum Schema {
    /// Names another schema of the same document.
    Ref(Reference),
    /// An unordered list of alternative schemas.
    OneOf(OneOf),
    /// An ordered list of schemas whose object fields are merged.
    AllOf(AllOf),
    /// A concrete shape: object, array, string, boolean or integer.
    Primitive(Primitive),
}

pub struct Reference {
    pub doc: SchemaDoc,
    pub name: String,
}

pub struct OneOf {
    pub doc: SchemaDoc,
    pub one_of: Vec<Schema>,
}

pub struct AllOf {
    pub doc: SchemaDoc,
    pub all_of: Vec<Schema>,
}

pub enum Primitive {
    Object(ObjectPrimitive),
    Array(ArrayPrimitive),
    Str(StringPrimitive),
    Boolean(BooleanPrimitive),
    Integer(IntegerPrimitive),
}

/// One declared property of an object schema, in document order.
pub struct Property {
    pub name: String,
    pub schema: Schema,
}

pub struct ObjectPrimitive {
    pub doc: SchemaDoc,
    pub properties: Vec<Property>,
}

pub struct ArrayPrimitive {
    pub doc: SchemaDoc,
    pub items: Box<Schema>,
}

pub struct StringPrimitive {
    pub doc: SchemaDoc,
    /// The closed set of literal values, when the string is enumerated.
    pub enum_values: Option<Vec<String>>,
}

pub struct BooleanPrimitive {
    pub doc: SchemaDoc,
}

pub struct IntegerPrimitive {
    pub doc: SchemaDoc,
}

/// One named entry of the document's schema container.
pub struct NamedSchema {
    pub name: String,
    pub schema: Schema,
}

pub struct Components {
    pub schemas: Vec<NamedSchema>,
}

/// A parsed specification document: an insertion-ordered mapping from type
/// name to schema node under its components container.
pub struct Specification {
    pub components: Components,
}

impl Schema {
    /// The documentation block of the node, whatever its variant.
    pub open spec fn spec_doc(self) -> SchemaDoc {
        match self {
            Schema::Ref(v) => v.doc,
            Schema::OneOf(v) => v.doc,
            Schema::AllOf(v) => v.doc,
            Schema::Primitive(p) => match p {
                Primitive::Object(v) => v.doc,
                Primitive::Array(v) => v.doc,
                Primitive::Str(v) => v.doc,
                Primitive::Boolean(v) => v.doc,
                Primitive::Integer(v) => v.doc,
            },
        }
    }

    pub fn doc(&self) -> (d: &SchemaDoc)
        ensures
            *d == self.spec_doc(),
    {
        match self {
            Schema::Ref(v) => &v.doc,
            Schema::OneOf(v) => &v.doc,
            Schema::AllOf(v) => &v.doc,
            Schema::Primitive(p) => match p {
                Primitive::Object(v) => &v.doc,
                Primitive::Array(v) => &v.doc,
                Primitive::Str(v) => &v.doc,
                Primitive::Boolean(v) => &v.doc,
                Primitive::Integer(v) => &v.doc,
            },
        }
    }

    pub fn title(&self) -> (t: &Option<String>)
        ensures
            *t == self.spec_doc().title,
    {
        &self.doc().title
    }

    pub fn description(&self) -> (t: &Option<String>)
        ensures
            *t == self.spec_doc().description,
    {
        &self.doc().description
    }

    pub fn summary(&self) -> (t: &Option<String>)
        ensures
            *t == self.spec_doc().summary,
    {
        &self.doc().summary
    }
}

/// The one-line text chosen to document a field: title, else description,
/// else summary.
pub open spec fn chosen_text(d: SchemaDoc) -> Option<Seq<char>> {
    match d.title {
        Some(t) => Some(t@),
        None => match d.description {
            Some(t) => Some(t@),
            None => match d.summary {
                Some(t) => Some(t@),
                None => None,
            },
        },
    }
}

/// The description text chosen for a top-level declaration: description,
/// else summary.
pub open spec fn description_text(d: SchemaDoc) -> Option<Seq<char>> {
    match d.description {
        Some(t) => Some(t@),
        None => match d.summary {
            Some(t) => Some(t@),
            None => None,
        },
    }
}

/// The schema bound to `name` in the document, by its first occurrence.
pub open spec fn lookup(schemas: Seq<NamedSchema>, name: Seq<char>) -> Option<Schema>
    decreases schemas.len(),
{
    if schemas.len() == 0 {
        None
    } else if schemas[0].name@ == name {
        Some(schemas[0].schema)
    } else {
        lookup(schemas.skip(1), name)
    }
}

/// Finds the schema bound to `name`, scanning the document in order.
pub fn lookup_schema<'a>(schemas: &'a Vec<NamedSchema>, name: &str) -> (r: Option<&'a Schema>)
    ensures
        match r {
            Some(s) => lookup(schemas@, name@) == Some(*s),
            None => lookup(schemas@, name@) is None,
        },
{
    let n = schemas.len();
    let mut i: usize = 0;
    proof {
        assert(schemas@.skip(0) =~= schemas@);
    }
    while i < n
        invariant
            i <= n,
            n == schemas@.len(),
            lookup(schemas@, name@) == lookup(schemas@.skip(i as int), name@),
        decreases n - i,
    {
        let entry = &schemas[i];
        if crate::naming::str_eq(entry.name.as_str(), name) {
            proof {
                assert(schemas@.skip(i as int)[0] == schemas@[i as int]);
            }
            return Some(&entry.schema);
        }
        proof {
            assert(schemas@.skip(i as int)[0] == schemas@[i as int]);
            assert(schemas@.skip(i as int).skip(1) =~= schemas@.skip(i as int + 1));
        }
        i = i + 1;
    }
    None
}

} // verus!
