//! The type-resolution engine: resolves a schema node appearing inside
//! another type to a field-type descriptor, and flattens a top-level
//! schema (an object, a composition, or a reference to one) into the
//! ordered field list of a generated struct.

use vstd::prelude::*;
use crate::naming::{doc_of, rs_name_of, to_starknet_rs_doc};
use crate::overrides::{override_model, FieldTypeModel, RustFieldType};
use crate::profile::{arc_lookup, fixed_lookup, Profile, ProfileModel};
use crate::schema::{chosen_text, lookup, lookup_schema, NamedSchema, Primitive, Property, Schema, SchemaDoc, Specification};

verus! {

broadcast use vstd::std_specs::vec::axiom_vec_index_decreases;

/// The position that a schema of the wrong kind tried to occupy.
#[derive(Clone, Copy, Debug, PartialEq, Eq, Structural)]
pub enum ShapeIssue {
    /// An anonymous union used as a property.
    UnionProperty,
    /// An anonymous composition used as a property.
    CompositionProperty,
    /// An anonymous object used as a property.
    ObjectProperty,
    /// A schema kind from which no object fields can be extracted.
    NotAnObject,
}

/// A failure while resolving one field or flattening one schema; fatal only
/// to the enclosing top-level schema.
#[derive(Debug)]
pub enum SchemaError {
    /// A reference names a schema absent from the document.
    UnresolvedReference(String),
    /// A schema appears in a position its kind cannot occupy.
    InvalidSchemaShape(ShapeIssue),
    /// Reference redirection exceeded the document's depth bound, which only
    /// a reference cycle can cause.
    CyclicReference,
}

pub ghost enum SchemaErrorModel {
    UnresolvedReference(Seq<char>),
    InvalidSchemaShape(ShapeIssue),
    CyclicReference,
}

impl View for SchemaError {
    type V = SchemaErrorModel;

    open spec fn view(&self) -> SchemaErrorModel {
        match self {
            SchemaError::UnresolvedReference(n) => SchemaErrorModel::UnresolvedReference(n@),
            SchemaError::InvalidSchemaShape(s) => SchemaErrorModel::InvalidSchemaShape(*s),
            SchemaError::CyclicReference => SchemaErrorModel::CyclicReference,
        }
    }
}

/// A fixed literal value substituted for a field's emitted value.
pub struct FixedValue {
    pub value: String,
    pub must_be_present: bool,
}

/// One field of a generated struct.
pub struct RustField {
    pub description: Option<String>,
    pub name: String,
    pub ty: String,
    pub serde_as: Option<String>,
    /// A fixed-value substitution configured by the profile, when any.
    pub fixed: Option<FixedValue>,
}

pub ghost struct FixedModel {
    pub value: Seq<char>,
    pub must_be_present: bool,
}

pub ghost struct FieldModel {
    pub description: Option<Seq<char>>,
    pub name: Seq<char>,
    pub ty: Seq<char>,
    pub serde_as: Option<Seq<char>>,
    pub fixed: Option<FixedModel>,
}

impl View for FixedValue {
    type V = FixedModel;

    open spec fn view(&self) -> FixedModel {
        FixedModel { value: self.value@, must_be_present: self.must_be_present }
    }
}

impl View for RustField {
    type V = FieldModel;

    open spec fn view(&self) -> FieldModel {
        FieldModel {
            description: match self.description {
                Some(s) => Some(s@),
                None => None,
            },
            name: self.name@,
            ty: self.ty@,
            serde_as: match self.serde_as {
                Some(s) => Some(s@),
                None => None,
            },
            fixed: match self.fixed {
                Some(f) => Some(f@),
                None => None,
            },
        }
    }
}

/// The views of a sequence of fields.
pub open spec fn fields_model(v: Seq<RustField>) -> Seq<FieldModel> {
    v.map_values(|f: RustField| f@)
}

proof fn lemma_fields_model_push(v: Seq<RustField>, f: RustField)
    ensures
        fields_model(v.push(f)) == fields_model(v).push(f@),
{
    assert(fields_model(v.push(f)) =~= fields_model(v).push(f@));
}

/// The field-type descriptor denoted by a schema node used inside another
/// type: a reference resolves through the document and the global override
/// table, an array wraps its item type (and hint) in a sequence shape, and
/// the scalar primitives map to fixed descriptors. Unions, compositions and
/// anonymous objects cannot stand in field position.
pub open spec fn field_type_model(s: Schema, schemas: Seq<NamedSchema>) -> Result<
    FieldTypeModel,
    SchemaErrorModel,
>
    decreases s,
{
    match s {
        Schema::Ref(r) => if lookup(schemas, r.name@) is None {
            Err(SchemaErrorModel::UnresolvedReference(r.name@))
        } else {
            match override_model(r.name@) {
                Some(ft) => Ok(ft),
                None => Ok(FieldTypeModel { ty: rs_name_of(r.name@), serde_as: None }),
            }
        },
        Schema::OneOf(_) => Err(SchemaErrorModel::InvalidSchemaShape(ShapeIssue::UnionProperty)),
        Schema::AllOf(_) => Err(
            SchemaErrorModel::InvalidSchemaShape(ShapeIssue::CompositionProperty),
        ),
        Schema::Primitive(p) => match p {
            Primitive::Object(_) => Err(
                SchemaErrorModel::InvalidSchemaShape(ShapeIssue::ObjectProperty),
            ),
            Primitive::Array(a) => match field_type_model(*a.items, schemas) {
                Ok(t) => Ok(
                    FieldTypeModel {
                        ty: "Vec<"@ + t.ty + ">"@,
                        serde_as: match t.serde_as {
                            Some(h) => Some("Vec<"@ + h + ">"@),
                            None => None,
                        },
                    },
                ),
                Err(e) => Err(e),
            },
            Primitive::Str(_) => Ok(FieldTypeModel { ty: "String"@, serde_as: None }),
            Primitive::Boolean(_) => Ok(FieldTypeModel { ty: "bool"@, serde_as: None }),
            Primitive::Integer(_) => Ok(FieldTypeModel { ty: "u64"@, serde_as: None }),
        },
    }
}

/// Resolves the type used to represent `schema` as a field inside another
/// type. References must name a schema of the document and are subject to
/// the global override table; unions, compositions and anonymous objects
/// are rejected.
pub fn get_rust_type_for_field(schema: &Schema, specs: &Specification) -> (r: Result<
    RustFieldType,
    SchemaError,
>)
    ensures
        match r {
            Ok(ft) => field_type_model(*schema, specs.components.schemas@) == Ok::<FieldTypeModel, SchemaErrorModel>(ft@),
            Err(e) => field_type_model(*schema, specs.components.schemas@) == Err::<FieldTypeModel, SchemaErrorModel>(e@),
        },
    decreases *schema,
{
    match schema {
        Schema::Ref(r) => {
            if lookup_schema(&specs.components.schemas, r.name.as_str()).is_none() {
                return Err(SchemaError::UnresolvedReference(r.name.clone()));
            }
            match crate::overrides::get_field_type_override(r.name.as_str()) {
                Some(ft) => Ok(ft),
                None => Ok(
                    RustFieldType {
                        ty: crate::naming::to_starknet_rs_name(r.name.as_str()),
                        serde_as: None,
                    },
                ),
            }
        },
        Schema::OneOf(_) => Err(SchemaError::InvalidSchemaShape(ShapeIssue::UnionProperty)),
        Schema::AllOf(_) => Err(SchemaError::InvalidSchemaShape(ShapeIssue::CompositionProperty)),
        Schema::Primitive(p) => match p {
            Primitive::Object(_) => Err(
                SchemaError::InvalidSchemaShape(ShapeIssue::ObjectProperty),
            ),
            Primitive::Array(a) => match get_rust_type_for_field(&a.items, specs) {
                Ok(item_type) => {
                    let ty = String::from_str("Vec<").concat(item_type.ty.as_str()).concat(">");
                    let serde_as = match item_type.serde_as {
                        Some(h) => Some(String::from_str("Vec<").concat(h.as_str()).concat(">")),
                        None => None,
                    };
                    Ok(RustFieldType { ty, serde_as })
                },
                Err(e) => Err(e),
            },
            Primitive::Str(_) => Ok(
                RustFieldType { ty: String::from_str("String"), serde_as: None },
            ),
            Primitive::Boolean(_) => Ok(
                RustFieldType { ty: String::from_str("bool"), serde_as: None },
            ),
            Primitive::Integer(_) => Ok(
                RustFieldType { ty: String::from_str("u64"), serde_as: None },
            ),
        },
    }
}

/// The field entry generated for one resolved property: the documentation
/// text normalized for a one-line comment, and the profile's
/// shared-ownership wrapping and fixed-value substitution applied for the
/// enclosing (type, field) pair.
pub open spec fn field_entry_model(
    ft: FieldTypeModel,
    text: Option<Seq<char>>,
    field_name: Seq<char>,
    schema_name: Seq<char>,
    profile: ProfileModel,
) -> FieldModel {
    FieldModel {
        description: match text {
            Some(t) => Some(doc_of(t, false)),
            None => None,
        },
        name: field_name,
        ty: if arc_lookup(profile.arc_wrapped, schema_name, field_name) {
            "Arc<"@ + ft.ty + ">"@
        } else {
            ft.ty
        },
        serde_as: ft.serde_as,
        fixed: match fixed_lookup(profile.fixed_fields, schema_name, field_name) {
            Some(e) => Some(FixedModel { value: e.value, must_be_present: e.must_be_present }),
            None => None,
        },
    }
}

/// The fields contributed by the properties of an object schema, in
/// document order.
pub open spec fn props_model(
    props: Seq<Property>,
    schemas: Seq<NamedSchema>,
    schema_name: Seq<char>,
    profile: ProfileModel,
) -> Result<Seq<FieldModel>, SchemaErrorModel>
    decreases props.len(),
{
    if props.len() <= 0 {
        Ok(Seq::empty())
    } else {
        match field_type_model(props[0].schema, schemas) {
            Err(e) => Err(e),
            Ok(ft) => match props_model(props.skip(1), schemas, schema_name, profile) {
                Err(e) => Err(e),
                Ok(rest) => Ok(
                    seq![
                        field_entry_model(
                            ft,
                            chosen_text(props[0].schema.spec_doc()),
                            props[0].name@,
                            schema_name,
                            profile,
                        )
                    ] + rest,
                ),
            },
        }
    }
}

/// The flattened field list of a top-level schema: a reference redirects to
/// its target (consuming one unit of redirection fuel), a composition
/// concatenates its members' fields left to right, and an object yields its
/// properties in order. Any other kind has no object fields.
pub open spec fn flatten_model(
    s: Schema,
    schemas: Seq<NamedSchema>,
    schema_name: Seq<char>,
    profile: ProfileModel,
    fuel: nat,
) -> Result<Seq<FieldModel>, SchemaErrorModel>
    decreases fuel, s, 0int,
{
    match s {
        Schema::Ref(r) => if fuel == 0 {
            Err(SchemaErrorModel::CyclicReference)
        } else {
            match lookup(schemas, r.name@) {
                None => Err(SchemaErrorModel::UnresolvedReference(r.name@)),
                Some(target) => flatten_model(
                    target,
                    schemas,
                    schema_name,
                    profile,
                    (fuel - 1) as nat,
                ),
            }
        },
        Schema::AllOf(a) => members_model(a, 0, schemas, schema_name, profile, fuel),
        Schema::Primitive(p) => match p {
            Primitive::Object(o) => props_model(o.properties@, schemas, schema_name, profile),
            _ => Err(SchemaErrorModel::InvalidSchemaShape(ShapeIssue::NotAnObject)),
        },
        Schema::OneOf(_) => Err(SchemaErrorModel::InvalidSchemaShape(ShapeIssue::NotAnObject)),
    }
}

/// The concatenation, left to right, of the flattened fields of the
/// composition's members from position `i` on.
pub open spec fn members_model(
    a: crate::schema::AllOf,
    i: int,
    schemas: Seq<NamedSchema>,
    schema_name: Seq<char>,
    profile: ProfileModel,
    fuel: nat,
) -> Result<Seq<FieldModel>, SchemaErrorModel>
    decreases fuel, a, a.all_of.len() - i,
{
    if i < 0 || i >= a.all_of.len() {
        Ok(Seq::empty())
    } else {
        match flatten_model(a.all_of[i], schemas, schema_name, profile, fuel) {
            Err(e) => Err(e),
            Ok(fs) => match members_model(a, i + 1, schemas, schema_name, profile, fuel) {
                Err(e) => Err(e),
                Ok(rest) => Ok(fs + rest),
            },
        }
    }
}

/// The successful field list of a flatten result.
pub open spec fn ok_fields(r: Result<Seq<FieldModel>, SchemaErrorModel>) -> Seq<FieldModel>
    recommends
        r is Ok,
{
    match r {
        Ok(m) => m,
        Err(_) => Seq::empty(),
    }
}

fn chosen_doc<'a>(d: &'a SchemaDoc) -> (t: Option<&'a String>)
    ensures
        match t {
            Some(s) => chosen_text(*d) == Some(s@),
            None => chosen_text(*d) is None,
        },
{
    match &d.title {
        Some(s) => Some(s),
        None => match &d.description {
            Some(s) => Some(s),
            None => match &d.summary {
                Some(s) => Some(s),
                None => None,
            },
        },
    }
}


/// Flattens `schema` into `fields`: follows reference redirection, merges
/// `allOf` members in declared order, and appends one entry per object
/// property, consulting the profile's fixed-value and shared-ownership
/// tables for each (type, field) pair. `fuel` bounds reference redirection;
/// exhausting it reports a reference cycle. On an error, fields appended
/// before the failure remain in place.
#[verifier::loop_isolation(false)]
pub fn flatten_schema_fields(
    schema: &Schema,
    specs: &Specification,
    schema_name: &str,
    profile: &Profile,
    fields: &mut Vec<RustField>,
    fuel: usize,
) -> (r: Result<(), SchemaError>)
    ensures
        match r {
            Ok(_) => {
                &&& flatten_model(
                    *schema,
                    specs.components.schemas@,
                    schema_name@,
                    profile@,
                    fuel as nat,
                ) is Ok
                &&& fields_model(final(fields)@) == fields_model(old(fields)@) + ok_fields(
                    flatten_model(
                        *schema,
                        specs.components.schemas@,
                        schema_name@,
                        profile@,
                        fuel as nat,
                    ),
                )
            },
            Err(e) => flatten_model(
                *schema,
                specs.components.schemas@,
                schema_name@,
                profile@,
                fuel as nat,
            ) == Err::<Seq<FieldModel>, SchemaErrorModel>(e@),
        },
    decreases fuel, *schema, 0int,
{
    let ghost schemas = specs.components.schemas@;
    match schema {
        Schema::Ref(r) => {
            if fuel == 0 {
                return Err(SchemaError::CyclicReference);
            }
            match lookup_schema(&specs.components.schemas, r.name.as_str()) {
                None => Err(SchemaError::UnresolvedReference(r.name.clone())),
                Some(target) => flatten_schema_fields(
                    target,
                    specs,
                    schema_name,
                    profile,
                    fields,
                    fuel - 1,
                ),
            }
        },
        Schema::AllOf(a) => {
            let ghost a0 = *a;
            let n = a.all_of.len();
            let mut k: usize = 0;
            let ghost entry_fields = fields@;
            let ghost mut done: Seq<FieldModel> = Seq::empty();
            proof {
                assert(fields_model(fields@) =~= fields_model(entry_fields) + done);
            }
            while k < n
                invariant
                    k <= n,
                    n == a0.all_of.len(),
                    *a == a0,
                    schemas == specs.components.schemas@,
                    fields_model(fields@) == fields_model(entry_fields) + done,
                    members_model(a0, 0, schemas, schema_name@, profile@, fuel as nat) == match
                        members_model(a0, k as int, schemas, schema_name@, profile@, fuel as nat) {
                        Ok(rest) => Ok::<Seq<FieldModel>, SchemaErrorModel>(done + rest),
                        Err(e) => Err::<Seq<FieldModel>, SchemaErrorModel>(e),
                    },
                decreases n - k,
            {
                let member = &a.all_of[k];
                proof {
                    assert(a0.all_of[k as int] == *member);
                    assert(decreases_to!(a0.all_of => a0.all_of[k as int]));
                    assert(decreases_to!(*schema => *member));
                }
                match flatten_schema_fields(member, specs, schema_name, profile, fields, fuel) {
                    Ok(_) => {
                        proof {
                            let fm = flatten_model(
                                *member,
                                schemas,
                                schema_name@,
                                profile@,
                                fuel as nat,
                            );
                            let m = ok_fields(fm);
                            let next = members_model(
                                a0,
                                k as int + 1,
                                schemas,
                                schema_name@,
                                profile@,
                                fuel as nat,
                            );
                            if next is Ok {
                                assert((done + m) + ok_fields(next) =~= done + (m + ok_fields(
                                    next,
                                )));
                            }
                            done = done + m;
                            assert(fields_model(fields@) =~= fields_model(entry_fields) + done);
                        }
                    },
                    Err(e) => {
                        proof {
                            assert(members_model(
                                a0,
                                k as int,
                                schemas,
                                schema_name@,
                                profile@,
                                fuel as nat,
                            ) == Err::<Seq<FieldModel>, SchemaErrorModel>(e@));
                        }
                        return Err(e);
                    },
                }
                k = k + 1;
            }
            proof {
                assert(done + Seq::<FieldModel>::empty() =~= done);
            }
            Ok(())
        },
        Schema::Primitive(p) => match p {
            Primitive::Object(o) => {
                let n = o.properties.len();
                let mut k: usize = 0;
                let ghost entry_fields = fields@;
                let ghost mut done: Seq<FieldModel> = Seq::empty();
                proof {
                    assert(o.properties@.skip(0) =~= o.properties@);
                    assert(fields_model(fields@) =~= fields_model(entry_fields) + done);
                }
                while k < n
                    invariant
                        k <= n,
                        n == o.properties@.len(),
                        schemas == specs.components.schemas@,
                        fields_model(fields@) == fields_model(entry_fields) + done,
                        props_model(o.properties@, schemas, schema_name@, profile@) == match
                            props_model(
                            o.properties@.skip(k as int),
                            schemas,
                            schema_name@,
                            profile@,
                        ) {
                            Ok(rest) => Ok::<Seq<FieldModel>, SchemaErrorModel>(done + rest),
                            Err(e) => Err::<Seq<FieldModel>, SchemaErrorModel>(e),
                        },
                    decreases n - k,
                {
                    let prop = &o.properties[k];
                    proof {
                        assert(o.properties@.skip(k as int)[0] == o.properties@[k as int]);
                        assert(o.properties@.skip(k as int).skip(1) =~= o.properties@.skip(
                            k as int + 1,
                        ));
                    }
                    let doc_string = chosen_doc(prop.schema.doc());
                    let description = match doc_string {
                        Some(text) => Some(to_starknet_rs_doc(text.as_str(), false)),
                        None => None,
                    };
                    let field_type = match get_rust_type_for_field(&prop.schema, specs) {
                        Ok(ft) => ft,
                        Err(e) => {
                            proof {
                                assert(props_model(
                                    o.properties@.skip(k as int),
                                    schemas,
                                    schema_name@,
                                    profile@,
                                ) == Err::<Seq<FieldModel>, SchemaErrorModel>(e@));
                            }
                            return Err(e);
                        },
                    };
                    let ghost ft_model = field_type@;
                    let ty = if profile.arc_wrapped(schema_name, prop.name.as_str()) {
                        String::from_str("Arc<").concat(field_type.ty.as_str()).concat(">")
                    } else {
                        field_type.ty
                    };
                    let fixed = match profile.fixed_field(schema_name, prop.name.as_str()) {
                        Some(e) => Some(
                            FixedValue {
                                value: e.value.clone(),
                                must_be_present: e.must_be_present,
                            },
                        ),
                        None => None,
                    };
                    let field = RustField {
                        description,
                        name: prop.name.clone(),
                        ty,
                        serde_as: field_type.serde_as,
                        fixed,
                    };
                    let ghost entry = field_entry_model(
                        ft_model,
                        chosen_text(o.properties@[k as int].schema.spec_doc()),
                        o.properties@[k as int].name@,
                        schema_name@,
                        profile@,
                    );
                    proof {
                        assert(field@ == entry);
                        lemma_fields_model_push(fields@, field);
                    }
                    fields.push(field);
                    proof {
                        let next = props_model(
                            o.properties@.skip(k as int + 1),
                            schemas,
                            schema_name@,
                            profile@,
                        );
                        assert(done.push(entry) =~= done + seq![entry]);
                        if next is Ok {
                            assert((done + seq![entry]) + ok_fields(next) =~= done + (seq![entry]
                                + ok_fields(next)));
                        }
                        done = done.push(entry);
                        assert(fields_model(fields@) =~= fields_model(entry_fields) + done);
                    }
                    k = k + 1;
                }
                proof {
                    assert(o.properties@.skip(n as int) =~= Seq::<Property>::empty());
                    assert(done + Seq::<FieldModel>::empty() =~= done);
                }
                Ok(())
            },
            _ => Err(SchemaError::InvalidSchemaShape(ShapeIssue::NotAnObject)),
        },
        Schema::OneOf(_) => Err(SchemaError::InvalidSchemaShape(ShapeIssue::NotAnObject)),
    }
}

} // verus!
