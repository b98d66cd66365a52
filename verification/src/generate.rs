//! Top-level generation: one declaration per named schema of the document,
//! in declaration order, under the profile's ignore-list and the global
//! override table, with per-schema failures downgraded to recorded skips
//! and invariant violations fatal to the whole run.

use vstd::prelude::*;
use crate::naming::{doc_of, rs_name_of, to_starknet_rs_doc};
use crate::overrides::override_model;
use crate::profile::{ignored, Profile, ProfileModel};
use crate::resolve::{
    fields_model, flatten_model, flatten_schema_fields, get_rust_type_for_field, FieldModel,
    RustField, SchemaError, SchemaErrorModel,
};
use crate::schema::{description_text, NamedSchema, Primitive, Schema, Specification};

verus! {

/// One variant of a generated enum.
pub struct RustVariant {
    pub description: Option<String>,
    pub name: String,
    /// The literal wire value the variant stands for.
    pub serde_name: String,
}

pub ghost struct VariantModel {
    pub description: Option<Seq<char>>,
    pub name: Seq<char>,
    pub serde_name: Seq<char>,
}

impl View for RustVariant {
    type V = VariantModel;

    open spec fn view(&self) -> VariantModel {
        VariantModel {
            description: match self.description {
                Some(s) => Some(s@),
                None => None,
            },
            name: self.name@,
            serde_name: self.serde_name@,
        }
    }
}

/// A generated record with an ordered field list.
pub struct RustStruct {
    pub fields: Vec<RustField>,
}

/// A generated tagged union with an ordered variant list.
pub struct RustEnum {
    pub variants: Vec<RustVariant>,
}

/// A generated transparent single-field newtype.
pub struct RustWrapper {
    pub ty: String,
}

/// The shape of one generated declaration.
pub enum RustTypeKind {
    Struct(RustStruct),
    Enum(RustEnum),
    Wrapper(RustWrapper),
}

/// One generated top-level declaration.
pub struct RustType {
    pub title: Option<String>,
    pub description: Option<String>,
    pub name: String,
    pub content: RustTypeKind,
}

pub ghost enum TypeKindModel {
    Struct(Seq<FieldModel>),
    Enum(Seq<VariantModel>),
    Wrapper(Seq<char>),
}

pub ghost struct TypeModel {
    pub title: Option<Seq<char>>,
    pub description: Option<Seq<char>>,
    pub name: Seq<char>,
    pub content: TypeKindModel,
}

/// The views of a sequence of variants.
pub open spec fn variants_view(v: Seq<RustVariant>) -> Seq<VariantModel> {
    v.map_values(|x: RustVariant| x@)
}

impl View for RustTypeKind {
    type V = TypeKindModel;

    open spec fn view(&self) -> TypeKindModel {
        match self {
            RustTypeKind::Struct(s) => TypeKindModel::Struct(fields_model(s.fields@)),
            RustTypeKind::Enum(e) => TypeKindModel::Enum(variants_view(e.variants@)),
            RustTypeKind::Wrapper(w) => TypeKindModel::Wrapper(w.ty@),
        }
    }
}

impl View for RustType {
    type V = TypeModel;

    open spec fn view(&self) -> TypeModel {
        TypeModel {
            title: match self.title {
                Some(s) => Some(s@),
                None => None,
            },
            description: match self.description {
                Some(s) => Some(s@),
                None => None,
            },
            name: self.name@,
            content: self.content@,
        }
    }
}

/// Why one named schema was skipped with a warning instead of generated.
pub enum SkipReason {
    /// Top-level union generation is a known, reported gap.
    OneOfUnimplemented,
    /// Field resolution or composition flattening failed inside the schema.
    Flatten(SchemaError),
}

pub ghost enum SkipReasonModel {
    OneOfUnimplemented,
    Flatten(SchemaErrorModel),
}

impl View for SkipReason {
    type V = SkipReasonModel;

    open spec fn view(&self) -> SkipReasonModel {
        match self {
            SkipReason::OneOfUnimplemented => SkipReasonModel::OneOfUnimplemented,
            SkipReason::Flatten(e) => SkipReasonModel::Flatten(e@),
        }
    }
}

/// The record of one skipped schema, for the caller's warnings.
pub struct SkippedSchema {
    pub name: String,
    pub reason: SkipReason,
}

pub ghost struct SkipModel {
    pub name: Seq<char>,
    pub reason: SkipReasonModel,
}

impl View for SkippedSchema {
    type V = SkipModel;

    open spec fn view(&self) -> SkipModel {
        SkipModel { name: self.name@, reason: self.reason@ }
    }
}

/// A failure that aborts the whole generation run.
#[derive(Debug)]
pub enum GenError {
    /// A top-level reference could not be resolved to a wrapper type.
    Schema(SchemaError),
    /// A top-level string schema without an enumerated set cannot represent
    /// a named type.
    NonEnumString,
    /// No other primitive kind is expected as a standalone named schema.
    UnexpectedTopLevelShape,
}

pub ghost enum GenErrorModel {
    Schema(SchemaErrorModel),
    NonEnumString,
    UnexpectedTopLevelShape,
}

impl View for GenError {
    type V = GenErrorModel;

    open spec fn view(&self) -> GenErrorModel {
        match self {
            GenError::Schema(e) => GenErrorModel::Schema(e@),
            GenError::NonEnumString => GenErrorModel::NonEnumString,
            GenError::UnexpectedTopLevelShape => GenErrorModel::UnexpectedTopLevelShape,
        }
    }
}

/// The declaration's title text, normalized with a forced closing period.
pub open spec fn title_model(s: Schema) -> Option<Seq<char>> {
    match s.spec_doc().title {
        Some(t) => Some(doc_of(t@, true)),
        None => None,
    }
}

/// The declaration's description text (description, else summary),
/// normalized with a forced closing period.
pub open spec fn description_model(s: Schema) -> Option<Seq<char>> {
    match description_text(s.spec_doc()) {
        Some(t) => Some(doc_of(t, true)),
        None => None,
    }
}

/// The variants generated for an enumerated string schema: one per literal,
/// named by the identifier transform, carrying the literal verbatim as its
/// wire value.
pub open spec fn variants_model(vals: Seq<String>) -> Seq<VariantModel> {
    vals.map_values(
        |v: String| VariantModel { description: None, name: rs_name_of(v@), serde_name: v@ },
    )
}

/// What generation does with one named schema.
pub ghost enum EntryOutcomeModel {
    /// The profile's ignore-list excludes the name.
    Ignored,
    /// A global override supersedes a standalone declaration.
    Overridden,
    /// Skipped with a recorded warning; the run continues.
    Skipped(SkipReasonModel),
    /// A declaration is emitted.
    Emitted(TypeModel),
    /// The whole run fails.
    Fatal(GenErrorModel),
}

/// The outcome of flattening a top-level object or composition: a struct
/// declaration, or a skip recording the failure.
pub open spec fn flatten_outcome(
    name: Seq<char>,
    s: Schema,
    schemas: Seq<NamedSchema>,
    profile: ProfileModel,
) -> EntryOutcomeModel {
    match flatten_model(s, schemas, name, profile, schemas.len()) {
        Ok(fs) => EntryOutcomeModel::Emitted(
            TypeModel {
                title: title_model(s),
                description: description_model(s),
                name: rs_name_of(name),
                content: TypeKindModel::Struct(fs),
            },
        ),
        Err(e) => EntryOutcomeModel::Skipped(SkipReasonModel::Flatten(e)),
    }
}

/// The outcome of generation for the schema bound to `name`: ignored or
/// overridden names are silently skipped; a reference becomes a wrapper (or
/// fails the run if unresolved); a union is a recorded gap; an object or
/// composition becomes a struct, or a recorded skip when flattening fails;
/// an enumerated string becomes an enum; any other shape fails the run.
pub open spec fn entry_model(
    name: Seq<char>,
    s: Schema,
    schemas: Seq<NamedSchema>,
    profile: ProfileModel,
) -> EntryOutcomeModel {
    if ignored(profile.ignore_types, name) {
        EntryOutcomeModel::Ignored
    } else if override_model(name) is Some {
        EntryOutcomeModel::Overridden
    } else {
        match s {
            Schema::Ref(_) => match crate::resolve::field_type_model(s, schemas) {
                Ok(ft) => EntryOutcomeModel::Emitted(
                    TypeModel {
                        title: title_model(s),
                        description: description_model(s),
                        name: rs_name_of(name),
                        content: TypeKindModel::Wrapper(ft.ty),
                    },
                ),
                Err(e) => EntryOutcomeModel::Fatal(GenErrorModel::Schema(e)),
            },
            Schema::OneOf(_) => EntryOutcomeModel::Skipped(SkipReasonModel::OneOfUnimplemented),
            Schema::AllOf(_) => flatten_outcome(name, s, schemas, profile),
            Schema::Primitive(p) => match p {
                Primitive::Object(_) => flatten_outcome(name, s, schemas, profile),
                Primitive::Str(v) => match v.enum_values {
                    Some(vals) => EntryOutcomeModel::Emitted(
                        TypeModel {
                            title: title_model(s),
                            description: description_model(s),
                            name: rs_name_of(name),
                            content: TypeKindModel::Enum(variants_model(vals@)),
                        },
                    ),
                    None => EntryOutcomeModel::Fatal(GenErrorModel::NonEnumString),
                },
                _ => EntryOutcomeModel::Fatal(GenErrorModel::UnexpectedTopLevelShape),
            },
        }
    }
}

/// The declarations and recorded skips of one generation run.
pub ghost struct GenOutputModel {
    pub types: Seq<TypeModel>,
    pub skipped: Seq<SkipModel>,
}

/// Generation folded over the document's entries in declaration order: a
/// fatal outcome aborts the run, an emitted declaration and a recorded skip
/// are appended in order, and ignored or overridden entries leave no trace.
pub open spec fn generate_model(
    entries: Seq<NamedSchema>,
    schemas: Seq<NamedSchema>,
    profile: ProfileModel,
) -> Result<GenOutputModel, GenErrorModel>
    decreases entries.len(),
{
    if entries.len() <= 0 {
        Ok(GenOutputModel { types: Seq::empty(), skipped: Seq::empty() })
    } else {
        match entry_model(entries[0].name@, entries[0].schema, schemas, profile) {
            EntryOutcomeModel::Fatal(e) => Err(e),
            outcome => match generate_model(entries.skip(1), schemas, profile) {
                Err(e) => Err(e),
                Ok(rest) => match outcome {
                    EntryOutcomeModel::Emitted(t) => Ok(
                        GenOutputModel { types: seq![t] + rest.types, skipped: rest.skipped },
                    ),
                    EntryOutcomeModel::Skipped(why) => Ok(
                        GenOutputModel {
                            types: rest.types,
                            skipped: seq![SkipModel { name: entries[0].name@, reason: why }]
                                + rest.skipped,
                        },
                    ),
                    _ => Ok(rest),
                },
            },
        }
    }
}

/// The successful output of a generation result.
pub open spec fn ok_output(r: Result<GenOutputModel, GenErrorModel>) -> GenOutputModel
    recommends
        r is Ok,
{
    match r {
        Ok(g) => g,
        Err(_) => GenOutputModel { types: Seq::empty(), skipped: Seq::empty() },
    }
}

/// The views of a sequence of generated declarations.
pub open spec fn types_view(v: Seq<RustType>) -> Seq<TypeModel> {
    v.map_values(|t: RustType| t@)
}

/// The views of a sequence of skip records.
pub open spec fn skips_view(v: Seq<SkippedSchema>) -> Seq<SkipModel> {
    v.map_values(|s: SkippedSchema| s@)
}

/// The declarations and skip records produced by one run.
pub struct Generated {
    pub types: Vec<RustType>,
    pub skipped: Vec<SkippedSchema>,
}

fn map_doc(text: &Option<String>) -> (r: Option<String>)
    ensures
        match r {
            Some(s) => text matches Some(t) && s@ == doc_of(t@, true),
            None => text is None,
        },
{
    match text {
        Some(t) => Some(to_starknet_rs_doc(t.as_str(), true)),
        None => None,
    }
}

/// Generates the declarations of every named schema of the document, in
/// declaration order, consulting the profile: ignored and overridden names
/// are skipped silently, unions and failed flattenings are skipped with a
/// recorded warning, and an unresolved top-level reference, a
/// non-enumerated top-level string or another top-level primitive aborts
/// the run.
#[verifier::loop_isolation(false)]
pub fn generate_types(specs: &Specification, profile: &Profile) -> (r: Result<Generated, GenError>)
    ensures
        match r {
            Ok(g) => generate_model(specs.components.schemas@, specs.components.schemas@, profile@)
                == Ok::<GenOutputModel, GenErrorModel>(GenOutputModel { types: types_view(g.types@), skipped: skips_view(g.skipped@) }),
            Err(e) => generate_model(
                specs.components.schemas@,
                specs.components.schemas@,
                profile@,
            ) == Err::<GenOutputModel, GenErrorModel>(e@),
        },
{
    let ghost entries = specs.components.schemas@;
    let n = specs.components.schemas.len();
    let mut types: Vec<RustType> = Vec::new();
    let mut skipped: Vec<SkippedSchema> = Vec::new();
    let mut i: usize = 0;
    proof {
        assert(entries.skip(0) =~= entries);
        assert(types_view(types@) =~= Seq::<TypeModel>::empty());
        assert(skips_view(skipped@) =~= Seq::<SkipModel>::empty());
    }
    while i < n
        invariant
            i <= n,
            n == entries.len(),
            entries == specs.components.schemas@,
            generate_model(entries, entries, profile@) == match generate_model(
                entries.skip(i as int),
                entries,
                profile@,
            ) {
                Ok(rest) => Ok::<GenOutputModel, GenErrorModel>(
                    GenOutputModel {
                        types: types_view(types@) + rest.types,
                        skipped: skips_view(skipped@) + rest.skipped,
                    },
                ),
                Err(e) => Err::<GenOutputModel, GenErrorModel>(e),
            },
        decreases n - i,
    {
        let entry = &specs.components.schemas[i];
        let ghost outcome = entry_model(entries[i as int].name@, entries[i as int].schema, entries, profile@);
        proof {
            assert(entries.skip(i as int)[0] == entries[i as int]);
            assert(entries.skip(i as int).skip(1) =~= entries.skip(i as int + 1));
        }
        let name = entry.name.as_str();
        if profile.ignores(name) {
            proof {
                assert(outcome == EntryOutcomeModel::Ignored);
            }
            i = i + 1;
            continue;
        }
        if crate::overrides::get_field_type_override(name).is_some() {
            proof {
                assert(outcome == EntryOutcomeModel::Overridden);
            }
            i = i + 1;
            continue;
        }
        let title = map_doc(entry.schema.title());
        let description = match entry.schema.description() {
            Some(d) => Some(to_starknet_rs_doc(d.as_str(), true)),
            None => match entry.schema.summary() {
                Some(s) => Some(to_starknet_rs_doc(s.as_str(), true)),
                None => None,
            },
        };
        let rusty_name = crate::naming::to_starknet_rs_name(name);
        match &entry.schema {
            Schema::Ref(_) => match get_rust_type_for_field(&entry.schema, specs) {
                Ok(ft) => {
                    let t = RustType {
                        title,
                        description,
                        name: rusty_name,
                        content: RustTypeKind::Wrapper(RustWrapper { ty: ft.ty }),
                    };
                    proof {
                        assert(outcome == EntryOutcomeModel::Emitted(t@));
                        lemma_step_emitted(entries, profile@, i as int, types@, skipped@, t);
                    }
                    types.push(t);
                },
                Err(e) => {
                    proof {
                        assert(outcome == EntryOutcomeModel::Fatal(GenErrorModel::Schema(e@)));
                    }
                    return Err(GenError::Schema(e));
                },
            },
            Schema::OneOf(_) => {
                let s = SkippedSchema {
                    name: entry.name.clone(),
                    reason: SkipReason::OneOfUnimplemented,
                };
                proof {
                    assert(outcome == EntryOutcomeModel::Skipped(s@.reason));
                    lemma_step_skipped(entries, profile@, i as int, types@, skipped@, s);
                }
                skipped.push(s);
            },
            Schema::AllOf(_) => {
                let mut fields: Vec<RustField> = Vec::new();
                match flatten_schema_fields(
                    &entry.schema,
                    specs,
                    name,
                    profile,
                    &mut fields,
                    specs.components.schemas.len(),
                ) {
                    Ok(_) => {
                        let t = RustType {
                            title,
                            description,
                            name: rusty_name,
                            content: RustTypeKind::Struct(RustStruct { fields }),
                        };
                        proof {
                            assert(outcome == EntryOutcomeModel::Emitted(t@));
                            lemma_step_emitted(entries, profile@, i as int, types@, skipped@, t);
                        }
                        types.push(t);
                    },
                    Err(e) => {
                        let s = SkippedSchema {
                            name: entry.name.clone(),
                            reason: SkipReason::Flatten(e),
                        };
                        proof {
                            assert(outcome == EntryOutcomeModel::Skipped(s@.reason));
                            lemma_step_skipped(entries, profile@, i as int, types@, skipped@, s);
                        }
                        skipped.push(s);
                    },
                }
            },
            Schema::Primitive(p) => match p {
                Primitive::Object(_) => {
                    let mut fields: Vec<RustField> = Vec::new();
                    match flatten_schema_fields(
                        &entry.schema,
                        specs,
                        name,
                        profile,
                        &mut fields,
                        specs.components.schemas.len(),
                    ) {
                        Ok(_) => {
                            let t = RustType {
                                title,
                                description,
                                name: rusty_name,
                                content: RustTypeKind::Struct(RustStruct { fields }),
                            };
                            proof {
                                assert(outcome == EntryOutcomeModel::Emitted(t@));
                                lemma_step_emitted(entries, profile@, i as int, types@, skipped@, t);
                            }
                            types.push(t);
                        },
                        Err(e) => {
                            let s = SkippedSchema {
                                name: entry.name.clone(),
                                reason: SkipReason::Flatten(e),
                            };
                            proof {
                                assert(outcome == EntryOutcomeModel::Skipped(s@.reason));
                                lemma_step_skipped(entries, profile@, i as int, types@, skipped@, s);
                            }
                            skipped.push(s);
                        },
                    }
                },
                Primitive::Str(v) => match &v.enum_values {
                    Some(vals) => {
                        let m = vals.len();
                        let mut variants: Vec<RustVariant> = Vec::new();
                        let mut j: usize = 0;
                        proof {
                            assert(variants_view(variants@) =~= variants_model(vals@).take(0));
                        }
                        while j < m
                            invariant
                                j <= m,
                                m == vals@.len(),
                                variants_view(variants@) == variants_model(vals@).take(j as int),
                            decreases m - j,
                        {
                            let item = &vals[j];
                            let variant = RustVariant {
                                description: None,
                                name: crate::naming::to_starknet_rs_name(item.as_str()),
                                serde_name: item.clone(),
                            };
                            proof {
                                assert(variant@ == variants_model(vals@)[j as int]);
                                assert(variants_view(variants@.push(variant)) =~= variants_view(
                                    variants@,
                                ).push(variant@));
                                assert(variants_view(variants@).push(variant@) =~= variants_model(
                                    vals@,
                                ).take(j as int + 1));
                            }
                            variants.push(variant);
                            j = j + 1;
                        }
                        proof {
                            assert(variants_model(vals@).take(m as int) =~= variants_model(vals@));
                        }
                        let t = RustType {
                            title,
                            description,
                            name: rusty_name,
                            content: RustTypeKind::Enum(RustEnum { variants }),
                        };
                        proof {
                            assert(outcome == EntryOutcomeModel::Emitted(t@));
                            lemma_step_emitted(entries, profile@, i as int, types@, skipped@, t);
                        }
                        types.push(t);
                    },
                    None => {
                        proof {
                            assert(outcome == EntryOutcomeModel::Fatal(GenErrorModel::NonEnumString));
                        }
                        return Err(GenError::NonEnumString);
                    },
                },
                _ => {
                    proof {
                        assert(outcome == EntryOutcomeModel::Fatal(
                            GenErrorModel::UnexpectedTopLevelShape,
                        ));
                    }
                    return Err(GenError::UnexpectedTopLevelShape);
                },
            },
        }
        i = i + 1;
    }
    proof {
        assert(entries.skip(n as int) =~= Seq::<NamedSchema>::empty());
        assert(types_view(types@) + Seq::<TypeModel>::empty() =~= types_view(types@));
        assert(skips_view(skipped@) + Seq::<SkipModel>::empty() =~= skips_view(skipped@));
    }
    Ok(Generated { types, skipped })
}

/// Restores the fold invariant after a declaration is emitted.
proof fn lemma_step_emitted(
    entries: Seq<NamedSchema>,
    profile: ProfileModel,
    i: int,
    types: Seq<RustType>,
    skipped: Seq<SkippedSchema>,
    t: RustType,
)
    requires
        0 <= i < entries.len(),
        entry_model(entries[i].name@, entries[i].schema, entries, profile)
            == EntryOutcomeModel::Emitted(t@),
        generate_model(entries, entries, profile) == match generate_model(
            entries.skip(i),
            entries,
            profile,
        ) {
            Ok(rest) => Ok::<GenOutputModel, GenErrorModel>(
                GenOutputModel {
                    types: types_view(types) + rest.types,
                    skipped: skips_view(skipped) + rest.skipped,
                },
            ),
            Err(e) => Err::<GenOutputModel, GenErrorModel>(e),
        },
    ensures
        generate_model(entries, entries, profile) == match generate_model(
            entries.skip(i + 1),
            entries,
            profile,
        ) {
            Ok(rest) => Ok::<GenOutputModel, GenErrorModel>(
                GenOutputModel {
                    types: types_view(types.push(t)) + rest.types,
                    skipped: skips_view(skipped) + rest.skipped,
                },
            ),
            Err(e) => Err::<GenOutputModel, GenErrorModel>(e),
        },
{
    assert(entries.skip(i)[0] == entries[i]);
    assert(entries.skip(i).skip(1) =~= entries.skip(i + 1));
    let nxt = generate_model(entries.skip(i + 1), entries, profile);
    if nxt is Ok {
        let rest = ok_output(nxt);
        assert(types_view(types.push(t)) =~= types_view(types).push(t@));
        assert(types_view(types) + (seq![t@] + rest.types) =~= types_view(types).push(t@)
            + rest.types);
    }
}

/// Restores the fold invariant after a schema is skipped with a warning.
proof fn lemma_step_skipped(
    entries: Seq<NamedSchema>,
    profile: ProfileModel,
    i: int,
    types: Seq<RustType>,
    skipped: Seq<SkippedSchema>,
    s: SkippedSchema,
)
    requires
        0 <= i < entries.len(),
        s@.name == entries[i].name@,
        entry_model(entries[i].name@, entries[i].schema, entries, profile)
            == EntryOutcomeModel::Skipped(s@.reason),
        generate_model(entries, entries, profile) == match generate_model(
            entries.skip(i),
            entries,
            profile,
        ) {
            Ok(rest) => Ok::<GenOutputModel, GenErrorModel>(
                GenOutputModel {
                    types: types_view(types) + rest.types,
                    skipped: skips_view(skipped) + rest.skipped,
                },
            ),
            Err(e) => Err::<GenOutputModel, GenErrorModel>(e),
        },
    ensures
        generate_model(entries, entries, profile) == match generate_model(
            entries.skip(i + 1),
            entries,
            profile,
        ) {
            Ok(rest) => Ok::<GenOutputModel, GenErrorModel>(
                GenOutputModel {
                    types: types_view(types) + rest.types,
                    skipped: skips_view(skipped.push(s)) + rest.skipped,
                },
            ),
            Err(e) => Err::<GenOutputModel, GenErrorModel>(e),
        },
{
    assert(entries.skip(i)[0] == entries[i]);
    assert(entries.skip(i).skip(1) =~= entries.skip(i + 1));
    let nxt = generate_model(entries.skip(i + 1), entries, profile);
    if nxt is Ok {
        let rest = ok_output(nxt);
        assert(skips_view(skipped.push(s)) =~= skips_view(skipped).push(s@));
        assert(skips_view(skipped) + (seq![s@] + rest.skipped) =~= skips_view(skipped).push(s@)
            + rest.skipped);
    }
}

/// Generates declarations for every named schema of the document with no
/// profile customizations.
pub fn resolve_types(specs: &Specification) -> (r: Result<Generated, GenError>)
    ensures
        match r {
            Ok(g) => generate_model(
                specs.components.schemas@,
                specs.components.schemas@,
                crate::profile::empty_profile_model(),
            ) == Ok::<GenOutputModel, GenErrorModel>(GenOutputModel { types: types_view(g.types@), skipped: skips_view(g.skipped@) }),
            Err(e) => generate_model(
                specs.components.schemas@,
                specs.components.schemas@,
                crate::profile::empty_profile_model(),
            ) == Err::<GenOutputModel, GenErrorModel>(e@),
        },
{
    let profile = Profile::empty();
    generate_types(specs, &profile)
}

} // verus!
