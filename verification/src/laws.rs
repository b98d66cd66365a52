//! Laws of the resolution and generation engine, stated and proved over
//! the same models that the executable functions' contracts use.

use vstd::prelude::*;
use crate::generate::{
    entry_model, generate_model, EntryOutcomeModel, GenErrorModel, SkipReasonModel,
};
use crate::overrides::{override_model, FieldTypeModel};
use crate::profile::{ignored, ProfileModel};
use crate::resolve::{
    field_type_model, flatten_model, members_model, ok_fields, FieldModel, SchemaErrorModel,
};
use crate::schema::{lookup, AllOf, NamedSchema, Primitive, Reference, Schema};

verus! {

/// A schema name carrying a global override never becomes a standalone
/// generated declaration: generation leaves such an entry out entirely
/// (or, when the profile also ignores it, skips it for that reason).
pub proof fn lemma_override_supersedes_declaration(
    name: Seq<char>,
    s: Schema,
    schemas: Seq<NamedSchema>,
    profile: ProfileModel,
)
    requires
        override_model(name) is Some,
    ensures
        entry_model(name, s, schemas, profile) == EntryOutcomeModel::Overridden || entry_model(
            name,
            s,
            schemas,
            profile,
        ) == EntryOutcomeModel::Ignored,
{
}

/// An entry that is ignored or overridden contributes nothing to the run's
/// output: generation of the document equals generation without it.
pub proof fn lemma_inert_entry(
    entries: Seq<NamedSchema>,
    schemas: Seq<NamedSchema>,
    profile: ProfileModel,
)
    requires
        entries.len() > 0,
        entry_model(entries[0].name@, entries[0].schema, schemas, profile)
            == EntryOutcomeModel::Overridden || entry_model(
            entries[0].name@,
            entries[0].schema,
            schemas,
            profile,
        ) == EntryOutcomeModel::Ignored,
    ensures
        generate_model(entries, schemas, profile) == generate_model(
            entries.skip(1),
            schemas,
            profile,
        ),
{
}

/// Every field referencing an overridden schema name resolves to the
/// override's descriptor and serialization hint, never to the plain
/// identifier of the referenced name.
pub proof fn lemma_override_used_for_fields(
    r: Reference,
    schemas: Seq<NamedSchema>,
    ft: FieldTypeModel,
)
    requires
        lookup(schemas, r.name@) is Some,
        override_model(r.name@) == Some(ft),
    ensures
        field_type_model(Schema::Ref(r), schemas) == Ok::<FieldTypeModel, SchemaErrorModel>(ft),
{
}

/// The left-to-right concatenation of the members' flattened field lists,
/// from position `i` on.
pub open spec fn members_concat(
    a: AllOf,
    i: int,
    schemas: Seq<NamedSchema>,
    schema_name: Seq<char>,
    profile: ProfileModel,
    fuel: nat,
) -> Seq<FieldModel>
    decreases a.all_of.len() - i,
{
    if i < 0 || i >= a.all_of.len() {
        Seq::empty()
    } else {
        ok_fields(flatten_model(a.all_of[i], schemas, schema_name, profile, fuel))
            + members_concat(a, i + 1, schemas, schema_name, profile, fuel)
    }
}

proof fn lemma_members_concat(
    a: AllOf,
    i: int,
    schemas: Seq<NamedSchema>,
    schema_name: Seq<char>,
    profile: ProfileModel,
    fuel: nat,
)
    requires
        0 <= i <= a.all_of.len(),
        forall|j: int|
            0 <= j < a.all_of.len() ==> #[trigger] flatten_model(
                a.all_of[j],
                schemas,
                schema_name,
                profile,
                fuel,
            ) is Ok,
    ensures
        members_model(a, i, schemas, schema_name, profile, fuel) == Ok::<
            Seq<FieldModel>,
            SchemaErrorModel,
        >(members_concat(a, i, schemas, schema_name, profile, fuel)),
    decreases a.all_of.len() - i,
{
    if i < a.all_of.len() {
        lemma_members_concat(a, i + 1, schemas, schema_name, profile, fuel);
    }
}

/// The flattened field list of an `allOf` composition whose members all
/// flatten successfully is exactly the concatenation of each member's own
/// flattened field list, left to right, in declared order.
pub proof fn lemma_all_of_concatenates(
    a: AllOf,
    schemas: Seq<NamedSchema>,
    schema_name: Seq<char>,
    profile: ProfileModel,
    fuel: nat,
)
    requires
        forall|j: int|
            0 <= j < a.all_of.len() ==> #[trigger] flatten_model(
                a.all_of[j],
                schemas,
                schema_name,
                profile,
                fuel,
            ) is Ok,
    ensures
        flatten_model(Schema::AllOf(a), schemas, schema_name, profile, fuel) == Ok::<
            Seq<FieldModel>,
            SchemaErrorModel,
        >(members_concat(a, 0, schemas, schema_name, profile, fuel)),
{
    lemma_members_concat(a, 0, schemas, schema_name, profile, fuel);
}

/// Raising the redirection fuel never changes a flatten result that did
/// not already run out of fuel.
pub proof fn lemma_flatten_fuel_monotonic(
    s: Schema,
    schemas: Seq<NamedSchema>,
    schema_name: Seq<char>,
    profile: ProfileModel,
    fuel: nat,
    more: nat,
)
    requires
        fuel <= more,
        flatten_model(s, schemas, schema_name, profile, fuel) != Err::<
            Seq<FieldModel>,
            SchemaErrorModel,
        >(SchemaErrorModel::CyclicReference),
    ensures
        flatten_model(s, schemas, schema_name, profile, more) == flatten_model(
            s,
            schemas,
            schema_name,
            profile,
            fuel,
        ),
    decreases fuel, s, 0int,
{
    match s {
        Schema::Ref(r) => {
            match lookup(schemas, r.name@) {
                None => {},
                Some(target) => {
                    lemma_flatten_fuel_monotonic(
                        target,
                        schemas,
                        schema_name,
                        profile,
                        (fuel - 1) as nat,
                        (more - 1) as nat,
                    );
                },
            }
        },
        Schema::AllOf(a) => {
            lemma_members_fuel_monotonic(a, 0, schemas, schema_name, profile, fuel, more);
        },
        _ => {},
    }
}

proof fn lemma_members_fuel_monotonic(
    a: AllOf,
    i: int,
    schemas: Seq<NamedSchema>,
    schema_name: Seq<char>,
    profile: ProfileModel,
    fuel: nat,
    more: nat,
)
    requires
        fuel <= more,
        members_model(a, i, schemas, schema_name, profile, fuel) != Err::<
            Seq<FieldModel>,
            SchemaErrorModel,
        >(SchemaErrorModel::CyclicReference),
    ensures
        members_model(a, i, schemas, schema_name, profile, more) == members_model(
            a,
            i,
            schemas,
            schema_name,
            profile,
            fuel,
        ),
    decreases fuel, a, a.all_of.len() - i,
{
    if 0 <= i < a.all_of.len() {
        let fm = flatten_model(a.all_of[i], schemas, schema_name, profile, fuel);
        if fm != Err::<Seq<FieldModel>, SchemaErrorModel>(SchemaErrorModel::CyclicReference) {
            lemma_flatten_fuel_monotonic(a.all_of[i], schemas, schema_name, profile, fuel, more);
            if fm is Ok {
                lemma_members_fuel_monotonic(a, i + 1, schemas, schema_name, profile, fuel, more);
            }
        }
    }
}

/// Reference transparency: flattening a reference (when it does not run
/// out of redirection fuel, as only a cycle can cause) yields exactly the
/// field list of flattening the referenced schema directly.
pub proof fn lemma_reference_transparent(
    r: Reference,
    target: Schema,
    schemas: Seq<NamedSchema>,
    schema_name: Seq<char>,
    profile: ProfileModel,
    fuel: nat,
)
    requires
        fuel > 0,
        lookup(schemas, r.name@) == Some(target),
        flatten_model(Schema::Ref(r), schemas, schema_name, profile, fuel) != Err::<
            Seq<FieldModel>,
            SchemaErrorModel,
        >(SchemaErrorModel::CyclicReference),
    ensures
        flatten_model(Schema::Ref(r), schemas, schema_name, profile, fuel) == flatten_model(
            target,
            schemas,
            schema_name,
            profile,
            fuel,
        ),
{
    lemma_flatten_fuel_monotonic(target, schemas, schema_name, profile, (fuel - 1) as nat, fuel);
}

/// A failure inside field flattening — an unresolved reference among them —
/// only skips the enclosing top-level object or composition, with the
/// failure recorded; it is not fatal to the run.
pub proof fn lemma_flatten_failure_skips_schema(
    name: Seq<char>,
    s: Schema,
    schemas: Seq<NamedSchema>,
    profile: ProfileModel,
    e: SchemaErrorModel,
)
    requires
        !ignored(profile.ignore_types, name),
        override_model(name) is None,
        s matches Schema::AllOf(_) || s matches Schema::Primitive(Primitive::Object(_)),
        flatten_model(s, schemas, name, profile, schemas.len()) == Err::<
            Seq<FieldModel>,
            SchemaErrorModel,
        >(e),
    ensures
        entry_model(name, s, schemas, profile) == EntryOutcomeModel::Skipped(
            SkipReasonModel::Flatten(e),
        ),
{
}

/// A reference to a missing schema as the sole top-level shape is fatal:
/// the entry's outcome aborts the run.
pub proof fn lemma_missing_ref_at_top_is_fatal(
    name: Seq<char>,
    r: Reference,
    schemas: Seq<NamedSchema>,
    profile: ProfileModel,
)
    requires
        !ignored(profile.ignore_types, name),
        override_model(name) is None,
        lookup(schemas, r.name@) is None,
    ensures
        entry_model(name, Schema::Ref(r), schemas, profile) == EntryOutcomeModel::Fatal(
            GenErrorModel::Schema(SchemaErrorModel::UnresolvedReference(r.name@)),
        ),
{
}

/// A fatal entry anywhere in the document fails the whole generation run.
pub proof fn lemma_fatal_entry_fails_run(
    entries: Seq<NamedSchema>,
    schemas: Seq<NamedSchema>,
    profile: ProfileModel,
    i: int,
)
    requires
        0 <= i < entries.len(),
        entry_model(entries[i].name@, entries[i].schema, schemas, profile) is Fatal,
    ensures
        generate_model(entries, schemas, profile) is Err,
    decreases entries.len(),
{
    if i > 0 {
        let first = entry_model(entries[0].name@, entries[0].schema, schemas, profile);
        if !(first is Fatal) {
            assert(entries.skip(1)[i - 1] == entries[i]);
            lemma_fatal_entry_fails_run(entries.skip(1), schemas, profile, i - 1);
        }
    }
}

} // verus!
