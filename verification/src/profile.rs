//! Per-version profile configuration: the ignore-list, flatten options,
//! fixed-value field substitutions and shared-ownership wrapping decisions
//! consulted while generating declarations.

use vstd::prelude::*;

verus! {

/// Whether composed fields are flattened for every type or only for a
/// selected list of names. Generation always flattens `allOf` members; the
/// choice is carried as part of the profile for its consumers.
pub enum FlattenOption {
    All,
    Selected(Vec<String>),
}

/// Forces one field of one type to a fixed literal value, optionally
/// requiring the field to be present when deserializing.
pub struct FixedFieldEntry {
    pub schema_name: String,
    pub field_name: String,
    pub value: String,
    pub must_be_present: bool,
}

/// Marks one field of one type as wrapped in a shared-ownership container.
pub struct ArcWrapEntry {
    pub schema_name: String,
    pub field_name: String,
}

/// The per-specification-version bundle of generation options.
pub struct Profile {
    pub flatten: FlattenOption,
    pub ignore_types: Vec<String>,
    pub fixed_fields: Vec<FixedFieldEntry>,
    pub arc_wrapped: Vec<ArcWrapEntry>,
}

pub ghost enum FlattenModel {
    All,
    Selected(Seq<Seq<char>>),
}

pub ghost struct FixedEntryModel {
    pub schema_name: Seq<char>,
    pub field_name: Seq<char>,
    pub value: Seq<char>,
    pub must_be_present: bool,
}

pub ghost struct ArcEntryModel {
    pub schema_name: Seq<char>,
    pub field_name: Seq<char>,
}

/// The mathematical value of a profile.
pub ghost struct ProfileModel {
    pub flatten: FlattenModel,
    pub ignore_types: Seq<Seq<char>>,
    pub fixed_fields: Seq<FixedEntryModel>,
    pub arc_wrapped: Seq<ArcEntryModel>,
}

impl View for FixedFieldEntry {
    type V = FixedEntryModel;

    open spec fn view(&self) -> FixedEntryModel {
        FixedEntryModel {
            schema_name: self.schema_name@,
            field_name: self.field_name@,
            value: self.value@,
            must_be_present: self.must_be_present,
        }
    }
}

impl View for ArcWrapEntry {
    type V = ArcEntryModel;

    open spec fn view(&self) -> ArcEntryModel {
        ArcEntryModel { schema_name: self.schema_name@, field_name: self.field_name@ }
    }
}

impl View for Profile {
    type V = ProfileModel;

    open spec fn view(&self) -> ProfileModel {
        ProfileModel {
            flatten: match self.flatten {
                FlattenOption::All => FlattenModel::All,
                FlattenOption::Selected(v) => FlattenModel::Selected(
                    v@.map_values(|s: String| s@),
                ),
            },
            ignore_types: self.ignore_types@.map_values(|s: String| s@),
            fixed_fields: self.fixed_fields@.map_values(|e: FixedFieldEntry| e@),
            arc_wrapped: self.arc_wrapped@.map_values(|e: ArcWrapEntry| e@),
        }
    }
}

/// The profile that customizes nothing: flatten everything, ignore nothing,
/// fix and wrap no field.
pub open spec fn empty_profile_model() -> ProfileModel {
    ProfileModel {
        flatten: FlattenModel::All,
        ignore_types: Seq::empty(),
        fixed_fields: Seq::empty(),
        arc_wrapped: Seq::empty(),
    }
}

/// Whether the ignore-list holds `name`.
pub open spec fn ignored(ignore_types: Seq<Seq<char>>, name: Seq<char>) -> bool {
    exists|i: int| 0 <= i < ignore_types.len() && ignore_types[i] == name
}

/// The fixed-value substitution configured for the (type, field) pair, by
/// its first matching entry.
pub open spec fn fixed_lookup(
    entries: Seq<FixedEntryModel>,
    schema_name: Seq<char>,
    field_name: Seq<char>,
) -> Option<FixedEntryModel>
    decreases entries.len(),
{
    if entries.len() == 0 {
        None
    } else if entries[0].schema_name == schema_name && entries[0].field_name == field_name {
        Some(entries[0])
    } else {
        fixed_lookup(entries.skip(1), schema_name, field_name)
    }
}

/// Whether the (type, field) pair is configured as shared-ownership-wrapped.
pub open spec fn arc_lookup(
    entries: Seq<ArcEntryModel>,
    schema_name: Seq<char>,
    field_name: Seq<char>,
) -> bool {
    exists|i: int|
        0 <= i < entries.len() && entries[i].schema_name == schema_name && entries[i].field_name
            == field_name
}

impl Profile {
    /// A profile with no customizations at all.
    pub fn empty() -> (p: Profile)
        ensures
            p@ == empty_profile_model(),
    {
        let p = Profile {
            flatten: FlattenOption::All,
            ignore_types: Vec::new(),
            fixed_fields: Vec::new(),
            arc_wrapped: Vec::new(),
        };
        proof {
            assert(p@.ignore_types =~= empty_profile_model().ignore_types);
            assert(p@.fixed_fields =~= empty_profile_model().fixed_fields);
            assert(p@.arc_wrapped =~= empty_profile_model().arc_wrapped);
        }
        p
    }

    /// Whether generation must skip the schema named `name` entirely.
    pub fn ignores(&self, name: &str) -> (r: bool)
        ensures
            r == ignored(self@.ignore_types, name@),
    {
        let n = self.ignore_types.len();
        let mut i: usize = 0;
        while i < n
            invariant
                i <= n,
                n == self.ignore_types@.len(),
                forall|k: int| 0 <= k < i ==> self@.ignore_types[k] != name@,
            decreases n - i,
        {
            if crate::naming::str_eq(self.ignore_types[i].as_str(), name) {
                proof {
                    assert(self@.ignore_types[i as int] == name@);
                }
                return true;
            }
            i = i + 1;
        }
        false
    }

    /// The fixed-value substitution for the (type, field) pair, when the
    /// profile configures one.
    pub fn fixed_field<'a>(&'a self, schema_name: &str, field_name: &str) -> (r: Option<
        &'a FixedFieldEntry,
    >)
        ensures
            match r {
                Some(e) => fixed_lookup(self@.fixed_fields, schema_name@, field_name@) == Some(
                    e@,
                ),
                None => fixed_lookup(self@.fixed_fields, schema_name@, field_name@) is None,
            },
    {
        let n = self.fixed_fields.len();
        let mut i: usize = 0;
        proof {
            assert(self@.fixed_fields.skip(0) =~= self@.fixed_fields);
        }
        while i < n
            invariant
                i <= n,
                n == self.fixed_fields@.len(),
                fixed_lookup(self@.fixed_fields, schema_name@, field_name@) == fixed_lookup(
                    self@.fixed_fields.skip(i as int),
                    schema_name@,
                    field_name@,
                ),
            decreases n - i,
        {
            let entry = &self.fixed_fields[i];
            proof {
                assert(self@.fixed_fields.skip(i as int)[0] == self@.fixed_fields[i as int]);
                assert(self@.fixed_fields.skip(i as int).skip(1) =~= self@.fixed_fields.skip(
                    i as int + 1,
                ));
            }
            if crate::naming::str_eq(entry.schema_name.as_str(), schema_name)
                && crate::naming::str_eq(entry.field_name.as_str(), field_name) {
                return Some(entry);
            }
            i = i + 1;
        }
        None
    }

    /// Whether the profile wraps the (type, field) pair in shared ownership.
    pub fn arc_wrapped(&self, schema_name: &str, field_name: &str) -> (r: bool)
        ensures
            r == arc_lookup(self@.arc_wrapped, schema_name@, field_name@),
    {
        let n = self.arc_wrapped.len();
        let mut i: usize = 0;
        while i < n
            invariant
                i <= n,
                n == self.arc_wrapped@.len(),
                forall|k: int|
                    0 <= k < i ==> !(self@.arc_wrapped[k].schema_name == schema_name@
                        && self@.arc_wrapped[k].field_name == field_name@),
            decreases n - i,
        {
            let entry = &self.arc_wrapped[i];
            if crate::naming::str_eq(entry.schema_name.as_str(), schema_name)
                && crate::naming::str_eq(entry.field_name.as_str(), field_name) {
                proof {
                    assert(self@.arc_wrapped[i as int].schema_name == schema_name@);
                }
                return true;
            }
            i = i + 1;
        }
        false
    }
}

} // verus!
