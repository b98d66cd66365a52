//! The global override table: hard-coded substitutions that replace
//! ordinary field-type resolution for known upstream primitive-alias
//! names, together with the field-type descriptor they produce.

use vstd::prelude::*;

verus! {

/// The identifier and optional serialization hint that represent a schema
/// node inside another type.
pub struct RustFieldType {
    /// The type expression used for the field.
    pub ty: String,
    /// A serialization hint, when the field needs nonstandard wire encoding.
    pub serde_as: Option<String>,
}

/// The mathematical value of a field-type descriptor.
pub ghost struct FieldTypeModel {
    pub ty: Seq<char>,
    pub serde_as: Option<Seq<char>>,
}

impl View for RustFieldType {
    type V = FieldTypeModel;

    open spec fn view(&self) -> FieldTypeModel {
        FieldTypeModel {
            ty: self.ty@,
            serde_as: match self.serde_as {
                Some(s) => Some(s@),
                None => None,
            },
        }
    }
}

/// The descriptor that the global table substitutes for `name`, when one is
/// defined: field-element-like names become a hex-encoded field element,
/// and a few aliases map to plain integers, an address type, or lists.
pub open spec fn override_model(name: Seq<char>) -> Option<FieldTypeModel> {
    if name == "ADDRESS"@ || name == "STORAGE_KEY"@ || name == "TXN_HASH"@ || name == "FELT"@
        || name == "BLOCK_HASH"@ || name == "CHAIN_ID"@ || name == "PROTOCOL_VERSION"@ {
        Some(FieldTypeModel { ty: "FieldElement"@, serde_as: Some("UfeHex"@) })
    } else if name == "BLOCK_NUMBER"@ {
        Some(FieldTypeModel { ty: "u64"@, serde_as: None })
    } else if name == "NUM_AS_HEX"@ {
        Some(FieldTypeModel { ty: "u64"@, serde_as: Some("NumAsHex"@) })
    } else if name == "ETH_ADDRESS"@ {
        Some(FieldTypeModel { ty: "EthAddress"@, serde_as: None })
    } else if name == "SIGNATURE"@ {
        Some(FieldTypeModel { ty: "Vec<FieldElement>"@, serde_as: Some("Vec<UfeHex>"@) })
    } else if name == "CONTRACT_ABI"@ {
        Some(FieldTypeModel { ty: "Vec<ContractAbiEntry>"@, serde_as: None })
    } else if name == "CONTRACT_ENTRY_POINT_LIST"@ {
        Some(FieldTypeModel { ty: "Vec<ContractEntryPoint>"@, serde_as: None })
    } else {
        None
    }
}

fn make_override(ty: &str, serde_as: Option<&str>) -> (r: RustFieldType)
    ensures
        r@.ty == ty@,
        r@.serde_as == match serde_as {
            Some(s) => Some(s@),
            None => None::<Seq<char>>,
        },
{
    RustFieldType {
        ty: String::from_str(ty),
        serde_as: match serde_as {
            Some(s) => Some(String::from_str(s)),
            None => None,
        },
    }
}

/// Looks up the global, hard-coded table of field-type substitutions. A
/// schema name found here is never generated as a standalone declaration:
/// the returned descriptor fully replaces it wherever it is referenced.
pub fn get_field_type_override(name: &str) -> (r: Option<RustFieldType>)
    ensures
        match r {
            Some(ft) => override_model(name@) == Some(ft@),
            None => override_model(name@) is None,
        },
{
    if crate::naming::str_eq(name, "ADDRESS") || crate::naming::str_eq(
        name,
        "STORAGE_KEY",
    ) || crate::naming::str_eq(name, "TXN_HASH") || crate::naming::str_eq(name, "FELT")
        || crate::naming::str_eq(name, "BLOCK_HASH") || crate::naming::str_eq(
        name,
        "CHAIN_ID",
    ) || crate::naming::str_eq(name, "PROTOCOL_VERSION") {
        Some(make_override("FieldElement", Some("UfeHex")))
    } else if crate::naming::str_eq(name, "BLOCK_NUMBER") {
        Some(make_override("u64", None))
    } else if crate::naming::str_eq(name, "NUM_AS_HEX") {
        Some(make_override("u64", Some("NumAsHex")))
    } else if crate::naming::str_eq(name, "ETH_ADDRESS") {
        Some(make_override("EthAddress", None))
    } else if crate::naming::str_eq(name, "SIGNATURE") {
        Some(make_override("Vec<FieldElement>", Some("Vec<UfeHex>")))
    } else if crate::naming::str_eq(name, "CONTRACT_ABI") {
        Some(make_override("Vec<ContractAbiEntry>", None))
    } else if crate::naming::str_eq(name, "CONTRACT_ENTRY_POINT_LIST") {
        Some(make_override("Vec<ContractEntryPoint>", None))
    } else {
        None
    }
}

} // verus!
