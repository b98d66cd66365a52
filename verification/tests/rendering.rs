use openrpc_typegen::generate::{
    resolve_types, RustEnum, RustStruct, RustType, RustTypeKind, RustVariant, RustWrapper,
};
use openrpc_typegen::render::print_doc;
use openrpc_typegen::resolve::RustField;
use openrpc_typegen::schema::{
    Components, NamedSchema, ObjectPrimitive, Primitive, Property, Schema, SchemaDoc, Specification,
    StringPrimitive,
};

fn field(name: &str, ty: &str, serde_as: Option<&str>) -> RustField {
    RustField {
        description: None,
        name: name.to_string(),
        ty: ty.to_string(),
        serde_as: serde_as.map(|s| s.to_string()),
        fixed: None,
    }
}

#[test]
fn wrapper_lines() {
    let w = RustWrapper { ty: "FieldElement".to_string() };
    assert_eq!(
        w.render_stdout("BlockHash"),
        vec![
            "#[derive(Debug, Clone, Serialize, Deserialize)]".to_string(),
            "pub struct BlockHash(pub FieldElement);".to_string(),
        ]
    );
}

#[test]
fn struct_lines_with_hints_and_escaping() {
    let s = RustStruct {
        fields: vec![
            field("block_hash", "FieldElement", Some("UfeHex")),
            field("type", "String", None),
        ],
    };
    assert_eq!(
        s.render_stdout("Block"),
        vec![
            "#[serde_as]".to_string(),
            "#[derive(Debug, Clone, Serialize, Deserialize)]".to_string(),
            "pub struct Block {".to_string(),
            "    #[serde_as(as = \"UfeHex\")]".to_string(),
            "    pub block_hash: FieldElement,".to_string(),
            "    pub r#type: String,".to_string(),
            "}".to_string(),
        ]
    );
}

#[test]
fn struct_lines_without_hints() {
    let s = RustStruct { fields: vec![field("x", "u64", None)] };
    assert_eq!(
        s.render_stdout("Point"),
        vec![
            "#[derive(Debug, Clone, Serialize, Deserialize)]".to_string(),
            "pub struct Point {".to_string(),
            "    pub x: u64,".to_string(),
            "}".to_string(),
        ]
    );
}

#[test]
fn enum_lines() {
    let e = RustEnum {
        variants: vec![
            RustVariant {
                description: None,
                name: "Accepted".to_string(),
                serde_name: "ACCEPTED".to_string(),
            },
            RustVariant {
                description: None,
                name: "Rejected".to_string(),
                serde_name: "REJECTED".to_string(),
            },
        ],
    };
    assert_eq!(
        e.render_stdout("Status"),
        vec![
            "#[derive(Debug, Clone, Serialize, Deserialize)]".to_string(),
            "pub enum Status {".to_string(),
            "    #[serde(rename = \"ACCEPTED\")]".to_string(),
            "    Accepted,".to_string(),
            "    #[serde(rename = \"REJECTED\")]".to_string(),
            "    Rejected,".to_string(),
            "}".to_string(),
        ]
    );
}

#[test]
fn kind_dispatch() {
    let k = RustTypeKind::Wrapper(RustWrapper { ty: "u64".to_string() });
    assert_eq!(
        k.render_stdout("BlockNumber"),
        vec![
            "#[derive(Debug, Clone, Serialize, Deserialize)]".to_string(),
            "pub struct BlockNumber(pub u64);".to_string(),
        ]
    );
}

#[test]
fn type_lines_with_title_and_description() {
    let t = RustType {
        title: Some("A title.".to_string()),
        description: Some("A description.".to_string()),
        name: "Thing".to_string(),
        content: RustTypeKind::Wrapper(RustWrapper { ty: "u64".to_string() }),
    };
    assert_eq!(
        t.render_stdout(true),
        vec![
            "/// A title.".to_string(),
            "///".to_string(),
            "/// A description.".to_string(),
            "#[derive(Debug, Clone, Serialize, Deserialize)]".to_string(),
            "pub struct Thing(pub u64);".to_string(),
            "".to_string(),
        ]
    );
}

#[test]
fn type_lines_without_docs_or_trailing_line() {
    let t = RustType {
        title: None,
        description: None,
        name: "Thing".to_string(),
        content: RustTypeKind::Wrapper(RustWrapper { ty: "u64".to_string() }),
    };
    assert_eq!(
        t.render_stdout(false),
        vec![
            "#[derive(Debug, Clone, Serialize, Deserialize)]".to_string(),
            "pub struct Thing(pub u64);".to_string(),
        ]
    );
}

#[test]
fn doc_comment_wrapping() {
    let lines = print_doc("short text", 4);
    assert_eq!(lines, vec!["    /// short text".to_string()]);
    let long = "word ".repeat(30);
    let wrapped = print_doc(long.trim_end(), 0);
    assert!(wrapped.len() > 1);
    for line in &wrapped {
        assert!(line.starts_with("/// "));
        assert!(line.len() <= 100);
    }
}

#[test]
fn generated_enum_renders_end_to_end() {
    let specs = Specification {
        components: Components {
            schemas: vec![NamedSchema {
                name: "TXN_STATUS".to_string(),
                schema: Schema::Primitive(Primitive::Str(StringPrimitive {
                    doc: SchemaDoc {
                        title: Some("the status".to_string()),
                        description: None,
                        summary: None,
                    },
                    enum_values: Some(vec!["PENDING".to_string()]),
                })),
            }],
        },
    };
    let generated = resolve_types(&specs).unwrap();
    let lines = generated.types[0].render_stdout(false);
    assert_eq!(
        lines,
        vec![
            "/// The status.".to_string(),
            "#[derive(Debug, Clone, Serialize, Deserialize)]".to_string(),
            "pub enum TransactionStatus {".to_string(),
            "    #[serde(rename = \"PENDING\")]".to_string(),
            "    Pending,".to_string(),
            "}".to_string(),
        ]
    );
}

#[test]
fn empty_object_schema_renders_empty_struct() {
    let specs = Specification {
        components: Components {
            schemas: vec![NamedSchema {
                name: "EMPTY".to_string(),
                schema: Schema::Primitive(Primitive::Object(ObjectPrimitive {
                    doc: SchemaDoc { title: None, description: None, summary: None },
                    properties: Vec::<Property>::new(),
                })),
            }],
        },
    };
    let generated = resolve_types(&specs).unwrap();
    let lines = generated.types[0].render_stdout(false);
    assert_eq!(
        lines,
        vec![
            "#[derive(Debug, Clone, Serialize, Deserialize)]".to_string(),
            "pub struct Empty {".to_string(),
            "}".to_string(),
        ]
    );
}
