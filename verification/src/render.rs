//! Renders generated declarations to their textual source lines:
//! documentation comments wrapped to the column limit, derive and
//! serialization attributes, and the struct, enum or wrapper declaration
//! itself. Printing the lines is the caller's concern.

use vstd::prelude::*;
use crate::generate::{RustEnum, RustStruct, RustType, RustTypeKind, RustWrapper, TypeKindModel, TypeModel, VariantModel};
use crate::naming::{lemma_strings_view_push, strings_view, wrap_lines, wrap_of};
use crate::resolve::{fields_model, FieldModel};

verus! {

/// `n` spaces.
pub open spec fn spaces(n: nat) -> Seq<char>
    decreases n,
{
    if n == 0 {
        Seq::empty()
    } else {
        spaces((n - 1) as nat).push(' ')
    }
}

/// The documentation-comment lines for `doc` under `indent` leading spaces:
/// the text wrapped beside the comment prefix, each line prefixed by the
/// indentation and `"/// "`.
pub open spec fn doc_lines_model(doc: Seq<char>, indent: nat) -> Seq<Seq<char>> {
    wrap_of(doc, indent + 4).map_values(|l: Seq<char>| (spaces(indent) + "/// "@) + l)
}

/// Renders a documentation comment: wraps `doc` beside an `indent`-space
/// margin and the `"/// "` marker, one output line per wrapped line.
pub fn print_doc(doc: &str, indent_spaces: usize) -> (r: Vec<String>)
    requires
        indent_spaces + 4 <= usize::MAX,
    ensures
        strings_view(r@) == doc_lines_model(doc@, indent_spaces as nat),
{
    let mut prefix = String::new();
    let mut i: usize = 0;
    while i < indent_spaces
        invariant
            i <= indent_spaces,
            prefix@ == spaces(i as nat),
        decreases indent_spaces - i,
    {
        prefix.append(" ");
        proof {
            reveal_strlit(" ");
            assert(" "@ =~= seq![' ']);
            assert(prefix@ =~= spaces(i as nat + 1));
        }
        i = i + 1;
    }
    prefix.append("/// ");
    let lines = wrap_lines(doc, indent_spaces + 4);
    let ghost wrapped = wrap_of(doc@, (indent_spaces + 4) as nat);
    let mut out: Vec<String> = Vec::new();
    let n = lines.len();
    let mut j: usize = 0;
    proof {
        assert(strings_view(out@) =~= doc_lines_model(doc@, indent_spaces as nat).take(0));
    }
    while j < n
        invariant
            j <= n,
            n == lines@.len(),
            prefix@ == spaces(indent_spaces as nat) + "/// "@,
            strings_view(lines@) == wrapped,
            wrapped == wrap_of(doc@, (indent_spaces + 4) as nat),
            strings_view(out@) == doc_lines_model(doc@, indent_spaces as nat).take(j as int),
        decreases n - j,
    {
        let line = prefix.clone().concat(lines[j].as_str());
        proof {
            assert(line@ == doc_lines_model(doc@, indent_spaces as nat)[j as int]);
            lemma_strings_view_push(out@, line);
            assert(strings_view(out@).push(line@) =~= doc_lines_model(
                doc@,
                indent_spaces as nat,
            ).take(j as int + 1));
        }
        out.push(line);
        j = j + 1;
    }
    proof {
        assert(doc_lines_model(doc@, indent_spaces as nat).take(n as int) =~= doc_lines_model(
            doc@,
            indent_spaces as nat,
        ));
    }
    out
}

/// The common derive attribute of every generated declaration.
pub open spec fn derive_line() -> Seq<char> {
    "#[derive(Debug, Clone, Serialize, Deserialize)]"@
}

/// The declared name of a field, with the reserved word escaped.
pub open spec fn escaped_name(n: Seq<char>) -> Seq<char> {
    if n == "type"@ {
        "r#type"@
    } else {
        n
    }
}

/// The lines rendered for one struct field: its documentation comment, its
/// serialization attribute when it carries a hint, and its declaration.
pub open spec fn field_lines_model(f: FieldModel) -> Seq<Seq<char>> {
    (match f.description {
        Some(d) => doc_lines_model(d, 4),
        None => Seq::empty(),
    }) + (match f.serde_as {
        Some(s) => seq![("    #[serde_as(as = \""@ + s) + "\")]"@],
        None => Seq::empty(),
    }) + seq![((("    pub "@ + escaped_name(f.name)) + ": "@) + f.ty) + ","@]
}

/// The lines rendered for the struct fields from position `i` on.
pub open spec fn fields_lines_model(fs: Seq<FieldModel>, i: int) -> Seq<Seq<char>>
    decreases fs.len() - i,
{
    if i < 0 || i >= fs.len() {
        Seq::empty()
    } else {
        field_lines_model(fs[i]) + fields_lines_model(fs, i + 1)
    }
}

/// Whether any field carries a serialization hint.
pub open spec fn has_hint(fs: Seq<FieldModel>) -> bool {
    exists|i: int| 0 <= i < fs.len() && fs[i].serde_as is Some
}

/// The full rendering of a struct declaration named `name`.
pub open spec fn struct_lines_model(fs: Seq<FieldModel>, name: Seq<char>) -> Seq<Seq<char>> {
    (if has_hint(fs) {
        seq!["#[serde_as]"@]
    } else {
        Seq::empty()
    }) + seq![derive_line(), ("pub struct "@ + name) + " {"@] + fields_lines_model(fs, 0)
        + seq!["}"@]
}

/// The lines rendered for one enum variant: its documentation comment, its
/// wire-name attribute, and its declaration.
pub open spec fn variant_lines_model(v: VariantModel) -> Seq<Seq<char>> {
    (match v.description {
        Some(d) => doc_lines_model(d, 4),
        None => Seq::empty(),
    }) + seq![
        ("    #[serde(rename = \""@ + v.serde_name) + "\")]"@,
        ("    "@ + v.name) + ","@,
    ]
}

/// The lines rendered for the enum variants from position `i` on.
pub open spec fn variants_lines_model(vs: Seq<VariantModel>, i: int) -> Seq<Seq<char>>
    decreases vs.len() - i,
{
    if i < 0 || i >= vs.len() {
        Seq::empty()
    } else {
        variant_lines_model(vs[i]) + variants_lines_model(vs, i + 1)
    }
}

/// The full rendering of an enum declaration named `name`.
pub open spec fn enum_lines_model(vs: Seq<VariantModel>, name: Seq<char>) -> Seq<Seq<char>> {
    seq![derive_line(), ("pub enum "@ + name) + " {"@] + variants_lines_model(vs, 0)
        + seq!["}"@]
}

/// The full rendering of a transparent wrapper declaration named `name`.
pub open spec fn wrapper_lines_model(ty: Seq<char>, name: Seq<char>) -> Seq<Seq<char>> {
    seq![derive_line(), ((("pub struct "@ + name) + "(pub "@) + ty) + ");"@]
}

fn append_lines(dst: &mut Vec<String>, src: Vec<String>)
    ensures
        strings_view(final(dst)@) == strings_view(old(dst)@) + strings_view(src@),
{
    let n = src.len();
    let mut j: usize = 0;
    proof {
        assert(strings_view(dst@) =~= strings_view(dst@) + strings_view(src@).take(0));
    }
    while j < n
        invariant
            j <= n,
            n == src@.len(),
            strings_view(dst@) == strings_view(old(dst)@) + strings_view(src@).take(j as int),
        decreases n - j,
    {
        let line = src[j].clone();
        proof {
            lemma_strings_view_push(dst@, line);
            assert(strings_view(old(dst)@) + strings_view(src@).take(j as int + 1)
                =~= (strings_view(old(dst)@) + strings_view(src@).take(j as int)).push(line@));
        }
        dst.push(line);
        j = j + 1;
    }
    proof {
        assert(strings_view(src@).take(n as int) =~= strings_view(src@));
    }
}

fn push_line(dst: &mut Vec<String>, line: String)
    ensures
        strings_view(final(dst)@) == strings_view(old(dst)@).push(line@),
{
    proof {
        lemma_strings_view_push(dst@, line);
    }
    dst.push(line);
}

impl RustStruct {
    /// The source lines of this struct declared under `name`: the optional
    /// serialization attribute, the derive attribute, the header, each
    /// field's comment, attribute and declaration, and the closing brace.
    #[verifier::loop_isolation(false)]
    pub fn render_stdout(&self, name: &str) -> (r: Vec<String>)
        ensures
            strings_view(r@) == struct_lines_model(fields_model(self.fields@), name@),
    {
        let ghost fs = fields_model(self.fields@);
        let mut out: Vec<String> = Vec::new();
        let n = self.fields.len();
        let mut any: bool = false;
        let mut j: usize = 0;
        while j < n
            invariant
                j <= n,
                any == exists|i: int|
                    0 <= i < j && fields_model(self.fields@)[i].serde_as is Some,
            decreases n - j,
        {
            if self.fields[j].serde_as.is_some() {
                proof {
                    assert(fields_model(self.fields@)[j as int].serde_as is Some);
                }
                any = true;
            }
            j = j + 1;
        }
        if any {
            push_line(&mut out, String::from_str("#[serde_as]"));
        }
        push_line(&mut out, String::from_str("#[derive(Debug, Clone, Serialize, Deserialize)]"));
        push_line(&mut out, String::from_str("pub struct ").concat(name).concat(" {"));
        proof {
            let head = (if has_hint(fs) {
                seq!["#[serde_as]"@]
            } else {
                Seq::<Seq<char>>::empty()
            }) + seq![derive_line(), ("pub struct "@ + name@) + " {"@];
            assert(strings_view(out@) =~= head + head_fields(fs, 0));
        }
        let mut k: usize = 0;
        while k < n
            invariant
                k <= n,
                strings_view(out@) == ((if has_hint(fs) {
                    seq!["#[serde_as]"@]
                } else {
                    Seq::<Seq<char>>::empty()
                }) + seq![derive_line(), ("pub struct "@ + name@) + " {"@]) + head_fields(fs, k as int),
            decreases n - k,
        {
            let field = &self.fields[k];
            let ghost before = strings_view(out@);
            let ghost fm = fs[k as int];
            match &field.description {
                Some(d) => {
                    let doc = print_doc(d.as_str(), 4);
                    append_lines(&mut out, doc);
                },
                None => {},
            }
            match &field.serde_as {
                Some(s) => {
                    push_line(
                        &mut out,
                        String::from_str("    #[serde_as(as = \"").concat(s.as_str()).concat(
                            "\")]",
                        ),
                    );
                },
                None => {},
            }
            let declared = if crate::naming::str_eq(field.name.as_str(), "type") {
                proof {
                    reveal_strlit("type");
                    reveal_strlit("r#type");
                }
                String::from_str("r#type")
            } else {
                field.name.clone()
            };
            proof {
                assert(declared@ == escaped_name(fm.name));
            }
            push_line(
                &mut out,
                String::from_str("    pub ").concat(declared.as_str()).concat(": ").concat(
                    field.ty.as_str(),
                ).concat(","),
            );
            proof {
                assert(strings_view(out@) =~= before + field_lines_model(fm));
                assert(head_fields(fs, k as int) + field_lines_model(fm) =~= head_fields(
                    fs,
                    k as int + 1,
                ));
            }
            k = k + 1;
        }
        push_line(&mut out, String::from_str("}"));
        proof {
            lemma_head_fields_all(fs, n as int);
            assert(head_fields(fs, n as int) + Seq::<Seq<char>>::empty() =~= head_fields(
                fs,
                n as int,
            ));
            assert(strings_view(out@) =~= struct_lines_model(fs, name@));
        }
        out
    }
}

/// The field lines of the first `i` fields.
pub open spec fn head_fields(fs: Seq<FieldModel>, i: int) -> Seq<Seq<char>>
    decreases i,
{
    if i <= 0 {
        Seq::empty()
    } else {
        head_fields(fs, i - 1) + field_lines_model(fs[i - 1])
    }
}

proof fn lemma_head_fields_all(fs: Seq<FieldModel>, i: int)
    requires
        0 <= i <= fs.len(),
    ensures
        head_fields(fs, i) + fields_lines_model(fs, i) == fields_lines_model(fs, 0),
    decreases i,
{
    if i == 0 {
        assert(Seq::<Seq<char>>::empty() + fields_lines_model(fs, 0) =~= fields_lines_model(
            fs,
            0,
        ));
    } else {
        lemma_head_fields_all(fs, i - 1);
        assert((head_fields(fs, i - 1) + field_lines_model(fs[i - 1])) + fields_lines_model(fs, i)
            =~= head_fields(fs, i - 1) + (field_lines_model(fs[i - 1]) + fields_lines_model(
            fs,
            i,
        )));
    }
}

/// The variant lines of the first `i` variants.
pub open spec fn head_variants(vs: Seq<VariantModel>, i: int) -> Seq<Seq<char>>
    decreases i,
{
    if i <= 0 {
        Seq::empty()
    } else {
        head_variants(vs, i - 1) + variant_lines_model(vs[i - 1])
    }
}

proof fn lemma_head_variants_all(vs: Seq<VariantModel>, i: int)
    requires
        0 <= i <= vs.len(),
    ensures
        head_variants(vs, i) + variants_lines_model(vs, i) == variants_lines_model(vs, 0),
    decreases i,
{
    if i == 0 {
        assert(Seq::<Seq<char>>::empty() + variants_lines_model(vs, 0) =~= variants_lines_model(
            vs,
            0,
        ));
    } else {
        lemma_head_variants_all(vs, i - 1);
        assert((head_variants(vs, i - 1) + variant_lines_model(vs[i - 1]))
            + variants_lines_model(vs, i) =~= head_variants(vs, i - 1) + (variant_lines_model(
            vs[i - 1],
        ) + variants_lines_model(vs, i)));
    }
}

impl RustEnum {
    /// The source lines of this enum declared under `name`: the derive
    /// attribute, the header, each variant's comment, wire-name attribute
    /// and declaration, and the closing brace.
    #[verifier::loop_isolation(false)]
    pub fn render_stdout(&self, name: &str) -> (r: Vec<String>)
        ensures
            strings_view(r@) == enum_lines_model(
                crate::generate::variants_view(self.variants@),
                name@,
            ),
    {
        let ghost vs = crate::generate::variants_view(self.variants@);
        let mut out: Vec<String> = Vec::new();
        push_line(&mut out, String::from_str("#[derive(Debug, Clone, Serialize, Deserialize)]"));
        push_line(&mut out, String::from_str("pub enum ").concat(name).concat(" {"));
        proof {
            assert(strings_view(out@) =~= seq![derive_line(), ("pub enum "@ + name@) + " {"@]
                + head_variants(vs, 0));
        }
        let n = self.variants.len();
        let mut k: usize = 0;
        while k < n
            invariant
                k <= n,
                n == self.variants@.len(),
                strings_view(out@) == seq![derive_line(), ("pub enum "@ + name@) + " {"@]
                    + head_variants(vs, k as int),
            decreases n - k,
        {
            let variant = &self.variants[k];
            let ghost before = strings_view(out@);
            let ghost vm = vs[k as int];
            match &variant.description {
                Some(d) => {
                    let doc = print_doc(d.as_str(), 4);
                    append_lines(&mut out, doc);
                },
                None => {},
            }
            push_line(
                &mut out,
                String::from_str("    #[serde(rename = \"").concat(variant.serde_name.as_str())
                    .concat("\")]"),
            );
            push_line(&mut out, String::from_str("    ").concat(variant.name.as_str()).concat(","));
            proof {
                assert(strings_view(out@) =~= before + variant_lines_model(vm));
                assert(head_variants(vs, k as int) + variant_lines_model(vm) =~= head_variants(
                    vs,
                    k as int + 1,
                ));
            }
            k = k + 1;
        }
        push_line(&mut out, String::from_str("}"));
        proof {
            lemma_head_variants_all(vs, n as int);
            assert(head_variants(vs, n as int) + variants_lines_model(vs, n as int)
                =~= head_variants(vs, n as int));
            assert(strings_view(out@) =~= enum_lines_model(vs, name@));
        }
        out
    }
}

impl RustWrapper {
    /// The source lines of this transparent newtype declared under `name`.
    pub fn render_stdout(&self, name: &str) -> (r: Vec<String>)
        ensures
            strings_view(r@) == wrapper_lines_model(self.ty@, name@),
    {
        let mut out: Vec<String> = Vec::new();
        push_line(&mut out, String::from_str("#[derive(Debug, Clone, Serialize, Deserialize)]"));
        push_line(
            &mut out,
            String::from_str("pub struct ").concat(name).concat("(pub ").concat(self.ty.as_str())
                .concat(");"),
        );
        proof {
            assert(strings_view(out@) =~= wrapper_lines_model(self.ty@, name@));
        }
        out
    }
}

/// The full rendering of one declaration body under `name`, whatever its
/// shape.
pub open spec fn kind_lines_model(k: TypeKindModel, name: Seq<char>) -> Seq<Seq<char>> {
    match k {
        TypeKindModel::Struct(fs) => struct_lines_model(fs, name),
        TypeKindModel::Enum(vs) => enum_lines_model(vs, name),
        TypeKindModel::Wrapper(ty) => wrapper_lines_model(ty, name),
    }
}

impl RustTypeKind {
    /// The source lines of this declaration body under `name`, dispatching
    /// on its shape.
    pub fn render_stdout(&self, name: &str) -> (r: Vec<String>)
        ensures
            strings_view(r@) == kind_lines_model(self@, name@),
    {
        match self {
            RustTypeKind::Struct(value) => value.render_stdout(name),
            RustTypeKind::Enum(value) => value.render_stdout(name),
            RustTypeKind::Wrapper(value) => value.render_stdout(name),
        }
    }
}

/// The full rendering of one generated declaration: its title and
/// description comments (separated by a bare `"///"` when both are
/// present), the declaration body, and an optional trailing blank line.
pub open spec fn type_lines_model(t: TypeModel, trailing_line: bool) -> Seq<Seq<char>> {
    (match (t.title, t.description) {
        (Some(title), Some(description)) => (doc_lines_model(title, 0) + seq!["///"@])
            + doc_lines_model(description, 0),
        (Some(title), None) => doc_lines_model(title, 0),
        (None, Some(description)) => doc_lines_model(description, 0),
        (None, None) => Seq::empty(),
    }) + kind_lines_model(t.content, t.name) + (if trailing_line {
        seq![""@]
    } else {
        Seq::empty()
    })
}

impl RustType {
    /// The source lines of this declaration: documentation comments, the
    /// declaration body, and a trailing blank line when requested.
    pub fn render_stdout(&self, trailing_line: bool) -> (r: Vec<String>)
        ensures
            strings_view(r@) == type_lines_model(self@, trailing_line),
    {
        let mut out: Vec<String> = Vec::new();
        match (&self.title, &self.description) {
            (Some(title), Some(description)) => {
                let t = print_doc(title.as_str(), 0);
                append_lines(&mut out, t);
                push_line(&mut out, String::from_str("///"));
                let d = print_doc(description.as_str(), 0);
                append_lines(&mut out, d);
            },
            (Some(title), None) => {
                let t = print_doc(title.as_str(), 0);
                append_lines(&mut out, t);
            },
            (None, Some(description)) => {
                let d = print_doc(description.as_str(), 0);
                append_lines(&mut out, d);
            },
            (None, None) => {},
        }
        let body = self.content.render_stdout(self.name.as_str());
        append_lines(&mut out, body);
        if trailing_line {
            push_line(&mut out, String::new());
        }
        proof {
            reveal_strlit("");
            assert(""@ =~= Seq::<char>::empty());
            assert(strings_view(out@) =~= type_lines_model(self@, trailing_line));
        }
        out
    }
}

} // verus!
