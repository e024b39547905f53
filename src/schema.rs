//! The input schema: definitions, fields and their declared types, and the
//! resolution of a declared type into the shape the grammar needs.
use vstd::prelude::*;

verus! {

/// Why a schema cannot be compiled.
#[derive(Debug, Clone, Copy, PartialEq, Eq, Structural)]
pub enum SchemaError {
    /// No grammar name was supplied.
    MissingGrammarName,
    /// No definition is marked as the root.
    MissingRoot,
    /// More than one definition is marked as the root.
    MultipleRoots,
    /// An optional field wraps a list.
    OptionalList,
    /// A declared type that resolves to no named rule.
    UnsupportedType,
}

/// A field's declared type, as written.
pub enum TypeExpr {
    /// A path type: its segments, and the first type argument of its first
    /// segment, if it has one.
    Path(Vec<String>, Option<Box<TypeExpr>>),
    /// Any other type (a tuple, a reference, an array, ...).
    Other,
}

/// How a field's text is matched when it is a terminal.
pub enum LeafMeta {
    /// A regular expression.
    Pattern(String),
    /// A fixed text.
    Literal(String),
}

/// The separator between the items of a list field.
pub struct Delimiter {
    pub leaf: Option<LeafMeta>,
    pub ty: TypeExpr,
}

/// One field of a record or a variant. A field without a name is known by
/// its position.
pub struct FieldSpec {
    pub ident: Option<String>,
    pub ty: TypeExpr,
    pub leaf: Option<LeafMeta>,
    pub delimiter: Option<Delimiter>,
    pub non_empty: bool,
}

/// The fields of a record or of a variant, with its left precedence, if any.
pub struct Record {
    pub fields: Vec<FieldSpec>,
    pub prec_left: Option<u32>,
}

/// One variant of a tagged union.
pub struct Variant {
    pub name: String,
    pub body: Record,
}

pub enum DefinitionKind {
    Record(Record),
    TaggedUnion(Vec<Variant>),
}

/// A named definition of the schema.
pub struct Definition {
    pub name: String,
    pub kind: DefinitionKind,
    pub root: bool,
    pub extra: bool,
}

/// The outer shape of a field's type.
#[derive(Debug, Clone, Copy, PartialEq, Eq, Structural)]
pub enum FieldKind {
    Plain,
    Optional,
    List,
}

/// The first segment of a path type is `name`.
pub open spec fn head_is(ty: TypeExpr, name: Seq<char>) -> bool {
    match ty {
        TypeExpr::Path(segs, _) => segs@.len() > 0 && segs@[0]@ == name,
        TypeExpr::Other => false,
    }
}

/// The type with every outer `Box<..>` removed.
pub open spec fn stripped(ty: TypeExpr) -> TypeExpr
    decreases ty,
{
    match ty {
        TypeExpr::Path(segs, Some(a)) => if segs@.len() > 0 && segs@[0]@ == "Box"@ {
            stripped(*a)
        } else {
            ty
        },
        _ => ty,
    }
}

/// The outer shape, once indirections are removed.
pub open spec fn kind_of(ty: TypeExpr) -> FieldKind {
    let t = stripped(ty);
    if head_is(t, "Option"@) {
        FieldKind::Optional
    } else if head_is(t, "Vec"@) {
        FieldKind::List
    } else {
        FieldKind::Plain
    }
}

/// The type argument of the outer wrapper, once indirections are removed.
pub open spec fn type_arg(ty: TypeExpr) -> Option<TypeExpr> {
    match stripped(ty) {
        TypeExpr::Path(_, Some(a)) => Some(*a),
        _ => None,
    }
}

pub open spec fn is_wrapper_name(n: Seq<char>) -> bool {
    n == "Box"@ || n == "Option"@ || n == "Vec"@
}

/// The rule a structural field refers to: after indirections, a path of one
/// segment that is no wrapper. A qualified path is refused even where it
/// names a definition of the schema.
pub open spec fn bare_name(ty: TypeExpr) -> Result<Seq<char>, SchemaError> {
    match stripped(ty) {
        TypeExpr::Path(segs, _) => if segs@.len() == 1 && !is_wrapper_name(segs@[0]@) {
            Ok(segs@[0]@)
        } else {
            Err(SchemaError::UnsupportedType)
        },
        TypeExpr::Other => Err(SchemaError::UnsupportedType),
    }
}

/// An optional type that wraps a list: refused whatever the field carries.
pub open spec fn wraps_optional_list(ty: TypeExpr) -> bool {
    kind_of(ty) == FieldKind::Optional && (type_arg(ty) matches Some(a) && kind_of(a) == FieldKind::List)
}

/// The rule an optional field refers to; a list inside it is refused.
pub open spec fn optional_target(ty: TypeExpr) -> Result<Seq<char>, SchemaError> {
    match type_arg(ty) {
        None => Err(SchemaError::UnsupportedType),
        Some(a) => if kind_of(a) == FieldKind::List {
            Err(SchemaError::OptionalList)
        } else {
            bare_name(a)
        },
    }
}

/// The item rule of a list field.
pub open spec fn list_target(ty: TypeExpr) -> Result<Seq<char>, SchemaError> {
    match type_arg(ty) {
        None => Err(SchemaError::UnsupportedType),
        Some(a) => bare_name(a),
    }
}

/// Whether the first segment of `ty` is `name`.
pub fn has_head(ty: &TypeExpr, name: &str) -> (r: bool)
    ensures
        r == head_is(*ty, name@),
{
    match ty {
        TypeExpr::Path(segs, _) => {
            if segs.len() == 0 {
                false
            } else {
                let n = String::from_str(name);
                segs[0] == n
            }
        },
        TypeExpr::Other => false,
    }
}

/// Removes every outer `Box<..>`.
pub fn strip_indirect(ty: &TypeExpr) -> (r: &TypeExpr)
    ensures
        *r == stripped(*ty),
    decreases ty,
{
    match ty {
        TypeExpr::Path(_, Some(a)) => {
            if has_head(ty, "Box") {
                strip_indirect(&**a)
            } else {
                ty
            }
        },
        _ => ty,
    }
}

/// The outer shape of a declared type.
pub fn resolve_kind(ty: &TypeExpr) -> (r: FieldKind)
    ensures
        r == kind_of(*ty),
{
    let t = strip_indirect(ty);
    if has_head(t, "Option") {
        FieldKind::Optional
    } else if has_head(t, "Vec") {
        FieldKind::List
    } else {
        FieldKind::Plain
    }
}

/// The type argument of the outer wrapper.
pub fn type_argument(ty: &TypeExpr) -> (r: Option<&TypeExpr>)
    ensures
        r matches Some(a) ==> type_arg(*ty) == Some(*a),
        r is None ==> type_arg(*ty) is None,
{
    match strip_indirect(ty) {
        TypeExpr::Path(_, Some(a)) => Some(&**a),
        _ => None,
    }
}

/// The name of the rule a structural type refers to.
pub fn resolve_bare_name(ty: &TypeExpr) -> (r: Result<String, SchemaError>)
    ensures
        r matches Ok(s) ==> bare_name(*ty) == Ok::<Seq<char>, SchemaError>(s@),
        r matches Err(e) ==> bare_name(*ty) == Err::<Seq<char>, SchemaError>(e),
{
    let t = strip_indirect(ty);
    match t {
        TypeExpr::Path(segs, _) => {
            if segs.len() == 1 && !has_head(t, "Box") && !has_head(t, "Option") && !has_head(t, "Vec") {
                Ok(segs[0].clone())
            } else {
                Err(SchemaError::UnsupportedType)
            }
        },
        TypeExpr::Other => Err(SchemaError::UnsupportedType),
    }
}

/// Whether the type is an `Option` of a list.
pub fn is_optional_list(ty: &TypeExpr) -> (r: bool)
    ensures
        r == wraps_optional_list(*ty),
{
    if resolve_kind(ty) != FieldKind::Optional {
        return false;
    }
    match type_argument(ty) {
        Some(a) => resolve_kind(a) == FieldKind::List,
        None => false,
    }
}

/// The name of the rule an optional field refers to.
pub fn resolve_optional(ty: &TypeExpr) -> (r: Result<String, SchemaError>)
    ensures
        r matches Ok(s) ==> optional_target(*ty) == Ok::<Seq<char>, SchemaError>(s@),
        r matches Err(e) ==> optional_target(*ty) == Err::<Seq<char>, SchemaError>(e),
{
    match type_argument(ty) {
        None => Err(SchemaError::UnsupportedType),
        Some(a) => {
            if resolve_kind(a) == FieldKind::List {
                Err(SchemaError::OptionalList)
            } else {
                resolve_bare_name(a)
            }
        },
    }
}

/// The name of the item rule of a list field.
pub fn resolve_list(ty: &TypeExpr) -> (r: Result<String, SchemaError>)
    ensures
        r matches Ok(s) ==> list_target(*ty) == Ok::<Seq<char>, SchemaError>(s@),
        r matches Err(e) ==> list_target(*ty) == Err::<Seq<char>, SchemaError>(e),
{
    match type_argument(ty) {
        None => Err(SchemaError::UnsupportedType),
        Some(a) => resolve_bare_name(a),
    }
}

} // verus!
