//! The parts of a Rust source file the WIT generator reads: type
//! expressions, attributes, structs, enums and the methods of impl blocks,
//! with the identifiers and debug texts they carry.
use vstd::prelude::*;

verus! {

/// A type expression.
pub enum RustType {
    /// A path type; `last` is its final segment, absent for an empty path.
    Path { last: Option<TypeSegment>, debug: String },
    /// `&T` or `&mut T`.
    Reference { elem: Box<RustType> },
    /// A tuple type, `()` when it has no elements.
    Tuple { elems: Vec<RustType> },
    /// Any other kind of type, with its debug text.
    Unsupported { debug: String },
}

/// One path segment: its identifier and, when it has angle-bracketed
/// arguments, those arguments.
pub struct TypeSegment {
    pub ident: String,
    pub args: Option<Vec<GenericArg>>,
}

/// One generic argument: a type, or anything else (lifetime, constant, ...).
pub enum GenericArg {
    Type { ty: RustType },
    Other,
}

/// An outer attribute: the identifier its path consists of, when the path is
/// a single identifier, and the attribute's debug text.
pub struct RustAttr {
    pub ident: Option<String>,
    pub debug: String,
}

/// The fields of a struct or an enum variant.
pub enum RustFields {
    /// `{ a: A, ... }`, each field with its identifier.
    Named { fields: Vec<NamedField> },
    /// `(A, ...)`.
    Unnamed { types: Vec<RustType> },
    Unit,
}

pub struct NamedField {
    pub ident: Option<String>,
    pub ty: RustType,
}

pub struct RustVariant {
    pub ident: String,
    pub fields: RustFields,
}

/// One input of a method: the receiver, or a typed argument with the
/// identifier its pattern binds, when the pattern is an identifier.
pub enum FnInput {
    Receiver,
    Typed { ident: Option<String>, ty: RustType },
}

pub struct RustMethod {
    pub ident: String,
    pub attrs: Vec<RustAttr>,
    pub inputs: Vec<FnInput>,
    /// The declared return type; `None` for an implicit `()`.
    pub output: Option<RustType>,
}

/// One item of an impl block.
pub enum ImplMember {
    Method { method: RustMethod },
    Other,
}

/// A top-level item of a source file.
pub enum RustItem {
    Struct { ident: String, fields: RustFields },
    Enum { ident: String, variants: Vec<RustVariant> },
    /// An impl block, with the type it implements for and that type's debug
    /// text.
    Impl { attrs: Vec<RustAttr>, self_ty: RustType, self_debug: String, members: Vec<ImplMember> },
    Other,
}

} // verus!
