//! Declarations as found in a source unit, before validation.
use vstd::prelude::*;
use crate::types::TypeNode;

verus! {

/// One parameter of a declaration.
pub enum Param {
    /// A parameter written as `pattern: Type`.
    Captured(TypeNode),
    /// A receiver (`self`, `&self`, ...) or a parameter without a written type.
    Other,
}

/// A function declaration's raw metadata, unvalidated.
pub struct FunctionCandidate {
    pub ident: String,
    /// The linkage string of an `extern "..."` marker, if one is written.
    pub abi: Option<String>,
    pub is_const: bool,
    pub is_async: bool,
    pub is_unsafe: bool,
    pub is_variadic: bool,
    /// Each attribute rendered as source text.
    pub attrs: Vec<String>,
    pub type_params: usize,
    pub lifetime_params: usize,
    pub const_params: usize,
    pub params: Vec<Param>,
    /// The declared return type; `None` for the unit return.
    pub ret: Option<TypeNode>,
}

/// A top-level item of a source unit.
pub enum Item {
    /// A free function; `public` is set for plain `pub` visibility.
    Function { public: bool, decl: FunctionCandidate },
    /// Anything else: constants, modules, imports, types, ...
    Other,
}

/// A parsed source file.
pub struct SourceUnit {
    pub path: String,
    pub items: Vec<Item>,
}

} // verus!
