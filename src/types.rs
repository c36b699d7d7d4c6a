//! Parameter and return types as written in a declaration, and the whitelist
//! of shapes a catalog entry may carry.
use vstd::prelude::*;
use vstd::string::StrSliceExecFns;
use crate::text::text_eq;

verus! {

/// A type written as a path, such as `f64` or `core::ffi::c_int`.
pub struct TypePath {
    /// Written with a qualified self type (`<T as Trait>::Name`).
    pub qualified: bool,
    /// The identifiers of the path's segments, in order.
    pub segments: Vec<String>,
}

/// The syntactic shape of a parameter or return type.
pub enum TypeNode {
    /// A named type.
    Path(TypePath),
    /// A raw pointer, `*const T` or `*mut T`.
    Ptr { mutable: bool, pointee: Box<TypeNode> },
    /// Any other shape: reference, slice, array, tuple, function pointer, ...
    Other,
}

/// The names of the fixed-width numeric primitives.
pub open spec fn is_numeric_name(s: Seq<char>) -> bool {
    ||| s == "i8"@
    ||| s == "i16"@
    ||| s == "i32"@
    ||| s == "i64"@
    ||| s == "isize"@
    ||| s == "u8"@
    ||| s == "u16"@
    ||| s == "u32"@
    ||| s == "u64"@
    ||| s == "usize"@
    ||| s == "f32"@
    ||| s == "f64"@
}

/// An unqualified single-segment path naming a numeric primitive.
pub open spec fn is_numeric_path(p: TypePath) -> bool {
    !p.qualified && p.segments@.len() == 1 && is_numeric_name(p.segments@[0]@)
}

/// The whitelist: a numeric primitive, or one level of pointer to one.
pub open spec fn is_whitelisted(t: TypeNode) -> bool {
    match t {
        TypeNode::Path(p) => is_numeric_path(p),
        TypeNode::Ptr { pointee, .. } => match *pointee {
            TypeNode::Path(p) => is_numeric_path(p),
            _ => false,
        },
        TypeNode::Other => false,
    }
}

/// Whether `s` names a numeric primitive.
pub fn numeric_name(s: &str) -> (r: bool)
    ensures
        r == is_numeric_name(s@),
{
    text_eq(s, "i8") || text_eq(s, "i16") || text_eq(s, "i32") || text_eq(s, "i64")
        || text_eq(s, "isize") || text_eq(s, "u8") || text_eq(s, "u16") || text_eq(s, "u32")
        || text_eq(s, "u64") || text_eq(s, "usize") || text_eq(s, "f32") || text_eq(s, "f64")
}

/// Whether a path names a numeric primitive.
pub fn numeric_path(p: &TypePath) -> (r: bool)
    ensures
        r == is_numeric_path(*p),
{
    !p.qualified && p.segments.len() == 1 && numeric_name(p.segments[0].as_str())
}

/// Checks a parameter or return type against the whitelist.
pub fn valid_ty(t: &TypeNode) -> (r: bool)
    ensures
        r == is_whitelisted(*t),
{
    match t {
        TypeNode::Path(p) => numeric_path(p),
        TypeNode::Ptr { pointee, .. } => match &**pointee {
            TypeNode::Path(p) => numeric_path(p),
            _ => false,
        },
        TypeNode::Other => false,
    }
}

} // verus!
