//! The validation rules applied to every candidate.
use vstd::prelude::*;
use crate::model::{FunctionCandidate, Param};
use crate::text::{contains, contains_text, text_eq};
use crate::types::{is_whitelisted, valid_ty};

verus! {

/// The kinds of rule violation, in the order in which the rules are applied.
#[derive(PartialEq, Eq, Structural, Clone, Copy, Debug)]
pub enum ErrorKind {
    NotForeignAbi,
    IsConst,
    IsAsync,
    IsUnsafe,
    HasVariadic,
    HasGenericTypeParam,
    HasLifetimeParam,
    HasConstParam,
    MissingInlineMarker,
    MissingNoPanicMarker,
    UnsupportedReturnType,
    UnsupportedArgType,
}

/// The linkage string is present and names the C calling convention.
pub open spec fn is_c_abi(abi: Option<String>) -> bool {
    match abi {
        Some(s) => s@ == "C"@,
        None => false,
    }
}

/// Some attribute's rendered text contains `marker`.
pub open spec fn has_marker(attrs: Seq<String>, marker: Seq<char>) -> bool {
    exists|i: int| 0 <= i < attrs.len() && contains(#[trigger] attrs[i]@, marker)
}

pub open spec fn param_ok(p: Param) -> bool {
    match p {
        Param::Captured(t) => is_whitelisted(t),
        Param::Other => false,
    }
}

pub open spec fn ret_ok(ret: Option<crate::types::TypeNode>) -> bool {
    match ret {
        Some(t) => is_whitelisted(t),
        None => true,
    }
}

pub open spec fn all_params_ok(ps: Seq<Param>) -> bool {
    forall|i: int| 0 <= i < ps.len() ==> param_ok(#[trigger] ps[i])
}

/// `seq![k]` when `fails`, else nothing.
pub open spec fn flag(fails: bool, k: ErrorKind) -> Seq<ErrorKind> {
    if fails {
        seq![k]
    } else {
        seq![]
    }
}

/// Every rule violation of `c`, one per failed rule, in rule order.
pub open spec fn rule_errors(c: FunctionCandidate) -> Seq<ErrorKind> {
    flag(!is_c_abi(c.abi), ErrorKind::NotForeignAbi)
        + flag(c.is_const, ErrorKind::IsConst)
        + flag(c.is_async, ErrorKind::IsAsync)
        + flag(c.is_unsafe, ErrorKind::IsUnsafe)
        + flag(c.is_variadic, ErrorKind::HasVariadic)
        + flag(c.type_params > 0, ErrorKind::HasGenericTypeParam)
        + flag(c.lifetime_params > 0, ErrorKind::HasLifetimeParam)
        + flag(c.const_params > 0, ErrorKind::HasConstParam)
        + flag(
        c.attrs@.len() == 0 || !has_marker(c.attrs@, "inline"@),
        ErrorKind::MissingInlineMarker,
    )
        + flag(!has_marker(c.attrs@, "no_panic"@), ErrorKind::MissingNoPanicMarker)
        + flag(!ret_ok(c.ret), ErrorKind::UnsupportedReturnType)
        + flag(!all_params_ok(c.params@), ErrorKind::UnsupportedArgType)
}

/// Whether an error of kind `k` keeps a candidate out of the catalog. An
/// `unsafe` qualifier is reported in any case, and excludes only when
/// `unsafe_excludes` is set.
pub open spec fn excludes(k: ErrorKind, unsafe_excludes: bool) -> bool {
    k != ErrorKind::IsUnsafe || unsafe_excludes
}

/// A candidate is admitted when none of its errors excludes it.
pub open spec fn admitted(c: FunctionCandidate, unsafe_excludes: bool) -> bool {
    forall|i: int|
        0 <= i < rule_errors(c).len() ==> !excludes(#[trigger] rule_errors(c)[i], unsafe_excludes)
}

fn push_if(errs: &mut Vec<ErrorKind>, fails: bool, k: ErrorKind)
    ensures
        final(errs)@ == old(errs)@ + flag(fails, k),
{
    if fails {
        errs.push(k);
    }
    proof {
        if !fails {
            assert(final(errs)@ =~= old(errs)@ + flag(fails, k));
        }
    }
}

fn find_marker(attrs: &Vec<String>, marker: &str) -> (r: bool)
    ensures
        r == has_marker(attrs@, marker@),
{
    let mut i: usize = 0;
    while i < attrs.len()
        invariant
            i <= attrs@.len(),
            forall|k: int| 0 <= k < i ==> !contains(#[trigger] attrs@[k]@, marker@),
        decreases attrs@.len() - i,
    {
        if contains_text(attrs[i].as_str(), marker) {
            return true;
        }
        i = i + 1;
    }
    false
}

fn params_ok(ps: &Vec<Param>) -> (r: bool)
    ensures
        r == all_params_ok(ps@),
{
    let mut i: usize = 0;
    while i < ps.len()
        invariant
            i <= ps@.len(),
            forall|k: int| 0 <= k < i ==> param_ok(#[trigger] ps@[k]),
        decreases ps@.len() - i,
    {
        let ok = match &ps[i] {
            Param::Captured(t) => valid_ty(t),
            Param::Other => false,
        };
        if !ok {
            return false;
        }
        i = i + 1;
    }
    true
}

/// Applies every rule to `c` and returns each violation, in rule order.
pub fn validate(c: &FunctionCandidate) -> (r: Vec<ErrorKind>)
    ensures
        r@ == rule_errors(*c),
{
    let mut errs: Vec<ErrorKind> = Vec::new();
    let c_abi = match &c.abi {
        Some(s) => text_eq(s.as_str(), "C"),
        None => false,
    };
    push_if(&mut errs, !c_abi, ErrorKind::NotForeignAbi);
    push_if(&mut errs, c.is_const, ErrorKind::IsConst);
    push_if(&mut errs, c.is_async, ErrorKind::IsAsync);
    push_if(&mut errs, c.is_unsafe, ErrorKind::IsUnsafe);
    push_if(&mut errs, c.is_variadic, ErrorKind::HasVariadic);
    push_if(&mut errs, c.type_params > 0, ErrorKind::HasGenericTypeParam);
    push_if(&mut errs, c.lifetime_params > 0, ErrorKind::HasLifetimeParam);
    push_if(&mut errs, c.const_params > 0, ErrorKind::HasConstParam);
    let inline = find_marker(&c.attrs, "inline");
    push_if(&mut errs, c.attrs.len() == 0 || !inline, ErrorKind::MissingInlineMarker);
    let no_panic = find_marker(&c.attrs, "no_panic");
    push_if(&mut errs, !no_panic, ErrorKind::MissingNoPanicMarker);
    let ret_valid = match &c.ret {
        Some(t) => valid_ty(t),
        None => true,
    };
    push_if(&mut errs, !ret_valid, ErrorKind::UnsupportedReturnType);
    push_if(&mut errs, !params_ok(&c.params), ErrorKind::UnsupportedArgType);
    errs
}

/// Whether a candidate with these errors stays out of the catalog.
pub fn is_excluded(errs: &Vec<ErrorKind>, unsafe_excludes: bool) -> (r: bool)
    ensures
        r == exists|i: int| 0 <= i < errs@.len() && excludes(#[trigger] errs@[i], unsafe_excludes),
{
    let mut i: usize = 0;
    while i < errs.len()
        invariant
            i <= errs@.len(),
            forall|k: int| 0 <= k < i ==> !excludes(#[trigger] errs@[k], unsafe_excludes),
        decreases errs@.len() - i,
    {
        if errs[i] != ErrorKind::IsUnsafe || unsafe_excludes {
            assert(excludes(errs@[i as int], unsafe_excludes));
            return true;
        }
        i = i + 1;
    }
    false
}

} // verus!
