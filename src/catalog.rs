//! The validation pass over the candidates, and the catalog it produces.
use vstd::prelude::*;
use vstd::string::StringExecFns;
use crate::category::{category, category_of};
use crate::model::{FunctionCandidate, Param};
use crate::rules::{admitted, is_excluded, rule_errors, validate, ErrorKind};
use crate::types::TypeNode;

verus! {

/// A declaration that passed every excluding rule.
pub struct ValidatedSignature {
    pub ident: String,
    /// The category tag derived from `ident`.
    pub api_kind: String,
    pub arg_tys: Vec<TypeNode>,
    pub ret_ty: Option<TypeNode>,
}

/// One rule violation of one declaration.
pub struct ValidationError {
    pub kind: ErrorKind,
    pub ident: String,
}

/// The reason given for an error of kind `k`.
pub open spec fn reason_text(k: ErrorKind) -> Seq<char> {
    match k {
        ErrorKind::NotForeignAbi => "is not `extern \"C\"`"@,
        ErrorKind::IsConst => "is const"@,
        ErrorKind::IsAsync => "is async"@,
        ErrorKind::IsUnsafe => "is unsafe"@,
        ErrorKind::HasVariadic => "contains variadic arguments"@,
        ErrorKind::HasGenericTypeParam => "contains generic parameters"@,
        ErrorKind::HasLifetimeParam => "contains lifetime parameters"@,
        ErrorKind::HasConstParam => "contains const parameters"@,
        ErrorKind::MissingInlineMarker => "is missing the `#[inline]` attribute"@,
        ErrorKind::MissingNoPanicMarker => "is missing the `#[no_panic]` attribute"@,
        ErrorKind::UnsupportedReturnType => "returns an unsupported type"@,
        ErrorKind::UnsupportedArgType => "takes an unsupported argument type"@,
    }
}

/// The reason given for an error of kind `k`.
pub fn reason(k: ErrorKind) -> (r: &'static str)
    ensures
        r@ == reason_text(k),
{
    match k {
        ErrorKind::NotForeignAbi => "is not `extern \"C\"`",
        ErrorKind::IsConst => "is const",
        ErrorKind::IsAsync => "is async",
        ErrorKind::IsUnsafe => "is unsafe",
        ErrorKind::HasVariadic => "contains variadic arguments",
        ErrorKind::HasGenericTypeParam => "contains generic parameters",
        ErrorKind::HasLifetimeParam => "contains lifetime parameters",
        ErrorKind::HasConstParam => "contains const parameters",
        ErrorKind::MissingInlineMarker => "is missing the `#[inline]` attribute",
        ErrorKind::MissingNoPanicMarker => "is missing the `#[no_panic]` attribute",
        ErrorKind::UnsupportedReturnType => "returns an unsupported type",
        ErrorKind::UnsupportedArgType => "takes an unsupported argument type",
    }
}

impl ValidationError {
    /// The diagnostic line: `[error]: Function "<identifier>" <reason>`.
    pub fn message(&self) -> (r: String)
        ensures
            r@ == "[error]: Function \""@ + self.ident@ + "\" "@ + reason_text(self.kind),
    {
        let mut s = String::from_str("[error]: Function \"");
        s.append(self.ident.as_str());
        s.append("\" ");
        s.append(reason(self.kind));
        s
    }
}

/// The validated declarations in discovery order, and every violation found.
pub struct Catalog {
    pub entries: Vec<ValidatedSignature>,
    pub errors: Vec<ValidationError>,
}

/// The type written for a parameter.
pub open spec fn param_type(p: Param) -> TypeNode {
    match p {
        Param::Captured(t) => t,
        Param::Other => TypeNode::Other,
    }
}

pub open spec fn param_types(ps: Seq<Param>) -> Seq<TypeNode> {
    ps.map_values(|p: Param| param_type(p))
}

/// `s` is the signature that candidate `c` becomes.
pub open spec fn signature_of(s: ValidatedSignature, c: FunctionCandidate) -> bool {
    &&& s.ident == c.ident
    &&& s.api_kind@ == category_of(c.ident@)
    &&& s.arg_tys@ == param_types(c.params@)
    &&& s.ret_ty == c.ret
}

/// The admitted candidates, in order.
pub open spec fn admitted_candidates(cs: Seq<FunctionCandidate>, unsafe_excludes: bool) -> Seq<
    FunctionCandidate,
>
    decreases cs.len(),
{
    if cs.len() == 0 {
        seq![]
    } else {
        let init = admitted_candidates(cs.drop_last(), unsafe_excludes);
        if admitted(cs.last(), unsafe_excludes) {
            init.push(cs.last())
        } else {
            init
        }
    }
}

/// Every violation of every candidate, candidate after candidate, each with
/// the identifier of its declaration.
pub open spec fn error_log(cs: Seq<FunctionCandidate>) -> Seq<(ErrorKind, Seq<char>)>
    decreases cs.len(),
{
    if cs.len() == 0 {
        seq![]
    } else {
        let c = cs.last();
        error_log(cs.drop_last()) + rule_errors(c).map_values(|k: ErrorKind| (k, c.ident@))
    }
}

/// The kind and identifier of each recorded error.
pub open spec fn error_view(es: Seq<ValidationError>) -> Seq<(ErrorKind, Seq<char>)> {
    es.map_values(|e: ValidationError| (e.kind, e.ident@))
}

/// Every candidate has a non-empty identifier.
pub open spec fn idents_nonempty(cs: Seq<FunctionCandidate>) -> bool {
    forall|i: int| 0 <= i < cs.len() ==> (#[trigger] cs[i]).ident@.len() > 0
}

/// `entries` are the signatures of the admitted candidates among `cs`, in order.
pub open spec fn entries_of(
    entries: Seq<ValidatedSignature>,
    cs: Seq<FunctionCandidate>,
    unsafe_excludes: bool,
) -> bool {
    &&& entries.len() == admitted_candidates(cs, unsafe_excludes).len()
    &&& forall|i: int|
        0 <= i < entries.len() ==> signature_of(
            #[trigger] entries[i],
            admitted_candidates(cs, unsafe_excludes)[i],
        )
}

/// Turns a candidate into its signature.
fn into_signature(c: FunctionCandidate) -> (r: ValidatedSignature)
    requires
        c.ident@.len() > 0,
    ensures
        signature_of(r, c),
{
    let ghost c0 = c;
    let api_kind = match category(c.ident.as_str()) {
        Ok(s) => s,
        Err(_) => {
            proof {
                assert(false);
            }
            String::new()
        },
    };
    let mut params = c.params;
    let mut arg_tys: Vec<TypeNode> = Vec::new();
    let ghost mut k: int = 0;
    while params.len() > 0
        invariant
            0 <= k <= c0.params@.len(),
            params@ == c0.params@.skip(k),
            arg_tys@ == param_types(c0.params@.take(k)),
        decreases params@.len(),
    {
        let p = params.remove(0);
        let t = match p {
            Param::Captured(t) => t,
            Param::Other => TypeNode::Other,
        };
        arg_tys.push(t);
        proof {
            assert(param_types(c0.params@.take(k + 1)) =~= param_types(c0.params@.take(k)).push(
                param_type(c0.params@[k]),
            ));
            k = k + 1;
            assert(params@ =~= c0.params@.skip(k));
        }
    }
    assert(c0.params@.take(k) =~= c0.params@);
    ValidatedSignature { ident: c.ident, api_kind, arg_tys, ret_ty: c.ret }
}

/// Appends one error per kind in `errs`, each naming `ident`.
fn record_errors(errors: &mut Vec<ValidationError>, errs: &Vec<ErrorKind>, ident: &String)
    ensures
        error_view(final(errors)@) == error_view(old(errors)@) + errs@.map_values(
            |e: ErrorKind| (e, ident@),
        ),
{
    let ghost start = error_view(errors@);
    let mut i: usize = 0;
    while i < errs.len()
        invariant
            i <= errs@.len(),
            error_view(errors@) == start + errs@.take(i as int).map_values(
                |e: ErrorKind| (e, ident@),
            ),
        decreases errs@.len() - i,
    {
        let ghost prev = errors@;
        let e = ValidationError { kind: errs[i], ident: ident.clone() };
        errors.push(e);
        proof {
            assert(error_view(errors@) =~= error_view(prev).push((errs@[i as int], ident@)));
            assert(errs@.take(i + 1) =~= errs@.take(i as int).push(errs@[i as int]));
            assert(errs@.take(i + 1).map_values(|e: ErrorKind| (e, ident@)) =~= errs@.take(
                i as int,
            ).map_values(|e: ErrorKind| (e, ident@)).push((errs@[i as int], ident@)));
            assert(error_view(errors@) =~= start + errs@.take(i + 1).map_values(
                |e: ErrorKind| (e, ident@),
            ));
        }
        i = i + 1;
    }
    assert(errs@.take(i as int) =~= errs@);
}

/// Applies the rules to every candidate: the admitted ones become catalog
/// entries, in order, and every violation is recorded.
pub fn get_functions(cands: Vec<FunctionCandidate>, unsafe_excludes: bool) -> (r: Catalog)
    requires
        idents_nonempty(cands@),
    ensures
        entries_of(r.entries@, cands@, unsafe_excludes),
        error_view(r.errors@) == error_log(cands@),
{
    let ghost cs0 = cands@;
    let mut cands = cands;
    let mut entries: Vec<ValidatedSignature> = Vec::new();
    let mut errors: Vec<ValidationError> = Vec::new();
    let ghost mut k: int = 0;
    while cands.len() > 0
        invariant
            0 <= k <= cs0.len(),
            cands@ == cs0.skip(k),
            idents_nonempty(cs0),
            entries_of(entries@, cs0.take(k), unsafe_excludes),
            error_view(errors@) == error_log(cs0.take(k)),
        decreases cands@.len(),
    {
        let c = cands.remove(0);
        assert(cs0.take(k + 1).drop_last() =~= cs0.take(k));
        assert(cs0.take(k + 1).last() == c);
        assert(c == cs0[k]);
        let errs = validate(&c);
        record_errors(&mut errors, &errs, &c.ident);
        let ghost before = entries@;
        if !is_excluded(&errs, unsafe_excludes) {
            let sig = into_signature(c);
            entries.push(sig);
            proof {
                assert forall|m: int| 0 <= m < entries@.len() implies signature_of(
                    #[trigger] entries@[m],
                    admitted_candidates(cs0.take(k + 1), unsafe_excludes)[m],
                ) by {
                    if m < before.len() {
                        assert(entries@[m] == before[m]);
                    }
                }
            }
        }
        proof {
            k = k + 1;
            assert(cands@ =~= cs0.skip(k));
        }
    }
    assert(cs0.take(k) =~= cs0);
    Catalog { entries, errors }
}

} // verus!
