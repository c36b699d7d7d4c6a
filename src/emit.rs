//! Records handed to generators, and their rendering as macro invocations.
use vstd::prelude::*;
use vstd::string::StringExecFns;
use crate::catalog::ValidatedSignature;
use crate::category::arg_name;
use crate::types::{is_whitelisted, TypeNode};
use crate::rules::ret_ok;

verus! {

/// One catalog entry as a generator receives it.
pub struct ApiRecord {
    pub id: String,
    pub api_kind: String,
    pub arg_tys: Vec<TypeNode>,
    /// `x0`, `x1`, ..., one per parameter.
    pub arg_ids: Vec<String>,
    pub ret_ty: Option<TypeNode>,
}

/// `ids` are the synthesized names of `n` parameters.
pub open spec fn names_for(ids: Seq<String>, n: nat) -> bool {
    &&& ids.len() == n
    &&& forall|i: int| 0 <= i < n ==> (#[trigger] ids[i])@ == arg_name(i as nat)
}

/// `r` is the record of signature `s`.
pub open spec fn record_of(r: ApiRecord, s: ValidatedSignature) -> bool {
    &&& r.id == s.ident
    &&& r.api_kind == s.api_kind
    &&& r.arg_tys == s.arg_tys
    &&& r.ret_ty == s.ret_ty
    &&& names_for(r.arg_ids@, s.arg_tys@.len())
}

/// Builds the record of one signature.
pub fn to_record(s: ValidatedSignature) -> (r: ApiRecord)
    ensures
        record_of(r, s),
{
    let arg_ids = crate::category::get_arg_ids(s.arg_tys.len());
    ApiRecord { id: s.ident, api_kind: s.api_kind, arg_tys: s.arg_tys, arg_ids, ret_ty: s.ret_ty }
}

/// Builds one record per signature, in order.
pub fn emit(entries: Vec<ValidatedSignature>) -> (r: Vec<ApiRecord>)
    ensures
        r@.len() == entries@.len(),
        forall|i: int| 0 <= i < r@.len() ==> record_of(#[trigger] r@[i], entries@[i]),
{
    let ghost es0 = entries@;
    let mut entries = entries;
    let mut out: Vec<ApiRecord> = Vec::new();
    let ghost mut k: int = 0;
    while entries.len() > 0
        invariant
            0 <= k <= es0.len(),
            entries@ == es0.skip(k),
            out@.len() == k,
            forall|i: int| 0 <= i < k ==> record_of(#[trigger] out@[i], es0[i]),
        decreases entries@.len(),
    {
        let s = entries.remove(0);
        assert(s == es0[k]);
        out.push(to_record(s));
        proof {
            k = k + 1;
            assert(entries@ =~= es0.skip(k));
        }
    }
    out
}

/// The source text of a whitelisted type.
pub open spec fn type_text(t: TypeNode) -> Seq<char> {
    match t {
        TypeNode::Path(p) => p.segments@[0]@,
        TypeNode::Ptr { mutable, pointee } => match *pointee {
            TypeNode::Path(p) => (if mutable {
                "*mut "@
            } else {
                "*const "@
            }) + p.segments@[0]@,
            _ => seq![],
        },
        TypeNode::Other => seq![],
    }
}

/// The pieces joined by `", "`.
pub open spec fn joined(pieces: Seq<Seq<char>>) -> Seq<char>
    decreases pieces.len(),
{
    if pieces.len() == 0 {
        seq![]
    } else if pieces.len() == 1 {
        pieces[0]
    } else {
        joined(pieces.drop_last()) + ", "@ + pieces.last()
    }
}

pub open spec fn types_text(ts: Seq<TypeNode>) -> Seq<char> {
    joined(ts.map_values(|t: TypeNode| type_text(t)))
}

pub open spec fn ids_text(ids: Seq<String>) -> Seq<char> {
    joined(ids.map_values(|s: String| s@))
}

pub open spec fn ret_text(ret: Option<TypeNode>) -> Seq<char> {
    match ret {
        Some(t) => type_text(t),
        None => seq![],
    }
}

/// The invocation of macro `m` that hands record `r` to a generator.
pub open spec fn invocation_text(m: Seq<char>, r: ApiRecord) -> Seq<char> {
    m + "! { id: "@ + r.id@ + "; api_kind: "@ + r.api_kind@ + "; arg_tys: "@ + types_text(
        r.arg_tys@,
    ) + "; arg_ids: "@ + ids_text(r.arg_ids@) + "; ret_ty: "@ + ret_text(r.ret_ty) + "; }"@
}

fn push_type(out: &mut String, t: &TypeNode)
    requires
        is_whitelisted(*t),
    ensures
        final(out)@ == old(out)@ + type_text(*t),
{
    match t {
        TypeNode::Path(p) => out.append(p.segments[0].as_str()),
        TypeNode::Ptr { mutable, pointee } => {
            if *mutable {
                out.append("*mut ");
            } else {
                out.append("*const ");
            }
            match &**pointee {
                TypeNode::Path(p) => out.append(p.segments[0].as_str()),
                _ => {},
            }
        },
        TypeNode::Other => {},
    }
}

fn push_types(out: &mut String, ts: &Vec<TypeNode>)
    requires
        forall|i: int| 0 <= i < ts@.len() ==> is_whitelisted(#[trigger] ts@[i]),
    ensures
        final(out)@ == old(out)@ + types_text(ts@),
{
    let ghost start = out@;
    let mut i: usize = 0;
    while i < ts.len()
        invariant
            i <= ts@.len(),
            forall|k: int| 0 <= k < ts@.len() ==> is_whitelisted(#[trigger] ts@[k]),
            out@ == start + types_text(ts@.take(i as int)),
        decreases ts@.len() - i,
    {
        let ghost before = out@;
        if i > 0 {
            out.append(", ");
        }
        push_type(out, &ts[i]);
        proof {
            let f = |t: TypeNode| type_text(t);
            assert(ts@.take(i + 1).map_values(f).drop_last() =~= ts@.take(i as int).map_values(f));
            if i == 0 {
                assert(types_text(ts@.take(1)) == type_text(ts@[0]));
            }
            assert(out@ =~= start + types_text(ts@.take(i + 1)));
        }
        i = i + 1;
    }
    assert(ts@.take(i as int) =~= ts@);
}

fn push_ids(out: &mut String, ids: &Vec<String>)
    ensures
        final(out)@ == old(out)@ + ids_text(ids@),
{
    let ghost start = out@;
    let mut i: usize = 0;
    while i < ids.len()
        invariant
            i <= ids@.len(),
            out@ == start + ids_text(ids@.take(i as int)),
        decreases ids@.len() - i,
    {
        if i > 0 {
            out.append(", ");
        }
        out.append(ids[i].as_str());
        proof {
            let f = |s: String| s@;
            assert(ids@.take(i + 1).map_values(f).drop_last() =~= ids@.take(i as int).map_values(f));
            if i == 0 {
                assert(ids_text(ids@.take(1)) == ids@[0]@);
            }
            assert(out@ =~= start + ids_text(ids@.take(i + 1)));
        }
        i = i + 1;
    }
    assert(ids@.take(i as int) =~= ids@);
}

/// Renders the invocation of macro `macro_id` for one record.
pub fn render_invocation(macro_id: &str, r: &ApiRecord) -> (s: String)
    requires
        forall|i: int| 0 <= i < r.arg_tys@.len() ==> is_whitelisted(#[trigger] r.arg_tys@[i]),
        ret_ok(r.ret_ty),
    ensures
        s@ == invocation_text(macro_id@, *r),
{
    let mut s = String::from_str(macro_id);
    s.append("! { id: ");
    s.append(r.id.as_str());
    s.append("; api_kind: ");
    s.append(r.api_kind.as_str());
    s.append("; arg_tys: ");
    push_types(&mut s, &r.arg_tys);
    s.append("; arg_ids: ");
    push_ids(&mut s, &r.arg_ids);
    s.append("; ret_ty: ");
    match &r.ret_ty {
        Some(t) => push_type(&mut s, t),
        None => {},
    }
    s.append("; }");
    s
}

} // verus!
