//! Facts that hold of every catalog, whatever the source tree.
use vstd::prelude::*;
use crate::catalog::{admitted_candidates, entries_of, param_type, signature_of, ValidatedSignature};
use crate::extract::{is_ignored, item_candidates, tree_candidates};
use crate::model::{FunctionCandidate, Item, SourceUnit};
use crate::rules::{admitted, all_params_ok, excludes, flag, param_ok, ret_ok, rule_errors, ErrorKind};
use crate::types::is_whitelisted;

verus! {

/// Each admitted candidate is an admitted member of the sequence it was taken from.
pub proof fn lemma_admitted_from(cs: Seq<FunctionCandidate>, ue: bool, i: int)
    requires
        0 <= i < admitted_candidates(cs, ue).len(),
    ensures
        exists|j: int|
            0 <= j < cs.len() && cs[j] == admitted_candidates(cs, ue)[i] && admitted(cs[j], ue),
    decreases cs.len(),
{
    let init = admitted_candidates(cs.drop_last(), ue);
    if i < init.len() {
        lemma_admitted_from(cs.drop_last(), ue, i);
        let j = choose|j: int|
            0 <= j < cs.drop_last().len() && cs.drop_last()[j] == init[i] && admitted(
                cs.drop_last()[j],
                ue,
            );
        assert(cs[j] == cs.drop_last()[j]);
    } else {
        assert(cs[cs.len() - 1] == cs.last());
    }
}

proof fn lemma_items_not_ignored(items: Seq<Item>, ignored: Seq<String>, i: int)
    requires
        0 <= i < item_candidates(items, ignored).len(),
    ensures
        !is_ignored(ignored, item_candidates(items, ignored)[i].ident@),
    decreases items.len(),
{
    if i < item_candidates(items.drop_last(), ignored).len() {
        lemma_items_not_ignored(items.drop_last(), ignored, i);
    }
}

proof fn lemma_tree_not_ignored(units: Seq<SourceUnit>, ignored: Seq<String>, i: int)
    requires
        0 <= i < tree_candidates(units, ignored).len(),
    ensures
        !is_ignored(ignored, tree_candidates(units, ignored)[i].ident@),
    decreases units.len(),
{
    let init = tree_candidates(units.drop_last(), ignored);
    if i < init.len() {
        lemma_tree_not_ignored(units.drop_last(), ignored, i);
    } else {
        lemma_items_not_ignored(units.last().items@, ignored, i - init.len());
    }
}

/// No catalog entry carries an ignored identifier, whether or not its
/// declaration would otherwise pass validation.
pub proof fn ignored_never_cataloged(
    entries: Seq<ValidatedSignature>,
    units: Seq<SourceUnit>,
    ignored: Seq<String>,
    unsafe_excludes: bool,
)
    requires
        entries_of(entries, tree_candidates(units, ignored), unsafe_excludes),
    ensures
        forall|i: int| 0 <= i < entries.len() ==> !is_ignored(ignored, (#[trigger] entries[i]).ident@),
{
    let cs = tree_candidates(units, ignored);
    assert forall|i: int| 0 <= i < entries.len() implies !is_ignored(
        ignored,
        (#[trigger] entries[i]).ident@,
    ) by {
        lemma_admitted_from(cs, unsafe_excludes, i);
        let j = choose|j: int|
            0 <= j < cs.len() && cs[j] == admitted_candidates(cs, unsafe_excludes)[i] && admitted(
                cs[j],
                unsafe_excludes,
            );
        lemma_tree_not_ignored(units, ignored, j);
    }
}

/// The catalog is determined by the source tree and the configuration: two
/// runs on the same input list the same entries in the same order.
pub proof fn catalog_is_reproducible(
    first: Seq<ValidatedSignature>,
    second: Seq<ValidatedSignature>,
    units: Seq<SourceUnit>,
    ignored: Seq<String>,
    unsafe_excludes: bool,
)
    requires
        entries_of(first, tree_candidates(units, ignored), unsafe_excludes),
        entries_of(second, tree_candidates(units, ignored), unsafe_excludes),
    ensures
        first.len() == second.len(),
        forall|i: int|
            0 <= i < first.len() ==> {
                &&& (#[trigger] first[i]).ident == second[i].ident
                &&& first[i].api_kind@ == second[i].api_kind@
                &&& first[i].arg_tys@ == second[i].arg_tys@
                &&& first[i].ret_ty == second[i].ret_ty
            },
{
    let adm = admitted_candidates(tree_candidates(units, ignored), unsafe_excludes);
    assert forall|i: int| 0 <= i < first.len() implies {
        &&& (#[trigger] first[i]).ident == second[i].ident
        &&& first[i].api_kind@ == second[i].api_kind@
        &&& first[i].arg_tys@ == second[i].arg_tys@
        &&& first[i].ret_ty == second[i].ret_ty
    } by {
        assert(signature_of(first[i], adm[i]));
        assert(signature_of(second[i], adm[i]));
    }
}

/// An admitted candidate's return type and parameter types are whitelisted.
pub proof fn lemma_admitted_shapes(c: FunctionCandidate, ue: bool)
    requires
        admitted(c, ue),
    ensures
        ret_ok(c.ret),
        all_params_ok(c.params@),
{
    let errs = rule_errors(c);
    let last = flag(!all_params_ok(c.params@), ErrorKind::UnsupportedArgType);
    let front = errs.subrange(0, errs.len() - last.len());
    assert(errs =~= front + last) by {
        assert(errs.len() >= last.len());
    }
    if !all_params_ok(c.params@) {
        assert(errs[errs.len() - 1] == ErrorKind::UnsupportedArgType);
        assert(excludes(errs[errs.len() - 1], ue));
    }
    if !ret_ok(c.ret) {
        let k = errs.len() - last.len() - 1;
        assert(errs[k] == ErrorKind::UnsupportedReturnType);
        assert(excludes(errs[k], ue));
    }
}

/// Every parameter type and return type of a catalog entry is a numeric
/// primitive or a single-level pointer to one (`ret_ok` is the whitelist
/// check on an optional return type).
pub proof fn entries_are_whitelisted(
    entries: Seq<ValidatedSignature>,
    cs: Seq<FunctionCandidate>,
    unsafe_excludes: bool,
)
    requires
        entries_of(entries, cs, unsafe_excludes),
    ensures
        forall|i: int, j: int|
            0 <= i < entries.len() && 0 <= j < entries[i].arg_tys@.len() ==> is_whitelisted(
                #[trigger] entries[i].arg_tys@[j],
            ),
        forall|i: int|
            0 <= i < entries.len() ==> ret_ok((#[trigger] entries[i]).ret_ty),
{
    let adm = admitted_candidates(cs, unsafe_excludes);
    assert forall|i: int| 0 <= i < entries.len() implies {
        &&& forall|j: int|
            0 <= j < entries[i].arg_tys@.len() ==> is_whitelisted(#[trigger] entries[i].arg_tys@[j])
        &&& ret_ok((#[trigger] entries[i]).ret_ty)
    } by {
        lemma_admitted_from(cs, unsafe_excludes, i);
        let c = adm[i];
        assert(signature_of(entries[i], c));
        lemma_admitted_shapes(c, unsafe_excludes);
        assert forall|j: int| 0 <= j < entries[i].arg_tys@.len() implies is_whitelisted(
            #[trigger] entries[i].arg_tys@[j],
        ) by {
            assert(param_ok(c.params@[j]));
            assert(entries[i].arg_tys@[j] == param_type(c.params@[j]));
        }
    }
}

} // verus!
