//! The whole pass: from parsed source units and a configuration to the
//! records handed to generators.
use vstd::prelude::*;
use vstd::string::StrSliceExecFns;
use crate::catalog::{
    admitted_candidates, entries_of, error_log, error_view, get_functions, idents_nonempty,
    param_types, ValidationError,
};
use crate::category::category_of;
use crate::emit::{emit, names_for, ApiRecord};
use crate::extract::{get_candidates, item_candidates, tree_candidates};
use crate::model::{FunctionCandidate, Item, SourceUnit};

verus! {

/// What a run is told besides the source tree.
pub struct Config {
    /// Identifiers whose declarations are left out before validation.
    pub ignored: Vec<String>,
    /// Whether an `unsafe` qualifier keeps a declaration out of the catalog.
    /// When unset, the qualifier is reported and nothing more: such a
    /// declaration is still cataloged if no other rule fails.
    pub unsafe_excludes: bool,
    /// Whether any recorded violation fails the whole run.
    pub strict: bool,
}

/// The records of a run, and every violation it recorded.
pub struct Expansion {
    pub records: Vec<ApiRecord>,
    pub errors: Vec<ValidationError>,
}

/// Pieces of `s` between commas; `cur` is the piece read so far.
pub open spec fn split_from(s: Seq<char>, cur: Seq<char>) -> Seq<Seq<char>>
    decreases s.len(),
{
    if s.len() == 0 {
        seq![cur]
    } else if s[0] == ',' {
        seq![cur] + split_from(s.drop_first(), seq![])
    } else {
        split_from(s.drop_first(), cur.push(s[0]))
    }
}

/// The comma-separated pieces of `s`; empty pieces are kept.
pub open spec fn comma_pieces(s: Seq<char>) -> Seq<Seq<char>> {
    split_from(s, seq![])
}

/// Reads the ignore set from its configuration form, identifiers separated
/// by commas.
pub fn parse_ignore_list(s: &str) -> (r: Vec<String>)
    ensures
        r@.map_values(|x: String| x@) == comma_pieces(s@),
{
    let n = s.unicode_len();
    let mut out: Vec<String> = Vec::new();
    let mut start: usize = 0;
    let mut i: usize = 0;
    assert(s@.skip(0) =~= s@);
    assert(s@.subrange(0, 0) =~= Seq::<char>::empty());
    assert(out@.map_values(|x: String| x@) + comma_pieces(s@) =~= comma_pieces(s@));
    while i < n
        invariant
            n == s@.len(),
            start <= i <= n,
            out@.map_values(|x: String| x@) + split_from(s@.skip(i as int), s@.subrange(
                start as int,
                i as int,
            )) == comma_pieces(s@),
        decreases n - i,
    {
        let ghost prev = out@;
        let ghost rest = s@.skip(i as int);
        assert(rest.drop_first() =~= s@.skip(i + 1));
        assert(rest[0] == s@[i as int]);
        if s.get_char(i) == ',' {
            let piece = String::from_str(s.substring_char(start, i));
            out.push(piece);
            proof {
                assert(out@.map_values(|x: String| x@) =~= prev.map_values(|x: String| x@).push(
                    s@.subrange(start as int, i as int),
                ));
                assert(s@.subrange(i + 1, i + 1) =~= Seq::<char>::empty());
            }
            start = i + 1;
        } else {
            assert(s@.subrange(start as int, i + 1) =~= s@.subrange(start as int, i as int).push(
                s@[i as int],
            ));
        }
        i = i + 1;
    }
    let ghost prev = out@;
    out.push(String::from_str(s.substring_char(start, n)));
    assert(s@.skip(n as int) =~= Seq::<char>::empty());
    assert(out@.map_values(|x: String| x@) =~= prev.map_values(|x: String| x@).push(
        s@.subrange(start as int, n as int),
    ));
    out
}

/// Every function item of every unit has a non-empty identifier, as the
/// grammar of declarations ensures.
pub open spec fn units_well_formed(units: Seq<SourceUnit>) -> bool {
    forall|u: int, i: int|
        0 <= u < units.len() && 0 <= i < units[u].items@.len() ==> (#[trigger] units[u].items@[i]
            matches Item::Function { decl, .. } ==> decl.ident@.len() > 0)
}

/// Checks `units_well_formed`.
pub fn units_valid(units: &Vec<SourceUnit>) -> (r: bool)
    ensures
        r == units_well_formed(units@),
{
    let mut u: usize = 0;
    while u < units.len()
        invariant
            u <= units@.len(),
            forall|a: int, i: int|
                0 <= a < u && 0 <= i < units@[a].items@.len() ==> (#[trigger] units@[a].items@[i]
                    matches Item::Function { decl, .. } ==> decl.ident@.len() > 0),
        decreases units@.len() - u,
    {
        let items = &units[u].items;
        let mut i: usize = 0;
        while i < items.len()
            invariant
                u < units@.len(),
                items == units@[u as int].items,
                i <= items@.len(),
                forall|a: int, j: int|
                    0 <= a < u && 0 <= j < units@[a].items@.len() ==> (#[trigger] units@[a].items@[j]
                        matches Item::Function { decl, .. } ==> decl.ident@.len() > 0),
                forall|j: int|
                    0 <= j < i ==> (#[trigger] items@[j] matches Item::Function { decl, .. }
                        ==> decl.ident@.len() > 0),
            decreases items@.len() - i,
        {
            match &items[i] {
                Item::Function { decl, .. } => {
                    if decl.ident.unicode_len() == 0 {
                        return false;
                    }
                },
                Item::Other => {},
            }
            i = i + 1;
        }
        u = u + 1;
    }
    true
}

proof fn lemma_items_nonempty(items: Seq<Item>, ignored: Seq<String>)
    requires
        forall|j: int|
            0 <= j < items.len() ==> (#[trigger] items[j] matches Item::Function { decl, .. }
                ==> decl.ident@.len() > 0),
    ensures
        idents_nonempty(item_candidates(items, ignored)),
    decreases items.len(),
{
    if items.len() > 0 {
        let init = items.drop_last();
        assert forall|j: int|
            0 <= j < init.len() implies (#[trigger] init[j] matches Item::Function { decl, .. }
            ==> decl.ident@.len() > 0) by {
            assert(init[j] == items[j]);
        }
        lemma_items_nonempty(init, ignored);
        assert(items.last() == items[items.len() - 1]);
    }
}

proof fn lemma_units_nonempty(units: Seq<SourceUnit>, ignored: Seq<String>)
    requires
        units_well_formed(units),
    ensures
        idents_nonempty(tree_candidates(units, ignored)),
    decreases units.len(),
{
    if units.len() > 0 {
        let init = units.drop_last();
        assert forall|u: int, i: int|
            0 <= u < init.len() && 0 <= i < init[u].items@.len() implies (
            #[trigger] init[u].items@[i] matches Item::Function { decl, .. }
            ==> decl.ident@.len() > 0) by {
            assert(init[u] == units[u]);
        }
        lemma_units_nonempty(init, ignored);
        let last = units[units.len() - 1];
        assert forall|j: int|
            0 <= j < last.items@.len() implies (#[trigger] last.items@[j] matches Item::Function {
            decl,
            ..
        } ==> decl.ident@.len() > 0) by {}
        lemma_items_nonempty(last.items@, ignored);
    }
}

/// `r` is the record of candidate `c`.
pub open spec fn record_for(r: ApiRecord, c: FunctionCandidate) -> bool {
    &&& r.id == c.ident
    &&& r.api_kind@ == category_of(c.ident@)
    &&& r.arg_tys@ == param_types(c.params@)
    &&& r.ret_ty == c.ret
    &&& names_for(r.arg_ids@, c.params@.len())
}

/// `records` are those of the admitted candidates among `cs`, in order.
pub open spec fn records_of(records: Seq<ApiRecord>, cs: Seq<FunctionCandidate>, ue: bool) -> bool {
    &&& records.len() == admitted_candidates(cs, ue).len()
    &&& forall|i: int|
        0 <= i < records.len() ==> record_for(#[trigger] records[i], admitted_candidates(cs, ue)[i])
}

/// Runs extraction, validation, categorization and emission over the units,
/// in the order given. In strict mode any recorded violation fails the run,
/// which then returns the violations.
pub fn for_each_api(units: Vec<SourceUnit>, config: &Config) -> (r: Result<Expansion, Vec<ValidationError>>)
    requires
        units_well_formed(units@),
    ensures
        r is Err <==> config.strict && error_log(tree_candidates(units@, config.ignored@)).len() > 0,
        r matches Ok(e) ==> records_of(
            e.records@,
            tree_candidates(units@, config.ignored@),
            config.unsafe_excludes,
        ) && error_view(e.errors@) == error_log(tree_candidates(units@, config.ignored@)),
        r matches Err(es) ==> error_view(es@) == error_log(tree_candidates(units@, config.ignored@)),
{
    let ghost cs = tree_candidates(units@, config.ignored@);
    proof {
        lemma_units_nonempty(units@, config.ignored@);
    }
    let cands = get_candidates(units, &config.ignored);
    let catalog = get_functions(cands, config.unsafe_excludes);
    if config.strict && catalog.errors.len() > 0 {
        return Err(catalog.errors);
    }
    let ghost entries = catalog.entries@;
    let records = emit(catalog.entries);
    proof {
        assert(entries_of(entries, cs, config.unsafe_excludes));
        assert forall|i: int| 0 <= i < records@.len() implies record_for(
            #[trigger] records@[i],
            admitted_candidates(cs, config.unsafe_excludes)[i],
        ) by {
            assert(crate::catalog::signature_of(
                entries[i],
                admitted_candidates(cs, config.unsafe_excludes)[i],
            ));
        }
    }
    Ok(Expansion { records, errors: catalog.errors })
}

} // verus!
