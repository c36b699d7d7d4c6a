//! Collects the public function declarations of the source units, in
//! discovery order, leaving out ignored identifiers.
use vstd::prelude::*;
use crate::model::{FunctionCandidate, Item, SourceUnit};
use crate::text::text_eq;

verus! {

/// `id` is one of the ignored identifiers.
pub open spec fn is_ignored(ignored: Seq<String>, id: Seq<char>) -> bool {
    exists|i: int| 0 <= i < ignored.len() && (#[trigger] ignored[i])@ == id
}

/// The public functions among `items` that are not ignored, in order.
pub open spec fn item_candidates(items: Seq<Item>, ignored: Seq<String>) -> Seq<FunctionCandidate>
    decreases items.len(),
{
    if items.len() == 0 {
        seq![]
    } else {
        let init = item_candidates(items.drop_last(), ignored);
        match items.last() {
            Item::Function { public, decl } => if public && !is_ignored(ignored, decl.ident@) {
                init.push(decl)
            } else {
                init
            },
            Item::Other => init,
        }
    }
}

/// The candidates of every unit, unit after unit.
pub open spec fn tree_candidates(units: Seq<SourceUnit>, ignored: Seq<String>) -> Seq<
    FunctionCandidate,
>
    decreases units.len(),
{
    if units.len() == 0 {
        seq![]
    } else {
        tree_candidates(units.drop_last(), ignored) + item_candidates(units.last().items@, ignored)
    }
}

/// Whether `id` is ignored.
pub fn ignored_contains(ignored: &Vec<String>, id: &str) -> (r: bool)
    ensures
        r == is_ignored(ignored@, id@),
{
    let mut i: usize = 0;
    while i < ignored.len()
        invariant
            i <= ignored@.len(),
            forall|k: int| 0 <= k < i ==> (#[trigger] ignored@[k])@ != id@,
        decreases ignored@.len() - i,
    {
        if text_eq(ignored[i].as_str(), id) {
            return true;
        }
        i = i + 1;
    }
    false
}

/// Takes the public function declarations out of the units, in discovery
/// order, dropping those whose identifier is ignored.
pub fn get_candidates(units: Vec<SourceUnit>, ignored: &Vec<String>) -> (r: Vec<FunctionCandidate>)
    ensures
        r@ == tree_candidates(units@, ignored@),
{
    let ghost units0 = units@;
    let mut units = units;
    let mut out: Vec<FunctionCandidate> = Vec::new();
    let ghost mut k: int = 0;
    while units.len() > 0
        invariant
            0 <= k <= units0.len(),
            units@ == units0.skip(k),
            out@ == tree_candidates(units0.take(k), ignored@),
        decreases units@.len(),
    {
        let unit = units.remove(0);
        let ghost items0 = unit.items@;
        let mut items = unit.items;
        let ghost mut j: int = 0;
        assert(units0.take(k + 1).drop_last() =~= units0.take(k));
        assert(units0.take(k + 1).last() == unit);
        while items.len() > 0
            invariant
                0 <= j <= items0.len(),
                items@ == items0.skip(j),
                out@ == tree_candidates(units0.take(k), ignored@) + item_candidates(
                    items0.take(j),
                    ignored@,
                ),
            decreases items@.len(),
        {
            let item = items.remove(0);
            assert(items0.take(j + 1).drop_last() =~= items0.take(j));
            assert(items0.take(j + 1).last() == item);
            match item {
                Item::Function { public, decl } => {
                    if public && !ignored_contains(ignored, decl.ident.as_str()) {
                        out.push(decl);
                    }
                },
                Item::Other => {},
            }
            proof {
                j = j + 1;
                assert(items@ =~= items0.skip(j));
            }
        }
        proof {
            assert(items0.take(j) =~= items0);
            k = k + 1;
            assert(units@ =~= units0.skip(k));
        }
    }
    assert(units0.take(k) =~= units0);
    out
}

} // verus!
