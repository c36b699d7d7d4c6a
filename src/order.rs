//! Which files are source units, and their discovery order: lexicographic
//! by path.
use vstd::prelude::*;
use vstd::string::StrSliceExecFns;
use crate::model::SourceUnit;
use vstd::multiset::Multiset;

verus! {

/// `a` sorts strictly before `b`, character by character.
pub open spec fn lex_lt(a: Seq<char>, b: Seq<char>) -> bool
    decreases a.len(),
{
    if a.len() == 0 {
        b.len() > 0
    } else if b.len() == 0 {
        false
    } else if a[0] != b[0] {
        (a[0] as int) < (b[0] as int)
    } else {
        lex_lt(a.drop_first(), b.drop_first())
    }
}

pub proof fn lemma_lex_lt_transitive(a: Seq<char>, b: Seq<char>, c: Seq<char>)
    requires
        lex_lt(a, b),
        lex_lt(b, c),
    ensures
        lex_lt(a, c),
    decreases a.len(),
{
    if a.len() > 0 && b.len() > 0 && c.len() > 0 && a[0] == b[0] && b[0] == c[0] {
        lemma_lex_lt_transitive(a.drop_first(), b.drop_first(), c.drop_first());
    }
}

pub proof fn lemma_lex_lt_asymmetric(a: Seq<char>, b: Seq<char>)
    requires
        lex_lt(a, b),
    ensures
        !lex_lt(b, a),
    decreases a.len(),
{
    if a.len() > 0 && b.len() > 0 && a[0] == b[0] {
        lemma_lex_lt_asymmetric(a.drop_first(), b.drop_first());
    }
}

pub proof fn lemma_lex_lt_total(a: Seq<char>, b: Seq<char>)
    requires
        a != b,
    ensures
        lex_lt(a, b) || lex_lt(b, a),
    decreases a.len(),
{
    if a.len() > 0 && b.len() > 0 && a[0] == b[0] {
        if a.drop_first() == b.drop_first() {
            assert(a =~= seq![a[0]] + a.drop_first());
            assert(b =~= seq![b[0]] + b.drop_first());
        }
        lemma_lex_lt_total(a.drop_first(), b.drop_first());
    } else if a.len() == 0 && b.len() == 0 {
        assert(a =~= b);
    } else if a.len() > 0 && b.len() > 0 {
        assert((a[0] as int) != (b[0] as int));
    }
}

/// Compares two texts in lexicographic order.
pub fn text_lt(a: &str, b: &str) -> (r: bool)
    ensures
        r == lex_lt(a@, b@),
{
    let n = a.unicode_len();
    let m = b.unicode_len();
    let mut i: usize = 0;
    assert(a@.skip(0) =~= a@);
    assert(b@.skip(0) =~= b@);
    while i < n && i < m
        invariant
            n == a@.len(),
            m == b@.len(),
            i <= n,
            i <= m,
            lex_lt(a@, b@) == lex_lt(a@.skip(i as int), b@.skip(i as int)),
        decreases n - i,
    {
        let x = a.get_char(i);
        let y = b.get_char(i);
        assert(a@.skip(i as int)[0] == x);
        assert(b@.skip(i as int)[0] == y);
        if x != y {
            return (x as u32) < (y as u32);
        }
        assert(a@.skip(i as int).drop_first() =~= a@.skip(i + 1));
        assert(b@.skip(i as int).drop_first() =~= b@.skip(i + 1));
        i = i + 1;
    }
    i < m
}

/// `path` ends with `.` followed by `ext`.
pub open spec fn has_extension(path: Seq<char>, ext: Seq<char>) -> bool {
    path.len() >= ext.len() + 1 && path[path.len() - ext.len() - 1] == '.' && path.subrange(
        path.len() - ext.len(),
        path.len() as int,
    ) == ext
}

/// `path` has one of the recognized extensions.
pub open spec fn is_source_path(path: Seq<char>, exts: Seq<String>) -> bool {
    exists|i: int| 0 <= i < exts.len() && has_extension(path, (#[trigger] exts[i])@)
}

fn ends_with_extension(path: &str, ext: &str) -> (r: bool)
    ensures
        r == has_extension(path@, ext@),
{
    let n = path.unicode_len();
    let m = ext.unicode_len();
    if n <= m {
        return false;
    }
    if path.get_char(n - m - 1) != '.' {
        return false;
    }
    crate::text::text_eq(path.substring_char(n - m, n), ext)
}

/// Whether a file at `path` is a source unit, given the recognized
/// extensions (such as `rs`).
pub fn source_path(path: &str, exts: &Vec<String>) -> (r: bool)
    ensures
        r == is_source_path(path@, exts@),
{
    let mut i: usize = 0;
    while i < exts.len()
        invariant
            i <= exts@.len(),
            forall|k: int| 0 <= k < i ==> !has_extension(path@, (#[trigger] exts@[k])@),
        decreases exts@.len() - i,
    {
        if ends_with_extension(path, exts[i].as_str()) {
            return true;
        }
        i = i + 1;
    }
    false
}

/// Each unit's path sorts no earlier than the path of any unit before it.
pub open spec fn ordered_by_path(units: Seq<SourceUnit>) -> bool {
    forall|i: int, j: int|
        0 <= i < j < units.len() ==> !lex_lt(#[trigger] units[j].path@, #[trigger] units[i].path@)
}

/// Puts the units in lexicographic order of their paths; units with equal
/// paths keep their relative order.
pub fn order_units(units: Vec<SourceUnit>) -> (r: Vec<SourceUnit>)
    ensures
        ordered_by_path(r@),
        r@.to_multiset() == units@.to_multiset(),
{
    broadcast use vstd::seq_lib::to_multiset_insert, vstd::seq_lib::group_to_multiset_ensures, vstd::multiset::group_multiset_axioms, vstd::multiset::group_multiset_properties;

    let ghost u0 = units@;
    let mut units = units;
    let mut out: Vec<SourceUnit> = Vec::new();
    let ghost mut k: int = 0;
    assert(out@.to_multiset() =~= Multiset::empty());
    assert(u0.skip(0) =~= u0);
    assert(out@.to_multiset().add(units@.to_multiset()) =~= u0.to_multiset());
    while units.len() > 0
        invariant
            0 <= k <= u0.len(),
            units@ == u0.skip(k),
            ordered_by_path(out@),
            out@.to_multiset().add(units@.to_multiset()) == u0.to_multiset(),
        decreases units@.len(),
    {
        let ghost rest = units@;
        let x = units.remove(0);
        let mut p: usize = 0;
        while p < out.len() && !text_lt(x.path.as_str(), out[p].path.as_str())
            invariant
                p <= out@.len(),
                forall|q: int| 0 <= q < p ==> !lex_lt(x.path@, #[trigger] out@[q].path@),
            decreases out@.len() - p,
        {
            p = p + 1;
        }
        let ghost before = out@;
        out.insert(p, x);
        proof {
            assert forall|i: int, j: int| 0 <= i < j < out@.len() implies !lex_lt(
                #[trigger] out@[j].path@,
                #[trigger] out@[i].path@,
            ) by {
                if j < p {
                    assert(out@[i] == before[i] && out@[j] == before[j]);
                } else if j == p {
                    assert(out@[i] == before[i]);
                } else if i > p {
                    assert(out@[i] == before[i - 1] && out@[j] == before[j - 1]);
                } else if i == p {
                    assert(out@[j] == before[j - 1]);
                    assert(lex_lt(x.path@, before[p as int].path@));
                    if j - 1 > p {
                        assert(!lex_lt(before[j - 1].path@, before[p as int].path@));
                    }
                    if lex_lt(before[j - 1].path@, x.path@) {
                        if j - 1 > p {
                            lemma_lex_lt_transitive(
                                before[j - 1].path@,
                                x.path@,
                                before[p as int].path@,
                            );
                        } else {
                            lemma_lex_lt_asymmetric(x.path@, before[p as int].path@);
                        }
                    }
                } else {
                    assert(out@[i] == before[i] && out@[j] == before[j - 1]);
                }
            }
            assert(units@ == rest.remove(0));
            vstd::seq_lib::to_multiset_remove(rest, 0);
            vstd::seq_lib::to_multiset_insert(before, p as int, x);
            assert(units@.to_multiset() == rest.to_multiset().remove(x));
            assert(out@ == before.insert(p as int, x));
            assert(out@.to_multiset() == before.to_multiset().insert(x));
            assert(rest.contains(x)) by {
                assert(rest[0] == x);
            }
            vstd::seq_lib::to_multiset_contains(rest, x);
            assert(rest.to_multiset().count(x) > 0);
            assert(out@.to_multiset().add(units@.to_multiset()) =~= before.to_multiset().add(
                rest.to_multiset(),
            ));
            k = k + 1;
            assert(units@ =~= u0.skip(k));
        }
    }
    assert(units@.to_multiset().len() == 0);
    assert(units@.to_multiset() =~= Multiset::empty());
    assert(out@.to_multiset().add(Multiset::empty()) =~= out@.to_multiset());
    out
}

} // verus!

verus! {

/// No two units share a path.
pub open spec fn distinct_paths(units: Seq<SourceUnit>) -> bool {
    forall|i: int, j: int|
        0 <= i < j < units.len() ==> (#[trigger] units[i]).path@ != (#[trigger] units[j]).path@
}

/// Discovery order is unique: two arrangements of the same units, both in
/// path order, are the same sequence when no two units share a path.
pub proof fn discovery_order_is_unique(a: Seq<SourceUnit>, b: Seq<SourceUnit>)
    requires
        ordered_by_path(a),
        ordered_by_path(b),
        distinct_paths(a),
        a.to_multiset() == b.to_multiset(),
    ensures
        a == b,
    decreases a.len(),
{
    broadcast use vstd::seq_lib::group_to_multiset_ensures, vstd::multiset::group_multiset_axioms;

    if a.len() == 0 {
        vstd::seq_lib::to_multiset_len(a);
        vstd::seq_lib::to_multiset_len(b);
        assert(b.to_multiset().len() == 0);
        assert(b.len() == 0);
        assert(a =~= b);
    } else {
        vstd::seq_lib::to_multiset_len(a);
        vstd::seq_lib::to_multiset_len(b);
        assert(b.len() == a.len());
        assert(b.to_multiset().count(a[0]) > 0);
        assert(b.contains(a[0]));
        let j = choose|j: int| 0 <= j < b.len() && b[j] == a[0];
        assert(a.to_multiset().count(b[0]) > 0);
        assert(a.contains(b[0]));
        let i = choose|i: int| 0 <= i < a.len() && a[i] == b[0];
        if i > 0 {
            lemma_lex_lt_total(a[0].path@, a[i].path@);
            assert(lex_lt(a[0].path@, a[i].path@));
            if j > 0 {
                assert(!lex_lt(b[j].path@, b[0].path@));
            } else {
                assert(a[i] == a[0]);
            }
        }
        assert(a[0] == b[0]);
        assert(a.drop_first().to_multiset() =~= a.to_multiset().remove(a[0])) by {
            vstd::seq_lib::to_multiset_remove(a, 0);
            assert(a.remove(0) =~= a.drop_first());
        }
        assert(b.drop_first().to_multiset() =~= b.to_multiset().remove(b[0])) by {
            vstd::seq_lib::to_multiset_remove(b, 0);
            assert(b.remove(0) =~= b.drop_first());
        }
        let a1 = a.drop_first();
        let b1 = b.drop_first();
        assert forall|x: int, y: int| 0 <= x < y < a1.len() implies !lex_lt(
            #[trigger] a1[y].path@,
            #[trigger] a1[x].path@,
        ) by {
            assert(a1[x] == a[x + 1] && a1[y] == a[y + 1]);
        }
        assert forall|x: int, y: int| 0 <= x < y < b1.len() implies !lex_lt(
            #[trigger] b1[y].path@,
            #[trigger] b1[x].path@,
        ) by {
            assert(b1[x] == b[x + 1] && b1[y] == b[y + 1]);
        }
        assert forall|x: int, y: int| 0 <= x < y < a1.len() implies (#[trigger] a1[x]).path@
            != (#[trigger] a1[y]).path@ by {
            assert(a1[x] == a[x + 1] && a1[y] == a[y + 1]);
        }
        discovery_order_is_unique(a1, b1);
        assert(a =~= b) by {
            assert forall|x: int| 0 <= x < a.len() implies a[x] == b[x] by {
                if x > 0 {
                    assert(a[x] == a1[x - 1]);
                    assert(b[x] == b1[x - 1]);
                }
            }
        }
    }
}

} // verus!
