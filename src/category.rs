//! Category tags and synthesized parameter names.
use vstd::prelude::*;
use vstd::string::{StrSliceExecFns, StringExecFns};

verus! {

/// The characters of `char::to_uppercase(c)`.
pub uninterp spec fn uppercase_of(c: char) -> Seq<char>;

/// Relies on `char::to_uppercase`: the upper-case mapping of `c`, which depends
/// on `c` alone and is one or more characters long.
#[verifier::external_body]
fn to_uppercase(c: char) -> (r: String)
    ensures
        r@ == uppercase_of(c),
        r@.len() >= 1,
{
    c.to_uppercase().collect()
}

/// The category tag of a non-empty identifier: its first character mapped to
/// upper case, the rest unchanged.
pub open spec fn category_of(id: Seq<char>) -> Seq<char> {
    seq![uppercase_of(id[0])[0]] + id.subrange(1, id.len() as int)
}

/// Failure of categorization.
#[derive(PartialEq, Eq, Structural, Clone, Copy, Debug)]
pub enum CategoryError {
    /// The identifier is empty.
    InvalidIdentifier,
}

/// Derives the category tag of an identifier.
pub fn category(id: &str) -> (r: Result<String, CategoryError>)
    ensures
        id@.len() == 0 <==> r is Err,
        r matches Ok(s) ==> s@ == category_of(id@),
{
    let n = id.unicode_len();
    if n == 0 {
        return Err(CategoryError::InvalidIdentifier);
    }
    let up = to_uppercase(id.get_char(0));
    let mut tag = String::from_str(up.as_str().substring_char(0, 1));
    tag.append(id.substring_char(1, n));
    proof {
        assert(up@.subrange(0, 1) =~= seq![uppercase_of(id@[0])[0]]);
    }
    Ok(tag)
}

/// Category tags depend on the identifier alone: two identifiers with the same
/// characters get the same tag.
pub proof fn category_is_pure(a: Seq<char>, b: Seq<char>)
    requires
        a == b,
        a.len() > 0,
    ensures
        category_of(a) == category_of(b),
{
}

/// The decimal digit `d`.
pub open spec fn digit_char(d: nat) -> char {
    seq!['0', '1', '2', '3', '4', '5', '6', '7', '8', '9'][d as int]
}

/// The decimal numeral of `n`, without leading zeros.
pub open spec fn decimal(n: nat) -> Seq<char>
    decreases n,
{
    if n < 10 {
        seq![digit_char(n)]
    } else {
        decimal(n / 10).push(digit_char(n % 10))
    }
}

/// The synthesized name of the parameter at position `i`: `x0`, `x1`, ...
pub open spec fn arg_name(i: nat) -> Seq<char> {
    seq!['x'] + decimal(i)
}

/// Relies on `usize`'s `Display` (through `format!`), which writes the
/// decimal numeral without sign or padding.
#[verifier::external_body]
fn decimal_text(i: usize) -> (r: String)
    ensures
        r@ == decimal(i as nat),
{
    format!("{}", i)
}

/// The synthesized name of the parameter at position `i`.
pub fn arg_id(i: usize) -> (r: String)
    ensures
        r@ == arg_name(i as nat),
{
    let digits = decimal_text(i);
    let mut id = String::from_str("x");
    id.append(digits.as_str());
    proof {
        reveal_strlit("x");
        assert(id@ =~= arg_name(i as nat));
    }
    id
}

/// The synthesized names of `len` parameters, in positional order.
pub fn get_arg_ids(len: usize) -> (r: Vec<String>)
    ensures
        r@.len() == len,
        forall|i: int| 0 <= i < len ==> (#[trigger] r@[i])@ == arg_name(i as nat),
{
    let mut ids: Vec<String> = Vec::new();
    let mut i: usize = 0;
    while i < len
        invariant
            i <= len,
            ids@.len() == i,
            forall|k: int| 0 <= k < i ==> (#[trigger] ids@[k])@ == arg_name(k as nat),
        decreases len - i,
    {
        ids.push(arg_id(i));
        i = i + 1;
    }
    ids
}

} // verus!
