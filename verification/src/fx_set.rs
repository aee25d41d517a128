use vstd::prelude::*;

use rustc_hash::{FxBuildHasher, FxHashSet};

verus! {

/// The hash builder of `rustc_hash`, which its `FxHashSet` uses.
#[verifier::external_type_specification]
#[verifier::external_body]
pub struct ExFxBuildHasher(FxBuildHasher);

/// The strings that an `FxHashSet<String>` holds, each taken by its characters.
pub uninterp spec fn fx_set_keys(set: FxHashSet<String>) -> Set<Seq<char>>;

/// `FxHashSet::default()`: a set that holds nothing.
#[verifier::external_body]
pub(crate) fn fx_set_new() -> (set: FxHashSet<String>)
    ensures
        fx_set_keys(set) == Set::<Seq<char>>::empty(),
{
    FxHashSet::default()
}

/// `HashSet::insert` on an `FxHashSet<String>`: the key is added, and the
/// result says whether it was absent before.
#[verifier::external_body]
pub(crate) fn fx_set_insert(set: &mut FxHashSet<String>, key: String) -> (fresh: bool)
    ensures
        fx_set_keys(*final(set)) == fx_set_keys(*old(set)).insert(key@),
        fresh == !fx_set_keys(*old(set)).contains(key@),
{
    set.insert(key)
}

/// `HashSet::remove` on an `FxHashSet<String>`: the key is taken out, and the
/// result says whether it was present before.
#[verifier::external_body]
pub(crate) fn fx_set_remove(set: &mut FxHashSet<String>, key: &str) -> (was_present: bool)
    ensures
        fx_set_keys(*final(set)) == fx_set_keys(*old(set)).remove(key@),
        was_present == fx_set_keys(*old(set)).contains(key@),
{
    set.remove(key)
}

/// `HashSet::contains` on an `FxHashSet<String>`.
#[verifier::external_body]
pub(crate) fn fx_set_contains(set: &FxHashSet<String>, key: &str) -> (present: bool)
    ensures
        present == fx_set_keys(*set).contains(key@),
{
    set.contains(key)
}

/// `HashSet::len` on an `FxHashSet<String>`: the number of distinct strings held.
#[verifier::external_body]
pub(crate) fn fx_set_len(set: &FxHashSet<String>) -> (len: usize)
    ensures
        len == fx_set_keys(*set).len(),
{
    set.len()
}

} // verus!
