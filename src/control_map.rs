//! The ordered maps of the working set, kept in `indexmap::IndexMap`s: the
//! controls keyed by `CidKey`, and the profile answers keyed by question.
//! Each call into a map goes through one wrapper below, whose contract
//! states what the map's source does to its entries.
use indexmap::IndexMap;
use vstd::prelude::*;

use crate::cid::{key_lt, CidKey};
use crate::control::Control;

verus! {

#[verifier::external_type_specification]
#[verifier::external_body]
#[verifier::reject_recursive_types(K)]
#[verifier::reject_recursive_types(V)]
#[verifier::reject_recursive_types(S)]
pub struct ExIndexMap<K, V, S>(IndexMap<K, V, S>);

/// The key-value pairs of a map of controls, in the map's order.
pub uninterp spec fn control_entries(m: IndexMap<CidKey, Control>) -> Seq<(CidKey, Control)>;

/// The question keys and answers of a map of profile answers, in the
/// map's order.
pub uninterp spec fn profile_entries(m: IndexMap<String, String>) -> Seq<(String, String)>;

/// Relies on `IndexMap::new`: a new map has no entries.
#[verifier::external_body]
pub(crate) fn new_profile_map() -> (r: IndexMap<String, String>)
    ensures
        profile_entries(r) == Seq::<(String, String)>::empty(),
{
    IndexMap::new()
}

/// No key occurs twice.
pub open spec fn keys_unique(e: Seq<(CidKey, Control)>) -> bool {
    forall|i: int, j: int| 0 <= i < e.len() && 0 <= j < e.len() && i != j ==> e[i].0 != e[j].0
}

/// Some entry has key `k`.
pub open spec fn has_key(e: Seq<(CidKey, Control)>, k: CidKey) -> bool {
    exists|i: int| 0 <= i < e.len() && e[i].0 == k
}

/// Some position of `p` holds `j`.
pub open spec fn takes(p: Seq<int>, j: int) -> bool {
    exists|i: int| 0 <= i < p.len() && p[i] == j
}

/// `p` lists each index below `n` exactly once.
pub open spec fn is_permutation(p: Seq<int>, n: int) -> bool {
    &&& p.len() == n
    &&& forall|i: int| 0 <= i < n ==> 0 <= #[trigger] p[i] < n
    &&& forall|i: int, j: int| 0 <= i < n && 0 <= j < n && i != j ==> p[i] != p[j]
    &&& forall|j: int| 0 <= j < n ==> #[trigger] takes(p, j)
}

/// Relies on `IndexMap::new`: a new map has no entries.
#[verifier::external_body]
pub(crate) fn new_control_map() -> (r: IndexMap<CidKey, Control>)
    ensures
        control_entries(r) == Seq::<(CidKey, Control)>::empty(),
{
    IndexMap::new()
}

/// Relies on `IndexMap::insert`: an existing key keeps its place and takes
/// the new value; a new key is added last.
#[verifier::external_body]
pub(crate) fn insert_control(m: &mut IndexMap<CidKey, Control>, k: CidKey, v: Control)
    ensures
        forall|i: int|
            0 <= i < control_entries(*old(m)).len() && control_entries(*old(m))[i].0 == k
                ==> control_entries(*final(m)) == control_entries(*old(m)).update(i, (k, v)),
        !has_key(control_entries(*old(m)), k) ==> control_entries(*final(m)) == control_entries(
            *old(m),
        ).push((k, v)),
{
    m.insert(k, v);
}

/// Relies on `IndexMap::sort_keys`: the entries are reordered so that the
/// keys ascend in the tuples' lexicographic order.
#[verifier::external_body]
pub(crate) fn sort_control_map(m: &mut IndexMap<CidKey, Control>)
    ensures
        exists|p: Seq<int>|
            is_permutation(p, control_entries(*old(m)).len() as int) && control_entries(
                *final(m),
            ).len() == control_entries(*old(m)).len() && forall|i: int|
                0 <= i < control_entries(*final(m)).len() ==> #[trigger] control_entries(
                    *final(m),
                )[i] == control_entries(*old(m))[p[i]],
        forall|i: int, j: int|
            0 <= i < j < control_entries(*final(m)).len() ==> !key_lt(
                control_entries(*final(m))[j].0,
                control_entries(*final(m))[i].0,
            ),
{
    m.sort_keys();
}

/// Relies on `IndexMap::get`: the value stored under `k`, if any.
#[verifier::external_body]
pub(crate) fn get_control<'a>(m: &'a IndexMap<CidKey, Control>, k: &CidKey) -> (r: Option<
    &'a Control,
>)
    ensures
        r is None <==> !has_key(control_entries(*m), *k),
        forall|i: int|
            0 <= i < control_entries(*m).len() && control_entries(*m)[i].0 == *k ==> r == Some(
                &control_entries(*m)[i].1,
            ),
{
    m.get(k)
}

/// Relies on `IndexMap::shift_remove`: the entry with key `k` is removed and
/// the entries after it move up, keeping their order.
#[verifier::external_body]
pub(crate) fn remove_control(m: &mut IndexMap<CidKey, Control>, k: &CidKey)
    ensures
        forall|i: int|
            0 <= i < control_entries(*old(m)).len() && control_entries(*old(m))[i].0 == *k
                ==> control_entries(*final(m)) == control_entries(*old(m)).remove(i),
        !has_key(control_entries(*old(m)), *k) ==> control_entries(*final(m)) == control_entries(
            *old(m),
        ),
{
    m.shift_remove(k);
}

/// Relies on `IndexMap::len`: the number of entries.
#[verifier::external_body]
pub(crate) fn control_count(m: &IndexMap<CidKey, Control>) -> (r: usize)
    ensures
        r == control_entries(*m).len(),
{
    m.len()
}

/// Relies on `IndexMap::get_index`: the entry at position `i`.
#[verifier::external_body]
pub(crate) fn control_at<'a>(m: &'a IndexMap<CidKey, Control>, i: usize) -> (r: Option<
    (&'a CidKey, &'a Control),
>)
    ensures
        i < control_entries(*m).len() ==> r == Some(
            (&control_entries(*m)[i as int].0, &control_entries(*m)[i as int].1),
        ),
        i >= control_entries(*m).len() ==> r is None,
{
    m.get_index(i)
}

} // verus!
