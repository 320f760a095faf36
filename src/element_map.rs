use vstd::prelude::*;

use linked_hash_map::LinkedHashMap;

use crate::shapes::{ElementView, SvgElement};

verus! {

/// `linked_hash_map::LinkedHashMap`, a hash map that remembers the order in
/// which its entries were attached; opaque here, and read through the entries
/// below.
#[verifier::external_type_specification]
#[verifier::external_body]
#[verifier::reject_recursive_types(K)]
#[verifier::reject_recursive_types(V)]
#[verifier::reject_recursive_types(S)]
pub struct ExLinkedHashMap<K, V, S>(LinkedHashMap<K, V, S>);

/// The imported elements by id, in the order in which they were last stored.
pub type SvgHash = LinkedHashMap<String, SvgElement>;

/// The entries of an element map in iteration order.
pub uninterp spec fn svg_hash_entries(m: LinkedHashMap<String, SvgElement>) -> Seq<(Seq<char>, ElementView)>;

/// Entries after storing `v` under `k`: an entry already under `k` leaves its
/// place, and the new one comes last.
pub open spec fn entries_insert(
    s: Seq<(Seq<char>, ElementView)>,
    k: Seq<char>,
    v: ElementView,
) -> Seq<(Seq<char>, ElementView)> {
    s.filter(|e: (Seq<char>, ElementView)| e.0 != k).push((k, v))
}

/// Relies on `LinkedHashMap::new`: the map starts empty.
#[verifier::external_body]
pub(crate) fn svg_hash_new() -> (r: SvgHash)
    ensures
        svg_hash_entries(r) == Seq::<(Seq<char>, ElementView)>::empty(),
{
    LinkedHashMap::new()
}

/// Relies on `LinkedHashMap::insert`: a new key is attached at the back; an
/// existing key gets the new value and is detached and attached again at the
/// back, so iteration, which runs from the oldest attachment, sees it last.
#[verifier::external_body]
pub(crate) fn svg_hash_insert(m: &mut SvgHash, k: String, v: SvgElement)
    ensures
        svg_hash_entries(*final(m)) == entries_insert(svg_hash_entries(*old(m)), k@, v.view()),
{
    m.insert(k, v);
}

} // verus!
