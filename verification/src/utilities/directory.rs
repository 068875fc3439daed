//! Paths, taken as the list of their components.

use vstd::prelude::*;

verus! {

/// The text of each component, in order.
pub open spec fn texts(components: Seq<String>) -> Seq<Seq<char>> {
    Seq::new(components.len(), |i: int| components[i]@)
}

/// What is left of a path when only its last `length` components are kept,
/// in their order. Nothing is left to show where no component is asked for,
/// and where the path has fewer components than are asked for.
pub open spec fn truncated(components: Seq<Seq<char>>, length: nat) -> Option<Seq<Seq<char>>> {
    if length == 0 || length > components.len() {
        None
    } else {
        Some(components.subrange(components.len() - length, components.len() as int))
    }
}

/// The last `length` components of a path, in the order in which the path
/// has them: see [`truncated`]. A path of fewer components, and a `length`
/// of zero, give nothing.
pub fn truncate(components: &Vec<String>, length: usize) -> (r: Option<Vec<String>>)
    ensures
        match truncated(texts(components@), length as nat) {
            Some(kept) => r matches Some(v) && texts(v@) == kept,
            None => r is None,
        },
{
    let total: usize = components.len();
    if length == 0 || length > total {
        return None;
    }
    let first: usize = total - length;
    let mut kept: Vec<String> = Vec::new();
    let mut i: usize = first;
    while i < total
        invariant
            total == components@.len(),
            first + length == total,
            first <= i <= total,
            kept@.len() == i - first,
            forall|k: int| 0 <= k < kept@.len() ==> kept@[k]@ == components@[first + k]@,
        decreases total - i,
    {
        kept.push(components[i].clone());
        i += 1;
    }
    assert(texts(kept@) =~= texts(components@).subrange(
        components@.len() - length,
        components@.len() as int,
    ));
    Some(kept)
}

/// Keeping the last components leaves exactly as many as were asked for,
/// the last of them the last of the path; and keeping all of them leaves
/// the path as it is.
pub proof fn lemma_truncated_keeps_the_end(components: Seq<Seq<char>>, length: nat)
    requires
        1 <= length <= components.len(),
    ensures
        truncated(components, length) matches Some(kept) && kept.len() == length && kept.last()
            == components.last() && forall|k: int|
            0 <= k < length ==> kept[k] == components[components.len() - length + k],
        truncated(components, components.len()) == Some(components),
{
    assert(components.subrange(0, components.len() as int) =~= components);
}

} // verus!
