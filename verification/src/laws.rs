//! What holds of every path: the shape of a normal form, and the laws that
//! follow from it.
use vstd::prelude::*;

use crate::component::Component;
use crate::normalize::{apply, collapsed, normalized};

verus! {

/// The shape of a collapsed path: it holds no `.` marker, and its `..`
/// markers all stand in one run at the front.
pub open spec fn is_canonical<N>(path: Seq<Component<N>>) -> bool {
    &&& forall|i: int| 0 <= i < path.len() ==> !(#[trigger] path[i] is CurDir)
    &&& forall|i: int, j: int|
        0 <= i <= j < path.len() && #[trigger] path[j] is ParentDir ==> #[trigger] path[i] is ParentDir
}

/// Collapsing any path gives a canonical one.
pub proof fn collapsed_is_canonical<N>(path: Seq<Component<N>>)
    ensures
        is_canonical(collapsed(path)),
    decreases path.len(),
{
    if path.len() > 0 {
        collapsed_is_canonical(path.drop_last());
    }
}

/// Collapsing leaves a canonical path as it is.
pub proof fn canonical_is_fixed<N>(path: Seq<Component<N>>)
    requires
        is_canonical(path),
    ensures
        collapsed(path) == path,
    decreases path.len(),
{
    if path.len() > 0 {
        let init = path.drop_last();
        canonical_is_fixed(init);
        assert(path[path.len() - 1] == path.last());
        if path.last() is ParentDir && init.len() > 0 {
            assert(init.last() == path[init.len() - 1]);
        }
        assert(init.push(path.last()) == path);
    }
}

/// The canonical paths are exactly the ones that collapsing leaves alone.
pub proof fn canonical_iff_fixed<N>(path: Seq<Component<N>>)
    ensures
        is_canonical(path) <==> collapsed(path) == path,
{
    if is_canonical(path) {
        canonical_is_fixed(path);
    }
    if collapsed(path) == path {
        collapsed_is_canonical(path);
    }
}

/// A path of one component is its own normal form.
pub proof fn single_component_is_fixed<N>(c: Component<N>)
    ensures
        normalized(seq![c]) == seq![c],
{
    let path = seq![c];
    assert(path.drop_last() == Seq::<Component<N>>::empty());
    assert(collapsed(path.drop_last()).len() == 0);
    assert(collapsed(path) == apply(collapsed(path.drop_last()), path.last()));
}

/// Idempotence: normalizing a normalized path changes nothing, and the same
/// holds of collapsing.
pub proof fn normalize_is_idempotent<N>(path: Seq<Component<N>>)
    ensures
        normalized(normalized(path)) == normalized(path),
        collapsed(collapsed(path)) == collapsed(path),
{
    collapsed_is_canonical(path);
    canonical_is_fixed(collapsed(path));
    single_component_is_fixed(Component::<N>::CurDir);
}

/// `positions` places `part` inside `whole`: entry `k` of `part` is the entry of
/// `whole` at `positions[k]`, and the positions strictly increase.
pub open spec fn embeds<N>(
    positions: Seq<int>,
    part: Seq<Component<N>>,
    whole: Seq<Component<N>>,
) -> bool {
    &&& positions.len() == part.len()
    &&& forall|k: int|
        0 <= k < positions.len() ==> 0 <= #[trigger] positions[k] < whole.len() && part[k]
            == whole[positions[k]]
    &&& forall|j: int, k: int|
        0 <= j < k < positions.len() ==> #[trigger] positions[j] < #[trigger] positions[k]
}

/// `part` can be had from `whole` by deleting entries: what is left keeps
/// its value and its relative order.
pub open spec fn is_subsequence<N>(part: Seq<Component<N>>, whole: Seq<Component<N>>) -> bool {
    exists|positions: Seq<int>| embeds(positions, part, whole)
}

/// The positions in `path` of the components that survive collapsing, in
/// the order in which they survive.
pub open spec fn survivors<N>(path: Seq<Component<N>>) -> Seq<int>
    decreases path.len(),
{
    if path.len() == 0 {
        Seq::empty()
    } else {
        let before = survivors(path.drop_last());
        let stack = collapsed(path.drop_last());
        match path.last() {
            Component::CurDir => before,
            Component::ParentDir => {
                if stack.len() > 0 && stack.last().is_normal() {
                    before.drop_last()
                } else if stack.len() > 0 && stack.last().is_anchor() {
                    before
                } else {
                    before.push(path.len() - 1)
                }
            },
            _ => before.push(path.len() - 1),
        }
    }
}

/// Containment: collapsing only deletes. Every component of the collapsed
/// path is a component of the input, unchanged and in the input's order;
/// `survivors` says where each one stood.
pub proof fn collapse_only_deletes<N>(path: Seq<Component<N>>)
    ensures
        embeds(survivors(path), collapsed(path), path),
        is_subsequence(collapsed(path), path),
    decreases path.len(),
{
    if path.len() > 0 {
        collapse_only_deletes(path.drop_last());
    }
}

/// Containment for the normal form: wherever the result is not the `.`
/// that stands in for an empty path, or the input holds a `.` of its own,
/// the normalized path is a subsequence of the input.
pub proof fn normalize_only_deletes<N>(path: Seq<Component<N>>)
    requires
        collapsed(path).len() > 0 || path.contains(Component::CurDir),
    ensures
        is_subsequence(normalized(path), path),
{
    collapse_only_deletes(path);
    if collapsed(path).len() == 0 {
        let at = choose|i: int| 0 <= i < path.len() && path[i] == Component::<N>::CurDir;
        assert(embeds(seq![at], normalized(path), path));
    }
}

/// The stack never outgrows the input, and a normalized path is never
/// empty.
pub proof fn length_is_bounded<N>(path: Seq<Component<N>>)
    ensures
        collapsed(path).len() <= path.len(),
        1 <= normalized(path).len(),
        normalized(path).len() <= path.len() || normalized(path).len() == 1,
    decreases path.len(),
{
    if path.len() > 0 {
        length_is_bounded(path.drop_last());
    }
}

/// Anchor floor: where a path begins with a root or a prefix, that anchor
/// stays at the bottom of the result, and no `..` survives anywhere in it.
/// In particular the result does not begin with `..`.
pub proof fn anchor_is_a_floor<N>(path: Seq<Component<N>>)
    requires
        path.len() > 0,
        path[0].is_anchor(),
    ensures
        collapsed(path).len() > 0,
        normalized(path) == collapsed(path),
        normalized(path)[0] == path[0],
        !(normalized(path).first() is ParentDir),
        forall|i: int| 0 <= i < collapsed(path).len() ==> !(#[trigger] collapsed(path)[i] is ParentDir),
    decreases path.len(),
{
    let init = path.drop_last();
    if init.len() > 0 {
        anchor_is_a_floor(init);
        collapsed_is_canonical(init);
    } else {
        assert(collapsed(init).len() == 0);
    }
}

/// Cancellation: a named segment directly followed by `..` leaves no trace,
/// whatever came before the two.
pub proof fn parent_cancels_normal<N>(path: Seq<Component<N>>, name: N)
    ensures
        collapsed(path.push(Component::Normal(name)).push(Component::ParentDir)) == collapsed(path),
{
    let named = path.push(Component::Normal(name));
    let climbed = named.push(Component::ParentDir);
    assert(named.drop_last() == path);
    assert(climbed.drop_last() == named);
    assert(collapsed(named) == collapsed(path).push(Component::Normal(name)));
    assert(collapsed(named).drop_last() == collapsed(path));
}

/// Dot collapsing: a normalized path is either the single marker `.` or
/// holds no `.` at all.
pub proof fn dot_stands_alone<N>(path: Seq<Component<N>>)
    ensures
        normalized(path) == seq![Component::<N>::CurDir] || forall|i: int|
            0 <= i < normalized(path).len() ==> !(#[trigger] normalized(path)[i] is CurDir),
{
    collapsed_is_canonical(path);
}

/// A path made of `.` markers alone, however many, collapses to nothing and
/// normalizes to the single marker `.`.
pub proof fn only_dots_normalize_to_dot<N>(path: Seq<Component<N>>)
    requires
        forall|i: int| 0 <= i < path.len() ==> #[trigger] path[i] is CurDir,
    ensures
        collapsed(path).len() == 0,
        normalized(path) == seq![Component::<N>::CurDir],
    decreases path.len(),
{
    if path.len() > 0 {
        only_dots_normalize_to_dot(path.drop_last());
        assert(path.last() == path[path.len() - 1]);
    }
}

/// Dots never matter: deleting every `.` from the input changes neither
/// the collapsed nor the normalized path.
pub proof fn dots_are_ignored<N>(path: Seq<Component<N>>)
    ensures
        collapsed(path.filter(|c: Component<N>| !(c is CurDir))) == collapsed(path),
        normalized(path.filter(|c: Component<N>| !(c is CurDir))) == normalized(path),
    decreases path.len(),
{
    reveal(Seq::filter);
    if path.len() > 0 {
        dots_are_ignored(path.drop_last());
        let kept = path.drop_last().filter(|c: Component<N>| !(c is CurDir));
        if !(path.last() is CurDir) {
            assert(kept.push(path.last()).drop_last() == kept);
        }
    }
}

} // verus!
