//! The normalizer: one left-to-right pass over the components of a path,
//! with a stack as its only working state.
use vstd::prelude::*;

use crate::component::Component;

verus! {

/// What one component does to the stack built from the components before it.
///
/// - `.` leaves the stack alone.
/// - `..` pops a named segment off the top, is absorbed by an anchor on
///   top, and is pushed otherwise (onto an empty stack or onto another `..`).
/// - Anything else is pushed.
pub open spec fn apply<N>(stack: Seq<Component<N>>, c: Component<N>) -> Seq<Component<N>> {
    match c {
        Component::CurDir => stack,
        Component::ParentDir => {
            if stack.len() > 0 && stack.last().is_normal() {
                stack.drop_last()
            } else if stack.len() > 0 && stack.last().is_anchor() {
                stack
            } else {
                stack.push(c)
            }
        },
        _ => stack.push(c),
    }
}

/// The stack left after every component of `path` has been applied in
/// order, starting from the empty stack. It may be empty.
pub open spec fn collapsed<N>(path: Seq<Component<N>>) -> Seq<Component<N>>
    decreases path.len(),
{
    if path.len() == 0 {
        Seq::empty()
    } else {
        apply(collapsed(path.drop_last()), path.last())
    }
}

/// The normal form of `path`: its collapsed form, or the single marker `.`
/// where that is empty.
pub open spec fn normalized<N>(path: Seq<Component<N>>) -> Seq<Component<N>> {
    let stack = collapsed(path);
    if stack.len() == 0 {
        seq![Component::CurDir]
    } else {
        stack
    }
}

/// Applies one component to the stack.
fn apply_to<N: Copy>(stack: &mut Vec<Component<N>>, c: Component<N>)
    ensures
        final(stack)@ == apply(old(stack)@, c),
{
    match c {
        Component::CurDir => {},
        Component::ParentDir => {
            let depth = stack.len();
            if depth == 0 {
                stack.push(c);
            } else if stack[depth - 1].is_normal() {
                stack.pop();
            } else if !stack[depth - 1].is_anchor() {
                stack.push(c);
            }
        },
        _ => {
            stack.push(c);
        },
    }
}

/// Collapses `path` without the final fallback to `.`: a path whose
/// components all cancel yields the empty sequence.
pub fn collapse<N: Copy>(path: &[Component<N>]) -> (out: Vec<Component<N>>)
    ensures
        out@ == collapsed(path@),
{
    let mut out: Vec<Component<N>> = Vec::new();
    let mut i: usize = 0;
    while i < path.len()
        invariant
            i <= path.len(),
            out@ == collapsed(path@.take(i as int)),
        decreases path.len() - i,
    {
        proof {
            assert(path@.take(i + 1).drop_last() == path@.take(i as int));
        }
        apply_to(&mut out, path[i]);
        i += 1;
    }
    proof {
        assert(path@.take(path.len() as int) == path@);
    }
    out
}

/// Normalizes `path`. The input is left untouched; the result is a new
/// sequence, never empty.
pub fn normalize<N: Copy>(path: &[Component<N>]) -> (out: Vec<Component<N>>)
    ensures
        out@ == normalized(path@),
{
    let mut out = collapse(path);
    if out.len() == 0 {
        out.push(Component::CurDir);
    }
    out
}

/// Lexical cleaning as a method: `path.lexiclean()`.
///
/// An implementor says which components it stands for; `lexiclean` then
/// owes exactly the normal form of those.
pub trait Lexiclean: Sized {
    /// The text carried by named segments and prefixes.
    type Name;

    /// The components this value stands for, in order.
    spec fn components(self) -> Seq<Component<Self::Name>>;

    /// The normalized path, as a new sequence.
    fn lexiclean(self) -> (cleaned: Vec<Component<Self::Name>>)
        ensures
            cleaned@ == normalized(self.components()),
    ;
}

impl<'a, N: Copy> Lexiclean for &'a [Component<N>] {
    type Name = N;

    open spec fn components(self) -> Seq<Component<N>> {
        self@
    }

    fn lexiclean(self) -> (cleaned: Vec<Component<N>>) {
        normalize(self)
    }
}

impl<'a, N: Copy> Lexiclean for &'a Vec<Component<N>> {
    type Name = N;

    open spec fn components(self) -> Seq<Component<N>> {
        self@
    }

    fn lexiclean(self) -> (cleaned: Vec<Component<N>>) {
        normalize(self.as_slice())
    }
}

} // verus!
