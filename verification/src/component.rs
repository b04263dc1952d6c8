//! The syntactic units a path is made of.
use vstd::prelude::*;

verus! {

/// One syntactic unit of a path.
///
/// `N` is the text carried by named segments and prefixes. The normalizer
/// never looks inside it; it only moves components around.
#[derive(Copy, Debug, PartialEq, Eq, Hash)]
pub enum Component<N> {
    /// A volume or drive marker, such as `C:`.
    Prefix(N),
    /// The root marker of an absolute path.
    RootDir,
    /// The current-directory marker `.`.
    CurDir,
    /// The parent-directory marker `..`.
    ParentDir,
    /// A named segment, such as `foo`.
    Normal(N),
}

impl<N: Copy> Clone for Component<N> {
    /// A clone is a copy: it equals the value it was made from.
    fn clone(&self) -> (copy: Self)
        ensures
            copy == *self,
    {
        *self
    }
}

impl<N> Component<N> {
    /// An anchor is a root or a prefix: a parent-directory marker cannot
    /// climb above it.
    pub open spec fn spec_is_anchor(&self) -> bool {
        self is RootDir || self is Prefix
    }

    /// Whether this component is a root or a prefix.
    #[verifier::when_used_as_spec(spec_is_anchor)]
    pub fn is_anchor(&self) -> (anchor: bool)
        ensures
            anchor == self.spec_is_anchor(),
    {
        match self {
            Component::RootDir => true,
            Component::Prefix(_) => true,
            _ => false,
        }
    }

    /// A named segment is the only kind of component that a
    /// parent-directory marker cancels.
    pub open spec fn spec_is_normal(&self) -> bool {
        self is Normal
    }

    /// Whether this component is a named segment.
    #[verifier::when_used_as_spec(spec_is_normal)]
    pub fn is_normal(&self) -> (normal: bool)
        ensures
            normal == self.spec_is_normal(),
    {
        match self {
            Component::Normal(_) => true,
            _ => false,
        }
    }
}

} // verus!
