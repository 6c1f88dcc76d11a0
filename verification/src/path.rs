//! Canonical paths as sequences of components.

use vstd::prelude::*;

verus! {

/// The characters of each string of a sequence.
pub open spec fn names_view(s: Seq<String>) -> Seq<Seq<char>> {
    Seq::new(s.len(), |i: int| s[i]@)
}

/// An absolute, canonical path, or a path relative to some directory: the
/// names of its components in order, without separators. Two paths are the
/// same path exactly when their components are equal.
#[derive(Debug)]
pub struct CanonPath {
    pub components: Vec<String>,
}

impl View for CanonPath {
    type V = Seq<Seq<char>>;

    open spec fn view(&self) -> Seq<Seq<char>> {
        names_view(self.components@)
    }
}

/// The value of each path of a sequence.
pub open spec fn paths_view(s: Seq<CanonPath>) -> Seq<Seq<Seq<char>>> {
    Seq::new(s.len(), |i: int| s[i]@)
}

impl CanonPath {
    /// The path with no components: the filesystem root, or, for a relative
    /// path, the directory it is relative to.
    pub fn new() -> (r: CanonPath)
        ensures
            r@ == Seq::<Seq<char>>::empty(),
    {
        let r = CanonPath { components: Vec::new() };
        r
    }

    /// The path made of the given components.
    pub fn from_components(components: Vec<String>) -> (r: CanonPath)
        ensures
            r@ == names_view(components@),
    {
        CanonPath { components }
    }

    /// The number of components.
    pub fn depth(&self) -> (n: usize)
        ensures
            n == self@.len(),
    {
        self.components.len()
    }

    /// Whether both paths have the same components.
    pub fn same_as(&self, other: &CanonPath) -> (r: bool)
        ensures
            r == (self@ == other@),
    {
        if self.components.len() != other.components.len() {
            assert(self@.len() != other@.len());
            return false;
        }
        let mut i: usize = 0;
        while i < self.components.len()
            invariant
                i <= self.components.len(),
                self.components.len() == other.components.len(),
                forall|k: int| 0 <= k < i ==> self@[k] == other@[k],
            decreases self.components.len() - i,
        {
            if self.components[i] != other.components[i] {
                assert(self@[i as int] != other@[i as int]);
                return false;
            }
            i = i + 1;
        }
        assert(self@ =~= other@);
        true
    }

    /// Whether `base` is a prefix of this path, component by component: the
    /// path is `base` itself or lies below it.
    pub fn starts_with(&self, base: &CanonPath) -> (r: bool)
        ensures
            r == base@.is_prefix_of(self@),
    {
        if base.components.len() > self.components.len() {
            return false;
        }
        let mut i: usize = 0;
        while i < base.components.len()
            invariant
                i <= base.components.len(),
                base.components.len() <= self.components.len(),
                forall|k: int| 0 <= k < i ==> self@[k] == base@[k],
            decreases base.components.len() - i,
        {
            if self.components[i] != base.components[i] {
                assert(self@[i as int] != base@[i as int]);
                return false;
            }
            i = i + 1;
        }
        true
    }

    /// A second value of the same path.
    pub fn duplicate(&self) -> (r: CanonPath)
        ensures
            r@ == self@,
    {
        let mut components: Vec<String> = Vec::new();
        let mut i: usize = 0;
        while i < self.components.len()
            invariant
                i <= self.components.len(),
                components.len() == i,
                forall|k: int| 0 <= k < i ==> components[k]@ == self@[k],
            decreases self.components.len() - i,
        {
            components.push(self.components[i].clone());
            i = i + 1;
        }
        let r = CanonPath { components };
        r
    }

    /// This path with one more component at its end.
    pub fn child(&self, name: &str) -> (r: CanonPath)
        ensures
            r@ == self@.push(name@),
    {
        let mut r = self.duplicate();
        r.components.push(String::from_str(name));
        r
    }
}

/// The components of a relative path written as one string, with `/` between
/// them.
pub open spec fn joined(path: Seq<Seq<char>>) -> Seq<char>
    decreases path.len(),
{
    if path.len() == 0 {
        Seq::empty()
    } else if path.len() == 1 {
        path[0]
    } else {
        joined(path.drop_last()) + seq!['/'] + path.last()
    }
}

impl CanonPath {
    /// The components written as one string, with `/` between them.
    pub fn join(&self) -> (r: String)
        ensures
            r@ == joined(self@),
    {
        let mut out = String::new();
        let mut i: usize = 0;
        while i < self.components.len()
            invariant
                i <= self.components.len(),
                out@ == joined(self@.take(i as int)),
            decreases self.components.len() - i,
        {
            proof {
                assert(self@.take(i as int + 1).drop_last() =~= self@.take(i as int));
                reveal_strlit("/");
            }
            if i > 0 {
                out.append("/");
            }
            out.append(self.components[i].as_str());
            i = i + 1;
        }
        assert(self@.take(i as int) =~= self@);
        out
    }
}

} // verus!
