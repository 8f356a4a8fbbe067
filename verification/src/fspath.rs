//! Canonical absolute paths, held as their component names.

use vstd::prelude::*;

verus! {

/// An absolute, canonical file-system path: its component names in order,
/// root first.  The root path itself has no components.
pub struct FsPath {
    pub parts: Vec<String>,
}

impl View for FsPath {
    type V = Seq<Seq<char>>;

    open spec fn view(&self) -> Seq<Seq<char>> {
        self.parts@.map_values(|p: String| p@)
    }
}

impl FsPath {
    /// The root path: no components.
    pub fn root() -> (p: FsPath)
        ensures
            p@ == Seq::<Seq<char>>::empty(),
    {
        let p = FsPath { parts: Vec::new() };
        proof {
            assert(p@ =~= Seq::<Seq<char>>::empty());
        }
        p
    }

    /// A path from its components.
    pub fn from_parts(parts: Vec<String>) -> (p: FsPath)
        ensures
            p@ == parts@.map_values(|q: String| q@),
    {
        FsPath { parts }
    }

    /// How many components the path has.
    pub fn depth(&self) -> (n: usize)
        ensures
            n == self@.len(),
    {
        self.parts.len()
    }

    /// Whether the path ends in a component at all; the root does not.
    pub fn has_file_name(&self) -> (b: bool)
        ensures
            b == (self@.len() > 0),
    {
        self.parts.len() > 0
    }

    /// The final component.
    pub fn file_name(&self) -> (s: &String)
        requires
            self@.len() > 0,
        ensures
            s@ == self@.last(),
    {
        &self.parts[self.parts.len() - 1]
    }

    /// An identical path value.
    pub fn duplicate(&self) -> (p: FsPath)
        ensures
            p@ == self@,
            p.parts@ == self.parts@,
    {
        let mut parts: Vec<String> = Vec::new();
        let mut i: usize = 0;
        while i < self.parts.len()
            invariant
                i <= self.parts@.len(),
                parts@ == self.parts@.take(i as int),
            decreases self.parts@.len() - i,
        {
            parts.push(self.parts[i].clone());
            proof {
                assert(parts@ =~= self.parts@.take(i + 1));
            }
            i = i + 1;
        }
        proof {
            assert(parts@ =~= self.parts@);
        }
        FsPath { parts }
    }

    /// The path extended by one further component.
    pub fn child(&self, name: &String) -> (p: FsPath)
        ensures
            p@ == self@.push(name@),
    {
        let mut parts = self.duplicate().parts;
        parts.push(name.clone());
        let p = FsPath { parts };
        proof {
            assert(p@ =~= self@.push(name@));
        }
        p
    }

    /// The path extended by every component of `other` from index `from` on:
    /// the destination of a sub-directory, relative to where a tree copy
    /// started.
    pub fn append_from(&self, other: &FsPath, from: usize) -> (p: FsPath)
        requires
            (from as int) <= other@.len(),
        ensures
            p@ == self@ + other@.skip(from as int),
    {
        let mut parts = self.duplicate().parts;
        let mut i: usize = from;
        while i < other.parts.len()
            invariant
                from <= i,
                i <= other.parts@.len(),
                parts@ == self.parts@ + other.parts@.subrange(from as int, i as int),
            decreases other.parts@.len() - i,
        {
            parts.push(other.parts[i].clone());
            proof {
                assert(parts@ =~= self.parts@ + other.parts@.subrange(from as int, i + 1));
            }
            i = i + 1;
        }
        let p = FsPath { parts };
        proof {
            assert(other.parts@.subrange(from as int, other.parts@.len() as int)
                =~= other.parts@.skip(from as int));
            assert(p@ =~= self@ + other@.skip(from as int));
        }
        p
    }
}

} // verus!
