//! A model of filesystem paths as sequences of byte-string components.
//!
//! Paths are kept abstract: a component is an arbitrary byte string, a path
//! a vector of components. Joining, prefix stripping and parent lookup are
//! the only operations the copier needs.

use vstd::prelude::*;

verus! {

/// A filesystem path: a sequence of components, each a byte string.
#[derive(Debug)]
pub struct FsPath {
    pub parts: Vec<Vec<u8>>,
}

impl View for FsPath {
    type V = Seq<Seq<u8>>;

    open spec fn view(&self) -> Seq<Seq<u8>> {
        Seq::new(self.parts@.len(), |i: int| self.parts@[i]@)
    }
}

/// Byte-for-byte equality of two byte strings.
pub fn bytes_eq(a: &Vec<u8>, b: &Vec<u8>) -> (r: bool)
    ensures
        r == (a@ == b@),
{
    if a.len() != b.len() {
        return false;
    }
    for i in 0..a.len()
        invariant
            a@.len() == b@.len(),
            forall|j: int| 0 <= j < i ==> a@[j] == b@[j],
    {
        if a[i] != b[i] {
            return false;
        }
    }
    proof {
        assert(a@ =~= b@);
    }
    true
}

/// An independent copy of a byte string.
pub fn bytes_clone(a: &Vec<u8>) -> (r: Vec<u8>)
    ensures
        r@ == a@,
{
    let mut r: Vec<u8> = Vec::new();
    for i in 0..a.len()
        invariant
            r@.len() == i,
            forall|j: int| 0 <= j < i ==> r@[j] == a@[j],
    {
        r.push(a[i]);
    }
    proof {
        assert(r@ =~= a@);
    }
    r
}

impl FsPath {
    /// The empty path (no components).
    pub fn new() -> (r: FsPath)
        ensures
            r@ =~= Seq::<Seq<u8>>::empty(),
    {
        FsPath { parts: Vec::new() }
    }

    /// Append one component.
    pub fn push(&mut self, part: Vec<u8>)
        ensures
            final(self)@ =~= old(self)@.push(part@),
    {
        self.parts.push(part);
    }

    /// An independent copy of this path.
    pub fn dup(&self) -> (r: FsPath)
        ensures
            r@ == self@,
    {
        let mut parts: Vec<Vec<u8>> = Vec::new();
        for i in 0..self.parts.len()
            invariant
                parts@.len() == i,
                forall|j: int| 0 <= j < i ==> parts@[j]@ == self@[j],
        {
            parts.push(bytes_clone(&self.parts[i]));
        }
        let r = FsPath { parts };
        proof {
            assert(r@ =~= self@);
        }
        r
    }

    /// Component-wise equality of two paths.
    pub fn path_eq(&self, other: &FsPath) -> (r: bool)
        ensures
            r == (self@ == other@),
    {
        if self.parts.len() != other.parts.len() {
            proof {
                assert(self@.len() != other@.len());
            }
            return false;
        }
        for i in 0..self.parts.len()
            invariant
                self@.len() == other@.len(),
                forall|j: int| 0 <= j < i ==> self@[j] == other@[j],
        {
            if !bytes_eq(&self.parts[i], &other.parts[i]) {
                proof {
                    assert(self@[i as int] != other@[i as int]);
                }
                return false;
            }
        }
        proof {
            assert(self@ =~= other@);
        }
        true
    }

    /// This path followed by all components of `rel`.
    pub fn join(&self, rel: &FsPath) -> (r: FsPath)
        ensures
            r@ =~= self@ + rel@,
    {
        let mut r = self.dup();
        for i in 0..rel.parts.len()
            invariant
                r@.len() == self@.len() + i,
                forall|j: int| 0 <= j < self@.len() ==> r@[j] == self@[j],
            forall|j: int| 0 <= j < i ==> r@[self@.len() + j] == rel@[j],
        {
            r.push(bytes_clone(&rel.parts[i]));
        }
        proof {
            assert(r@ =~= self@ + rel@);
        }
        r
    }

    /// The last component, if the path has one.
    pub fn last_component(&self) -> (r: Option<Vec<u8>>)
        ensures
            self@.len() == 0 ==> r is None,
            self@.len() > 0 ==> (r matches Some(c) && c@ == self@.last()),
    {
        if self.parts.len() == 0 {
            None
        } else {
            Some(bytes_clone(&self.parts[self.parts.len() - 1]))
        }
    }

    /// The path without its last component, if the path has one.
    pub fn parent(&self) -> (r: Option<FsPath>)
        ensures
            self@.len() == 0 ==> r is None,
            self@.len() > 0 ==> (r matches Some(p) && p@ == self@.drop_last()),
    {
        if self.parts.len() == 0 {
            None
        } else {
            let mut parts: Vec<Vec<u8>> = Vec::new();
            let n = self.parts.len() - 1;
            for i in 0..n
                invariant
                    n == self.parts.len() - 1,
                    parts@.len() == i,
                    forall|j: int| 0 <= j < i ==> parts@[j]@ == self@[j],
            {
                parts.push(bytes_clone(&self.parts[i]));
            }
            let p = FsPath { parts };
            proof {
                assert(p@ =~= self@.drop_last());
            }
            Some(p)
        }
    }

    /// The remainder of this path after a prefix, if `prefix` is one.
    pub fn strip_prefix(&self, prefix: &FsPath) -> (r: Option<FsPath>)
        ensures
            r matches Some(rest) ==> self@ =~= prefix@ + rest@,
            r is None ==> !(prefix@.is_prefix_of(self@)),
    {
        if prefix.parts.len() > self.parts.len() {
            return None;
        }
        for i in 0..prefix.parts.len()
            invariant
                prefix@.len() <= self@.len(),
                forall|j: int| 0 <= j < i ==> self@[j] == prefix@[j],
        {
            if !bytes_eq(&self.parts[i], &prefix.parts[i]) {
                proof {
                    assert(self@[i as int] != prefix@[i as int]);
                    assert(!prefix@.is_prefix_of(self@)) by {
                        if prefix@.is_prefix_of(self@) {
                            assert(prefix@ == self@.subrange(0, prefix@.len() as int));
                            assert(prefix@[i as int] == self@[i as int]);
                        }
                    }
                }
                return None;
            }
        }
        let mut parts: Vec<Vec<u8>> = Vec::new();
        let start = prefix.parts.len();
        for i in start..self.parts.len()
            invariant
                start == prefix@.len() <= self@.len(),
                parts@.len() == i - start,
                forall|j: int| 0 <= j < i - start ==> parts@[j]@ == self@[start + j],
        {
            parts.push(bytes_clone(&self.parts[i]));
        }
        let rest = FsPath { parts };
        proof {
            assert(self@ =~= prefix@ + rest@);
        }
        Some(rest)
    }
}

/// Whether a path has no components, as the walker asks of a source root's
/// own entry.
pub fn empty_path(path: &FsPath) -> (r: bool)
    ensures
        r == (path@.len() == 0),
{
    path.parts.len() == 0
}

} // verus!
