//! Paths as sequences of components.
use vstd::prelude::*;

verus! {

/// The components of a path string, one string each.
pub open spec fn comps_view(v: Seq<String>) -> Seq<Seq<char>> {
    v.map_values(|c: String| c@)
}

/// `p` is a path prefix of `s`, component by component.
pub open spec fn prefix_of(p: Seq<Seq<char>>, s: Seq<Seq<char>>) -> bool {
    p.len() <= s.len() && s.subrange(0, p.len() as int) == p
}

/// `p` is a prefix of `s` and shorter than it.
pub open spec fn proper_prefix_of(p: Seq<Seq<char>>, s: Seq<Seq<char>>) -> bool {
    p.len() < s.len() && s.subrange(0, p.len() as int) == p
}

/// A path held as its components, without separators. An absolute path lists
/// the components below the filesystem root; a relative one, those below the
/// directory it is relative to.
#[derive(Clone, Debug, PartialEq, Eq)]
pub struct FsPath {
    pub comps: Vec<String>,
}

impl View for FsPath {
    type V = Seq<Seq<char>>;

    open spec fn view(&self) -> Seq<Seq<char>> {
        comps_view(self.comps@)
    }
}

impl FsPath {
    /// The empty path: the root, or the directory a relative path starts at.
    pub fn new() -> (r: FsPath)
        ensures
            r@ == Seq::<Seq<char>>::empty(),
    {
        FsPath { comps: Vec::new() }
    }

    /// A path of the given components.
    pub fn from_comps(comps: Vec<String>) -> (r: FsPath)
        ensures
            r@ == comps_view(comps@),
    {
        FsPath { comps }
    }

    /// A path of one component.
    pub fn single(c: &str) -> (r: FsPath)
        ensures
            r@ == seq![c@],
    {
        let mut comps: Vec<String> = Vec::new();
        comps.push(c.to_owned());
        let r = FsPath { comps };
        assert(r@ =~= seq![c@]);
        r
    }

    /// Number of components.
    pub fn len(&self) -> (r: usize)
        ensures
            r == self@.len(),
    {
        assert(self@.len() == self.comps@.len());
        self.comps.len()
    }

    /// A copy of this path.
    pub fn duplicate(&self) -> (r: FsPath)
        ensures
            r@ == self@,
    {
        let mut comps: Vec<String> = Vec::new();
        let n = self.comps.len();
        let mut i: usize = 0;
        while i < n
            invariant
                n == self.comps.len(),
                i <= n,
                comps@.len() == i,
                comps_view(comps@) =~= self@.subrange(0, i as int),
            decreases n - i,
        {
            comps.push(self.comps[i].clone());
            i = i + 1;
        }
        FsPath { comps }
    }

    /// Appends one component.
    pub fn push(&mut self, c: String)
        ensures
            final(self)@ == old(self)@.push(c@),
    {
        self.comps.push(c);
        assert(self@ =~= old(self)@.push(c@));
    }

    /// This path followed by the components of `other`.
    pub fn join(&self, other: &FsPath) -> (r: FsPath)
        ensures
            r@ == self@ + other@,
    {
        let mut r = self.duplicate();
        let n = other.comps.len();
        let mut i: usize = 0;
        while i < n
            invariant
                n == other.comps.len(),
                i <= n,
                r@ =~= self@ + other@.subrange(0, i as int),
            decreases n - i,
        {
            r.push(other.comps[i].clone());
            i = i + 1;
        }
        r
    }

    /// Whether the components of `prefix` begin this path.
    pub fn starts_with(&self, prefix: &FsPath) -> (r: bool)
        ensures
            r == prefix_of(prefix@, self@),
    {
        let n = prefix.comps.len();
        assert(prefix@.len() == n && self@.len() == self.comps@.len());
        if n > self.comps.len() {
            return false;
        }
        let mut i: usize = 0;
        while i < n
            invariant
                n == prefix.comps.len(),
                n <= self.comps.len(),
                i <= n,
                self@.subrange(0, i as int) =~= prefix@.subrange(0, i as int),
            decreases n - i,
        {
            if !(self.comps[i] == prefix.comps[i]) {
                assert(self@.subrange(0, n as int)[i as int] != prefix@[i as int]);
                return false;
            }
            i = i + 1;
        }
        assert(prefix@.subrange(0, n as int) =~= prefix@);
        true
    }

    /// The components after the first `n`.
    pub fn skip(&self, n: usize) -> (r: FsPath)
        requires
            n <= self@.len(),
        ensures
            r@ == self@.subrange(n as int, self@.len() as int),
    {
        let mut comps: Vec<String> = Vec::new();
        let len = self.comps.len();
        let mut i: usize = n;
        while i < len
            invariant
                len == self.comps.len(),
                n <= i <= len,
                comps@.len() == i - n,
                comps_view(comps@) =~= self@.subrange(n as int, i as int),
            decreases len - i,
        {
            comps.push(self.comps[i].clone());
            i = i + 1;
        }
        FsPath { comps }
    }

    /// The first `n` components.
    pub fn take(&self, n: usize) -> (r: FsPath)
        requires
            n <= self@.len(),
        ensures
            r@ == self@.subrange(0, n as int),
    {
        let mut comps: Vec<String> = Vec::new();
        let mut i: usize = 0;
        while i < n
            invariant
                n <= self.comps.len(),
                i <= n,
                comps@.len() == i,
                comps_view(comps@) =~= self@.subrange(0, i as int),
            decreases n - i,
        {
            comps.push(self.comps[i].clone());
            i = i + 1;
        }
        FsPath { comps }
    }

    /// Whether both paths have the same components.
    pub fn same(&self, other: &FsPath) -> (r: bool)
        ensures
            r == (self@ == other@),
    {
        assert(self@.len() == self.comps@.len() && other@.len() == other.comps@.len());
        if self.comps.len() != other.comps.len() {
            return false;
        }
        let b = self.starts_with(other);
        assert(self@ =~= self@.subrange(0, other@.len() as int));
        b
    }

    /// All components but the last.
    pub fn parent(&self) -> (r: FsPath)
        requires
            self@.len() > 0,
        ensures
            r@ == self@.drop_last(),
    {
        assert(self@.len() == self.comps@.len());
        let r = self.take(self.comps.len() - 1);
        assert(r@ =~= self@.drop_last());
        r
    }

    /// The last component.
    pub fn last(&self) -> (r: &String)
        requires
            self@.len() > 0,
        ensures
            r@ == self@.last(),
    {
        assert(self@.len() == self.comps@.len());
        &self.comps[self.comps.len() - 1]
    }
}

} // verus!
