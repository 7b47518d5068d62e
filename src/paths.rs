//! Filesystem paths as sequences of components, and the mirroring of a
//! source tree onto a destination tree.

use vstd::prelude::*;
use crate::names::{target_file_name, target_name};

verus! {

/// A path, one entry per component.
#[derive(Clone, Debug)]
pub struct FsPath {
    pub parts: Vec<Vec<char>>,
}

impl View for FsPath {
    type V = Seq<Seq<char>>;

    open spec fn view(&self) -> Seq<Seq<char>> {
        self.parts@.map_values(|p: Vec<char>| p@)
    }
}

/// `base` is a leading part of `p`, component by component.
pub open spec fn is_under(base: Seq<Seq<char>>, p: Seq<Seq<char>>) -> bool {
    base.len() <= p.len() && p.take(base.len() as int) == base
}

/// `p` re-rooted from `base` onto `out_root`.
pub open spec fn mirror(base: Seq<Seq<char>>, out_root: Seq<Seq<char>>, p: Seq<Seq<char>>) -> Seq<
    Seq<char>,
> {
    out_root + p.skip(base.len() as int)
}

/// `p` with its last component renamed to the target file name.
pub open spec fn retarget(p: Seq<Seq<char>>) -> Seq<Seq<char>> {
    p.update(p.len() - 1, target_name(p.last()))
}

/// Whether two texts are equal.
pub fn same_text(a: &Vec<char>, b: &Vec<char>) -> (r: bool)
    ensures
        r == (a@ == b@),
{
    if a.len() != b.len() {
        return false;
    }
    let mut i: usize = 0;
    while i < a.len()
        invariant
            a@.len() == b@.len(),
            i <= a@.len(),
            forall|j: int| 0 <= j < i ==> a@[j] == b@[j],
        decreases a@.len() - i,
    {
        if a[i] != b[i] {
            return false;
        }
        i = i + 1;
    }
    assert(a@ =~= b@);
    true
}

/// A copy of a text.
fn copy_text(a: &Vec<char>) -> (r: Vec<char>)
    ensures
        r@ == a@,
{
    a.clone()
}

/// Appends copies of `src[from..]` to `dst`.
fn append_parts(dst: &mut Vec<Vec<char>>, src: &Vec<Vec<char>>, from: usize)
    requires
        from <= src@.len(),
    ensures
        final(dst)@.map_values(|p: Vec<char>| p@) == old(dst)@.map_values(|p: Vec<char>| p@)
            + src@.map_values(|p: Vec<char>| p@).skip(from as int),
{
    let ghost start = dst@.map_values(|p: Vec<char>| p@);
    let ghost whole = src@.map_values(|p: Vec<char>| p@);
    let mut k: usize = from;
    while k < src.len()
        invariant
            from <= k <= src@.len(),
            whole == src@.map_values(|p: Vec<char>| p@),
            dst@.map_values(|p: Vec<char>| p@) == start + whole.subrange(from as int, k as int),
        decreases src@.len() - k,
    {
        let t = copy_text(&src[k]);
        let ghost prev = dst@;
        dst.push(t);
        assert(dst@.map_values(|p: Vec<char>| p@) =~= prev.map_values(|p: Vec<char>| p@).push(
            whole[k as int],
        ));
        k = k + 1;
        assert(dst@.map_values(|p: Vec<char>| p@) =~= start + whole.subrange(from as int, k as int));
    }
    assert(whole.subrange(from as int, src@.len() as int) =~= whole.skip(from as int));
}

impl FsPath {
    /// The path made of the given components.
    pub fn new(parts: Vec<Vec<char>>) -> (r: FsPath)
        ensures
            r.parts@ == parts@,
    {
        FsPath { parts }
    }

    /// A copy of this path.
    pub fn duplicate(&self) -> (r: FsPath)
        ensures
            r@ == self@,
    {
        let mut parts: Vec<Vec<char>> = Vec::new();
        append_parts(&mut parts, &self.parts, 0);
        assert(Seq::<Seq<char>>::empty() + self@.skip(0) =~= self@);
        FsPath { parts }
    }

    /// The last component, if the path has one.
    pub fn file_name(&self) -> (r: Option<Vec<char>>)
        ensures
            match r {
                Some(n) => self@.len() > 0 && n@ == self@.last(),
                None => self@.len() == 0,
            },
    {
        let n = self.parts.len();
        if n == 0 {
            None
        } else {
            Some(self.parts[n - 1].clone())
        }
    }

    /// This path followed by the components of `rel`.
    pub fn join(&self, rel: &FsPath) -> (r: FsPath)
        ensures
            r@ == self@ + rel@,
    {
        let mut parts: Vec<Vec<char>> = Vec::new();
        append_parts(&mut parts, &self.parts, 0);
        append_parts(&mut parts, &rel.parts, 0);
        assert(self@.skip(0) =~= self@);
        assert(rel@.skip(0) =~= rel@);
        assert(Seq::<Seq<char>>::empty() + self@ =~= self@);
        FsPath { parts }
    }

    /// The components of this path past `base`, if `base` leads it.
    pub fn relative_to(&self, base: &FsPath) -> (r: Option<FsPath>)
        ensures
            match r {
                Some(rel) => is_under(base@, self@) && rel@ == self@.skip(base@.len() as int),
                None => !is_under(base@, self@),
            },
    {
        let n = base.parts.len();
        if n > self.parts.len() {
            return None;
        }
        let mut i: usize = 0;
        while i < n
            invariant
                n == base@.len(),
                n <= self@.len(),
                i <= n,
                forall|j: int| 0 <= j < i ==> self@[j] == base@[j],
            decreases n - i,
        {
            if !same_text(&self.parts[i], &base.parts[i]) {
                assert(self@.take(n as int)[i as int] != base@[i as int]);
                return None;
            }
            i = i + 1;
        }
        assert(self@.take(n as int) =~= base@);
        let mut parts: Vec<Vec<char>> = Vec::new();
        append_parts(&mut parts, &self.parts, n);
        assert(Seq::<Seq<char>>::empty() + self@.skip(n as int) =~= self@.skip(n as int));
        Some(FsPath { parts })
    }

    /// The path with its last component renamed to the target file name.
    pub fn with_target_name(&self) -> (r: FsPath)
        requires
            self@.len() > 0,
        ensures
            r@ == retarget(self@),
    {
        let mut parts: Vec<Vec<char>> = Vec::new();
        append_parts(&mut parts, &self.parts, 0);
        assert(Seq::<Seq<char>>::empty() + self@.skip(0) =~= self@);
        let n = parts.len();
        let renamed = target_file_name(&self.parts[n - 1]);
        parts.set(n - 1, renamed);
        assert(parts@.map_values(|p: Vec<char>| p@) =~= retarget(self@));
        FsPath { parts }
    }
}

} // verus!
