//! The directories that schema paths are resolved against while files name
//! other files.
use vstd::prelude::*;
use crate::text::{chars_of, string_of};

verus! {

/// `rel` resolved against the directory `dir`: an absolute `rel` stands as
/// it is; otherwise it is appended with one `/` between.
pub open spec fn spec_join(dir: Seq<char>, rel: Seq<char>) -> Seq<char> {
    if rel.len() > 0 && rel[0] == '/' {
        rel
    } else if dir.len() == 0 {
        rel
    } else if dir[dir.len() - 1] == '/' {
        dir + rel
    } else {
        dir + seq!['/'] + rel
    }
}

/// The index of the last `/`, or -1.
pub open spec fn last_slash(p: Seq<char>) -> int
    decreases p.len(),
{
    if p.len() == 0 {
        -1
    } else if p.last() == '/' {
        p.len() - 1
    } else {
        last_slash(p.drop_last())
    }
}

/// The directory of a path: what stands before its last `/` (the root
/// stays `/`), or nothing.
pub open spec fn spec_parent(p: Seq<char>) -> Seq<char> {
    let k = last_slash(p);
    if k < 0 { Seq::empty() } else if k == 0 { seq!['/'] } else { p.take(k) }
}

proof fn lemma_last_slash(p: Seq<char>)
    ensures
        -1 <= last_slash(p) < p.len(),
        last_slash(p) >= 0 ==> p[last_slash(p)] == '/',
    decreases p.len(),
{
    if p.len() > 0 && p.last() != '/' {
        lemma_last_slash(p.drop_last());
    }
}

/// `rel` resolved against `dir`.
pub fn join(dir: &str, rel: &str) -> (r: String)
    ensures
        r@ == spec_join(dir@, rel@),
{
    let d = chars_of(dir);
    let r = chars_of(rel);
    if r.len() > 0 && r[0] == '/' {
        return rel.to_string();
    }
    if d.len() == 0 {
        return rel.to_string();
    }
    proof {
        reveal_strlit("/");
    }
    let mut out = dir.to_string();
    if d[d.len() - 1] != '/' {
        out.append("/");
        assert("/"@ =~= seq!['/']);
    }
    out.append(rel);
    out
}

/// The directory that holds `path`.
pub fn parent(path: &str) -> (r: String)
    ensures
        r@ == spec_parent(path@),
{
    let v = chars_of(path);
    proof {
        lemma_last_slash(v@);
    }
    let mut i = v.len();
    assert(v@.take(i as int) =~= v@);
    while i > 0 && v[i - 1] != '/'
        invariant
            i <= v@.len(),
            last_slash(v@) == last_slash(v@.take(i as int)),
        decreases i,
    {
        assert(v@.take(i as int).drop_last() =~= v@.take(i - 1));
        i = i - 1;
    }
    if i == 0 {
        assert(v@.take(0).len() == 0);
        return String::new();
    }
    assert(v@.take(i as int).last() == '/');
    if i == 1 {
        proof {
            reveal_strlit("/");
        }
        assert("/"@ =~= seq!['/']);
        return String::from_str("/");
    }
    string_of(vstd::slice::slice_subrange(v.as_slice(), 0, i - 1))
}

/// A stack of directories: the top is where relative paths are resolved.
#[derive(Debug, Clone)]
pub struct QemuFileRepo {
    paths: Vec<String>,
}

impl QemuFileRepo {
    pub closed spec fn spec_paths(&self) -> Seq<Seq<char>> {
        self.paths@.map_values(|p: String| p@)
    }

    /// A stack that holds the root directory `p`.
    pub fn new(p: String) -> (r: QemuFileRepo)
        ensures
            r.spec_paths() == seq![p@],
    {
        let mut paths: Vec<String> = Vec::new();
        paths.push(p);
        let r = QemuFileRepo { paths };
        assert(r.spec_paths() =~= seq![r.paths@[0]@]);
        r
    }

    /// The directory on top.
    pub fn context(&self) -> (r: &str)
        requires
            self.spec_paths().len() > 0,
        ensures
            r@ == self.spec_paths().last(),
    {
        self.paths[self.paths.len() - 1].as_str()
    }

    pub fn push_context(&mut self, p: String)
        ensures
            final(self).spec_paths() == old(self).spec_paths().push(p@),
    {
        self.paths.push(p);
        assert(self.spec_paths() =~= old(self).spec_paths().push(p@));
    }

    /// Leaves the directory on top; the root is never left.
    pub fn pop_context(&mut self)
        requires
            old(self).spec_paths().len() > 1,
        ensures
            final(self).spec_paths() == old(self).spec_paths().drop_last(),
    {
        self.paths.pop();
        assert(self.spec_paths() =~= old(self).spec_paths().drop_last());
    }

    /// Resolves `path` against the directory on top, enters the directory of
    /// the result, and returns it.
    pub fn enter(&mut self, path: &str) -> (r: String)
        requires
            old(self).spec_paths().len() > 0,
        ensures
            r@ == spec_join(old(self).spec_paths().last(), path@),
            final(self).spec_paths() == old(self).spec_paths().push(spec_parent(r@)),
    {
        let full = join(self.context(), path);
        let dir = parent(full.as_str());
        self.push_context(dir);
        full
    }
}

} // verus!
