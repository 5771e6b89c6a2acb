//! Discovery of source files: the decisions of a depth-first walk over a
//! directory tree. The caller lists each directory that the walk hands
//! out and reports its entries back.

use crate::naming::{
    file_name_of, has_source_ext, is_source_name, last_segment, segment_bounds, to_chars,
    trim_tail,
};
use vstd::prelude::*;

verus! {

/// One entry of a directory listing: its full path, and whether it is a
/// directory.
pub struct Entry {
    pub path: String,
    pub is_dir: bool,
}

/// A path whose final component has a non-empty stem and the extension
/// `dcm` (compared case-sensitively).
pub open spec fn is_source_path(p: Seq<char>) -> bool {
    match file_name_of(p) {
        Some(n) => is_source_name(n),
        None => false,
    }
}

/// The paths of the listed files that are source files, in listing order.
pub open spec fn sources_of(es: Seq<Entry>) -> Seq<String>
    decreases es.len(),
{
    if es.len() == 0 {
        Seq::empty()
    } else {
        let e = es.last();
        let r = sources_of(es.drop_last());
        if !e.is_dir && is_source_path(e.path@) {
            r.push(e.path)
        } else {
            r
        }
    }
}

/// The paths of the listed directories, in listing order.
pub open spec fn subdirs_of(es: Seq<Entry>) -> Seq<String>
    decreases es.len(),
{
    if es.len() == 0 {
        Seq::empty()
    } else {
        let e = es.last();
        let r = subdirs_of(es.drop_last());
        if e.is_dir {
            r.push(e.path)
        } else {
            r
        }
    }
}

/// Whether a path names a source file by its extension.
pub fn is_source_file(path: &str) -> (r: bool)
    ensures
        r == is_source_path(path@),
{
    let chars = to_chars(path);
    let (b, e) = segment_bounds(&chars);
    let r = e - b > 4 && has_source_ext(&chars, b, e);
    let ghost seg = last_segment(trim_tail(path@));
    assert(seg == chars@.subrange(b as int, e as int));
    assert(seg.len() <= 2 ==> !is_source_name(seg));
    assert(seg == seq!['.'] ==> seg.len() == 1);
    assert(seg == seq!['.', '.'] ==> seg.len() == 2);
    r
}

/// The state of a walk: directories still to be listed, and the source
/// files found so far.
pub struct Walk {
    pending: Vec<String>,
    found: Vec<String>,
}

impl Walk {
    pub closed spec fn pending_spec(&self) -> Seq<String> {
        self.pending@
    }

    pub closed spec fn found_spec(&self) -> Seq<String> {
        self.found@
    }

    /// A walk that starts at `root`, with nothing found yet.
    pub fn new(root: String) -> (w: Walk)
        ensures
            w.pending_spec() == seq![root],
            w.found_spec() == Seq::<String>::empty(),
    {
        let mut pending = Vec::new();
        pending.push(root);
        Walk { pending, found: Vec::new() }
    }

    /// The next directory to list, taken off the stack of pending ones
    /// (the one pushed last, so that the walk goes depth-first); `None`
    /// when the walk is complete.
    pub fn next_dir(&mut self) -> (r: Option<String>)
        ensures
            old(self).pending_spec().len() == 0 ==> r is None && final(self).pending_spec()
                == old(self).pending_spec() && final(self).found_spec() == old(self).found_spec(),
            old(self).pending_spec().len() > 0 ==> r == Some(old(self).pending_spec().last())
                && final(self).pending_spec() == old(self).pending_spec().drop_last()
                && final(self).found_spec() == old(self).found_spec(),
    {
        self.pending.pop()
    }

    /// Takes in the listing of a directory: its source files join the
    /// found ones and its subdirectories become pending.
    pub fn absorb(&mut self, entries: &Vec<Entry>)
        ensures
            final(self).found_spec() == old(self).found_spec() + sources_of(entries@),
            final(self).pending_spec() == old(self).pending_spec() + subdirs_of(entries@),
    {
        let mut i: usize = 0;
        while i < entries.len()
            invariant
                i <= entries@.len(),
                self.found@ == old(self).found@ + sources_of(entries@.subrange(0, i as int)),
                self.pending@ == old(self).pending@ + subdirs_of(entries@.subrange(0, i as int)),
            decreases entries@.len() - i,
        {
            let e = &entries[i];
            let ghost pre = entries@.subrange(0, i as int);
            assert(entries@.subrange(0, i + 1).drop_last() =~= pre);
            if e.is_dir {
                self.pending.push(e.path.clone());
                assert(self.pending@ =~= old(self).pending@ + subdirs_of(entries@.subrange(0, i + 1)));
            } else if is_source_file(e.path.as_str()) {
                self.found.push(e.path.clone());
                assert(self.found@ =~= old(self).found@ + sources_of(entries@.subrange(0, i + 1)));
            }
            i += 1;
        }
        assert(entries@.subrange(0, i as int) =~= entries@);
    }

    /// Whether no directory is left to list.
    pub fn is_done(&self) -> (r: bool)
        ensures
            r == (self.pending_spec().len() == 0),
    {
        self.pending.len() == 0
    }

    /// The source files found so far, in the order found.
    pub fn into_found(self) -> (r: Vec<String>)
        ensures
            r@ == self.found_spec(),
    {
        self.found
    }
}

/// Taking in a directory listing whose paths are distinct adds every
/// listed source file exactly once, and nothing that is a directory or
/// has another extension.
pub proof fn lemma_listing_sources_exact(es: Seq<Entry>)
    requires
        forall|i: int, j: int| 0 <= i < j < es.len() ==> es[i].path@ != es[j].path@,
    ensures
        sources_of(es).no_duplicates(),
        forall|p: String| #[trigger]
            sources_of(es).contains(p) <==> exists|i: int|
                0 <= i < es.len() && es[i].path == p && !es[i].is_dir && is_source_path(p@),
    decreases es.len(),
{
    if es.len() > 0 {
        let init = es.drop_last();
        let e = es.last();
        lemma_listing_sources_exact(init);
        let r = sources_of(init);
        assert forall|p: String| #[trigger]
            sources_of(es).contains(p) <==> exists|i: int|
                0 <= i < es.len() && es[i].path == p && !es[i].is_dir && is_source_path(
                    p@,
                ) by {
            if sources_of(es).contains(p) {
                if r.contains(p) {
                    let i = choose|i: int|
                        0 <= i < init.len() && init[i].path == p && !init[i].is_dir
                            && is_source_path(p@);
                    assert(es[i] == init[i]);
                } else {
                    assert(sources_of(es) == r.push(e.path));
                    let k = choose|k: int| 0 <= k < sources_of(es).len() && sources_of(es)[k] == p;
                    if k < r.len() {
                        assert(r[k] == p);
                    }
                    assert(es[es.len() - 1] == e);
                }
            }
            if exists|i: int|
                0 <= i < es.len() && es[i].path == p && !es[i].is_dir && is_source_path(p@) {
                let i = choose|i: int|
                    0 <= i < es.len() && es[i].path == p && !es[i].is_dir && is_source_path(p@);
                if i < es.len() - 1 {
                    assert(init[i] == es[i]);
                    assert(r.contains(p));
                    let k = choose|k: int| 0 <= k < r.len() && r[k] == p;
                    if !e.is_dir && is_source_path(e.path@) {
                        assert(sources_of(es)[k] == p);
                    }
                } else {
                    assert(sources_of(es) == r.push(e.path));
                    assert(sources_of(es)[r.len() as int] == p);
                }
            }
        }
        if !e.is_dir && is_source_path(e.path@) {
            assert forall|k: int| 0 <= k < r.len() implies r[k] != e.path by {
                assert(r.contains(r[k]));
                let i = choose|i: int|
                    0 <= i < init.len() && init[i].path == r[k] && !init[i].is_dir
                        && is_source_path(r[k]@);
                assert(es[i] == init[i]);
            }
            let s = sources_of(es);
            assert forall|a: int, b: int| 0 <= a < s.len() && 0 <= b < s.len() && a != b implies s[a]
                != s[b] by {
                if a < r.len() && b < r.len() {
                    assert(s[a] == r[a] && s[b] == r[b]);
                }
            }
        }
    }
}

/// The source files that a walk finds from a sequence of directory
/// listings, taken in the order given.
pub open spec fn all_sources(ls: Seq<Seq<Entry>>) -> Seq<String>
    decreases ls.len(),
{
    if ls.len() == 0 {
        Seq::empty()
    } else {
        all_sources(ls.drop_last()) + sources_of(ls.last())
    }
}

/// A walk that starts empty and takes in the listings `ls` in turn has
/// found exactly `all_sources(ls)`.
pub proof fn lemma_walk_found(w0: Walk, w1: Walk, ls: Seq<Seq<Entry>>, e: Seq<Entry>)
    requires
        w0.found_spec() == all_sources(ls),
        w1.found_spec() == w0.found_spec() + sources_of(e),
    ensures
        w1.found_spec() == all_sources(ls.push(e)),
{
    assert(ls.push(e).drop_last() =~= ls);
}

/// Over all the listings of a walk, where no path is listed twice (as in
/// a directory tree, where every path has one place): every listed source
/// file is found exactly once, and nothing else is found.
pub proof fn lemma_walk_sources_exact(ls: Seq<Seq<Entry>>)
    requires
        forall|i: int, a: int, j: int, b: int|
            0 <= i < ls.len() && 0 <= a < ls[i].len() && 0 <= j < ls.len() && 0 <= b < ls[j].len()
                && (i != j || a != b) ==> #[trigger] ls[i][a].path@ != #[trigger] ls[j][b].path@,
    ensures
        all_sources(ls).no_duplicates(),
        forall|p: String| #[trigger]
            all_sources(ls).contains(p) <==> exists|i: int, a: int|
                0 <= i < ls.len() && 0 <= a < ls[i].len() && ls[i][a].path == p && !ls[i][a].is_dir
                    && is_source_path(p@),
    decreases ls.len(),
{
    if ls.len() > 0 {
        let init = ls.drop_last();
        let k = ls.len() - 1;
        let last = ls[k];
        assert forall|i: int, a: int, j: int, b: int|
            0 <= i < init.len() && 0 <= a < init[i].len() && 0 <= j < init.len() && 0 <= b
                < init[j].len() && (i != j || a != b) implies #[trigger] init[i][a].path@
            != #[trigger] init[j][b].path@ by {
            assert(init[i] == ls[i] && init[j] == ls[j]);
            assert(ls[i][a].path@ != ls[j][b].path@);
        }
        lemma_walk_sources_exact(init);
        assert forall|a: int, b: int| 0 <= a < b < last.len() implies last[a].path@
            != last[b].path@ by {
            assert(ls[k][a].path@ != ls[k][b].path@);
        }
        lemma_listing_sources_exact(last);
        let x = all_sources(init);
        let y = sources_of(last);
        assert(all_sources(ls) == x + y);
        assert forall|u: int, v: int| 0 <= u < x.len() && 0 <= v < y.len() implies x[u] != y[v] by {
            assert(x.contains(x[u]));
            assert(y.contains(y[v]));
            let (i, a) = choose|i: int, a: int|
                0 <= i < init.len() && 0 <= a < init[i].len() && init[i][a].path == x[u]
                    && !init[i][a].is_dir && is_source_path(x[u]@);
            let b = choose|b: int|
                0 <= b < last.len() && last[b].path == y[v] && !last[b].is_dir && is_source_path(
                    y[v]@,
                );
            assert(init[i] == ls[i]);
            assert(ls[i][a].path@ != ls[k][b].path@);
        }
        let z = x + y;
        assert forall|u: int, v: int| 0 <= u < z.len() && 0 <= v < z.len() && u != v implies z[u]
            != z[v] by {
            if u < x.len() && v < x.len() {
                assert(z[u] == x[u] && z[v] == x[v]);
            } else if u >= x.len() && v >= x.len() {
                assert(z[u] == y[u - x.len()] && z[v] == y[v - x.len()]);
            } else if u < x.len() {
                assert(z[u] == x[u] && z[v] == y[v - x.len()]);
            } else {
                assert(z[v] == x[v] && z[u] == y[u - x.len()]);
            }
        }
        assert forall|p: String| #[trigger]
            all_sources(ls).contains(p) <==> exists|i: int, a: int|
                0 <= i < ls.len() && 0 <= a < ls[i].len() && ls[i][a].path == p
                    && !ls[i][a].is_dir && is_source_path(p@) by {
            if z.contains(p) {
                let u = choose|u: int| 0 <= u < z.len() && z[u] == p;
                if u < x.len() {
                    assert(x[u] == p);
                    assert(x.contains(p));
                    let (i, a) = choose|i: int, a: int|
                        0 <= i < init.len() && 0 <= a < init[i].len() && init[i][a].path == p
                            && !init[i][a].is_dir && is_source_path(p@);
                    assert(init[i] == ls[i]);
                } else {
                    assert(y[u - x.len()] == p);
                    assert(y.contains(p));
                    let b = choose|b: int|
                        0 <= b < last.len() && last[b].path == p && !last[b].is_dir
                            && is_source_path(p@);
                    assert(ls[k][b] == last[b]);
                }
            }
            if exists|i: int, a: int|
                0 <= i < ls.len() && 0 <= a < ls[i].len() && ls[i][a].path == p && !ls[i][a].is_dir
                    && is_source_path(p@) {
                let (i, a) = choose|i: int, a: int|
                    0 <= i < ls.len() && 0 <= a < ls[i].len() && ls[i][a].path == p
                        && !ls[i][a].is_dir && is_source_path(p@);
                if i < k {
                    assert(init[i] == ls[i]);
                    assert(init[i][a].path == p);
                    assert(x.contains(p));
                    let u = choose|u: int| 0 <= u < x.len() && x[u] == p;
                    assert(z[u] == p);
                } else {
                    assert(last[a].path == p);
                    assert(y.contains(p));
                    let v = choose|v: int| 0 <= v < y.len() && y[v] == p;
                    assert(z[x.len() + v] == p);
                }
            }
        }
    }
}

} // verus!
