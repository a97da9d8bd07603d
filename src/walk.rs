//! The tree walk: which directories are listed and which files are handed
//! to a stage. Listing a directory is the caller's part; the walker takes
//! each listing and decides.
use vstd::prelude::*;

use crate::conf::name_allowed;
use crate::merger::{path_excluded, Merger, RelPath};

verus! {

/// One entry of a directory listing.
pub struct Entry {
    pub name: String,
    pub is_dir: bool,
}

/// A listing, as the name and kind of each entry.
pub open spec fn entries_view(entries: Seq<Entry>) -> Seq<(Seq<char>, bool)> {
    entries.map_values(|e: Entry| (e.name@, e.is_dir))
}

/// Relative paths held in a vector of segments, as their model.
pub open spec fn paths_view(paths: Seq<Vec<String>>) -> Seq<RelPath> {
    paths.map_values(|p: Vec<String>| p@.map_values(|s: String| s@))
}

/// The files of a listing of `dir`, in order, with their relative paths.
pub open spec fn listed_files(dir: RelPath, es: Seq<(Seq<char>, bool)>) -> Seq<RelPath>
    decreases es.len(),
{
    if es.len() == 0 {
        Seq::empty()
    } else {
        let rest = listed_files(dir, es.drop_last());
        if es.last().1 {
            rest
        } else {
            rest.push(dir.push(es.last().0))
        }
    }
}

/// The subdirectories of a listing of `dir` that the walk enters, in order.
pub open spec fn listed_dirs(dir: RelPath, es: Seq<(Seq<char>, bool)>, patterns: Seq<Seq<char>>) -> Seq<RelPath>
    decreases es.len(),
{
    if es.len() == 0 {
        Seq::empty()
    } else {
        let rest = listed_dirs(dir, es.drop_last(), patterns);
        if es.last().1 && name_allowed(es.last().0, patterns) {
            rest.push(dir.push(es.last().0))
        } else {
            rest
        }
    }
}

/// No directory named on the path `dir` is excluded.
pub open spec fn dir_allowed(dir: RelPath, patterns: Seq<Seq<char>>) -> bool {
    forall|i: int| 0 <= i < dir.len() ==> name_allowed(#[trigger] dir[i], patterns)
}

/// The state of a walk: the directories, relative to the root, that are
/// still to be listed.
pub struct Walker {
    pending: Vec<Vec<String>>,
}

impl Walker {
    /// The directories still to be listed.
    pub closed spec fn spec_pending(&self) -> Seq<RelPath> {
        paths_view(self.pending@)
    }

    /// Every directory still to be listed lies outside excluded directories.
    pub open spec fn wf(&self, patterns: Seq<Seq<char>>) -> bool {
        forall|i: int| 0 <= i < self.spec_pending().len() ==> dir_allowed(#[trigger] self.spec_pending()[i], patterns)
    }

    /// Starts a walk at a root directory named `root_name`: the root is
    /// listed unless its name is excluded or unreadable.
    pub fn new(merger: &Merger, root_name: Option<&str>) -> (r: Walker)
        ensures
            r.wf(merger.spec_conf().spec_patterns()),
            r.spec_pending() == (if root_name matches Some(n) && name_allowed(n@, merger.spec_conf().spec_patterns()) {
                seq![Seq::<Seq<char>>::empty()]
            } else {
                Seq::<RelPath>::empty()
            }),
    {
        let mut pending: Vec<Vec<String>> = Vec::new();
        if merger.is_allowed(true, root_name) {
            pending.push(Vec::new());
        }
        let r = Walker { pending };
        assert(r.spec_pending() =~~= (if root_name matches Some(n) && name_allowed(n@, merger.spec_conf().spec_patterns()) {
            seq![Seq::<Seq<char>>::empty()]
        } else {
            Seq::<RelPath>::empty()
        }));
        r
    }

    /// The next directory to list, taken off the walk; `None` when the walk
    /// is over.
    pub fn next_dir(&mut self) -> (r: Option<Vec<String>>)
        ensures
            old(self).spec_pending().len() == 0 ==> r is None && final(self).spec_pending() == old(self).spec_pending(),
            old(self).spec_pending().len() > 0 ==> (r matches Some(d)
                && d@.map_values(|s: String| s@) == old(self).spec_pending().last()
                && final(self).spec_pending() == old(self).spec_pending().drop_last()),
            forall|p: Seq<Seq<char>>| old(self).wf(p) ==> final(self).wf(p),
    {
        let r = self.pending.pop();
        proof {
            if old(self).spec_pending().len() > 0 {
                assert(self.spec_pending() =~= old(self).spec_pending().drop_last());
            }
        }
        r
    }

    /// Takes the listing of the directory `dir`: queues the subdirectories
    /// whose names are not excluded and returns the files, in listing order.
    pub fn take_listing(&mut self, merger: &Merger, dir: &Vec<String>, entries: &Vec<Entry>) -> (r: Vec<Vec<String>>)
        requires
            old(self).wf(merger.spec_conf().spec_patterns()),
            dir_allowed(dir@.map_values(|s: String| s@), merger.spec_conf().spec_patterns()),
        ensures
            final(self).wf(merger.spec_conf().spec_patterns()),
            paths_view(r@) == listed_files(dir@.map_values(|s: String| s@), entries_view(entries@)),
            final(self).spec_pending() == old(self).spec_pending() + listed_dirs(
                dir@.map_values(|s: String| s@),
                entries_view(entries@),
                merger.spec_conf().spec_patterns(),
            ),
            forall|i: int| 0 <= i < r@.len() ==> !path_excluded(#[trigger] paths_view(r@)[i], merger.spec_conf().spec_patterns()),
    {
        let ghost patterns = merger.spec_conf().spec_patterns();
        let ghost dv = dir@.map_values(|s: String| s@);
        let ghost es = entries_view(entries@);
        let mut files: Vec<Vec<String>> = Vec::new();
        let n = entries.len();
        let mut i: usize = 0;
        while i < n
            invariant
                n == entries@.len(),
                es == entries_view(entries@),
                dv == dir@.map_values(|s: String| s@),
                patterns == merger.spec_conf().spec_patterns(),
                dir_allowed(dv, patterns),
                i <= n,
                paths_view(files@) == listed_files(dv, es.take(i as int)),
                self.spec_pending() == old(self).spec_pending() + listed_dirs(dv, es.take(i as int), patterns),
                self.wf(patterns),
            decreases n - i,
        {
            let e = &entries[i];
            assert(es.take(i + 1).drop_last() =~= es.take(i as int));
            assert(es.take(i + 1).last() == (e.name@, e.is_dir));
            let child = extend_path(dir, &e.name);
            let ghost cv = child@.map_values(|s: String| s@);
            assert(cv == dv.push(e.name@));
            if e.is_dir {
                if merger.is_allowed(true, Some(e.name.as_str())) {
                    let ghost before = self.spec_pending();
                    self.pending.push(child);
                    assert(self.spec_pending() =~= before.push(cv));
                    assert(dir_allowed(cv, patterns)) by {
                        assert forall|k: int| 0 <= k < cv.len() implies name_allowed(#[trigger] cv[k], patterns) by {
                            if k < dv.len() {
                                assert(cv[k] == dv[k]);
                            }
                        }
                    }
                }
            } else {
                let ghost before = paths_view(files@);
                files.push(child);
                assert(paths_view(files@) =~= before.push(cv));
            }
            i = i + 1;
        }
        assert(es.take(n as int) =~= es);
        proof {
            lemma_listed_files_not_excluded(dv, es, patterns);
        }
        files
    }
}

/// The path `dir` extended by one segment `name`.
fn extend_path(dir: &Vec<String>, name: &String) -> (r: Vec<String>)
    ensures
        r@.map_values(|s: String| s@) == dir@.map_values(|s: String| s@).push(name@),
{
    let mut r: Vec<String> = Vec::new();
    let n = dir.len();
    let mut i: usize = 0;
    while i < n
        invariant
            n == dir@.len(),
            i <= n,
            r@.map_values(|s: String| s@) == dir@.map_values(|s: String| s@).take(i as int),
        decreases n - i,
    {
        let ghost before = r@.map_values(|s: String| s@);
        let seg = dir[i].clone();
        assert(seg@ == dir@[i as int]@);
        r.push(seg);
        assert(r@.map_values(|s: String| s@) =~= before.push(seg@));
        assert(dir@.map_values(|s: String| s@).take(i + 1) =~= dir@.map_values(|s: String| s@).take(
            i as int,
        ).push(dir@[i as int]@));
        i = i + 1;
    }
    assert(dir@.map_values(|s: String| s@).take(n as int) =~= dir@.map_values(|s: String| s@));
    let last = name.clone();
    assert(last@ == name@);
    r.push(last);
    assert(r@.map_values(|s: String| s@) =~= dir@.map_values(|s: String| s@).push(name@));
    r
}

/// The files of a listing of a directory outside excluded directories lie
/// outside excluded directories too.
pub proof fn lemma_listed_files_not_excluded(dir: RelPath, es: Seq<(Seq<char>, bool)>, patterns: Seq<Seq<char>>)
    requires
        dir_allowed(dir, patterns),
    ensures
        forall|i: int| 0 <= i < listed_files(dir, es).len() ==> !path_excluded(#[trigger] listed_files(dir, es)[i], patterns),
    decreases es.len(),
{
    if es.len() > 0 {
        let rest = listed_files(dir, es.drop_last());
        lemma_listed_files_not_excluded(dir, es.drop_last(), patterns);
        let f = dir.push(es.last().0);
        assert forall|k: int| 0 <= k < f.len() - 1 implies name_allowed(#[trigger] f[k], patterns) by {
            assert(f[k] == dir[k]);
        }
        let l = listed_files(dir, es);
        assert forall|i: int| 0 <= i < l.len() implies !path_excluded(#[trigger] l[i], patterns) by {
            if i < rest.len() {
                assert(l[i] == rest[i]);
            } else {
                assert(l[i] == f);
            }
        }
    }
}

} // verus!
