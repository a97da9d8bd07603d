//! The synchronisation engine's decisions: which directories the walk
//! enters, which destination files the prune stage deletes, and what the
//! mirror stage does with each source file; and the effect of a whole run
//! on a model of the two trees.
use vstd::prelude::*;

use crate::conf::{name_allowed, Conf};
use crate::path_map::{get_mirror, lies_under, mirror, MirrorError};

verus! {

/// What happened to one visited file.
#[derive(Debug, Clone)]
pub enum FileOutcome {
    /// The mirror was absent and the file was copied to it.
    Created,
    /// The mirror differed and the file was copied over it.
    Replaced,
    /// The mirror was equal and was left alone.
    Unchanged,
    /// The destination file had no source counterpart and was removed.
    Deleted,
    /// The work on the file failed, for the reason given.
    Failed(String),
}

/// A path relative to a tree root, as its segments: the directories from
/// the root down, then the file's own name.
pub type RelPath = Seq<Seq<char>>;

/// A tree, as the contents of each file under its relative path.
pub type Tree = Map<RelPath, Seq<u8>>;

/// A file lies inside an excluded directory: one of the directories on its
/// path has an excluded name.
pub open spec fn path_excluded(p: RelPath, patterns: Seq<Seq<char>>) -> bool {
    exists|i: int| 0 <= i < p.len() - 1 && !name_allowed(#[trigger] p[i], patterns)
}

/// The prune stage's decision on a destination file: it is deleted exactly
/// when its mirror in the source is absent.
pub open spec fn prune_decision(mirror_exists: bool) -> Option<FileOutcome> {
    if mirror_exists {
        None
    } else {
        Some(FileOutcome::Deleted)
    }
}

/// The mirror stage's decision on a source file, from whether its mirror
/// exists and, when it does, whether it is equal to the file.
pub open spec fn merge_decision(mirror_exists: bool, equal: bool) -> FileOutcome {
    if !mirror_exists {
        FileOutcome::Created
    } else if !equal {
        FileOutcome::Replaced
    } else {
        FileOutcome::Unchanged
    }
}

/// Whether an outcome of the mirror stage copies the source file.
pub open spec fn copies(o: FileOutcome) -> bool {
    o is Created || o is Replaced
}

/// The decision of the mirror stage on the file at `p` of `src`, against
/// the tree `dst`.
pub open spec fn merge_decision_in(src: Tree, dst: Tree, p: RelPath) -> FileOutcome {
    merge_decision(dst.contains_key(p), dst.contains_key(p) && dst[p] == src[p])
}

/// The destination after the prune stage: every file outside excluded
/// directories whose mirror is absent from the source is removed.
pub open spec fn after_prune(src: Tree, dst: Tree, patterns: Seq<Seq<char>>) -> Tree {
    Map::new(
        |p: RelPath| dst.contains_key(p) && (path_excluded(p, patterns) || prune_decision(src.contains_key(p)) is None),
        |p: RelPath| dst[p],
    )
}

/// The destination after the mirror stage: every source file outside
/// excluded directories that the stage copies replaces its mirror.
pub open spec fn after_merge(src: Tree, dst: Tree, patterns: Seq<Seq<char>>) -> Tree {
    Map::new(
        |p: RelPath| dst.contains_key(p) || (src.contains_key(p) && !path_excluded(p, patterns)),
        |p: RelPath|
            if src.contains_key(p) && !path_excluded(p, patterns) && copies(merge_decision_in(src, dst, p)) {
                src[p]
            } else {
                dst[p]
            },
    )
}

/// The destination after a full run: the prune stage, then the mirror stage.
pub open spec fn after_run(src: Tree, dst: Tree, patterns: Seq<Seq<char>>) -> Tree {
    after_merge(src, after_prune(src, dst, patterns), patterns)
}

/// The engine: it holds the configuration and decides, for each directory
/// and file that the walks meet, what is to be done.
pub struct Merger {
    conf: Conf,
}

impl Merger {
    /// The configuration this engine runs with.
    pub closed spec fn spec_conf(&self) -> Conf {
        self.conf
    }

    /// Makes an engine for a configuration that can start a run.
    pub fn new(conf: Conf) -> (r: Merger)
        requires
            conf.wf(),
        ensures
            r.spec_conf() == conf,
    {
        Merger { conf }
    }

    /// The configuration this engine runs with.
    pub fn conf(&self) -> (r: &Conf)
        ensures
            r == self.spec_conf(),
    {
        &self.conf
    }

    /// Whether the walk enters an entry: files always; directories when they
    /// have a name, readable as text, that is not excluded.
    pub fn is_allowed(&self, is_dir: bool, name: Option<&str>) -> (r: bool)
        ensures
            r == (!is_dir || (name matches Some(n) && name_allowed(n@, self.spec_conf().spec_patterns()))),
    {
        if !is_dir {
            return true;
        }
        match name {
            Some(n) => self.conf.is_dir_name_allowed(n),
            None => false,
        }
    }

    /// Whether a file at the relative path `segments` is visited by the
    /// walks: no directory on its path is excluded.
    pub fn is_path_visited(&self, segments: &Vec<String>) -> (r: bool)
        ensures
            r == !path_excluded(segments@.map_values(|s: String| s@), self.spec_conf().spec_patterns()),
    {
        let ghost p = segments@.map_values(|s: String| s@);
        let n = segments.len();
        if n == 0 {
            return true;
        }
        let mut i: usize = 0;
        while i < n - 1
            invariant
                n == segments@.len(),
                n > 0,
                p == segments@.map_values(|s: String| s@),
                i <= n - 1,
                forall|k: int| 0 <= k < i ==> name_allowed(#[trigger] p[k], self.spec_conf().spec_patterns()),
            decreases n - 1 - i,
        {
            if !self.conf.is_dir_name_allowed(segments[i].as_str()) {
                assert(!name_allowed(p[i as int], self.spec_conf().spec_patterns()));
                return false;
            }
            i = i + 1;
        }
        true
    }

    /// The mirror of `file`, a path under `src`, in the tree rooted at `dest`.
    pub fn get_mirror(file: &str, src: &str, dest: &str) -> (r: Result<String, MirrorError>)
        ensures
            r is Ok <==> lies_under(file@, src@),
            r matches Ok(m) ==> m@ == mirror(file@, src@, dest@),
    {
        get_mirror(file, src, dest)
    }

    /// The prune stage's decision on a destination file: `Deleted` when its
    /// mirror in the source is absent, nothing otherwise.
    pub fn prune_outcome(mirror_exists: bool) -> (r: Option<FileOutcome>)
        ensures
            r == prune_decision(mirror_exists),
    {
        if mirror_exists {
            None
        } else {
            Some(FileOutcome::Deleted)
        }
    }

    /// The mirror stage's decision on a source file: `Created` when its
    /// mirror is absent, `Replaced` when it differs, `Unchanged` otherwise.
    /// `equal` is not read when the mirror is absent.
    pub fn merge_outcome(mirror_exists: bool, equal: bool) -> (r: FileOutcome)
        ensures
            r == merge_decision(mirror_exists, equal),
    {
        if !mirror_exists {
            FileOutcome::Created
        } else if !equal {
            FileOutcome::Replaced
        } else {
            FileOutcome::Unchanged
        }
    }
}

/// Running the mirror stage a second time, with the source unchanged,
/// leaves every visited file unchanged.
pub proof fn lemma_merge_idempotent(src: Tree, dst: Tree, patterns: Seq<Seq<char>>, p: RelPath)
    requires
        src.contains_key(p),
        !path_excluded(p, patterns),
    ensures
        merge_decision_in(src, after_merge(src, dst, patterns), p) == FileOutcome::Unchanged,
{
}

/// After a full run, every source file outside excluded directories has a
/// mirror with the same contents.
pub proof fn lemma_run_complete(src: Tree, dst: Tree, patterns: Seq<Seq<char>>, p: RelPath)
    requires
        src.contains_key(p),
        !path_excluded(p, patterns),
    ensures
        after_run(src, dst, patterns).contains_key(p),
        after_run(src, dst, patterns)[p] == src[p],
{
}

/// After a full run, every destination file outside excluded directories
/// has a mirror in the source.
pub proof fn lemma_run_pruned(src: Tree, dst: Tree, patterns: Seq<Seq<char>>, p: RelPath)
    requires
        after_run(src, dst, patterns).contains_key(p),
        !path_excluded(p, patterns),
    ensures
        src.contains_key(p),
{
}

/// A full run neither creates, deletes nor changes a file inside an
/// excluded directory.
pub proof fn lemma_run_respects_exclusion(src: Tree, dst: Tree, patterns: Seq<Seq<char>>, p: RelPath)
    requires
        path_excluded(p, patterns),
    ensures
        after_run(src, dst, patterns).contains_key(p) == dst.contains_key(p),
        dst.contains_key(p) ==> after_run(src, dst, patterns)[p] == dst[p],
{
}

} // verus!
