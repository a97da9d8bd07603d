//! The run's configuration: the two tree roots, the excluded directory
//! names and the size of the worker pool.
use vstd::prelude::*;

use crate::error::ConfError;

verus! {

/// The configuration of one run.
#[derive(Debug)]
pub struct Conf {
    from: String,
    to: String,
    black_list_patterns: Vec<String>,
    thread_count: usize,
}

/// A directory named `name` is skipped when it equals one of `patterns`
/// exactly.
pub open spec fn name_allowed(name: Seq<char>, patterns: Seq<Seq<char>>) -> bool {
    !patterns.contains(name)
}

impl Conf {
    /// The source root.
    pub closed spec fn spec_source(&self) -> Seq<char> {
        self.from@
    }

    /// The destination root.
    pub closed spec fn spec_dest(&self) -> Seq<char> {
        self.to@
    }

    /// The excluded directory names, in order.
    pub closed spec fn spec_patterns(&self) -> Seq<Seq<char>> {
        self.black_list_patterns@.map_values(|p: String| p@)
    }

    /// The number of workers.
    pub closed spec fn spec_thread_count(&self) -> nat {
        self.thread_count as nat
    }

    /// What a configuration must hold apart from the state of the disk:
    /// two non-empty roots and at least one worker.
    pub open spec fn wf(&self) -> bool {
        &&& self.spec_source().len() > 0
        &&& self.spec_dest().len() > 0
        &&& self.spec_thread_count() > 0
    }

    /// Makes a configuration from its parts, as they were read.
    pub fn with_roots(from: String, to: String, black_list_patterns: Vec<String>, thread_count: usize) -> (r: Conf)
        ensures
            r.spec_source() == from@,
            r.spec_dest() == to@,
            r.spec_patterns() == black_list_patterns@.map_values(|p: String| p@),
            r.spec_thread_count() == thread_count,
    {
        Conf { from, to, black_list_patterns, thread_count }
    }

    /// Whether the configuration can start a run, given whether each root
    /// was found to be a directory.
    pub fn is_valid(&self, source_is_dir: bool, dest_is_dir: bool) -> (r: bool)
        ensures
            r == (source_is_dir && dest_is_dir && self.wf()),
    {
        source_is_dir && dest_is_dir && !self.from.as_str().is_empty() && !self.to.as_str().is_empty()
            && self.thread_count > 0
    }

    /// Keeps the configuration if it can start a run, given whether each root
    /// was found to be a directory; otherwise reports invalid folders.
    pub fn checked(self, source_is_dir: bool, dest_is_dir: bool) -> (r: Result<Conf, Box<ConfError>>)
        ensures
            r is Ok <==> (source_is_dir && dest_is_dir && self.wf()),
            r matches Ok(c) ==> c == self,
            r matches Err(e) ==> e.spec_message() == "Configuration has invalid folders"@,
    {
        if self.is_valid(source_is_dir, dest_is_dir) {
            Ok(self)
        } else {
            Err(ConfError::new("Configuration has invalid folders"))
        }
    }

    /// Whether a directory named `name` is traversed: it is unless the name
    /// equals one of the excluded names exactly.
    pub fn is_dir_name_allowed(&self, name: &str) -> (r: bool)
        ensures
            r == name_allowed(name@, self.spec_patterns()),
    {
        let wanted = name.to_owned();
        let n = self.black_list_patterns.len();
        let mut i: usize = 0;
        while i < n
            invariant
                n == self.black_list_patterns@.len(),
                wanted@ == name@,
                i <= n,
                forall|k: int| 0 <= k < i ==> self.spec_patterns()[k] != wanted@,
            decreases n - i,
        {
            if self.black_list_patterns[i] == wanted {
                assert(self.spec_patterns()[i as int] == wanted@);
                assert(self.spec_patterns().len() == n);
                assert(self.spec_patterns().contains(name@));
                return false;
            }
            i = i + 1;
        }
        assert(!self.spec_patterns().contains(wanted@));
        true
    }

    /// The source root.
    pub fn source(&self) -> (r: &str)
        ensures
            r@ == self.spec_source(),
    {
        self.from.as_str()
    }

    /// The source root, as text.
    pub fn source_as_str(&self) -> (r: &str)
        ensures
            r@ == self.spec_source(),
    {
        self.from.as_str()
    }

    /// The destination root.
    pub fn dest(&self) -> (r: &str)
        ensures
            r@ == self.spec_dest(),
    {
        self.to.as_str()
    }

    /// The destination root, as text.
    pub fn dest_as_str(&self) -> (r: &str)
        ensures
            r@ == self.spec_dest(),
    {
        self.to.as_str()
    }

    /// The number of workers.
    pub fn thread_count(&self) -> (r: usize)
        ensures
            r == self.spec_thread_count(),
    {
        self.thread_count
    }

    /// The excluded directory names, in order.
    pub fn black_list_patterns(&self) -> (r: &Vec<String>)
        ensures
            r@.map_values(|p: String| p@) == self.spec_patterns(),
    {
        &self.black_list_patterns
    }
}

} // verus!
