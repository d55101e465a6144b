//! The per-run configuration and the result counters.
//!
//! A run is configured by two directory rules (an ignore list and an allow
//! list, each optionally scoped to the root directory only), a switch that
//! disables the two-way parallel split, and the least number of entries a
//! directory must hold before the split is taken. The counters record how
//! many files were examined and how many of them matched.

use vstd::prelude::*;

verus! {

/// A directory rule: a list of lowercased directory names, and whether the
/// rule applies only at the root of the search.
pub struct DirList {
    pub directories: Vec<String>,
    pub root_only: bool,
}

/// The mathematical content of a `DirList`: the names as sequences of
/// characters, and the root-only flag.
pub struct DirListView {
    pub names: Seq<Seq<char>>,
    pub root_only: bool,
}

impl DirListView {
    /// `lower` is one of the rule's names.
    pub open spec fn has_name(self, lower: Seq<char>) -> bool {
        exists|i: int| 0 <= i < self.names.len() && self.names[i] == lower
    }

    /// The rule holds no names.
    pub open spec fn is_empty(self) -> bool {
        self.names.len() == 0
    }
}

impl View for DirList {
    type V = DirListView;

    open spec fn view(&self) -> DirListView {
        DirListView { names: self.directories.deep_view(), root_only: self.root_only }
    }
}

impl DirList {
    /// An empty rule: no names, applying at every depth.
    pub fn new() -> (r: DirList)
        ensures
            r@.is_empty(),
            !r@.root_only,
    {
        DirList { directories: Vec::new(), root_only: false }
    }

    /// Whether `lower` is one of the rule's names.
    pub fn contains_name(&self, lower: &String) -> (r: bool)
        ensures
            r == self@.has_name(lower@),
    {
        let mut i: usize = 0;
        while i < self.directories.len()
            invariant
                i <= self.directories@.len(),
                forall|k: int| 0 <= k < i ==> self@.names[k] != lower@,
            decreases self.directories@.len() - i,
        {
            let hit = self.directories[i].eq(lower);
            proof {
                assert(self@.names[i as int] == self.directories@[i as int]@);
            }
            if hit {
                return true;
            }
            i = i + 1;
        }
        false
    }
}

impl Clone for DirList {
    fn clone(&self) -> (r: Self)
        ensures
            r@ == self@,
    {
        let directories = self.directories.clone();
        proof {
            assert forall|i: int| 0 <= i < self.directories@.len() implies directories@[i]
                == self.directories@[i] by {
                assert(cloned::<String>(self.directories@[i], directories@[i]));
            }
            assert(directories@ =~= self.directories@);
            assert(directories.deep_view() =~= self.directories.deep_view());
        }
        DirList { directories, root_only: self.root_only }
    }
}

/// The per-run settings of a search.
pub struct Options {
    pub ignore: DirList,
    pub allow: DirList,
    pub disable_concurrency: bool,
    pub root: bool,
    pub min_concurrent_directories: i32,
}

/// The mathematical content of an `Options` value.
pub struct OptionsView {
    pub ignore: DirListView,
    pub allow: DirListView,
    pub disable_concurrency: bool,
    pub root: bool,
    pub min_concurrent_directories: int,
}

impl OptionsView {
    /// The settings are well-formed: the split threshold is at least 2.
    pub open spec fn wf(self) -> bool {
        self.min_concurrent_directories >= 2
    }

    /// The settings handed to a recursive call one level down: identical,
    /// except that the call is no longer at the root.
    pub open spec fn child(self) -> OptionsView {
        OptionsView { root: false, ..self }
    }

    /// The same settings with the ignore rule's names cleared.
    pub open spec fn without_ignore_names(self) -> OptionsView {
        OptionsView {
            ignore: DirListView { names: Seq::empty(), root_only: self.ignore.root_only },
            ..self
        }
    }

    /// The same settings with the allow rule's names cleared.
    pub open spec fn without_allow_names(self) -> OptionsView {
        OptionsView {
            allow: DirListView { names: Seq::empty(), root_only: self.allow.root_only },
            ..self
        }
    }
}

impl View for Options {
    type V = OptionsView;

    open spec fn view(&self) -> OptionsView {
        OptionsView {
            ignore: self.ignore@,
            allow: self.allow@,
            disable_concurrency: self.disable_concurrency,
            root: self.root,
            min_concurrent_directories: self.min_concurrent_directories as int,
        }
    }
}

impl Options {
    /// The settings for a recursive call one level down.
    pub fn child(&self) -> (r: Options)
        ensures
            r@ == self@.child(),
    {
        Options {
            ignore: self.ignore.clone(),
            allow: self.allow.clone(),
            disable_concurrency: self.disable_concurrency,
            root: false,
            min_concurrent_directories: self.min_concurrent_directories,
        }
    }
}

impl Clone for Options {
    fn clone(&self) -> (r: Self)
        ensures
            r@ == self@,
    {
        Options {
            ignore: self.ignore.clone(),
            allow: self.allow.clone(),
            disable_concurrency: self.disable_concurrency,
            root: self.root,
            min_concurrent_directories: self.min_concurrent_directories,
        }
    }
}

/// The counters of one traversal: how many files were examined and how many
/// of them matched the search term.
pub struct SearchResult {
    pub found: u32,
    pub searched: u32,
}

impl SearchResult {
    /// Fresh counters, both zero.
    pub fn new() -> (r: SearchResult)
        ensures
            r.found == 0,
            r.searched == 0,
    {
        SearchResult { found: 0, searched: 0 }
    }

    /// The element-wise sum of two results, as produced at a join point.
    pub fn merged(&self, other: &SearchResult) -> (r: SearchResult)
        requires
            self.found + other.found <= u32::MAX,
            self.searched + other.searched <= u32::MAX,
        ensures
            r.found == self.found + other.found,
            r.searched == self.searched + other.searched,
    {
        SearchResult { found: self.found + other.found, searched: self.searched + other.searched }
    }
}

} // verus!
