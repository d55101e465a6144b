//! Traversal of a directory tree held in memory.
//!
//! A directory's listing is a sequence of entries; each entry is a plain
//! file or a subdirectory with its own listing. The traversal examines every
//! file that is reachable under the directory rules, counts it, and counts
//! it again when its name matches the search term. A directory whose listing
//! is long enough may be split into two partitions that are processed
//! independently and whose counts are summed at the join point; the counts
//! are the same either way.

use vstd::prelude::*;

use crate::casefold::lower_of;
use crate::casefold::lowercase;
use crate::config::Options;
use crate::config::OptionsView;
use crate::config::SearchResult;
use crate::filter::descend_ok;
use crate::filter::should_descend;
use crate::pattern::matches_pattern;
use crate::pattern::pattern_matches;

verus! {

/// One entry of a directory listing: a plain file, or a subdirectory with
/// its own listing.
pub enum Entry {
    File { name: String },
    Dir { name: String, entries: Vec<Entry> },
}

/// The counters of a traversal, unbounded: how many files were examined and
/// how many matched.
pub struct Counts {
    pub searched: nat,
    pub found: nat,
}

impl Counts {
    /// No files examined, none matched.
    pub open spec fn zero() -> Counts {
        Counts { searched: 0, found: 0 }
    }

    /// The element-wise sum, as taken at a join point.
    pub open spec fn plus(self, other: Counts) -> Counts {
        Counts { searched: self.searched + other.searched, found: self.found + other.found }
    }
}

/// The number of entries in the subtree under `e`, the entry itself
/// included, with no rule applied.
pub open spec fn entry_weight(e: Entry) -> nat
    decreases e,
{
    match e {
        Entry::File { .. } => 1,
        Entry::Dir { entries, .. } => 1 + seq_weight(entries@),
    }
}

/// The number of entries in the subtrees under a listing.
pub open spec fn seq_weight(es: Seq<Entry>) -> nat
    decreases es,
{
    if es.len() == 0 {
        0
    } else {
        seq_weight(es.drop_last()) + entry_weight(es.last())
    }
}

/// What a traversal of the single entry `e` counts, under the lowercased
/// search term `term` and the settings `o`.
pub open spec fn entry_counts(e: Entry, term: Seq<char>, o: OptionsView) -> Counts
    decreases e,
{
    match e {
        Entry::File { name } => Counts {
            searched: 1,
            found: if pattern_matches(lower_of(name@), term) {
                1nat
            } else {
                0nat
            },
        },
        Entry::Dir { name, entries } => {
            if descend_ok(lower_of(name@), o) {
                seq_counts(entries@, term, o.child())
            } else {
                Counts::zero()
            }
        },
    }
}

/// What a traversal of the listing `es` counts.
pub open spec fn seq_counts(es: Seq<Entry>, term: Seq<char>, o: OptionsView) -> Counts
    decreases es,
{
    if es.len() == 0 {
        Counts::zero()
    } else {
        seq_counts(es.drop_last(), term, o).plus(entry_counts(es.last(), term, o))
    }
}

/// The number of non-directory entries reachable under `e` once the
/// directory rules are applied, independent of any search term.
pub open spec fn entry_files(e: Entry, o: OptionsView) -> nat
    decreases e,
{
    match e {
        Entry::File { .. } => 1,
        Entry::Dir { name, entries } => {
            if descend_ok(lower_of(name@), o) {
                seq_files(entries@, o.child())
            } else {
                0
            }
        },
    }
}

/// The number of non-directory entries reachable under a listing.
pub open spec fn seq_files(es: Seq<Entry>, o: OptionsView) -> nat
    decreases es,
{
    if es.len() == 0 {
        0
    } else {
        seq_files(es.drop_last(), o) + entry_files(es.last(), o)
    }
}

/// No more files match than are examined, and no more files are examined
/// than the subtree holds entries.
pub proof fn lemma_entry_counts_bounds(e: Entry, term: Seq<char>, o: OptionsView)
    ensures
        entry_counts(e, term, o).found <= entry_counts(e, term, o).searched,
        entry_counts(e, term, o).searched <= entry_weight(e),
    decreases e,
{
    match e {
        Entry::File { .. } => {},
        Entry::Dir { name, entries } => {
            if descend_ok(lower_of(name@), o) {
                lemma_seq_counts_bounds(entries@, term, o.child());
            }
        },
    }
}

/// No more files match than are examined, and no more files are examined
/// than the listing's subtrees hold entries.
pub proof fn lemma_seq_counts_bounds(es: Seq<Entry>, term: Seq<char>, o: OptionsView)
    ensures
        seq_counts(es, term, o).found <= seq_counts(es, term, o).searched,
        seq_counts(es, term, o).searched <= seq_weight(es),
    decreases es,
{
    if es.len() > 0 {
        lemma_seq_counts_bounds(es.drop_last(), term, o);
        lemma_entry_counts_bounds(es.last(), term, o);
    }
}

/// An entry weighs no more than any listing it stands in.
pub proof fn lemma_entry_weight_le_seq(es: Seq<Entry>, i: int)
    requires
        0 <= i < es.len(),
    ensures
        entry_weight(es[i]) <= seq_weight(es),
    decreases es.len(),
{
    if i == es.len() - 1 {
    } else {
        lemma_entry_weight_le_seq(es.drop_last(), i);
        assert(es.drop_last()[i] == es[i]);
    }
}

/// The weight of a listing is the sum of the weights of its two partitions.
pub proof fn lemma_seq_weight_split(es: Seq<Entry>, k: int)
    requires
        0 <= k <= es.len(),
    ensures
        seq_weight(es) == seq_weight(es.subrange(0, k)) + seq_weight(
            es.subrange(k, es.len() as int),
        ),
    decreases es.len(),
{
    if k == es.len() {
        assert(es.subrange(0, k) =~= es);
        assert(seq_weight(es.subrange(k, es.len() as int)) == 0);
    } else {
        let prefix = es.drop_last();
        lemma_seq_weight_split(prefix, k);
        assert(prefix.subrange(0, k) =~= es.subrange(0, k));
        assert(es.subrange(k, es.len() as int).drop_last() =~= prefix.subrange(
            k,
            prefix.len() as int,
        ));
        assert(es.subrange(k, es.len() as int).last() == es.last());
    }
}

/// What a traversal counts over a listing is the element-wise sum of what
/// it counts over the two partitions of the listing.
pub proof fn lemma_seq_counts_split(es: Seq<Entry>, term: Seq<char>, o: OptionsView, k: int)
    requires
        0 <= k <= es.len(),
    ensures
        seq_counts(es, term, o) == seq_counts(es.subrange(0, k), term, o).plus(
            seq_counts(es.subrange(k, es.len() as int), term, o),
        ),
    decreases es.len(),
{
    if k == es.len() {
        assert(es.subrange(0, k) =~= es);
        assert(seq_counts(es.subrange(k, es.len() as int), term, o) == Counts::zero());
    } else {
        let prefix = es.drop_last();
        lemma_seq_counts_split(prefix, term, o, k);
        assert(prefix.subrange(0, k) =~= es.subrange(0, k));
        assert(es.subrange(k, es.len() as int).drop_last() =~= prefix.subrange(
            k,
            prefix.len() as int,
        ));
        assert(es.subrange(k, es.len() as int).last() == es.last());
    }
}

/// The counts depend only on the rules and on the root flag: settings that
/// differ in the concurrency switch or in the split threshold alone count
/// the same files over the single entry `e`. Processed in one piece or in
/// partitions on parallel workers, a tree therefore yields one result.
pub proof fn lemma_entry_counts_ignore_concurrency(
    e: Entry,
    term: Seq<char>,
    o1: OptionsView,
    o2: OptionsView,
)
    requires
        o1.ignore == o2.ignore,
        o1.allow == o2.allow,
        o1.root == o2.root,
    ensures
        entry_counts(e, term, o1) == entry_counts(e, term, o2),
    decreases e,
{
    match e {
        Entry::File { .. } => {},
        Entry::Dir { entries, .. } => {
            lemma_seq_counts_ignore_concurrency(entries@, term, o1.child(), o2.child());
        },
    }
}

/// The counts over a listing depend only on the rules and on the root flag,
/// never on the concurrency switch or the split threshold.
pub proof fn lemma_seq_counts_ignore_concurrency(
    es: Seq<Entry>,
    term: Seq<char>,
    o1: OptionsView,
    o2: OptionsView,
)
    requires
        o1.ignore == o2.ignore,
        o1.allow == o2.allow,
        o1.root == o2.root,
    ensures
        seq_counts(es, term, o1) == seq_counts(es, term, o2),
    decreases es,
{
    if es.len() > 0 {
        lemma_seq_counts_ignore_concurrency(es.drop_last(), term, o1, o2);
        lemma_entry_counts_ignore_concurrency(es.last(), term, o1, o2);
    }
}

/// However the search term reads, the number of files a traversal examines
/// under `e` is the number of non-directory entries reachable under the
/// rules.
pub proof fn lemma_entry_examined_counts_files(e: Entry, term: Seq<char>, o: OptionsView)
    ensures
        entry_counts(e, term, o).searched == entry_files(e, o),
    decreases e,
{
    match e {
        Entry::File { .. } => {},
        Entry::Dir { name, entries } => {
            if descend_ok(lower_of(name@), o) {
                lemma_seq_examined_counts_files(entries@, term, o.child());
            }
        },
    }
}

/// However the search term reads, the number of files a traversal examines
/// over a listing is the number of reachable non-directory entries.
pub proof fn lemma_seq_examined_counts_files(es: Seq<Entry>, term: Seq<char>, o: OptionsView)
    ensures
        seq_counts(es, term, o).searched == seq_files(es, o),
    decreases es,
{
    if es.len() > 0 {
        lemma_seq_examined_counts_files(es.drop_last(), term, o);
        lemma_entry_examined_counts_files(es.last(), term, o);
    }
}

/// Below the root, a root-only ignore rule changes nothing: the counts are
/// those of the same settings with the ignore names cleared.
pub proof fn lemma_entry_root_only_ignore_inert(e: Entry, term: Seq<char>, o: OptionsView)
    requires
        !o.root,
        o.ignore.root_only,
    ensures
        entry_counts(e, term, o) == entry_counts(e, term, o.without_ignore_names()),
    decreases e,
{
    match e {
        Entry::File { .. } => {},
        Entry::Dir { entries, .. } => {
            lemma_seq_root_only_ignore_inert(entries@, term, o.child());
            assert(o.child().without_ignore_names() == o.without_ignore_names().child());
        },
    }
}

/// Below the root, a root-only ignore rule changes nothing over a listing.
pub proof fn lemma_seq_root_only_ignore_inert(es: Seq<Entry>, term: Seq<char>, o: OptionsView)
    requires
        !o.root,
        o.ignore.root_only,
    ensures
        seq_counts(es, term, o) == seq_counts(es, term, o.without_ignore_names()),
    decreases es,
{
    if es.len() > 0 {
        lemma_seq_root_only_ignore_inert(es.drop_last(), term, o);
        lemma_entry_root_only_ignore_inert(es.last(), term, o);
    }
}

/// Below the root, a root-only allow rule changes nothing: the counts are
/// those of the same settings with the allow names cleared.
pub proof fn lemma_entry_root_only_allow_inert(e: Entry, term: Seq<char>, o: OptionsView)
    requires
        !o.root,
        o.allow.root_only,
    ensures
        entry_counts(e, term, o) == entry_counts(e, term, o.without_allow_names()),
    decreases e,
{
    match e {
        Entry::File { .. } => {},
        Entry::Dir { entries, .. } => {
            lemma_seq_root_only_allow_inert(entries@, term, o.child());
            assert(o.child().without_allow_names() == o.without_allow_names().child());
        },
    }
}

/// Below the root, a root-only allow rule changes nothing over a listing.
pub proof fn lemma_seq_root_only_allow_inert(es: Seq<Entry>, term: Seq<char>, o: OptionsView)
    requires
        !o.root,
        o.allow.root_only,
    ensures
        seq_counts(es, term, o) == seq_counts(es, term, o.without_allow_names()),
    decreases es,
{
    if es.len() > 0 {
        lemma_seq_root_only_allow_inert(es.drop_last(), term, o);
        lemma_entry_root_only_allow_inert(es.last(), term, o);
    }
}

/// When neither rule is root-only, the rules are applied alike at every
/// depth: whether the single entry `e` is taken to stand at the root or
/// below it changes no count.
pub proof fn lemma_entry_plain_rules_every_depth(
    e: Entry,
    term: Seq<char>,
    o1: OptionsView,
    o2: OptionsView,
)
    requires
        !o1.ignore.root_only,
        !o1.allow.root_only,
        o1.ignore == o2.ignore,
        o1.allow == o2.allow,
    ensures
        entry_counts(e, term, o1) == entry_counts(e, term, o2),
    decreases e,
{
    match e {
        Entry::File { .. } => {},
        Entry::Dir { entries, .. } => {
            lemma_seq_plain_rules_every_depth(entries@, term, o1.child(), o2.child());
        },
    }
}

/// When neither rule is root-only, whether a listing is taken to stand at
/// the root or below it changes no count.
pub proof fn lemma_seq_plain_rules_every_depth(
    es: Seq<Entry>,
    term: Seq<char>,
    o1: OptionsView,
    o2: OptionsView,
)
    requires
        !o1.ignore.root_only,
        !o1.allow.root_only,
        o1.ignore == o2.ignore,
        o1.allow == o2.allow,
    ensures
        seq_counts(es, term, o1) == seq_counts(es, term, o2),
    decreases es,
{
    if es.len() > 0 {
        lemma_seq_plain_rules_every_depth(es.drop_last(), term, o1, o2);
        lemma_entry_plain_rules_every_depth(es.last(), term, o1, o2);
    }
}

/// Examines every file in the listing, descends into the subdirectories the
/// rules let through, and counts the files whose lowercased name matches the
/// lowercased search term.
pub fn search_entries(search: &str, entries: &[Entry], options: &Options) -> (r: SearchResult)
    requires
        seq_weight(entries@) <= u32::MAX,
        options@.wf(),
    ensures
        r.searched == seq_counts(entries@, lower_of(search@), options@).searched,
        r.found == seq_counts(entries@, lower_of(search@), options@).found,
    decreases seq_weight(entries@), 0nat,
{
    let term = lowercase(search);
    let mut found: u32 = 0;
    let mut searched: u32 = 0;
    let mut i: usize = 0;
    while i < entries.len()
        invariant
            i <= entries@.len(),
            seq_weight(entries@) <= u32::MAX,
            options@.wf(),
            term@ == lower_of(search@),
            searched == seq_counts(entries@.subrange(0, i as int), lower_of(search@), options@)
                .searched,
            found == seq_counts(entries@.subrange(0, i as int), lower_of(search@), options@).found,
        decreases entries@.len() - i,
    {
        let ghost pre = entries@.subrange(0, i as int);
        let ghost suf = entries@.subrange(i as int, entries@.len() as int);
        proof {
            lemma_seq_weight_split(entries@, i as int);
            lemma_seq_counts_bounds(pre, lower_of(search@), options@);
            assert(suf[0] == entries@[i as int]);
            lemma_entry_weight_le_seq(suf, 0);
        }
        let e = &entries[i];
        match e {
            Entry::File { name } => {
                let lower_name = lowercase(name.as_str());
                searched = searched + 1;
                if matches_pattern(lower_name.as_str(), term.as_str()) {
                    found = found + 1;
                }
            },
            Entry::Dir { name, entries: children } => {
                if should_descend(name.as_str(), options) {
                    let child_options = options.child();
                    proof {
                        lemma_entry_weight_le_seq(entries@, i as int);
                        lemma_seq_counts_bounds(children@, lower_of(search@), options@.child());
                    }
                    let sub = find_files(search, children.as_slice(), &child_options);
                    searched = searched + sub.searched;
                    found = found + sub.found;
                }
            },
        }
        proof {
            assert(entries@.subrange(0, i + 1 as int).drop_last() =~= pre);
            assert(entries@.subrange(0, i + 1 as int).last() == entries@[i as int]);
            assert(seq_counts(entries@.subrange(0, i + 1 as int), lower_of(search@), options@)
                == seq_counts(pre, lower_of(search@), options@).plus(
                entry_counts(entries@[i as int], lower_of(search@), options@),
            ));
        }
        i = i + 1;
    }
    proof {
        assert(entries@.subrange(0, entries@.len() as int) =~= entries@);
    }
    SearchResult { found, searched }
}

/// Whether a listing of `count` entries is split into two partitions that
/// parallel workers may process independently.
pub fn should_split(count: usize, options: &Options) -> (r: bool)
    requires
        options@.wf(),
    ensures
        r == (!options@.disable_concurrency && count as int
            >= options@.min_concurrent_directories),
{
    !options.disable_concurrency && count >= (options.min_concurrent_directories as usize)
}

/// Where a split listing is parted: the first partition is the entries
/// before this index, the second the entries from it on.
pub fn split_point(count: usize) -> (r: usize)
    requires
        count >= 2,
    ensures
        r == count / 2 + 1,
        2 <= r <= count,
{
    count / 2 + 1
}

/// Traverses a listing: short listings, and every listing when concurrency
/// is disabled, are processed in one piece; the rest are parted in two and
/// the partial counts are summed. Both ways yield the same counts.
pub fn find_files(search: &str, entries: &[Entry], options: &Options) -> (r: SearchResult)
    requires
        seq_weight(entries@) <= u32::MAX,
        options@.wf(),
    ensures
        r.searched == seq_counts(entries@, lower_of(search@), options@).searched,
        r.found == seq_counts(entries@, lower_of(search@), options@).found,
    decreases seq_weight(entries@), 1nat,
{
    let count = entries.len();
    if !should_split(count, options) {
        return search_entries(search, entries, options);
    }
    let mid = count / 2;
    proof {
        lemma_seq_weight_split(entries@, mid + 1 as int);
        lemma_seq_counts_split(entries@, lower_of(search@), options@, mid + 1 as int);
        lemma_seq_counts_bounds(entries@, lower_of(search@), options@);
        lemma_seq_counts_bounds(entries@.subrange(0, mid + 1 as int), lower_of(search@), options@);
    }
    let (first, second) = entries.split_at(mid + 1);
    let r1 = search_entries(search, first, options);
    let r2 = search_entries(search, second, options);
    SearchResult { found: r1.found + r2.found, searched: r1.searched + r2.searched }
}

} // verus!
