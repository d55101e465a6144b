use fsearch::config::DirList;
use fsearch::config::Options;
use fsearch::config::SearchResult;
use fsearch::walk::find_files;
use fsearch::walk::search_entries;
use fsearch::walk::should_split;
use fsearch::walk::split_point;
use fsearch::walk::Entry;

fn file(name: &str) -> Entry {
    Entry::File { name: name.to_string() }
}

fn dir(name: &str, entries: Vec<Entry>) -> Entry {
    Entry::Dir { name: name.to_string(), entries }
}

fn plain_options(concurrent: bool) -> Options {
    Options {
        ignore: DirList::new(),
        allow: DirList::new(),
        disable_concurrency: !concurrent,
        root: true,
        min_concurrent_directories: 2,
    }
}

/// The tree `./a/x.txt`, `./a/y.log`, `./b/x.txt`.
fn sample_tree() -> Vec<Entry> {
    vec![
        dir("a", vec![file("x.txt"), file("y.log")]),
        dir("b", vec![file("x.txt")]),
    ]
}

#[test]
fn sample_tree_txt_counts() {
    let tree = sample_tree();
    let r = find_files("*.txt", &tree, &plain_options(false));
    assert_eq!(r.found, 2);
    assert_eq!(r.searched, 3);
}

#[test]
fn sample_tree_ignoring_b() {
    let tree = sample_tree();
    let mut o = plain_options(false);
    o.ignore.directories.push("b".to_string());
    let r = find_files("*.txt", &tree, &o);
    assert_eq!(r.found, 1);
    assert_eq!(r.searched, 2);
}

#[test]
fn split_of_two_entries_merges_to_sequential_counts() {
    // With the threshold at 2 and two entries at the root the listing is
    // split, and the summed partition counts equal the one-piece counts.
    let tree = sample_tree();
    let o = plain_options(true);
    assert!(should_split(tree.len(), &o));
    let parallel = find_files("*.txt", &tree, &o);
    let sequential = find_files("*.txt", &tree, &plain_options(false));
    assert_eq!(parallel.found, sequential.found);
    assert_eq!(parallel.searched, sequential.searched);
    assert_eq!(parallel.found, 2);
    assert_eq!(parallel.searched, 3);
}

#[test]
fn split_point_takes_one_past_the_middle() {
    // The first partition holds the indices up to and including the middle.
    assert_eq!(split_point(2), 2);
    assert_eq!(split_point(3), 2);
    assert_eq!(split_point(4), 3);
    assert_eq!(split_point(5), 3);
}

#[test]
fn concurrency_does_not_change_counts_on_a_wide_tree() {
    let tree = vec![
        file("a.txt"),
        dir("one", vec![file("b.txt"), dir("deep", vec![file("c.txt"), file("d.log")])]),
        file("e.log"),
        dir("two", vec![]),
        dir("three", vec![file("f.txt")]),
    ];
    let with_split = find_files("*.txt", &tree, &plain_options(true));
    let without = find_files("*.txt", &tree, &plain_options(false));
    assert_eq!(with_split.searched, without.searched);
    assert_eq!(with_split.found, without.found);
    assert_eq!(with_split.searched, 6);
    assert_eq!(with_split.found, 4);
}

#[test]
fn search_entries_equals_find_files() {
    let tree = sample_tree();
    let o = plain_options(true);
    let direct = search_entries("*.txt", &tree, &o);
    let routed = find_files("*.txt", &tree, &o);
    assert_eq!(direct.found, routed.found);
    assert_eq!(direct.searched, routed.searched);
}

#[test]
fn root_only_ignore_spares_nested_directories() {
    // The same name is ignored at the root but descended into one level
    // down when the rule is root-only.
    let tree = vec![dir("outer", vec![dir("skip", vec![file("in.txt")])]), dir(
        "skip",
        vec![file("at_root.txt")],
    )];
    let mut root_only = plain_options(false);
    root_only.ignore.directories.push("skip".to_string());
    root_only.ignore.root_only = true;
    let r = find_files("*.txt", &tree, &root_only);
    assert_eq!(r.searched, 1);
    assert_eq!(r.found, 1);

    let mut everywhere = plain_options(false);
    everywhere.ignore.directories.push("skip".to_string());
    let r2 = find_files("*.txt", &tree, &everywhere);
    assert_eq!(r2.searched, 0);
    assert_eq!(r2.found, 0);
}

#[test]
fn allow_rule_limits_descent() {
    let tree = sample_tree();
    let mut o = plain_options(false);
    o.allow.directories.push("a".to_string());
    let r = find_files("*.txt", &tree, &o);
    assert_eq!(r.searched, 2);
    assert_eq!(r.found, 1);
}

#[test]
fn matching_folds_case_inside_the_walk() {
    let tree = vec![dir("A", vec![file("UPPER.TXT")])];
    let mut o = plain_options(false);
    o.ignore.directories.push("a".to_string());
    // The directory name "A" is lowercased before the ignore list is read.
    let r = find_files("*.txt", &tree, &o);
    assert_eq!(r.searched, 0);
    // Without the rule, the file name "UPPER.TXT" is lowercased before the
    // lowercased term is applied.
    let r2 = find_files("*.TxT", &tree, &plain_options(false));
    assert_eq!(r2.searched, 1);
    assert_eq!(r2.found, 1);
}

#[test]
fn dir_list_new_is_empty() {
    let d = DirList::new();
    assert_eq!(d.directories.len(), 0);
    assert!(!d.root_only);
}

#[test]
fn search_result_new_and_merged() {
    let zero = SearchResult::new();
    assert_eq!(zero.found, 0);
    assert_eq!(zero.searched, 0);
    let a = SearchResult { found: 2, searched: 5 };
    let b = SearchResult { found: 1, searched: 3 };
    let m = a.merged(&b);
    assert_eq!(m.found, 3);
    assert_eq!(m.searched, 8);
}

#[test]
fn should_split_honours_switch_and_threshold() {
    let mut o = plain_options(true);
    assert!(should_split(2, &o));
    assert!(!should_split(1, &o));
    o.min_concurrent_directories = 4;
    assert!(!should_split(3, &o));
    assert!(should_split(4, &o));
    o.disable_concurrency = true;
    assert!(!should_split(4, &o));
}

#[test]
fn child_options_drop_the_root_flag_only() {
    let mut o = plain_options(true);
    o.ignore.directories.push("target".to_string());
    o.allow.directories.push("src".to_string());
    o.allow.root_only = true;
    let c = o.child();
    assert!(!c.root);
    assert_eq!(c.ignore.directories, vec!["target".to_string()]);
    assert_eq!(c.allow.directories, vec!["src".to_string()]);
    assert!(c.allow.root_only);
    assert!(!c.disable_concurrency);
    assert_eq!(c.min_concurrent_directories, 2);
}

#[test]
fn cloned_options_keep_their_fields() {
    let mut o = plain_options(false);
    o.ignore.directories.push("target".to_string());
    o.root = true;
    let c = o.clone();
    assert_eq!(c.ignore.directories, vec!["target".to_string()]);
    assert!(c.root);
    assert!(c.disable_concurrency);
}

#[test]
fn empty_listing_counts_nothing() {
    let tree: Vec<Entry> = vec![];
    let r = find_files("*.txt", &tree, &plain_options(true));
    assert_eq!(r.found, 0);
    assert_eq!(r.searched, 0);
}
