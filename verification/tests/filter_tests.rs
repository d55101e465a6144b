use fsearch::config::DirList;
use fsearch::config::Options;
use fsearch::filter::should_descend;

fn options_with(ignore: Vec<&str>, ignore_root_only: bool, allow: Vec<&str>, allow_root_only: bool, root: bool) -> Options {
    Options {
        ignore: DirList {
            directories: ignore.into_iter().map(|s| s.to_string()).collect(),
            root_only: ignore_root_only,
        },
        allow: DirList {
            directories: allow.into_iter().map(|s| s.to_string()).collect(),
            root_only: allow_root_only,
        },
        disable_concurrency: false,
        root,
        min_concurrent_directories: 2,
    }
}

#[test]
fn no_rules_descends_everywhere() {
    let o = options_with(vec![], false, vec![], false, true);
    assert!(should_descend("src", &o));
    assert!(should_descend("target", &o));
}

#[test]
fn ignored_name_is_skipped() {
    let o = options_with(vec!["target"], false, vec![], false, true);
    assert!(!should_descend("target", &o));
    assert!(should_descend("src", &o));
}

#[test]
fn ignore_rule_folds_case() {
    // The candidate name is lowercased before the lowercased list is
    // consulted; without that fold "TARGET" would slip through.
    let o = options_with(vec!["target"], false, vec![], false, true);
    assert!(!should_descend("TARGET", &o));
    assert!(!should_descend("Target", &o));
}

#[test]
fn root_only_ignore_applies_at_root_alone() {
    let at_root = options_with(vec!["target"], true, vec![], false, true);
    assert!(!should_descend("target", &at_root));
    let below = options_with(vec!["target"], true, vec![], false, false);
    assert!(should_descend("target", &below));
}

#[test]
fn plain_ignore_applies_at_every_depth() {
    let at_root = options_with(vec!["target"], false, vec![], false, true);
    let below = options_with(vec!["target"], false, vec![], false, false);
    assert!(!should_descend("target", &at_root));
    assert!(!should_descend("target", &below));
}

#[test]
fn empty_allow_list_restricts_nothing() {
    let o = options_with(vec![], false, vec![], false, false);
    assert!(should_descend("anything", &o));
}

#[test]
fn allow_list_admits_only_members() {
    let o = options_with(vec![], false, vec!["src", "docs"], false, true);
    assert!(should_descend("src", &o));
    assert!(should_descend("DOCS", &o));
    assert!(!should_descend("target", &o));
}

#[test]
fn root_only_allow_applies_at_root_alone() {
    let at_root = options_with(vec![], false, vec!["src"], true, true);
    assert!(!should_descend("target", &at_root));
    let below = options_with(vec![], false, vec!["src"], true, false);
    assert!(should_descend("target", &below));
}

#[test]
fn ignore_wins_over_allow() {
    let o = options_with(vec!["src"], false, vec!["src"], false, true);
    assert!(!should_descend("src", &o));
}
