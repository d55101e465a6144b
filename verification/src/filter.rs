//! The decision whether to descend into a subdirectory.
//!
//! A candidate directory name is checked, lowercased, against the ignore
//! rule and then against the allow rule. A rule marked root-only is inert
//! for every call that is not at the root of the search: below the root it
//! neither blocks nor restricts anything.

use vstd::prelude::*;

use crate::casefold::lower_of;
use crate::casefold::lowercase;
use crate::config::Options;
use crate::config::OptionsView;

verus! {

/// The ignore rule lets the directory through: either the rule is inert for
/// this call (root-only, below the root), or the name is not listed.
pub open spec fn ignore_passes(lower: Seq<char>, o: OptionsView) -> bool {
    (o.ignore.root_only && !o.root) || !o.ignore.has_name(lower)
}

/// The allow rule lets the directory through: either the rule is inert for
/// this call (root-only, below the root), or it holds no names, or the name
/// is listed.
pub open spec fn allow_passes(lower: Seq<char>, o: OptionsView) -> bool {
    (o.allow.root_only && !o.root) || o.allow.is_empty() || o.allow.has_name(lower)
}

/// The traversal descends into a directory with the given lowercased name
/// exactly when both rules let it through.
pub open spec fn descend_ok(lower: Seq<char>, o: OptionsView) -> bool {
    ignore_passes(lower, o) && allow_passes(lower, o)
}

/// Whether the traversal descends into the directory called `name` under
/// the given settings.
pub fn should_descend(name: &str, options: &Options) -> (r: bool)
    ensures
        r == descend_ok(lower_of(name@), options@),
{
    let lower = lowercase(name);
    let ignore_inert = options.ignore.root_only && !options.root;
    if !ignore_inert && options.ignore.contains_name(&lower) {
        return false;
    }
    let allow_inert = options.allow.root_only && !options.root;
    if !allow_inert && options.allow.directories.len() > 0 && !options.allow.contains_name(&lower)
    {
        return false;
    }
    true
}

/// An empty allow rule imposes no restriction: with no allowed names listed,
/// only the ignore rule decides whether a directory is descended into.
pub proof fn lemma_empty_allow_no_restriction(lower: Seq<char>, o: OptionsView)
    requires
        o.allow.is_empty(),
    ensures
        descend_ok(lower, o) == ignore_passes(lower, o),
{
}

/// Below the root, a root-only rule decides nothing: the ignore rule blocks
/// no name, and the allow rule restricts nothing.
pub proof fn lemma_root_only_rules_inert_below_root(lower: Seq<char>, o: OptionsView)
    requires
        !o.root,
    ensures
        o.ignore.root_only ==> ignore_passes(lower, o),
        o.allow.root_only ==> allow_passes(lower, o),
{
}

/// At the root, the root-only flags make no difference: the two rules are
/// applied there whether or not they are scoped to the root.
pub proof fn lemma_root_only_alike_at_root(lower: Seq<char>, o1: OptionsView, o2: OptionsView)
    requires
        o1.root,
        o2.root,
        o1.ignore.names == o2.ignore.names,
        o1.allow.names == o2.allow.names,
    ensures
        descend_ok(lower, o1) == descend_ok(lower, o2),
{
}

/// A rule that is not root-only is applied the same way at every depth: the
/// decision does not read the root flag.
pub proof fn lemma_plain_rules_ignore_depth(lower: Seq<char>, o1: OptionsView, o2: OptionsView)
    requires
        !o1.ignore.root_only,
        !o1.allow.root_only,
        o1.ignore == o2.ignore,
        o1.allow == o2.allow,
    ensures
        descend_ok(lower, o1) == descend_ok(lower, o2),
{
}

} // verus!
