//! Feature libraries: which discovered features load, under which symbol
//! names their exports are probed, and whether a feature's library is
//! present in the deployment directory.
use vstd::prelude::*;
use crate::json::views;
use crate::loader::file_mentions_feature;
use crate::settings::FeaturesSettings;
use crate::text::{ascii_lower, concat, contains};

verus! {

/// The discovered features that are not disabled, in order.
pub open spec fn enabled_features(names: Seq<String>, s: FeaturesSettings) -> Seq<Seq<char>>
    decreases names.len(),
{
    if names.len() == 0 {
        Seq::empty()
    } else {
        let head = enabled_features(names.drop_last(), s);
        if s.disabled_feature(names.last()@) {
            head
        } else {
            head.push(names.last()@)
        }
    }
}

/// The features to load, in discovery order.
pub fn features_to_load(names: &Vec<String>, s: &FeaturesSettings) -> (r: Vec<String>)
    ensures
        views(r@) == enabled_features(names@, *s),
{
    let mut out: Vec<String> = Vec::new();
    let mut i: usize = 0;
    while i < names.len()
        invariant
            i <= names@.len(),
            views(out@) == enabled_features(names@.take(i as int), *s),
        decreases names@.len() - i,
    {
        assert(names@.take(i + 1).drop_last() =~= names@.take(i as int));
        if !s.is_feature_disabled(names[i].as_str()) {
            out.push(names[i].clone());
            assert(views(out@) =~= views(out@.drop_last()).push(names@[i as int]@));
        }
        i += 1;
    }
    assert(names@.take(names@.len() as int) =~= names@);
    out
}

/// The symbols probed for an export of feature `feature`, in order: the
/// generic name, then the name suffixed with the feature's short name.
pub fn probe_symbols(export: &str, feature: &str) -> (r: Vec<String>)
    ensures
        r@.len() == 2,
        r@[0]@ == export@,
        r@[1]@ == export@ + "_"@ + feature@,
{
    let mut out: Vec<String> = Vec::new();
    out.push(String::from_str(export));
    out.push(concat(concat(export, "_").as_str(), feature));
    out
}

/// Whether one of `file_names` mentions `name`, ignoring ASCII case.
pub fn has_feature(file_names: &Vec<String>, name: &str) -> (r: bool)
    ensures
        r == exists|i: int| 0 <= i < file_names@.len() && contains(
            ascii_lower((#[trigger] file_names@[i])@),
            ascii_lower(name@),
        ),
{
    let mut i: usize = 0;
    while i < file_names.len()
        invariant
            i <= file_names@.len(),
            forall|k: int| 0 <= k < i ==> !contains(ascii_lower((#[trigger] file_names@[k])@), ascii_lower(name@)),
        decreases file_names@.len() - i,
    {
        if file_mentions_feature(file_names[i].as_str(), name) {
            return true;
        }
        i += 1;
    }
    false
}

} // verus!
