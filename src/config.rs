//! The registry of forums and lookups in it.
use crate::text::text_eq;
use vstd::prelude::*;

verus! {

/// Top-level configuration: the registry of forums.
#[derive(Clone, Debug)]
pub struct Config {
    pub discourse: Vec<DiscourseConfig>,
}

/// Configuration for a single Discourse install.
///
/// An optional field that is `None` was never set; `Some` of an empty value
/// is a placeholder written on purpose.
#[derive(Clone, Debug)]
pub struct DiscourseConfig {
    pub name: String,
    pub baseurl: String,
    pub apikey: Option<String>,
    pub api_username: Option<String>,
    pub changelog_path: Option<String>,
    pub tags: Option<Vec<String>>,
    pub changelog_topic_id: Option<u64>,
    pub ssh_host: Option<String>,
    pub fullname: Option<String>,
}

impl DiscourseConfig {
    /// An entry with the given name and base URL and no optional field set.
    pub fn named(name: String, baseurl: String) -> (r: DiscourseConfig)
        ensures
            r.name == name,
            r.baseurl == baseurl,
            r.apikey is None,
            r.api_username is None,
            r.changelog_path is None,
            r.tags is None,
            r.changelog_topic_id is None,
            r.ssh_host is None,
            r.fullname is None,
    {
        DiscourseConfig {
            name,
            baseurl,
            apikey: None,
            api_username: None,
            changelog_path: None,
            tags: None,
            changelog_topic_id: None,
            ssh_host: None,
            fullname: None,
        }
    }
}

/// `i` is the first position in `entries` whose entry is named `name`.
pub open spec fn first_named(entries: Seq<DiscourseConfig>, name: Seq<char>, i: int) -> bool {
    &&& 0 <= i < entries.len()
    &&& entries[i].name@ == name
    &&& forall|j: int| 0 <= j < i ==> entries[j].name@ != name
}

/// Some entry of `entries` is named `name`.
pub open spec fn has_named(entries: Seq<DiscourseConfig>, name: Seq<char>) -> bool {
    exists|i: int| 0 <= i < entries.len() && entries[i].name@ == name
}

/// The position of the first entry named `name`, if any.
fn position_of(entries: &Vec<DiscourseConfig>, name: &str) -> (r: Option<usize>)
    ensures
        r is None <==> !has_named(entries@, name@),
        r matches Some(i) ==> first_named(entries@, name@, i as int),
{
    let mut i: usize = 0;
    while i < entries.len()
        invariant
            i <= entries.len(),
            forall|j: int| 0 <= j < i ==> entries@[j].name@ != name@,
        decreases entries.len() - i,
    {
        if text_eq(entries[i].name.as_str(), name) {
            return Some(i);
        }
        i = i + 1;
    }
    None
}

/// Find a discourse by name.
pub fn find_discourse<'a>(config: &'a Config, name: &str) -> (r: Option<&'a DiscourseConfig>)
    ensures
        r is None <==> !has_named(config.discourse@, name@),
        r matches Some(d) ==> exists|i: int|
            first_named(config.discourse@, name@, i) && *d == config.discourse@[i],
{
    match position_of(&config.discourse, name) {
        Some(i) => Some(&config.discourse[i]),
        None => None,
    }
}

/// Find a discourse by name (mutable).
pub fn find_discourse_mut<'a>(config: &'a mut Config, name: &str) -> (r: Option<
    &'a mut DiscourseConfig,
>)
    ensures
        r is None <==> !has_named(old(config).discourse@, name@),
        r is None ==> *final(config) == *old(config),
        r matches Some(d) ==> exists|i: int|
            first_named(old(config).discourse@, name@, i) && *d == old(config).discourse@[i]
                && final(config).discourse@ == old(config).discourse@.update(i, *final(d)),
{
    match position_of(&config.discourse, name) {
        Some(i) => Some(&mut config.discourse[i]),
        None => None,
    }
}

} // verus!
