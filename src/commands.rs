//! The decisions behind registry commands: which names to add, which
//! entries a tag filter keeps, and the completion script's sort style.
use crate::config::{has_named, Config, DiscourseConfig};
use crate::text::{
    ascii_lower_seq, chars_eq, chars_of, concat_chars, find_subslice, first_occurrence,
    list_items, occurs_at, lower_chars, slice_chars, split_items, string_of, text_eq, texts, trim,
    trim_chars,
};
use vstd::prelude::*;

verus! {

/// The names of a comma-separated list, in order, leaving out each one the
/// registry `existing` already holds or that came earlier in the list.
pub open spec fn fresh_names(existing: Seq<DiscourseConfig>, names: Seq<Seq<char>>) -> Seq<
    Seq<char>,
>
    decreases names.len(),
{
    if names.len() == 0 {
        Seq::empty()
    } else {
        let init = fresh_names(existing, names.drop_last());
        let n = names.last();
        if has_named(existing, n) || init.contains(n) {
            init
        } else {
            init.push(n)
        }
    }
}

/// Whether `v` holds a string with the characters of `s`.
fn holds_text(v: &Vec<String>, s: &str) -> (r: bool)
    ensures
        r == texts(v@).contains(s@),
{
    let mut i: usize = 0;
    while i < v.len()
        invariant
            i <= v.len(),
            forall|j: int| 0 <= j < i ==> v@[j]@ != s@,
        decreases v.len() - i,
    {
        if text_eq(v[i].as_str(), s) {
            assert(texts(v@)[i as int] == s@);
            return true;
        }
        i = i + 1;
    }
    assert forall|j: int| 0 <= j < texts(v@).len() implies texts(v@)[j] != s@ by {
        assert(texts(v@)[j] == v@[j]@);
    }
    false
}

/// Whether some entry of `entries` is named `name`.
fn holds_name(entries: &Vec<DiscourseConfig>, name: &str) -> (r: bool)
    ensures
        r == has_named(entries@, name@),
{
    let mut i: usize = 0;
    while i < entries.len()
        invariant
            i <= entries.len(),
            forall|j: int| 0 <= j < i ==> entries@[j].name@ != name@,
        decreases entries.len() - i,
    {
        if text_eq(entries[i].name.as_str(), name) {
            return true;
        }
        i = i + 1;
    }
    false
}

/// The names of the comma-separated list `names` that are new to the
/// registry, each once, in order.
pub fn names_to_add(config: &Config, names: &str) -> (r: Vec<String>)
    ensures
        texts(r@) == fresh_names(config.discourse@, list_items(names@, ","@)),
{
    let items = split_items(names, ",");
    let ghost all = list_items(names@, ","@);
    let mut out: Vec<String> = Vec::new();
    let mut i: usize = 0;
    assert(texts(out@) =~= fresh_names(config.discourse@, all.subrange(0, 0)));
    while i < items.len()
        invariant
            i <= items.len(),
            texts(items@) == all,
            texts(out@) == fresh_names(config.discourse@, all.subrange(0, i as int)),
        decreases items.len() - i,
    {
        assert(all.subrange(0, i + 1).drop_last() =~= all.subrange(0, i as int));
        assert(all.subrange(0, i + 1).last() == items@[i as int]@);
        let n = items[i].as_str();
        if !holds_name(&config.discourse, n) && !holds_text(&out, n) {
            let ghost before = out@;
            out.push(items[i].clone());
            assert(texts(out@) =~= texts(before).push(items@[i as int]@));
        }
        i = i + 1;
    }
    assert(all.subrange(0, items.len() as int) =~= all);
    out
}

/// An entry with every optional field but the title set to its placeholder.
pub open spec fn is_placeholder_entry(d: DiscourseConfig, name: Seq<char>) -> bool {
    &&& d.name@ == name
    &&& d.baseurl@.len() == 0
    &&& d.apikey matches Some(s) && s@.len() == 0
    &&& d.api_username matches Some(s) && s@.len() == 0
    &&& d.changelog_path is None
    &&& d.tags matches Some(t) && t@.len() == 0
    &&& d.changelog_topic_id == Some(0u64)
    &&& d.ssh_host matches Some(s) && s@.len() == 0
    &&& d.fullname is None
}

/// An entry named `name` with placeholders in its optional fields.
pub fn placeholder_entry(name: String) -> (r: DiscourseConfig)
    ensures
        is_placeholder_entry(r, name@),
{
    DiscourseConfig {
        name,
        baseurl: String::new(),
        apikey: Some(String::new()),
        api_username: Some(String::new()),
        changelog_path: None,
        tags: Some(Vec::new()),
        changelog_topic_id: Some(0),
        ssh_host: Some(String::new()),
        fullname: None,
    }
}

/// Add an entry with placeholders for each name of the comma-separated list
/// `names` that the registry does not hold yet.
pub fn add_discourses(config: &mut Config, names: &str)
    ensures
        ({
            let fresh = fresh_names(old(config).discourse@, list_items(names@, ","@));
            &&& final(config).discourse@.len() == old(config).discourse@.len() + fresh.len()
            &&& forall|i: int|
                0 <= i < old(config).discourse@.len() ==> #[trigger] final(config).discourse@[i]
                    == old(config).discourse@[i]
            &&& forall|k: int|
                0 <= k < fresh.len() ==> is_placeholder_entry(
                    #[trigger] final(config).discourse@[old(config).discourse@.len() + k],
                    fresh[k],
                )
        }),
{
    let fresh = names_to_add(config, names);
    let ghost start = config.discourse@;
    let mut i: usize = 0;
    while i < fresh.len()
        invariant
            i <= fresh.len(),
            config.discourse@.len() == start.len() + i,
            forall|j: int| 0 <= j < start.len() ==> #[trigger] config.discourse@[j] == start[j],
            forall|k: int|
                0 <= k < i ==> is_placeholder_entry(
                    #[trigger] config.discourse@[start.len() + k],
                    fresh@[k]@,
                ),
        decreases fresh.len() - i,
    {
        config.discourse.push(placeholder_entry(fresh[i].clone()));
        i = i + 1;
    }
    assert forall|k: int| 0 <= k < fresh@.len() implies texts(fresh@)[k] == fresh@[k]@ by {}
}

/// The entry is kept by a tag filter: the filter is empty, or the entry has
/// tags and one of them equals one of the filter's, ignoring ASCII case.
pub open spec fn tags_match(d: DiscourseConfig, filter: Seq<Seq<char>>) -> bool {
    filter.len() == 0 || match d.tags {
        Some(t) => shares_tag(filter, texts(t@)),
        None => false,
    }
}

/// Some tag of `a` equals some tag of `b`, ignoring ASCII case.
pub open spec fn shares_tag(a: Seq<Seq<char>>, b: Seq<Seq<char>>) -> bool {
    exists|i: int, j: int|
        0 <= i < a.len() && 0 <= j < b.len() && ascii_lower_seq(#[trigger] a[i])
            == ascii_lower_seq(#[trigger] b[j])
}

/// Whether a tag filter keeps the entry `d`.
pub fn matches_tag_filter(d: &DiscourseConfig, filter: &Vec<String>) -> (r: bool)
    ensures
        r == tags_match(*d, texts(filter@)),
{
    if filter.len() == 0 {
        return true;
    }
    let tags = match &d.tags {
        Some(t) => t,
        None => {
            return false;
        },
    };
    let mut i: usize = 0;
    while i < filter.len()
        invariant
            i <= filter.len(),
            d.tags == Some(*tags),
            forall|a: int, b: int|
                0 <= a < i && 0 <= b < tags@.len() ==> ascii_lower_seq(#[trigger] filter@[a]@)
                    != ascii_lower_seq(#[trigger] tags@[b]@),
        decreases filter.len() - i,
    {
        let f = lower_chars(&chars_of(filter[i].as_str()));
        let mut j: usize = 0;
        while j < tags.len()
            invariant
                i < filter.len(),
                j <= tags.len(),
                d.tags == Some(*tags),
                f@ == ascii_lower_seq(filter@[i as int]@),
                forall|b: int|
                    0 <= b < j ==> f@ != ascii_lower_seq(#[trigger] tags@[b]@),
            decreases tags.len() - j,
        {
            if chars_eq(&f, &lower_chars(&chars_of(tags[j].as_str()))) {
                let ghost t = texts(filter@);
                assert(t[i as int] == filter@[i as int]@);
                assert(texts(tags@)[j as int] == tags@[j as int]@);
                assert(ascii_lower_seq(t[i as int]) == ascii_lower_seq(texts(tags@)[j as int]));
                assert(shares_tag(t, texts(tags@)));
                assert(tags_match(*d, t));
                return true;
            }
            j = j + 1;
        }
        i = i + 1;
    }
    let ghost t = texts(filter@);
    assert forall|a: int, b: int|
        0 <= a < t.len() && 0 <= b < tags@.len() implies ascii_lower_seq(#[trigger] t[a])
        != ascii_lower_seq(#[trigger] texts(tags@)[b]) by {
        assert(t[a] == filter@[a]@);
        assert(texts(tags@)[b] == tags@[b]@);
    }
    false
}

/// Both credentials are set and neither is blank.
pub open spec fn credentials_present(d: DiscourseConfig) -> bool {
    &&& d.apikey matches Some(k) && trim(k@).len() > 0
    &&& d.api_username matches Some(u) && trim(u@).len() > 0
}

/// Whether `d` carries an API key and user name, neither blank.
pub fn has_api_credentials(d: &DiscourseConfig) -> (r: bool)
    ensures
        r == credentials_present(*d),
{
    match (&d.apikey, &d.api_username) {
        (Some(k), Some(u)) => trim_chars(&chars_of(k.as_str())).len() > 0 && trim_chars(
            &chars_of(u.as_str()),
        ).len() > 0,
        _ => false,
    }
}

/// The line that turns off sorting of completions in zsh.
pub open spec fn zsh_sort_style() -> Seq<char> {
    "zstyle ':completion:*:dsc:*' sort false"@
}

/// The line after which the sort style goes.
pub open spec fn zsh_marker() -> Seq<char> {
    "autoload -U is-at-least\n"@
}

/// The completion script with the sort style in it: unchanged where it holds
/// the style, else the style on a line of its own after the first marker
/// line, or before everything where there is no marker.
pub open spec fn with_sort_style(content: Seq<char>) -> Seq<char> {
    if first_occurrence(content, zsh_sort_style(), 0) is Some {
        content
    } else {
        match first_occurrence(content, zsh_marker(), 0) {
            Some(pos) => {
                let at = pos + zsh_marker().len();
                content.subrange(0, at) + seq!['\n'] + zsh_sort_style() + seq!['\n']
                    + content.subrange(at, content.len() as int)
            },
            None => zsh_sort_style() + seq!['\n', '\n'] + content,
        }
    }
}

/// Put the sort style into a zsh completion script.
pub fn inject_zsh_sort_style(content: String) -> (r: String)
    ensures
        r@ == with_sort_style(content@),
{
    let text = chars_of(content.as_str());
    let style = chars_of("zstyle ':completion:*:dsc:*' sort false");
    let marker = chars_of("autoload -U is-at-least\n");
    let newline = chars_of("\n");
    proof {
        reveal_strlit("\n");
        assert(newline@ =~= seq!['\n']);
    }
    if find_subslice(&text, &style, 0).is_some() {
        return content;
    }
    match find_subslice(&text, &marker, 0) {
        Some(pos) => {
            let n = text.len();
            assert(occurs_at(text@, marker@, pos as int));
            let at = pos + marker.len();
            let head = concat_chars(&slice_chars(&text, 0, at), &newline);
            let mid = concat_chars(&concat_chars(&head, &style), &newline);
            string_of(concat_chars(&mid, &slice_chars(&text, at, text.len())).as_slice())
        },
        None => {
            let head = concat_chars(&concat_chars(&style, &newline), &newline);
            string_of(concat_chars(&head, &text).as_slice())
        },
    }
}

} // verus!
