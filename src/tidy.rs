//! Registry reconciliation: which fields each entry lacks, placeholders for
//! the optional ones, and the order entries are kept in.
use crate::config::{Config, DiscourseConfig};
use crate::text::{ascii_lower_seq, chars_of, lower_chars, trim, trim_chars};
use vstd::multiset::Multiset;
use vstd::prelude::*;

verus! {

broadcast use vstd::seq_lib::group_to_multiset_ensures;

/// A field of a registry entry that the reconciliation reports when absent.
#[derive(PartialEq, Eq, Structural, Clone, Copy, Debug)]
pub enum RegistryField {
    Baseurl,
    Apikey,
    ApiUsername,
    Tags,
    SshHost,
    ChangelogTopicId,
}

impl RegistryField {
    /// The key the field has in the registry file.
    pub fn key(&self) -> (r: &'static str)
        ensures
            r@ == field_key(*self),
    {
        match self {
            RegistryField::Baseurl => "baseurl",
            RegistryField::Apikey => "apikey",
            RegistryField::ApiUsername => "api_username",
            RegistryField::Tags => "tags",
            RegistryField::SshHost => "ssh_host",
            RegistryField::ChangelogTopicId => "changelog_topic_id",
        }
    }
}

/// The key a field has in the registry file.
pub open spec fn field_key(f: RegistryField) -> Seq<char> {
    match f {
        RegistryField::Baseurl => "baseurl"@,
        RegistryField::Apikey => "apikey"@,
        RegistryField::ApiUsername => "api_username"@,
        RegistryField::Tags => "tags"@,
        RegistryField::SshHost => "ssh_host"@,
        RegistryField::ChangelogTopicId => "changelog_topic_id"@,
    }
}

/// `f` alone where `absent` holds, else nothing.
pub open spec fn flag(absent: bool, f: RegistryField) -> Seq<RegistryField> {
    if absent {
        seq![f]
    } else {
        Seq::empty()
    }
}

/// The fields `d` lacks, in the fixed order: a base URL that is blank, and
/// each optional field that was never set.
pub open spec fn missing_of(d: DiscourseConfig) -> Seq<RegistryField> {
    flag(trim(d.baseurl@).len() == 0, RegistryField::Baseurl) + flag(
        d.apikey is None,
        RegistryField::Apikey,
    ) + flag(d.api_username is None, RegistryField::ApiUsername) + flag(
        d.tags is None,
        RegistryField::Tags,
    ) + flag(d.ssh_host is None, RegistryField::SshHost) + flag(
        d.changelog_topic_id is None,
        RegistryField::ChangelogTopicId,
    )
}

/// The fields an entry lacks.
pub fn missing_fields(d: &DiscourseConfig) -> (r: Vec<RegistryField>)
    ensures
        r@ == missing_of(*d),
{
    let mut out: Vec<RegistryField> = Vec::new();
    if trim_chars(&chars_of(d.baseurl.as_str())).len() == 0 {
        out.push(RegistryField::Baseurl);
    }
    assert(out@ =~= flag(trim(d.baseurl@).len() == 0, RegistryField::Baseurl));
    let ghost s1 = out@;
    if d.apikey.is_none() {
        out.push(RegistryField::Apikey);
    }
    assert(out@ =~= s1 + flag(d.apikey is None, RegistryField::Apikey));
    let ghost s2 = out@;
    if d.api_username.is_none() {
        out.push(RegistryField::ApiUsername);
    }
    assert(out@ =~= s2 + flag(d.api_username is None, RegistryField::ApiUsername));
    let ghost s3 = out@;
    if d.tags.is_none() {
        out.push(RegistryField::Tags);
    }
    assert(out@ =~= s3 + flag(d.tags is None, RegistryField::Tags));
    let ghost s4 = out@;
    if d.ssh_host.is_none() {
        out.push(RegistryField::SshHost);
    }
    assert(out@ =~= s4 + flag(d.ssh_host is None, RegistryField::SshHost));
    let ghost s5 = out@;
    if d.changelog_topic_id.is_none() {
        out.push(RegistryField::ChangelogTopicId);
    }
    assert(out@ =~= s5 + flag(d.changelog_topic_id is None, RegistryField::ChangelogTopicId));
    out
}

/// The entry named `name` lacks `fields`.
#[derive(Clone, Debug)]
pub struct MissingReport {
    pub name: String,
    pub fields: Vec<RegistryField>,
}

impl View for MissingReport {
    type V = (Seq<char>, Seq<RegistryField>);

    open spec fn view(&self) -> (Seq<char>, Seq<RegistryField>) {
        (self.name@, self.fields@)
    }
}

/// For each entry that lacks a field, in order, its name and what it lacks.
pub open spec fn report_of(entries: Seq<DiscourseConfig>) -> Seq<(Seq<char>, Seq<RegistryField>)>
    decreases entries.len(),
{
    if entries.len() == 0 {
        Seq::empty()
    } else {
        let init = report_of(entries.drop_last());
        let m = missing_of(entries.last());
        if m.len() > 0 {
            init.push((entries.last().name@, m))
        } else {
            init
        }
    }
}

/// The views of a report.
pub open spec fn report_views(v: Seq<MissingReport>) -> Seq<(Seq<char>, Seq<RegistryField>)> {
    v.map_values(|m: MissingReport| m@)
}

/// The missing-field report of a registry.
pub fn missing_report(entries: &Vec<DiscourseConfig>) -> (r: Vec<MissingReport>)
    ensures
        report_views(r@) == report_of(entries@),
{
    let mut out: Vec<MissingReport> = Vec::new();
    let mut i: usize = 0;
    assert(report_views(out@) =~= report_of(entries@.subrange(0, 0)));
    while i < entries.len()
        invariant
            i <= entries.len(),
            report_views(out@) == report_of(entries@.subrange(0, i as int)),
        decreases entries.len() - i,
    {
        assert(entries@.subrange(0, i + 1).drop_last() =~= entries@.subrange(0, i as int));
        let fields = missing_fields(&entries[i]);
        if fields.len() > 0 {
            let ghost before = out@;
            let m = MissingReport { name: entries[i].name.clone(), fields };
            let ghost mv = m@;
            out.push(m);
            assert(report_views(out@) =~= report_views(before).push(mv));
        }
        i = i + 1;
    }
    assert(entries@.subrange(0, entries.len() as int) =~= entries@);
    out
}

/// `new` is `old` with each optional field that was never set filled with
/// its placeholder: an empty string, an empty tag list, topic id zero.
pub open spec fn is_backfill_of(new: DiscourseConfig, old: DiscourseConfig) -> bool {
    &&& new.name == old.name
    &&& new.baseurl == old.baseurl
    &&& new.changelog_path == old.changelog_path
    &&& new.fullname == old.fullname
    &&& old.apikey is Some ==> new.apikey == old.apikey
    &&& old.apikey is None ==> (new.apikey matches Some(s) && s@.len() == 0)
    &&& old.api_username is Some ==> new.api_username == old.api_username
    &&& old.api_username is None ==> (new.api_username matches Some(s) && s@.len() == 0)
    &&& old.tags is Some ==> new.tags == old.tags
    &&& old.tags is None ==> (new.tags matches Some(t) && t@.len() == 0)
    &&& old.ssh_host is Some ==> new.ssh_host == old.ssh_host
    &&& old.ssh_host is None ==> (new.ssh_host matches Some(s) && s@.len() == 0)
    &&& old.changelog_topic_id is Some ==> new.changelog_topic_id == old.changelog_topic_id
    &&& old.changelog_topic_id is None ==> new.changelog_topic_id == Some(0u64)
}

/// Fill each optional field of `d` that was never set with its placeholder.
pub fn backfill_placeholders(d: &mut DiscourseConfig)
    ensures
        is_backfill_of(*final(d), *old(d)),
{
    if d.apikey.is_none() {
        d.apikey = Some(String::new());
    }
    if d.api_username.is_none() {
        d.api_username = Some(String::new());
    }
    if d.tags.is_none() {
        d.tags = Some(Vec::new());
    }
    if d.changelog_topic_id.is_none() {
        d.changelog_topic_id = Some(0);
    }
    if d.ssh_host.is_none() {
        d.ssh_host = Some(String::new());
    }
}

/// Whether the forum's title should be fetched for `d`: it has none and its
/// base URL is not blank.
pub fn needs_fullname(d: &DiscourseConfig) -> (r: bool)
    ensures
        r == (d.fullname is None && trim(d.baseurl@).len() > 0),
{
    d.fullname.is_none() && trim_chars(&chars_of(d.baseurl.as_str())).len() > 0
}

/// `a` comes before `b` in the order of character codes, a proper prefix first.
pub open spec fn seq_lt(a: Seq<char>, b: Seq<char>) -> bool
    decreases a.len(),
{
    if a.len() == 0 {
        b.len() > 0
    } else if b.len() == 0 {
        false
    } else if a[0] != b[0] {
        a[0] < b[0]
    } else {
        seq_lt(a.drop_first(), b.drop_first())
    }
}

/// The registry order of names: by their ASCII-lower-cased form, names that
/// differ only in case by themselves.
pub open spec fn name_before(a: Seq<char>, b: Seq<char>) -> bool {
    seq_lt(ascii_lower_seq(a), ascii_lower_seq(b)) || (ascii_lower_seq(a) == ascii_lower_seq(b)
        && seq_lt(a, b))
}

/// No entry comes before the one ahead of it.
pub open spec fn adjacent_sorted(s: Seq<DiscourseConfig>) -> bool {
    forall|i: int| 0 <= i < s.len() - 1 ==> !name_before(#[trigger] s[i + 1].name@, s[i].name@)
}

/// No entry comes before any entry ahead of it.
pub open spec fn registry_sorted(s: Seq<DiscourseConfig>) -> bool {
    forall|i: int, j: int|
        0 <= i < j < s.len() ==> !name_before(#[trigger] s[j].name@, #[trigger] s[i].name@)
}

/// The order of character codes is transitive.
proof fn lemma_seq_lt_transitive(a: Seq<char>, b: Seq<char>, c: Seq<char>)
    requires
        seq_lt(a, b),
        seq_lt(b, c),
    ensures
        seq_lt(a, c),
    decreases a.len(),
{
    if a.len() > 0 && b.len() > 0 && c.len() > 0 && a[0] == b[0] && b[0] == c[0] {
        lemma_seq_lt_transitive(a.drop_first(), b.drop_first(), c.drop_first());
    }
}

/// Of two texts, one comes first, or they are equal.
proof fn lemma_seq_lt_total(a: Seq<char>, b: Seq<char>)
    ensures
        seq_lt(a, b) || seq_lt(b, a) || a == b,
{
    lemma_lower_eq(a, b);
}

/// The registry order is transitive.
proof fn lemma_name_before_transitive(a: Seq<char>, b: Seq<char>, c: Seq<char>)
    requires
        name_before(a, b),
        name_before(b, c),
    ensures
        name_before(a, c),
{
    let (la, lb, lc) = (ascii_lower_seq(a), ascii_lower_seq(b), ascii_lower_seq(c));
    if seq_lt(la, lb) && seq_lt(lb, lc) {
        lemma_seq_lt_transitive(la, lb, lc);
    } else if seq_lt(la, lb) {
    } else if seq_lt(lb, lc) {
    } else {
        lemma_seq_lt_transitive(a, b, c);
    }
}

/// Where neither of two names comes before the other, they are equal.
proof fn lemma_name_before_total(a: Seq<char>, b: Seq<char>)
    ensures
        name_before(a, b) || name_before(b, a) || a == b,
{
    lemma_seq_lt_total(ascii_lower_seq(a), ascii_lower_seq(b));
    lemma_seq_lt_total(a, b);
}

/// A registry in which no entry comes before its neighbour ahead is sorted
/// throughout.
pub proof fn lemma_adjacent_sorted_is_sorted(s: Seq<DiscourseConfig>)
    requires
        adjacent_sorted(s),
    ensures
        registry_sorted(s),
{
    assert forall|i: int, j: int| 0 <= i < j < s.len() implies !name_before(
        #[trigger] s[j].name@,
        #[trigger] s[i].name@,
    ) by {
        lemma_sorted_span(s, i, j);
    }
}

/// In an adjacently sorted registry, no entry comes before one behind it.
proof fn lemma_sorted_span(s: Seq<DiscourseConfig>, i: int, j: int)
    requires
        adjacent_sorted(s),
        0 <= i < j < s.len(),
    ensures
        !name_before(s[j].name@, s[i].name@),
    decreases j - i,
{
    if j > i + 1 {
        lemma_sorted_span(s, i, j - 1);
        assert(!name_before(s[(j - 1) + 1].name@, s[j - 1].name@));
        let (a, b, c) = (s[i].name@, s[j - 1].name@, s[j].name@);
        // a <= b and b <= c give a <= c
        lemma_name_before_total(a, b);
        lemma_name_before_total(b, c);
        if name_before(c, a) {
            if name_before(a, b) {
                lemma_name_before_transitive(c, a, b);
                if name_before(b, c) {
                    lemma_name_before_transitive(c, b, c);
                    lemma_name_before_asymmetric(c, c);
                }
            } else {
                assert(a == b);
            }
        }
    }
}

/// The order of character codes is asymmetric.
proof fn lemma_seq_lt_asymmetric(a: Seq<char>, b: Seq<char>)
    ensures
        seq_lt(a, b) ==> !seq_lt(b, a),
    decreases a.len(),
{
    if a.len() > 0 && b.len() > 0 && a[0] == b[0] {
        lemma_seq_lt_asymmetric(a.drop_first(), b.drop_first());
    }
}

/// The registry order is asymmetric.
proof fn lemma_name_before_asymmetric(a: Seq<char>, b: Seq<char>)
    ensures
        name_before(a, b) ==> !name_before(b, a),
{
    lemma_seq_lt_asymmetric(ascii_lower_seq(a), ascii_lower_seq(b));
    lemma_seq_lt_asymmetric(a, b);
}

/// Whether `a` comes before `b` in the order of character codes.
fn chars_lt(a: &Vec<char>, b: &Vec<char>) -> (r: bool)
    ensures
        r == seq_lt(a@, b@),
{
    let mut i: usize = 0;
    assert(a@.subrange(0, a.len() as int) =~= a@);
    assert(b@.subrange(0, b.len() as int) =~= b@);
    while i < a.len() && i < b.len() && a[i] == b[i]
        invariant
            i <= a.len(),
            i <= b.len(),
            seq_lt(a@, b@) == seq_lt(
                a@.subrange(i as int, a.len() as int),
                b@.subrange(i as int, b.len() as int),
            ),
        decreases a.len() - i,
    {
        assert(a@.subrange(i as int, a.len() as int).drop_first() =~= a@.subrange(
            i + 1,
            a.len() as int,
        ));
        assert(b@.subrange(i as int, b.len() as int).drop_first() =~= b@.subrange(
            i + 1,
            b.len() as int,
        ));
        i = i + 1;
    }
    if i == a.len() {
        i < b.len()
    } else if i == b.len() {
        false
    } else {
        a[i] < b[i]
    }
}

/// Whether the name `a` comes before the name `b` in the registry order.
pub fn name_precedes(a: &str, b: &str) -> (r: bool)
    ensures
        r == name_before(a@, b@),
{
    let x = chars_of(a);
    let y = chars_of(b);
    let lx = lower_chars(&x);
    let ly = lower_chars(&y);
    if chars_lt(&lx, &ly) {
        true
    } else if chars_lt(&ly, &lx) {
        false
    } else {
        proof {
            lemma_lower_eq(lx@, ly@);
        }
        chars_lt(&x, &y)
    }
}

/// Two texts neither of which comes before the other are equal.
proof fn lemma_lower_eq(a: Seq<char>, b: Seq<char>)
    ensures
        !seq_lt(a, b) && !seq_lt(b, a) ==> a == b,
    decreases a.len(),
{
    if a.len() > 0 && b.len() > 0 && a[0] == b[0] {
        lemma_lower_eq(a.drop_first(), b.drop_first());
        if a.drop_first() == b.drop_first() {
            assert forall|i: int| 0 <= i < a.len() implies a[i] == b[i] by {
                if i > 0 {
                    assert(a[i] == a.drop_first()[i - 1]);
                    assert(b[i] == b.drop_first()[i - 1]);
                }
            }
            assert(a =~= b);
        }
    } else if a.len() == 0 && b.len() == 0 {
        assert(a =~= b);
    }
}

/// Sort the registry by name: case-insensitively, names that differ only in
/// case by themselves.
pub fn sort_registry(entries: &mut Vec<DiscourseConfig>)
    ensures
        final(entries)@.to_multiset() == old(entries)@.to_multiset(),
        registry_sorted(final(entries)@),
{
    let mut out: Vec<DiscourseConfig> = Vec::new();
    let ghost start = entries@;
    while entries.len() > 0
        invariant
            out@.to_multiset().add(entries@.to_multiset()) == start.to_multiset(),
            adjacent_sorted(out@),
        decreases entries.len(),
    {
        let ghost rest = entries@;
        let x = entries.pop().unwrap();
        assert(rest =~= entries@.push(x));
        let mut p: usize = 0;
        while p < out.len() && name_precedes(out[p].name.as_str(), x.name.as_str())
            invariant
                p <= out.len(),
                forall|k: int| 0 <= k < p ==> name_before(#[trigger] out@[k].name@, x.name@),
            decreases out.len() - p,
        {
            p = p + 1;
        }
        let ghost before = out@;
        let ghost xv = x;
        proof {
            if p > 0 {
                assert(name_before(before[p - 1].name@, xv.name@));
                lemma_name_before_asymmetric(before[p - 1].name@, xv.name@);
            }
            if p < before.len() {
                assert(!name_before(before[p as int].name@, xv.name@));
            }
        }
        out.insert(p, x);
        assert(out@.to_multiset() == before.to_multiset().insert(xv));
        assert(rest.to_multiset() == entries@.to_multiset().insert(xv));
        assert(out@.to_multiset().add(entries@.to_multiset()) =~= start.to_multiset());
        assert forall|i: int| 0 <= i < out@.len() - 1 implies !name_before(
            #[trigger] out@[i + 1].name@,
            out@[i].name@,
        ) by {
            if i + 1 < p {
                assert(out@[i] == before[i] && out@[i + 1] == before[i + 1]);
                assert(!name_before(before[i + 1].name@, before[i].name@));
            } else if i + 1 == p {
                assert(out@[i] == before[i] && out@[i + 1] == xv);
            } else if i == p {
                assert(out@[i] == xv && out@[i + 1] == before[i]);
            } else {
                assert(out@[i] == before[i - 1] && out@[i + 1] == before[i]);
                assert(!name_before(before[(i - 1) + 1].name@, before[i - 1].name@));
            }
        }
    }
    assert(entries@.to_multiset() =~= Multiset::empty());
    assert(out@.to_multiset() =~= start.to_multiset());
    proof {
        lemma_adjacent_sorted_is_sorted(out@);
    }
    *entries = out;
}

/// Reconcile a registry: report what each entry lacks, as it was loaded;
/// fill the placeholders; sort the entries. Titles are left to the caller,
/// for the entries `needs_fullname` picks.
pub fn tidy(config: &mut Config) -> (r: Vec<MissingReport>)
    ensures
        report_views(r@) == report_of(old(config).discourse@),
        registry_sorted(final(config).discourse@),
        exists|filled: Seq<DiscourseConfig>|
            {
                &&& filled.len() == old(config).discourse@.len()
                &&& forall|i: int|
                    0 <= i < filled.len() ==> is_backfill_of(
                        #[trigger] filled[i],
                        old(config).discourse@[i],
                    )
                &&& final(config).discourse@.to_multiset() == #[trigger] filled.to_multiset()
            },
{
    let report = missing_report(&config.discourse);
    let ghost start = config.discourse@;
    let mut i: usize = 0;
    while i < config.discourse.len()
        invariant
            i <= config.discourse.len() == start.len(),
            forall|k: int| 0 <= k < i ==> is_backfill_of(#[trigger] config.discourse@[k], start[k]),
            forall|k: int| i <= k < start.len() ==> #[trigger] config.discourse@[k] == start[k],
        decreases start.len() - i,
    {
        backfill_placeholders(&mut config.discourse[i]);
        i = i + 1;
    }
    let ghost filled = config.discourse@;
    sort_registry(&mut config.discourse);
    assert(filled.len() == start.len());
    report
}

} // verus!
