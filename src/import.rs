//! Import of forum entries from text: a list of URLs, one per line, or CSV
//! rows of name, URL and tags, told apart before parsing.
use crate::config::DiscourseConfig;
use crate::paths::{extension_of_path, path_extension};
use crate::text::{
    ascii_lower_seq, chars_eq, chars_of, contains_seq, find_subslice, is_one_of, list_items,
    lower_chars, split_items, string_of, texts, trim, trimmed,
};
use crate::utils::{slug, slugify};
use vstd::prelude::*;

verus! {

/// One entry to import: an optional name, a URL (never empty), and
/// optional tags (never an empty list).
#[derive(Clone, Debug)]
pub struct ImportRecord {
    pub name: Option<String>,
    pub url: String,
    pub tags: Option<Vec<String>>,
}

impl View for ImportRecord {
    type V = (Option<Seq<char>>, Seq<char>, Option<Seq<Seq<char>>>);

    open spec fn view(&self) -> (Option<Seq<char>>, Seq<char>, Option<Seq<Seq<char>>>) {
        (
            match self.name {
                Some(n) => Some(n@),
                None => None,
            },
            self.url@,
            match self.tags {
                Some(t) => Some(texts(t@)),
                None => None,
            },
        )
    }
}

/// The views of a list of records.
pub open spec fn record_views(v: Seq<ImportRecord>) -> Seq<
    (Option<Seq<char>>, Seq<char>, Option<Seq<Seq<char>>>),
> {
    v.map_values(|r: ImportRecord| r@)
}

/// The CSV records of `text` after its header row, each a sequence of
/// fields; `None` where the text is not valid CSV of that shape.
pub uninterp spec fn csv_rows(text: Seq<char>) -> Option<Seq<Seq<Seq<char>>>>;

#[verifier::external_type_specification]
#[verifier::external_body]
pub struct ExCsvError(csv::Error);

/// Relies on `csv::Reader::from_reader` in its default configuration (comma
/// delimiter, first record a header that is not returned, every record as
/// long as the header) and `Reader::records`: the records or the first error,
/// depending on the text alone.
#[verifier::external_body]
fn read_csv_records(text: &str) -> (r: Result<Vec<Vec<String>>, csv::Error>)
    ensures
        r is Ok <==> csv_rows(text@) is Some,
        r matches Ok(rows) ==> csv_rows(text@) == Some(
            rows@.map_values(|row: Vec<String>| texts(row@)),
        ),
{
    csv::Reader::from_reader(text.as_bytes()).records().map(
        |rec| rec.map(|rec| rec.iter().map(String::from).collect()),
    ).collect()
}

/// Import failed as a whole.
#[derive(Debug)]
pub enum ImportError {
    /// The input was read as CSV and is not valid CSV.
    Csv(csv::Error),
}

/// The tags a text lists, separated by commas or semicolons, trimmed,
/// blank ones left out.
pub open spec fn tag_list(s: Seq<char>) -> Seq<Seq<char>> {
    list_items(s, ",;"@)
}

/// Parse a list of tags separated by commas or semicolons.
pub fn parse_tags(raw: &str) -> (r: Vec<String>)
    ensures
        texts(r@) == tag_list(raw@),
{
    split_items(raw, ",;")
}

/// The non-blank lines of a text, trimmed.
pub open spec fn text_lines(s: Seq<char>) -> Seq<Seq<char>> {
    list_items(s, "\n"@)
}

/// The first non-blank line holds a comma and, in any ASCII case, both
/// `name` and `url`: a CSV header.
pub open spec fn csv_header_first(raw: Seq<char>) -> bool {
    let ls = text_lines(raw);
    &&& ls.len() > 0
    &&& contains_seq(ascii_lower_seq(ls[0]), "name"@)
    &&& contains_seq(ascii_lower_seq(ls[0]), "url"@)
    &&& ls[0].contains(',')
}

/// Input is read as CSV where the path it came from has the extension
/// `csv`, or where its first non-blank line looks like a CSV header.
pub open spec fn is_csv_input(raw: Seq<char>, path_hint: Option<Seq<char>>) -> bool {
    (path_hint is Some && path_extension(path_hint->0) == Some("csv"@)) || csv_header_first(raw)
}

/// Whether `n` stands somewhere in `h`.
fn contains_text(h: &Vec<char>, n: &Vec<char>) -> (r: bool)
    requires
        n.len() > 0,
    ensures
        r == contains_seq(h@, n@),
{
    find_subslice(h, n, 0).is_some()
}

/// Whether the first non-blank line of `raw` looks like a CSV header.
pub fn looks_like_csv(raw: &str) -> (r: bool)
    ensures
        r == csv_header_first(raw@),
{
    let lines = split_items(raw, "\n");
    if lines.len() == 0 {
        return false;
    }
    let first = chars_of(lines[0].as_str());
    assert(first@ == text_lines(raw@)[0]);
    let lower = lower_chars(&first);
    let name = chars_of("name");
    let url = chars_of("url");
    proof {
        reveal_strlit("name");
        reveal_strlit("url");
    }
    contains_text(&lower, &name) && contains_text(&lower, &url) && is_one_of(',', &first)
}

/// Whether input from `path_hint` holding `raw` is read as CSV.
pub fn input_is_csv(raw: &str, path_hint: Option<&str>) -> (r: bool)
    ensures
        r == is_csv_input(
            raw@,
            match path_hint {
                Some(p) => Some(p@),
                None => None,
            },
        ),
{
    let by_extension = match path_hint {
        Some(p) => match extension_of_path(p) {
            Some(e) => chars_eq(&e, &chars_of("csv")),
            None => false,
        },
        None => false,
    };
    by_extension || looks_like_csv(raw)
}

/// Field `k` of a CSV row, trimmed; empty where the row is shorter.
pub open spec fn cell(row: Seq<Seq<char>>, k: int) -> Seq<char> {
    if 0 <= k < row.len() {
        trim(row[k])
    } else {
        Seq::empty()
    }
}

/// The record a CSV row gives: name, URL and tags by position; `None` where
/// the URL is empty. An empty name is no name, an empty tag list no tags.
pub open spec fn row_record(row: Seq<Seq<char>>) -> Option<
    (Option<Seq<char>>, Seq<char>, Option<Seq<Seq<char>>>),
> {
    let name = cell(row, 0);
    let url = cell(row, 1);
    if url.len() == 0 {
        None
    } else {
        Some(
            (
                if name.len() == 0 {
                    None
                } else {
                    Some(name)
                },
                url,
                if row.len() > 2 && tag_list(row[2]).len() > 0 {
                    Some(tag_list(row[2]))
                } else {
                    None
                },
            ),
        )
    }
}

/// The records CSV rows give, in order, rows without a URL left out.
pub open spec fn rows_records(rows: Seq<Seq<Seq<char>>>) -> Seq<
    (Option<Seq<char>>, Seq<char>, Option<Seq<Seq<char>>>),
>
    decreases rows.len(),
{
    if rows.len() == 0 {
        Seq::empty()
    } else {
        let init = rows_records(rows.drop_last());
        match row_record(rows.last()) {
            Some(r) => init.push(r),
            None => init,
        }
    }
}

/// The records a list of URLs gives: one per non-blank line.
pub open spec fn line_records(raw: Seq<char>) -> Seq<
    (Option<Seq<char>>, Seq<char>, Option<Seq<Seq<char>>>),
> {
    text_lines(raw).map_values(
        |u: Seq<char>| (None::<Seq<char>>, u, None::<Seq<Seq<char>>>),
    )
}

/// The record a CSV row gives.
fn record_from_row(row: &Vec<String>) -> (r: Option<ImportRecord>)
    ensures
        r is None <==> row_record(texts(row@)) is None,
        r matches Some(rec) ==> row_record(texts(row@)) == Some(rec@),
{
    let ghost cells = texts(row@);
    let name = if row.len() > 0 {
        trimmed(row[0].as_str())
    } else {
        "".to_string()
    };
    let url = if row.len() > 1 {
        trimmed(row[1].as_str())
    } else {
        "".to_string()
    };
    proof {
        reveal_strlit("");
    }
    assert(name@ == cell(cells, 0));
    assert(url@ == cell(cells, 1));
    if url.as_str().unicode_len() == 0 {
        return None;
    }
    let tags = if row.len() > 2 {
        let t = parse_tags(row[2].as_str());
        if t.len() > 0 {
            Some(t)
        } else {
            None
        }
    } else {
        None
    };
    let name = if name.as_str().unicode_len() == 0 {
        None
    } else {
        Some(name)
    };
    Some(ImportRecord { name, url, tags })
}

/// The records CSV rows give.
fn records_from_rows(rows: &Vec<Vec<String>>) -> (r: Vec<ImportRecord>)
    ensures
        record_views(r@) == rows_records(rows@.map_values(|row: Vec<String>| texts(row@))),
{
    let ghost all = rows@.map_values(|row: Vec<String>| texts(row@));
    let mut out: Vec<ImportRecord> = Vec::new();
    let mut i: usize = 0;
    assert(record_views(out@) =~= rows_records(all.subrange(0, 0)));
    while i < rows.len()
        invariant
            i <= rows.len(),
            all == rows@.map_values(|row: Vec<String>| texts(row@)),
            record_views(out@) == rows_records(all.subrange(0, i as int)),
        decreases rows.len() - i,
    {
        assert(all.subrange(0, i + 1).drop_last() =~= all.subrange(0, i as int));
        assert(all.subrange(0, i + 1).last() == texts(rows@[i as int]@));
        let ghost before = out@;
        match record_from_row(&rows[i]) {
            Some(rec) => {
                out.push(rec);
                assert(record_views(out@) =~= record_views(before).push(rec@));
            },
            None => {},
        }
        i = i + 1;
    }
    assert(all.subrange(0, rows.len() as int) =~= all);
    out
}

/// Classify `raw` as CSV or as a list of URLs and read its records.
pub fn import_records(raw: &str, path_hint: Option<&str>) -> (r: Result<
    Vec<ImportRecord>,
    ImportError,
>)
    ensures
        !is_csv_input(
            raw@,
            match path_hint {
                Some(p) => Some(p@),
                None => None,
            },
        ) ==> (r matches Ok(v) && record_views(v@) == line_records(raw@)),
        is_csv_input(
            raw@,
            match path_hint {
                Some(p) => Some(p@),
                None => None,
            },
        ) ==> match csv_rows(raw@) {
            Some(rows) => r matches Ok(v) && record_views(v@) == rows_records(rows),
            None => r is Err,
        },
{
    if input_is_csv(raw, path_hint) {
        match read_csv_records(raw) {
            Ok(rows) => Ok(records_from_rows(&rows)),
            Err(e) => Err(ImportError::Csv(e)),
        }
    } else {
        let lines = split_items(raw, "\n");
        let mut out: Vec<ImportRecord> = Vec::new();
        let mut i: usize = 0;
        while i < lines.len()
            invariant
                i <= lines.len(),
                texts(lines@) == text_lines(raw@),
                record_views(out@) == line_records(raw@).subrange(0, i as int),
            decreases lines.len() - i,
        {
            let ghost before = out@;
            let rec = ImportRecord { name: None, url: lines[i].clone(), tags: None };
            assert(texts(lines@)[i as int] == lines@[i as int]@);
            assert(rec@ == line_records(raw@)[i as int]);
            let ghost rv = rec@;
            out.push(rec);
            assert(record_views(out@) =~= record_views(before).push(rv));
            assert(record_views(out@) =~= line_records(raw@).subrange(0, i + 1));
            i = i + 1;
        }
        assert(line_records(raw@).subrange(0, lines.len() as int) =~= line_records(raw@));
        Ok(out)
    }
}

/// The registry name of an imported record: its own name, else the slug of
/// the forum's title where one was fetched, else the slug of its URL.
pub open spec fn record_name(rec: ImportRecord, fullname: Option<String>) -> Seq<char> {
    match rec.name {
        Some(n) => n@,
        None => match fullname {
            Some(t) => slug(t@),
            None => slug(rec.url@),
        },
    }
}

/// The registry entry an imported record becomes, with the forum's title
/// where one was fetched.
pub fn entry_from_record(rec: ImportRecord, fullname: Option<String>) -> (r: DiscourseConfig)
    ensures
        r.name@ == record_name(rec, fullname),
        r.baseurl == rec.url,
        r.fullname == fullname,
        r.tags == rec.tags,
        r.apikey is None,
        r.api_username is None,
        r.changelog_path is None,
        r.changelog_topic_id is None,
        r.ssh_host is None,
{
    let name = match &rec.name {
        Some(n) => n.clone(),
        None => match &fullname {
            Some(t) => slugify(t.as_str()),
            None => slugify(rec.url.as_str()),
        },
    };
    DiscourseConfig {
        name,
        baseurl: rec.url,
        apikey: None,
        api_username: None,
        changelog_path: None,
        tags: rec.tags,
        changelog_topic_id: None,
        ssh_host: None,
        fullname,
    }
}

} // verus!
