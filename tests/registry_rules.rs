use dsc::commands::{
    add_discourses, has_api_credentials, inject_zsh_sort_style, matches_tag_filter, names_to_add,
};
use dsc::config::{find_discourse, find_discourse_mut, Config, DiscourseConfig};
use dsc::import::{entry_from_record, import_records, input_is_csv, looks_like_csv, parse_tags};
use dsc::tidy::{missing_fields, needs_fullname, sort_registry, tidy, RegistryField};

fn entry(name: &str) -> DiscourseConfig {
    DiscourseConfig::named(name.to_string(), format!("https://{}.test", name))
}

fn names(c: &Config) -> Vec<String> {
    c.discourse.iter().map(|d| d.name.clone()).collect()
}

#[test]
fn csv_import_with_header() {
    let recs = import_records("name,url\nforo,https://example.com\n", None).unwrap();
    assert_eq!(recs.len(), 1);
    assert_eq!(recs[0].name.as_deref(), Some("foro"));
    assert_eq!(recs[0].url, "https://example.com");
    assert!(recs[0].tags.is_none());
}

#[test]
fn line_import_names_from_url() {
    let recs = import_records("https://example.com\n", None).unwrap();
    assert_eq!(recs.len(), 1);
    assert!(recs[0].name.is_none());
    let d = entry_from_record(recs[0].clone(), None);
    assert_eq!(d.name, "https-example-com");
    assert_eq!(d.baseurl, "https://example.com");
    let d = entry_from_record(recs[0].clone(), Some("My Forum".to_string()));
    assert_eq!(d.name, "my-forum");
    assert_eq!(d.fullname.as_deref(), Some("My Forum"));
}

#[test]
fn line_import_skips_blank_lines() {
    let recs = import_records("\n  https://a.test  \r\n\n\thttps://b.test\n", None).unwrap();
    let urls: Vec<&str> = recs.iter().map(|r| r.url.as_str()).collect();
    assert_eq!(urls, vec!["https://a.test", "https://b.test"]);
}

#[test]
fn csv_import_columns() {
    let raw = "Name,URL,tags\n,https://a.test,\" x ; y,z \"\nb,,t\nc,https://c.test,\n";
    let recs = import_records(raw, None).unwrap();
    assert_eq!(recs.len(), 2);
    assert!(recs[0].name.is_none());
    assert_eq!(recs[0].tags, Some(vec!["x".to_string(), "y".to_string(), "z".to_string()]));
    assert_eq!(recs[1].name.as_deref(), Some("c"));
    assert!(recs[1].tags.is_none());
}

#[test]
fn csv_by_extension() {
    let recs = import_records("h1,h2\nn,https://n.test\n", Some("list.csv")).unwrap();
    assert_eq!(recs.len(), 1);
    assert_eq!(recs[0].name.as_deref(), Some("n"));
    let recs = import_records("h1,h2\nn,https://n.test\n", Some("list.txt")).unwrap();
    assert_eq!(recs.len(), 2);
}

#[test]
fn csv_malformed_fails() {
    assert!(import_records("name,url\na,b,c\n", None).is_err());
}

#[test]
fn csv_sniffing() {
    assert!(looks_like_csv("\n  NAME,Url\n"));
    assert!(!looks_like_csv("name url\n"));
    assert!(!looks_like_csv("https://a.test\nname,url\n"));
    assert!(!looks_like_csv(""));
}

#[test]
fn tags_split() {
    assert_eq!(parse_tags(" a, b;;c ,"), vec!["a".to_string(), "b".to_string(), "c".to_string()]);
    assert!(parse_tags(" ; ,").is_empty());
}

#[test]
fn tidy_reports_then_fills() {
    let mut d = entry("one");
    d.api_username = Some("u".to_string());
    d.ssh_host = Some("h".to_string());
    d.changelog_topic_id = Some(7);
    let mut c = Config { discourse: vec![d] };
    let report = tidy(&mut c);
    assert_eq!(report.len(), 1);
    assert_eq!(report[0].name, "one");
    let keys: Vec<&str> = report[0].fields.iter().map(|f| f.key()).collect();
    assert_eq!(keys, vec!["apikey", "tags"]);
    let d = &c.discourse[0];
    assert_eq!(d.apikey.as_deref(), Some(""));
    assert_eq!(d.tags, Some(vec![]));
    assert_eq!(d.changelog_topic_id, Some(7));
    assert!(tidy(&mut c).is_empty());
}

#[test]
fn missing_field_order() {
    let d = DiscourseConfig::named("x".to_string(), "  ".to_string());
    assert_eq!(
        missing_fields(&d),
        vec![
            RegistryField::Baseurl,
            RegistryField::Apikey,
            RegistryField::ApiUsername,
            RegistryField::Tags,
            RegistryField::SshHost,
            RegistryField::ChangelogTopicId,
        ]
    );
    assert!(!needs_fullname(&d));
    assert!(needs_fullname(&entry("y")));
}

#[test]
fn registry_sorts_case_insensitively() {
    let mut v = vec![entry("Beta"), entry("alpha")];
    sort_registry(&mut v);
    assert_eq!(v[0].name, "alpha");
    assert_eq!(v[1].name, "Beta");
    let mut v = vec![entry("b"), entry("a"), entry("B"), entry("A"), entry("ab")];
    sort_registry(&mut v);
    let n: Vec<&str> = v.iter().map(|d| d.name.as_str()).collect();
    assert_eq!(n, vec!["A", "a", "ab", "B", "b"]);
}

#[test]
fn lookups_by_name() {
    let mut c = Config { discourse: vec![entry("a"), entry("b")] };
    assert_eq!(find_discourse(&c, "b").unwrap().baseurl, "https://b.test");
    assert!(find_discourse(&c, "c").is_none());
    find_discourse_mut(&mut c, "a").unwrap().baseurl = "https://z.test".to_string();
    assert_eq!(c.discourse[0].baseurl, "https://z.test");
    assert!(find_discourse_mut(&mut c, "z").is_none());
}

#[test]
fn adding_names() {
    let mut c = Config { discourse: vec![entry("a")] };
    assert_eq!(names_to_add(&c, "a, b ,,b,c"), vec!["b".to_string(), "c".to_string()]);
    add_discourses(&mut c, "a, b ,,b,c");
    assert_eq!(names(&c), vec!["a", "b", "c"]);
    let b = &c.discourse[1];
    assert_eq!(b.apikey.as_deref(), Some(""));
    assert_eq!(b.changelog_topic_id, Some(0));
    assert_eq!(b.baseurl, "");
}

#[test]
fn tag_filter() {
    let mut d = entry("a");
    assert!(matches_tag_filter(&d, &vec![]));
    assert!(!matches_tag_filter(&d, &vec!["x".to_string()]));
    d.tags = Some(vec!["Prod".to_string(), "eu".to_string()]);
    assert!(matches_tag_filter(&d, &vec!["x".to_string(), "PROD".to_string()]));
    assert!(!matches_tag_filter(&d, &vec!["us".to_string()]));
}

#[test]
fn credentials_check() {
    let mut d = entry("a");
    assert!(!has_api_credentials(&d));
    d.apikey = Some("k".to_string());
    d.api_username = Some(" ".to_string());
    assert!(!has_api_credentials(&d));
    d.api_username = Some("u".to_string());
    assert!(has_api_credentials(&d));
}

#[test]
fn zsh_sort_style() {
    let style = "zstyle ':completion:*:dsc:*' sort false";
    let s = inject_zsh_sort_style("#compdef dsc\nautoload -U is-at-least\nrest\n".to_string());
    assert_eq!(s, format!("#compdef dsc\nautoload -U is-at-least\n\n{}\nrest\n", style));
    assert_eq!(inject_zsh_sort_style(s.clone()), s);
    assert_eq!(inject_zsh_sort_style("x".to_string()), format!("{}\n\nx", style));
}

#[test]
fn import_mode_selection() {
    assert!(input_is_csv("name,url\nforo,https://example.com\n", None));
    assert!(!input_is_csv("https://example.com\n", None));
    assert!(input_is_csv("https://example.com\n", Some("dir/list.csv")));
    assert!(input_is_csv("https://example.com\n", Some("list.csv/")));
    assert!(!input_is_csv("https://example.com\n", Some(".csv")));
}
