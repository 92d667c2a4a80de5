use dsc::paths::{
    emoji_name_from_path, is_emoji_file, resolve_topic_path, upload_file_name,
};
use dsc::utils::{normalize_baseurl, slugify};

#[test]
fn baseurl_loses_trailing_slashes() {
    assert_eq!(normalize_baseurl("https://forum.test/"), "https://forum.test");
    assert_eq!(normalize_baseurl("https://forum.test///"), "https://forum.test");
    assert_eq!(normalize_baseurl("https://forum.test"), "https://forum.test");
    assert_eq!(normalize_baseurl("///"), "");
}

#[test]
fn baseurl_slash_count_does_not_matter() {
    let bare = normalize_baseurl("http://a.b/c");
    for k in 1..5 {
        let with = format!("http://a.b/c{}", "/".repeat(k));
        let n = normalize_baseurl(&with);
        assert_eq!(n, bare);
        assert!(!n.ends_with('/'));
    }
}

#[test]
fn slug_of_words() {
    assert_eq!(slugify("Hello, World!"), "hello-world");
    assert_eq!(slugify("  My  Forum -- 2024 "), "my-forum-2024");
    assert_eq!(slugify("https://example.com"), "https-example-com");
    assert_eq!(slugify("Ünïcode Forum"), "n-code-forum");
}

#[test]
fn slug_of_nothing_is_untitled() {
    assert_eq!(slugify(""), "untitled");
    assert_eq!(slugify("!!! ---"), "untitled");
    assert_eq!(slugify("ééé"), "untitled");
}

#[test]
fn slug_is_idempotent() {
    for s in ["Hello, World!", "", "--a--b--", "ABC def_ghi", "x"] {
        let once = slugify(s);
        assert_eq!(slugify(&once), once);
    }
}

#[test]
fn topic_path_cases() {
    assert_eq!(resolve_topic_path(None, false, "My Topic", "content"), "content/my-topic.md");
    assert_eq!(resolve_topic_path(Some("out/"), true, "My Topic", "content"), "out/my-topic.md");
    assert_eq!(resolve_topic_path(Some("out/x.md"), false, "My Topic", "content"), "out/x.md");
    assert_eq!(resolve_topic_path(Some("out/new"), false, "My Topic", "content"), "out/new/my-topic.md");
    assert_eq!(resolve_topic_path(None, false, "T", ""), "t.md");
}

#[test]
fn emoji_names_from_paths() {
    assert_eq!(emoji_name_from_path("dir/My Emoji.png").unwrap(), "my_emoji");
    assert_eq!(emoji_name_from_path("party-parrot.gif").unwrap(), "party_parrot");
    assert_eq!(emoji_name_from_path("a/.hidden").unwrap(), "hidden");
    assert!(emoji_name_from_path("/").is_err());
    assert!(emoji_name_from_path("a/..").is_err());
}

#[test]
fn emoji_file_extensions() {
    assert!(is_emoji_file("a/b.PNG"));
    assert!(is_emoji_file("x.jpeg"));
    assert!(is_emoji_file("x.svg"));
    assert!(!is_emoji_file("x.txt"));
    assert!(!is_emoji_file("png"));
    assert!(!is_emoji_file(".png"));
}

#[test]
fn upload_names() {
    assert_eq!(upload_file_name("dir/smile.png"), "smile.png");
    assert_eq!(upload_file_name("/"), "emoji.png");
}
