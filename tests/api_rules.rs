use dsc::client::{
    client_settings, endpoint_url, extract_html_title, site_title_from_html,
    site_title_from_json, version_from_about, ApiError, ConfigError, TierFailure,
};
use dsc::config::DiscourseConfig;
use dsc::emoji::{
    admin_emojis_from_response, after_admin_tier, normalize_emoji_url,
    public_emojis_from_response, CustomEmoji, EmojiListing,
};

fn pairs(v: &[CustomEmoji]) -> Vec<(String, String)> {
    v.iter().map(|e| (e.name.clone(), e.url.clone())).collect()
}

#[test]
fn emoji_url_forms() {
    let b = "https://forum.test";
    assert_eq!(normalize_emoji_url(b, "https://cdn.test/x.png"), "https://cdn.test/x.png");
    assert_eq!(normalize_emoji_url(b, "http://cdn.test/x.png"), "http://cdn.test/x.png");
    assert_eq!(normalize_emoji_url(b, "//cdn.test/x.png"), "https://cdn.test/x.png");
    assert_eq!(normalize_emoji_url("http://f.test", "//cdn.test/x.png"), "http://cdn.test/x.png");
    assert_eq!(normalize_emoji_url(b, "/images/x.png"), "https://forum.test/images/x.png");
    assert_eq!(normalize_emoji_url(b, "images/x.png"), "https://forum.test/images/x.png");
}

#[test]
fn emoji_url_twice_is_once() {
    let b = "https://forum.test";
    for u in ["https://cdn.test/x.png", "//cdn/x", "/a", "b"] {
        let once = normalize_emoji_url(b, u);
        assert_eq!(normalize_emoji_url(b, &once), once);
    }
}

#[test]
fn admin_wrapper_shape() {
    let body = r#"{"emojis":[{"name":"x","url":"/images/x.png"}]}"#;
    let r = admin_emojis_from_response(200, body, "https://forum.test").unwrap();
    assert_eq!(pairs(&r), vec![("x".to_string(), "https://forum.test/images/x.png".to_string())]);
}

#[test]
fn admin_array_shape_and_skips() {
    let body = r#"[{"name":"a","image_url":"a.png"},{"name":"b"},{"url":"/c.png"},{"name":"d","url":"https://e.test/d.png"}]"#;
    let r = admin_emojis_from_response(200, body, "https://f.test").unwrap();
    assert_eq!(
        pairs(&r),
        vec![
            ("a".to_string(), "https://f.test/a.png".to_string()),
            ("d".to_string(), "https://e.test/d.png".to_string()),
        ]
    );
}

#[test]
fn admin_map_shape() {
    let body = r#"{"blob":"/b.png","num":3,"apple":"//cdn/a.png"}"#;
    let r = admin_emojis_from_response(200, body, "https://f.test").unwrap();
    assert_eq!(
        pairs(&r),
        vec![
            ("apple".to_string(), "https://cdn/a.png".to_string()),
            ("blob".to_string(), "https://f.test/b.png".to_string()),
        ]
    );
}

#[test]
fn admin_errors() {
    assert!(matches!(admin_emojis_from_response(403, "{}", "https://f.test"), Err(ApiError::Status(403))));
    assert!(matches!(admin_emojis_from_response(200, "not json", "https://f.test"), Err(ApiError::Decode)));
    assert!(admin_emojis_from_response(200, "42", "https://f.test").unwrap().is_empty());
}

#[test]
fn public_tier() {
    assert!(public_emojis_from_response(404, "", "https://f.test").unwrap().is_empty());
    assert!(matches!(public_emojis_from_response(500, "", "https://f.test"), Err(ApiError::Status(500))));
    assert!(matches!(public_emojis_from_response(200, "{", "https://f.test"), Err(ApiError::Decode)));
    let body = r#"{"custom_emoji":"nope","custom":{"p":"p.png"},"emoji":{"q":"q.png"}}"#;
    let r = public_emojis_from_response(200, body, "https://f.test/").unwrap();
    assert_eq!(pairs(&r), vec![("p".to_string(), "https://f.test/p.png".to_string())]);
    assert!(public_emojis_from_response(200, r#"{"other":{}}"#, "https://f.test").unwrap().is_empty());
}

#[test]
fn admin_failure_turns_to_public() {
    assert!(matches!(after_admin_tier::<ApiError>(Err(ApiError::Status(403))), EmojiListing::AskPublic));
    match after_admin_tier::<ApiError>(Ok(vec![])) {
        EmojiListing::Done(v) => assert!(v.is_empty()),
        EmojiListing::AskPublic => panic!("admin list was given"),
    }
}

#[test]
fn title_from_site_json() {
    assert_eq!(site_title_from_json(200, r#"{"site":{"title":"Forum"}}"#).unwrap(), "Forum");
    assert!(matches!(site_title_from_json(404, ""), Err(TierFailure::Status(404))));
    assert!(matches!(site_title_from_json(200, "<html>"), Err(TierFailure::Decode)));
    assert!(matches!(site_title_from_json(200, r#"{"title":"x"}"#), Err(TierFailure::Decode)));
}

#[test]
fn title_falls_back_to_html() {
    let first = site_title_from_json(404, "").unwrap_err();
    let t = site_title_from_html(first, 200, "<html><head><title>My Forum</title></head></html>");
    assert_eq!(t.unwrap(), "My Forum");
}

#[test]
fn title_missing_everywhere() {
    let first = site_title_from_json(404, "").unwrap_err();
    let e = site_title_from_html(first, 200, "<html></html>").unwrap_err();
    assert!(matches!(e.html, TierFailure::MissingTitle));
    let m = e.message();
    assert_eq!(
        m,
        "site title lookup failed (site.json error: site.json request failed with 404; HTML missing <title>)"
    );
}

#[test]
fn title_html_status() {
    let e = site_title_from_html(TierFailure::Transport("refused".to_string()), 503, "")
        .unwrap_err();
    assert_eq!(
        e.message(),
        "site title lookup failed (site.json error: site.json request failed: refused; HTML request failed with 503)"
    );
}

#[test]
fn html_title_extraction() {
    assert_eq!(extract_html_title("<TITLE>  Ça va  </Title>").unwrap(), "Ça va");
    assert_eq!(extract_html_title("<title>a</title><title>b</title>").unwrap(), "a");
    assert!(extract_html_title("<title>   </title>").is_none());
    assert!(extract_html_title("<title>open").is_none());
    assert!(extract_html_title("</title><title>").is_none());
}

#[test]
fn version_lookup() {
    assert_eq!(
        version_from_about(200, r#"{"about":{"version":"3.1","installed_version":"3.0"}}"#).unwrap(),
        Some("3.1".to_string())
    );
    assert_eq!(
        version_from_about(200, r#"{"about":{"installed_version":"3.0"}}"#).unwrap(),
        Some("3.0".to_string())
    );
    assert_eq!(version_from_about(200, r#"{"about":{}}"#).unwrap(), None);
    assert!(matches!(version_from_about(500, "{}"), Err(ApiError::Status(500))));
    assert!(matches!(version_from_about(200, "{}"), Err(ApiError::Decode)));
}

#[test]
fn settings_need_baseurl() {
    let d = DiscourseConfig::named("a".to_string(), "//".to_string());
    assert!(matches!(client_settings(&d), Err(ConfigError::MissingBaseurl)));
}

#[test]
fn settings_pair_credentials() {
    let mut d = DiscourseConfig::named("a".to_string(), "https://f.test/".to_string());
    d.apikey = Some("k".to_string());
    let s = client_settings(&d).unwrap();
    assert_eq!(s.baseurl, "https://f.test");
    assert!(s.credentials.is_none());
    d.api_username = Some("u".to_string());
    let s = client_settings(&d).unwrap();
    assert_eq!(s.credentials, Some(("k".to_string(), "u".to_string())));
}

#[test]
fn endpoint_urls() {
    assert_eq!(endpoint_url("https://f.test", "/site.json"), "https://f.test/site.json");
}
