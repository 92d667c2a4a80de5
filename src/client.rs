//! What a forum client decides: its settings, the URLs it requests, and how
//! the site identity and version come out of the responses it receives.
use crate::config::DiscourseConfig;
use crate::json::{get_member, get_text, member, member_text, parse_json, parsed_json, Json};
use crate::text::{
    ascii_lower_seq, chars_of, concat_chars, decimal, decimal_chars, find_subslice,
    first_occurrence, lower_chars, occurs_at, slice_chars, string_of, trim, trim_chars,
};
use crate::utils::{normalize_baseurl, normalized_baseurl};
use vstd::prelude::*;

verus! {

/// A failed call on a required endpoint.
#[derive(Debug)]
pub enum ApiError {
    /// The forum answered with this non-success status.
    Status(u16),
    /// The body was not the JSON the endpoint promises.
    Decode,
}

/// The local configuration cannot make a client.
#[derive(Debug)]
pub enum ConfigError {
    /// The base URL is empty once trailing slashes are left out.
    MissingBaseurl,
}

/// Why one tier of the site identity lookup failed.
#[derive(Debug)]
pub enum TierFailure {
    /// The request could not be made; the transport's description.
    Transport(String),
    /// The forum answered with this non-success status.
    Status(u16),
    /// The body was not what the tier reads.
    Decode,
    /// The page holds no non-empty `<title>`.
    MissingTitle,
}

/// Both tiers of the site identity lookup failed, each for its own reason.
#[derive(Debug)]
pub struct SiteIdentityError {
    pub site_json: TierFailure,
    pub html: TierFailure,
}

/// What a client for one forum is built from.
#[derive(Debug)]
pub struct ClientSettings {
    /// The base URL, without trailing slashes; never empty.
    pub baseurl: String,
    /// The API key and user name sent with every request, where both are set.
    pub credentials: Option<(String, String)>,
}

/// An HTTP status in the success range.
pub open spec fn is_success(status: u16) -> bool {
    200 <= status && status <= 299
}

/// Whether `status` is in the success range.
pub fn is_success_status(status: u16) -> (r: bool)
    ensures
        r == is_success(status),
{
    200 <= status && status <= 299
}

/// The settings of a client for the forum `config` describes. A partial
/// credential pair sends no credentials.
pub fn client_settings(config: &DiscourseConfig) -> (r: Result<ClientSettings, ConfigError>)
    ensures
        r is Err <==> normalized_baseurl(config.baseurl@).len() == 0,
        r matches Ok(s) ==> {
            &&& s.baseurl@ == normalized_baseurl(config.baseurl@)
            &&& s.credentials is Some <==> (config.apikey is Some && config.api_username is Some)
            &&& s.credentials matches Some((k, u)) ==> k == config.apikey->0 && u
                == config.api_username->0
        },
{
    let baseurl = normalize_baseurl(config.baseurl.as_str());
    if baseurl.as_str().unicode_len() == 0 {
        return Err(ConfigError::MissingBaseurl);
    }
    let credentials = match (&config.apikey, &config.api_username) {
        (Some(k), Some(u)) => Some((k.clone(), u.clone())),
        _ => None,
    };
    Ok(ClientSettings { baseurl, credentials })
}

/// The URL of `path` on the forum at `baseurl`: the two side by side.
pub fn endpoint_url(baseurl: &str, path: &str) -> (r: String)
    ensures
        r@ == baseurl@ + path@,
{
    string_of(concat_chars(&chars_of(baseurl), &chars_of(path)).as_slice())
}

/// The title under `site` in a `site.json` document.
pub open spec fn site_json_title(j: Json) -> Option<Seq<char>> {
    match member(j, "site"@) {
        Some(site) => member_text(site, "title"@),
        None => None,
    }
}

/// The title of a `site.json` response: its `site.title` where the status is
/// a success and the body holds one.
pub fn site_title_from_json(status: u16, body: &str) -> (r: Result<String, TierFailure>)
    ensures
        !is_success(status) ==> r == Err::<String, TierFailure>(TierFailure::Status(status)),
        is_success(status) ==> match parsed_json(body@) {
            Some(j) => match site_json_title(j) {
                Some(t) => r matches Ok(s) && s@ == t,
                None => r == Err::<String, TierFailure>(TierFailure::Decode),
            },
            None => r == Err::<String, TierFailure>(TierFailure::Decode),
        },
{
    if !is_success_status(status) {
        return Err(TierFailure::Status(status));
    }
    match parse_json(body) {
        Some(j) => match get_member(&j, "site") {
            Some(site) => match get_text(site, "title") {
                Some(t) => Ok(t.to_string()),
                None => Err(TierFailure::Decode),
            },
            None => Err(TierFailure::Decode),
        },
        None => Err(TierFailure::Decode),
    }
}

/// The text between the first `<title>` and the first `</title>` after it,
/// tags found without regard to ASCII case, trimmed; `None` where a tag is
/// missing or the title is empty.
pub open spec fn html_title(html: Seq<char>) -> Option<Seq<char>> {
    let low = ascii_lower_seq(html);
    match first_occurrence(low, "<title>"@, 0) {
        Some(i) => {
            let start = i + "<title>"@.len();
            match first_occurrence(low, "</title>"@, start) {
                Some(end) => {
                    let t = trim(html.subrange(start, end));
                    if t.len() == 0 {
                        None
                    } else {
                        Some(t)
                    }
                },
                None => None,
            }
        },
        None => None,
    }
}

/// The title of an HTML page.
pub fn extract_html_title(html: &str) -> (r: Option<String>)
    ensures
        r is None <==> html_title(html@) is None,
        r matches Some(t) ==> html_title(html@) == Some(t@),
{
    let text = chars_of(html);
    let lower = lower_chars(&text);
    let open_tag = chars_of("<title>");
    let close_tag = chars_of("</title>");
    let i = match find_subslice(&lower, &open_tag, 0) {
        Some(i) => i,
        None => {
            return None;
        },
    };
    assert(occurs_at(lower@, open_tag@, i as int));
    let n = lower.len();
    assert(n == text@.len());
    let start = i + open_tag.len();
    let end = match find_subslice(&lower, &close_tag, start) {
        Some(e) => e,
        None => {
            return None;
        },
    };
    assert(occurs_at(lower@, close_tag@, end as int));
    let title = trim_chars(&slice_chars(&text, start, end));
    if title.len() == 0 {
        None
    } else {
        Some(string_of(title.as_slice()))
    }
}

/// The title of the root page, where the `site.json` tier failed with
/// `site_json`: the page's title where the status is a success and the page
/// has one, else both failures.
pub fn site_title_from_html(site_json: TierFailure, status: u16, html: &str) -> (r: Result<
    String,
    SiteIdentityError,
>)
    ensures
        !is_success(status) ==> r == Err::<String, SiteIdentityError>(
            SiteIdentityError { site_json, html: TierFailure::Status(status) },
        ),
        is_success(status) ==> match html_title(html@) {
            Some(t) => r matches Ok(s) && s@ == t,
            None => r == Err::<String, SiteIdentityError>(
                SiteIdentityError { site_json, html: TierFailure::MissingTitle },
            ),
        },
{
    if !is_success_status(status) {
        return Err(SiteIdentityError { site_json, html: TierFailure::Status(status) });
    }
    match extract_html_title(html) {
        Some(t) => Ok(t),
        None => Err(SiteIdentityError { site_json, html: TierFailure::MissingTitle }),
    }
}

/// How a tier's failure reads, for the tier called `tier`.
pub open spec fn failure_text(f: TierFailure, tier: Seq<char>) -> Seq<char> {
    match f {
        TierFailure::Transport(m) => tier + " request failed: "@ + m@,
        TierFailure::Status(s) => tier + " request failed with "@ + decimal(s as nat),
        TierFailure::Decode => tier + " could not be decoded"@,
        TierFailure::MissingTitle => tier + " missing <title>"@,
    }
}

/// How a site identity failure reads: both tiers' failures.
pub open spec fn identity_message(e: SiteIdentityError) -> Seq<char> {
    "site title lookup failed (site.json error: "@ + failure_text(e.site_json, "site.json"@)
        + "; "@ + failure_text(e.html, "HTML"@) + ")"@
}

/// How a tier's failure reads, for the tier called `tier`.
fn describe_failure(f: &TierFailure, tier: &str) -> (r: Vec<char>)
    ensures
        r@ == failure_text(*f, tier@),
{
    let t = chars_of(tier);
    match f {
        TierFailure::Transport(m) => concat_chars(
            &concat_chars(&t, &chars_of(" request failed: ")),
            &chars_of(m.as_str()),
        ),
        TierFailure::Status(s) => concat_chars(
            &concat_chars(&t, &chars_of(" request failed with ")),
            &decimal_chars(*s),
        ),
        TierFailure::Decode => concat_chars(&t, &chars_of(" could not be decoded")),
        TierFailure::MissingTitle => concat_chars(&t, &chars_of(" missing <title>")),
    }
}

impl SiteIdentityError {
    /// How this failure reads: both tiers' failures.
    pub fn message(&self) -> (r: String)
        ensures
            r@ == identity_message(*self),
    {
        let a = concat_chars(
            &chars_of("site title lookup failed (site.json error: "),
            &describe_failure(&self.site_json, "site.json"),
        );
        let b = concat_chars(&concat_chars(&a, &chars_of("; ")), &describe_failure(&self.html, "HTML"));
        string_of(concat_chars(&b, &chars_of(")")).as_slice())
    }
}

/// The version an `about.json` document states under `about`: its `version`,
/// else its `installed_version`, where either is a string; `None` where
/// `about` is not an object.
pub open spec fn about_version(j: Json) -> Option<Option<Seq<char>>> {
    match member(j, "about"@) {
        Some(about) => match about {
            Json::Object(_) => Some(
                match member_text(about, "version"@) {
                    Some(v) => Some(v),
                    None => member_text(about, "installed_version"@),
                },
            ),
            _ => None,
        },
        None => None,
    }
}

/// The version of the forum from an `about.json` response; absence is no error.
pub fn version_from_about(status: u16, body: &str) -> (r: Result<Option<String>, ApiError>)
    ensures
        !is_success(status) ==> r == Err::<Option<String>, ApiError>(ApiError::Status(status)),
        is_success(status) ==> match parsed_json(body@) {
            Some(j) => match about_version(j) {
                Some(Some(v)) => r matches Ok(Some(s)) && s@ == v,
                Some(None) => r matches Ok(None),
                None => r == Err::<Option<String>, ApiError>(ApiError::Decode),
            },
            None => r == Err::<Option<String>, ApiError>(ApiError::Decode),
        },
{
    if !is_success_status(status) {
        return Err(ApiError::Status(status));
    }
    let j = match parse_json(body) {
        Some(j) => j,
        None => {
            return Err(ApiError::Decode);
        },
    };
    match get_member(&j, "about") {
        Some(about) => match about {
            Json::Object(_) => match get_text(about, "version") {
                Some(v) => Ok(Some(v.to_string())),
                None => match get_text(about, "installed_version") {
                    Some(v) => Ok(Some(v.to_string())),
                    None => Ok(None),
                },
            },
            _ => Err(ApiError::Decode),
        },
        None => Err(ApiError::Decode),
    }
}

} // verus!
