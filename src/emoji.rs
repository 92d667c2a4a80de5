//! Custom emoji discovery across the response shapes forums give, and the
//! normalisation of the URLs found.
use crate::client::{is_success, is_success_status, ApiError};
use crate::json::{
    field, get_field, get_member, get_text, member, member_text, parse_json, parsed_json, Json,
};
use crate::text::{chars_of, concat_chars, has_prefix, starts_with, string_of};
use crate::utils::{normalize_baseurl, normalized_baseurl};
use vstd::prelude::*;

verus! {

/// A custom emoji: its name and the absolute URL of its image.
#[derive(Clone, Debug)]
pub struct CustomEmoji {
    pub name: String,
    pub url: String,
}

impl View for CustomEmoji {
    type V = (Seq<char>, Seq<char>);

    open spec fn view(&self) -> (Seq<char>, Seq<char>) {
        (self.name@, self.url@)
    }
}

/// `http://`
pub open spec fn http_scheme() -> Seq<char> {
    seq!['h', 't', 't', 'p', ':', '/', '/']
}

/// `https://`
pub open spec fn https_scheme() -> Seq<char> {
    seq!['h', 't', 't', 'p', 's', ':', '/', '/']
}

/// A URL that names its scheme, HTTP or HTTPS.
pub open spec fn is_absolute_url(u: Seq<char>) -> bool {
    starts_with(u, http_scheme()) || starts_with(u, https_scheme())
}

/// The absolute form of an emoji URL found on the forum at `base`: an absolute
/// URL is kept, a protocol-relative one takes the scheme of `base`, a
/// root-relative one is appended to `base`, and any other is joined to `base`
/// with one `/`.
pub open spec fn emoji_url(base: Seq<char>, url: Seq<char>) -> Seq<char> {
    if is_absolute_url(url) {
        url
    } else if starts_with(url, seq!['/', '/']) {
        if starts_with(base, http_scheme()) {
            seq!['h', 't', 't', 'p', ':'] + url
        } else {
            seq!['h', 't', 't', 'p', 's', ':'] + url
        }
    } else if starts_with(url, seq!['/']) {
        base + url
    } else {
        base + seq!['/'] + url
    }
}

/// Normalise an emoji URL against the forum's base URL.
pub fn normalize_emoji_url(baseurl: &str, url: &str) -> (r: String)
    ensures
        r@ == emoji_url(baseurl@, url@),
{
    let b = chars_of(baseurl);
    let u = chars_of(url);
    let http = chars_of("http://");
    let https = chars_of("https://");
    let slash2 = chars_of("//");
    let slash = chars_of("/");
    proof {
        reveal_strlit("http://");
        reveal_strlit("https://");
        reveal_strlit("//");
        reveal_strlit("/");
        assert(http@ =~= http_scheme());
        assert(https@ =~= https_scheme());
        assert(slash2@ =~= seq!['/', '/']);
        assert(slash@ =~= seq!['/']);
    }
    if has_prefix(&u, &http) || has_prefix(&u, &https) {
        string_of(u.as_slice())
    } else if has_prefix(&u, &slash2) {
        let scheme = if has_prefix(&b, &http) {
            chars_of("http:")
        } else {
            chars_of("https:")
        };
        proof {
            reveal_strlit("http:");
            reveal_strlit("https:");
            assert("http:"@ =~= seq!['h', 't', 't', 'p', ':']);
            assert("https:"@ =~= seq!['h', 't', 't', 'p', 's', ':']);
        }
        string_of(concat_chars(&scheme, &u).as_slice())
    } else if has_prefix(&u, &slash) {
        string_of(concat_chars(&b, &u).as_slice())
    } else {
        string_of(concat_chars(&concat_chars(&b, &slash), &u).as_slice())
    }
}

/// An absolute URL stays as it is, so normalising it again changes nothing;
/// on a forum whose base URL is absolute every normalised URL is absolute,
/// so normalising twice is normalising once.
pub proof fn lemma_emoji_url_idempotent(base: Seq<char>, url: Seq<char>)
    requires
        is_absolute_url(url) || is_absolute_url(base),
    ensures
        is_absolute_url(url) ==> emoji_url(base, url) == url,
        emoji_url(base, emoji_url(base, url)) == emoji_url(base, url),
{
    let r = emoji_url(base, url);
    if !is_absolute_url(url) {
        if starts_with(url, seq!['/', '/']) {
            if starts_with(base, http_scheme()) {
                assert(r.subrange(0, 7) =~= http_scheme()) by {
                    assert(url.subrange(0, 2) =~= seq!['/', '/']);
                    assert(url[0] == '/' && url[1] == '/');
                }
            } else {
                assert(r.subrange(0, 8) =~= https_scheme()) by {
                    assert(url.subrange(0, 2) =~= seq!['/', '/']);
                    assert(url[0] == '/' && url[1] == '/');
                }
            }
        } else if starts_with(base, http_scheme()) {
            assert(r.subrange(0, 7) =~= base.subrange(0, 7));
        } else {
            assert(r.subrange(0, 8) =~= base.subrange(0, 8));
        }
    }
}

/// `name`
pub open spec fn key_name() -> Seq<char> {
    seq!['n', 'a', 'm', 'e']
}

/// `url`
pub open spec fn key_url() -> Seq<char> {
    seq!['u', 'r', 'l']
}

/// `image_url`
pub open spec fn key_image_url() -> Seq<char> {
    seq!['i', 'm', 'a', 'g', 'e', '_', 'u', 'r', 'l']
}

/// `emojis`
pub open spec fn key_emojis() -> Seq<char> {
    seq!['e', 'm', 'o', 'j', 'i', 's']
}

/// `custom_emoji`
pub open spec fn key_custom_emoji() -> Seq<char> {
    seq!['c', 'u', 's', 't', 'o', 'm', '_', 'e', 'm', 'o', 'j', 'i']
}

/// `custom`
pub open spec fn key_custom() -> Seq<char> {
    seq!['c', 'u', 's', 't', 'o', 'm']
}

/// `emoji`
pub open spec fn key_emoji() -> Seq<char> {
    seq!['e', 'm', 'o', 'j', 'i']
}

/// The emoji that an emoji object describes: its `name` and its `url`, or
/// else its `image_url`, both strings; `None` where either is missing.
pub open spec fn item_emoji(item: Json, base: Seq<char>) -> Option<(Seq<char>, Seq<char>)> {
    let name = member_text(item, key_name());
    let url = match member_text(item, key_url()) {
        Some(u) => Some(u),
        None => member_text(item, key_image_url()),
    };
    match (name, url) {
        (Some(n), Some(u)) => Some((n, emoji_url(base, u))),
        _ => None,
    }
}

/// The emoji that an array of emoji objects describes, in order, skipping
/// the items that lack a name or a URL.
pub open spec fn array_emojis(items: Seq<Json>, base: Seq<char>) -> Seq<(Seq<char>, Seq<char>)>
    decreases items.len(),
{
    if items.len() == 0 {
        Seq::empty()
    } else {
        let init = array_emojis(items.drop_last(), base);
        match item_emoji(items.last(), base) {
            Some(e) => init.push(e),
            None => init,
        }
    }
}

/// The emoji that an object mapping names to URLs describes, in member
/// order, skipping the members whose value is not a string.
pub open spec fn map_emojis(fields: Seq<(String, Json)>, base: Seq<char>) -> Seq<
    (Seq<char>, Seq<char>),
>
    decreases fields.len(),
{
    if fields.len() == 0 {
        Seq::empty()
    } else {
        let init = map_emojis(fields.drop_last(), base);
        match fields.last().1 {
            Json::Str(u) => init.push((fields.last().0@, emoji_url(base, u@))),
            _ => init,
        }
    }
}

/// The emoji of an admin listing: a top-level array of emoji objects, an
/// object whose `emojis` member is such an array, or an object mapping names
/// to URLs.
pub open spec fn admin_emojis(j: Json, base: Seq<char>) -> Seq<(Seq<char>, Seq<char>)> {
    match j {
        Json::Array(items) => array_emojis(items@, base),
        Json::Object(fields) => match field(fields@, key_emojis()) {
            Some(Json::Array(items)) => array_emojis(items@, base),
            _ => map_emojis(fields@, base),
        },
        _ => Seq::empty(),
    }
}

/// The emoji of a public listing: the first of the members `custom_emoji`,
/// `custom` and `emoji` that is an object maps names to URLs.
pub open spec fn public_emojis(j: Json, base: Seq<char>) -> Seq<(Seq<char>, Seq<char>)> {
    match member(j, key_custom_emoji()) {
        Some(Json::Object(f)) => map_emojis(f@, base),
        _ => match member(j, key_custom()) {
            Some(Json::Object(f)) => map_emojis(f@, base),
            _ => match member(j, key_emoji()) {
                Some(Json::Object(f)) => map_emojis(f@, base),
                _ => Seq::empty(),
            },
        },
    }
}

/// The views of a list of emoji.
pub open spec fn emoji_views(v: Seq<CustomEmoji>) -> Seq<(Seq<char>, Seq<char>)> {
    v.map_values(|e: CustomEmoji| e@)
}

/// The emoji that one emoji object describes.
fn emoji_from_item(item: &Json, baseurl: &str) -> (r: Option<CustomEmoji>)
    ensures
        r is None <==> item_emoji(*item, baseurl@) is None,
        r matches Some(e) ==> item_emoji(*item, baseurl@) == Some(e@),
{
    proof {
        reveal_strlit("name");
        reveal_strlit("url");
        reveal_strlit("image_url");
        assert("name"@ =~= key_name());
        assert("url"@ =~= key_url());
        assert("image_url"@ =~= key_image_url());
    }
    let name = get_text(item, "name");
    let url = match get_text(item, "url") {
        Some(u) => Some(u),
        None => get_text(item, "image_url"),
    };
    match (name, url) {
        (Some(n), Some(u)) => Some(
            CustomEmoji { name: string_of(chars_of(n).as_slice()), url: normalize_emoji_url(baseurl, u) },
        ),
        _ => None,
    }
}

/// The emoji that an array of emoji objects describes.
pub fn extract_emojis_from_array(emojis: &Vec<Json>, baseurl: &str) -> (r: Vec<CustomEmoji>)
    ensures
        emoji_views(r@) == array_emojis(emojis@, baseurl@),
{
    let mut out: Vec<CustomEmoji> = Vec::new();
    let mut i: usize = 0;
    while i < emojis.len()
        invariant
            i <= emojis.len(),
            emoji_views(out@) == array_emojis(emojis@.subrange(0, i as int), baseurl@),
        decreases emojis.len() - i,
    {
        let ghost before = out@;
        assert(emojis@.subrange(0, i + 1).drop_last() =~= emojis@.subrange(0, i as int));
        match emoji_from_item(&emojis[i], baseurl) {
            Some(e) => {
                out.push(e);
                assert(emoji_views(out@) =~= emoji_views(before).push(e@));
            },
            None => {},
        }
        i = i + 1;
    }
    assert(emojis@.subrange(0, emojis.len() as int) =~= emojis@);
    out
}

/// Append to `out` the emoji that an object mapping names to URLs describes.
pub fn extract_emojis_from_map(
    map: &Vec<(String, Json)>,
    baseurl: &str,
    out: &mut Vec<CustomEmoji>,
)
    ensures
        emoji_views(final(out)@) == emoji_views(old(out)@) + map_emojis(map@, baseurl@),
{
    let ghost start = out@;
    let mut i: usize = 0;
    assert(emoji_views(out@) =~= emoji_views(start) + map_emojis(map@.subrange(0, 0), baseurl@));
    while i < map.len()
        invariant
            i <= map.len(),
            emoji_views(out@) == emoji_views(start) + map_emojis(
                map@.subrange(0, i as int),
                baseurl@,
            ),
        decreases map.len() - i,
    {
        let ghost before = out@;
        assert(map@.subrange(0, i + 1).drop_last() =~= map@.subrange(0, i as int));
        assert(map@.subrange(0, i + 1).last() == map@[i as int]);
        match &map[i].1 {
            Json::Str(u) => {
                let e = CustomEmoji {
                    name: string_of(chars_of(map[i].0.as_str()).as_slice()),
                    url: normalize_emoji_url(baseurl, u.as_str()),
                };
                out.push(e);
                assert(emoji_views(out@) =~= emoji_views(before).push(e@));
            },
            _ => {},
        }
        i = i + 1;
    }
    assert(map@.subrange(0, map.len() as int) =~= map@);
}

/// The emoji of an admin listing, whatever its shape.
pub fn emojis_from_admin_json(value: &Json, baseurl: &str) -> (r: Vec<CustomEmoji>)
    ensures
        emoji_views(r@) == admin_emojis(*value, baseurl@),
{
    match value {
        Json::Array(arr) => extract_emojis_from_array(arr, baseurl),
        Json::Object(fields) => {
            proof {
                reveal_strlit("emojis");
                assert("emojis"@ =~= key_emojis());
            }
            match get_field(fields, "emojis") {
                Some(Json::Array(arr)) => extract_emojis_from_array(arr, baseurl),
                _ => {
                    let mut out: Vec<CustomEmoji> = Vec::new();
                    extract_emojis_from_map(fields, baseurl, &mut out);
                    assert(emoji_views(Seq::<CustomEmoji>::empty()) =~= Seq::empty());
                    out
                },
            }
        },
        _ => {
            let out: Vec<CustomEmoji> = Vec::new();
            assert(emoji_views(out@) =~= Seq::empty());
            out
        },
    }
}

/// The emoji of a public listing, whatever its shape.
pub fn emojis_from_public_json(value: &Json, baseurl: &str) -> (r: Vec<CustomEmoji>)
    ensures
        emoji_views(r@) == public_emojis(*value, baseurl@),
{
    proof {
        reveal_strlit("custom_emoji");
        reveal_strlit("custom");
        reveal_strlit("emoji");
        assert("custom_emoji"@ =~= key_custom_emoji());
        assert("custom"@ =~= key_custom());
        assert("emoji"@ =~= key_emoji());
    }
    let mut out: Vec<CustomEmoji> = Vec::new();
    assert(emoji_views(out@) =~= Seq::empty());
    if let Some(Json::Object(map)) = get_member(value, "custom_emoji") {
        extract_emojis_from_map(map, baseurl, &mut out);
    } else if let Some(Json::Object(map)) = get_member(value, "custom") {
        extract_emojis_from_map(map, baseurl, &mut out);
    } else if let Some(Json::Object(map)) = get_member(value, "emoji") {
        extract_emojis_from_map(map, baseurl, &mut out);
    }
    assert(Seq::<(Seq<char>, Seq<char>)>::empty() + public_emojis(*value, baseurl@) =~= public_emojis(*value, baseurl@));
    out
}

/// The emoji of an admin listing response: an error where the status is not
/// a success or the body is not JSON.
pub fn admin_emojis_from_response(status: u16, body: &str, baseurl: &str) -> (r: Result<
    Vec<CustomEmoji>,
    ApiError,
>)
    ensures
        !is_success(status) ==> r == Err::<Vec<CustomEmoji>, ApiError>(ApiError::Status(status)),
        is_success(status) ==> match parsed_json(body@) {
            Some(j) => r matches Ok(v) && emoji_views(v@) == admin_emojis(j, baseurl@),
            None => r == Err::<Vec<CustomEmoji>, ApiError>(ApiError::Decode),
        },
{
    if !is_success_status(status) {
        return Err(ApiError::Status(status));
    }
    match parse_json(body) {
        Some(value) => Ok(emojis_from_admin_json(&value, baseurl)),
        None => Err(ApiError::Decode),
    }
}

/// The emoji of a public listing response: none where the forum answers
/// 404, an error for any other non-success status or a body that is not JSON.
pub fn public_emojis_from_response(status: u16, body: &str, baseurl: &str) -> (r: Result<
    Vec<CustomEmoji>,
    ApiError,
>)
    ensures
        status == 404 ==> (r matches Ok(v) && v@.len() == 0),
        status != 404 && !is_success(status) ==> r == Err::<Vec<CustomEmoji>, ApiError>(
            ApiError::Status(status),
        ),
        is_success(status) ==> match parsed_json(body@) {
            Some(j) => r matches Ok(v) && emoji_views(v@) == public_emojis(
                j,
                normalized_baseurl(baseurl@),
            ),
            None => r == Err::<Vec<CustomEmoji>, ApiError>(ApiError::Decode),
        },
{
    if status == 404 {
        return Ok(Vec::new());
    }
    if !is_success_status(status) {
        return Err(ApiError::Status(status));
    }
    match parse_json(body) {
        Some(value) => {
            let base = normalize_baseurl(baseurl);
            Ok(emojis_from_public_json(&value, base.as_str()))
        },
        None => Err(ApiError::Decode),
    }
}

/// What to do once the admin tier of the emoji listing has answered.
#[derive(Debug)]
pub enum EmojiListing {
    /// The admin tier gave the list.
    Done(Vec<CustomEmoji>),
    /// The admin tier failed: ask the public tier, whose answer is the result.
    AskPublic,
}

/// The admin tier is an optimisation: its list is the answer where it gave
/// one, and any failure of it turns to the public tier.
pub fn after_admin_tier<E>(admin: Result<Vec<CustomEmoji>, E>) -> (r: EmojiListing)
    ensures
        admin is Err <==> r is AskPublic,
        admin matches Ok(v) ==> r == EmojiListing::Done(v),
{
    match admin {
        Ok(v) => EmojiListing::Done(v),
        Err(_) => EmojiListing::AskPublic,
    }
}

} // verus!
