//! Paths written as text: file names, extensions and stems, and the paths
//! the library derives from them.
use crate::text::{
    ascii_lower_seq, chars_eq, chars_of, concat_chars, drop_trailing, lower_chars, slice_chars,
    string_of, trailing_cut,
};
use crate::utils::{slug, slugify};
use vstd::prelude::*;

verus! {

/// The position of the last `c` in `s`.
pub open spec fn last_index_of(s: Seq<char>, c: char) -> Option<int>
    decreases s.len(),
{
    if s.len() == 0 {
        None
    } else if s.last() == c {
        Some(s.len() - 1)
    } else {
        last_index_of(s.drop_last(), c)
    }
}

/// The last component of a path, where it names a file or directory: the
/// text after the last `/` once trailing slashes are left out; `None` where
/// that is empty, `.` or `..`.
pub open spec fn file_name(p: Seq<char>) -> Option<Seq<char>> {
    let q = drop_trailing(p, '/');
    let seg = match last_index_of(q, '/') {
        Some(i) => q.subrange(i + 1, q.len() as int),
        None => q,
    };
    if seg.len() == 0 || seg == "."@ || seg == ".."@ {
        None
    } else {
        Some(seg)
    }
}

/// The extension of a file name: what follows its last `.`, where that dot
/// is not the name's first character.
pub open spec fn name_extension(name: Seq<char>) -> Option<Seq<char>> {
    match last_index_of(name, '.') {
        Some(i) => if i > 0 {
            Some(name.subrange(i + 1, name.len() as int))
        } else {
            None
        },
        None => None,
    }
}

/// The stem of a file name: the name without its extension and the dot
/// before it.
pub open spec fn name_stem(name: Seq<char>) -> Seq<char> {
    match last_index_of(name, '.') {
        Some(i) => if i > 0 {
            name.subrange(0, i)
        } else {
            name
        },
        None => name,
    }
}

/// The extension of the file a path names.
pub open spec fn path_extension(p: Seq<char>) -> Option<Seq<char>> {
    match file_name(p) {
        Some(n) => name_extension(n),
        None => None,
    }
}

/// `name` placed in the directory `dir`: joined with one `/` unless `dir` is
/// empty or already ends in one.
pub open spec fn join_path(dir: Seq<char>, name: Seq<char>) -> Seq<char> {
    if dir.len() == 0 {
        name
    } else if dir.last() == '/' {
        dir + name
    } else {
        dir + seq!['/'] + name
    }
}

/// The position of the last `c` in `v@.subrange(0, to)`.
fn last_index(v: &Vec<char>, c: char, to: usize) -> (r: Option<usize>)
    requires
        to <= v.len(),
    ensures
        r is None <==> last_index_of(v@.subrange(0, to as int), c) is None,
        r matches Some(i) ==> last_index_of(v@.subrange(0, to as int), c) == Some(i as int) && i
            < to,
{
    let mut k: usize = to;
    while k > 0 && v[k - 1] != c
        invariant
            k <= to <= v.len(),
            last_index_of(v@.subrange(0, to as int), c) == last_index_of(
                v@.subrange(0, k as int),
                c,
            ),
        decreases k,
    {
        assert(v@.subrange(0, k as int).drop_last() =~= v@.subrange(0, k - 1));
        k = k - 1;
    }
    if k == 0 {
        None
    } else {
        Some(k - 1)
    }
}

/// The last component of `path`, where it names a file or directory.
pub fn path_file_name(path: &str) -> (r: Option<Vec<char>>)
    ensures
        r is None <==> file_name(path@) is None,
        r matches Some(n) ==> file_name(path@) == Some(n@),
{
    let v = chars_of(path);
    let end = trailing_cut(&v, '/', 0);
    assert(v@.subrange(0, v.len() as int) =~= v@);
    let q = slice_chars(&v, 0, end);
    assert(q@.subrange(0, q.len() as int) =~= q@);
    let seg = match last_index(&q, '/', q.len()) {
        Some(i) => slice_chars(&q, i + 1, q.len()),
        None => q,
    };
    let dot = chars_of(".");
    let dotdot = chars_of("..");
    if seg.len() == 0 || chars_eq(&seg, &dot) || chars_eq(&seg, &dotdot) {
        None
    } else {
        Some(seg)
    }
}

/// The extension of a file name.
fn extension_of(name: &Vec<char>) -> (r: Option<Vec<char>>)
    ensures
        r is None <==> name_extension(name@) is None,
        r matches Some(e) ==> name_extension(name@) == Some(e@),
{
    assert(name@.subrange(0, name.len() as int) =~= name@);
    match last_index(name, '.', name.len()) {
        Some(i) => if i > 0 {
            Some(slice_chars(name, i + 1, name.len()))
        } else {
            None
        },
        None => None,
    }
}

/// The stem of a file name.
fn stem_of(name: &Vec<char>) -> (r: Vec<char>)
    ensures
        r@ == name_stem(name@),
{
    assert(name@.subrange(0, name.len() as int) =~= name@);
    match last_index(name, '.', name.len()) {
        Some(i) => if i > 0 {
            slice_chars(name, 0, i)
        } else {
            slice_chars(name, 0, name.len())
        },
        None => slice_chars(name, 0, name.len()),
    }
}

/// The extension of the file `path` names.
pub fn extension_of_path(path: &str) -> (r: Option<Vec<char>>)
    ensures
        r is None <==> path_extension(path@) is None,
        r matches Some(e) ==> path_extension(path@) == Some(e@),
{
    match path_file_name(path) {
        Some(n) => extension_of(&n),
        None => None,
    }
}

/// `name` placed in the directory `dir`.
pub fn join(dir: &str, name: &Vec<char>) -> (r: String)
    ensures
        r@ == join_path(dir@, name@),
{
    let d = chars_of(dir);
    proof {
        reveal_strlit("/");
        assert("/"@ =~= seq!['/']);
    }
    if d.len() == 0 {
        string_of(name.as_slice())
    } else if d[d.len() - 1] == '/' {
        string_of(concat_chars(&d, name).as_slice())
    } else {
        string_of(concat_chars(&concat_chars(&d, &chars_of("/")), name).as_slice())
    }
}

/// The Markdown file name of a topic: its title's slug with `.md`.
pub open spec fn topic_file_name(title: Seq<char>) -> Seq<char> {
    slug(title) + ".md"@
}

/// Where a topic's Markdown file goes: inside `provided` where that is an
/// existing directory; `provided` itself where it names a file with an
/// extension; else inside `provided`, or inside `default_dir` where no path
/// was given.
pub open spec fn topic_path(
    provided: Option<Seq<char>>,
    provided_is_dir: bool,
    title: Seq<char>,
    default_dir: Seq<char>,
) -> Seq<char> {
    match provided {
        Some(p) => if provided_is_dir {
            join_path(p, topic_file_name(title))
        } else if path_extension(p) is Some {
            p
        } else {
            join_path(p, topic_file_name(title))
        },
        None => join_path(default_dir, topic_file_name(title)),
    }
}

/// Resolve a topic path from a user-provided path and a topic title;
/// `provided_is_dir` says whether the provided path is an existing directory.
pub fn resolve_topic_path(
    provided: Option<&str>,
    provided_is_dir: bool,
    title: &str,
    default_dir: &str,
) -> (r: String)
    ensures
        r@ == topic_path(
            match provided {
                Some(p) => Some(p@),
                None => None,
            },
            provided_is_dir,
            title@,
            default_dir@,
        ),
{
    let filename = concat_chars(&chars_of(slugify(title).as_str()), &chars_of(".md"));
    match provided {
        Some(p) => if provided_is_dir {
            join(p, &filename)
        } else if extension_of_path(p).is_some() {
            p.to_string()
        } else {
            join(p, &filename)
        },
        None => join(default_dir, &filename),
    }
}

/// The file name an upload carries: the path's file name, else `emoji.png`.
pub open spec fn upload_name(path: Seq<char>) -> Seq<char> {
    match file_name(path) {
        Some(n) => n,
        None => "emoji.png"@,
    }
}

/// The file name an emoji upload carries.
pub fn upload_file_name(path: &str) -> (r: String)
    ensures
        r@ == upload_name(path@),
{
    match path_file_name(path) {
        Some(n) => string_of(n.as_slice()),
        None => "emoji.png".to_string(),
    }
}

/// `s` with each hyphen turned into an underscore.
pub open spec fn underscored(s: Seq<char>) -> Seq<char> {
    s.map_values(|c: char| if c == '-' { '_' } else { c })
}

/// The emoji name a file yields: the slug of its stem with underscores for
/// hyphens; `None` where the path names no file.
pub open spec fn emoji_name(path: Seq<char>) -> Option<Seq<char>> {
    match file_name(path) {
        Some(n) => Some(underscored(slug(name_stem(n)))),
        None => None,
    }
}

/// The path names no file, so no emoji name comes from it.
#[derive(Debug)]
pub enum EmojiNameError {
    MissingFileName,
}

/// The emoji name a file yields.
pub fn emoji_name_from_path(path: &str) -> (r: Result<String, EmojiNameError>)
    ensures
        r is Err <==> emoji_name(path@) is None,
        r matches Ok(n) ==> emoji_name(path@) == Some(n@),
{
    let name = match path_file_name(path) {
        Some(n) => n,
        None => {
            return Err(EmojiNameError::MissingFileName);
        },
    };
    let stem = stem_of(&name);
    let slug_text = chars_of(slugify(string_of(stem.as_slice()).as_str()).as_str());
    let mut out: Vec<char> = Vec::new();
    let mut i: usize = 0;
    while i < slug_text.len()
        invariant
            i <= slug_text.len(),
            out@ == underscored(slug_text@.subrange(0, i as int)),
        decreases slug_text.len() - i,
    {
        let c = slug_text[i];
        out.push(if c == '-' { '_' } else { c });
        i = i + 1;
        assert(out@ =~= underscored(slug_text@.subrange(0, i as int)));
    }
    assert(slug_text@.subrange(0, slug_text.len() as int) =~= slug_text@);
    Ok(string_of(out.as_slice()))
}

/// A file whose extension, in any ASCII case, is that of an image an emoji
/// can be made from.
pub open spec fn emoji_file(path: Seq<char>) -> bool {
    match path_extension(path) {
        Some(e) => {
            let l = ascii_lower_seq(e);
            l == "png"@ || l == "jpg"@ || l == "jpeg"@ || l == "gif"@ || l == "svg"@
        },
        None => false,
    }
}

/// Whether the file `path` names can be uploaded as an emoji.
pub fn is_emoji_file(path: &str) -> (r: bool)
    ensures
        r == emoji_file(path@),
{
    let ext = match extension_of_path(path) {
        Some(e) => lower_chars(&e),
        None => {
            return false;
        },
    };
    chars_eq(&ext, &chars_of("png")) || chars_eq(&ext, &chars_of("jpg")) || chars_eq(
        &ext,
        &chars_of("jpeg"),
    ) || chars_eq(&ext, &chars_of("gif")) || chars_eq(&ext, &chars_of("svg"))
}

} // verus!
