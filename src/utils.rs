//! Base URL normalisation and slugs.
use crate::text::{
    ascii_lower, chars_of, drop_leading, drop_trailing, is_alnum_char, is_ascii_alnum, leading_cut,
    lemma_drop_leading_suffix, lemma_drop_trailing_prefix,
    lower_char, slice_chars, string_of, trailing_cut,
};
use vstd::prelude::*;

verus! {

/// A base URL without its trailing slashes.
pub open spec fn normalized_baseurl(s: Seq<char>) -> Seq<char> {
    drop_trailing(s, '/')
}

/// `k` slashes.
pub open spec fn slashes(k: nat) -> Seq<char> {
    Seq::new(k, |i: int| '/')
}

/// Every ASCII letter or digit, lower-cased, with each run of other
/// characters collapsed to one hyphen; `dash` says whether a hyphen was just
/// written.
pub open spec fn collapse(s: Seq<char>, dash: bool) -> Seq<char>
    decreases s.len(),
{
    if s.len() == 0 {
        Seq::empty()
    } else if is_ascii_alnum(s[0]) {
        seq![ascii_lower(s[0])] + collapse(s.drop_first(), false)
    } else if dash {
        collapse(s.drop_first(), true)
    } else {
        seq!['-'] + collapse(s.drop_first(), true)
    }
}

/// The placeholder slug of a text without letters or digits.
pub open spec fn untitled() -> Seq<char> {
    seq!['u', 'n', 't', 'i', 't', 'l', 'e', 'd']
}

/// The slug of `s`: the collapsed text without hyphens at either end, or
/// `untitled` where nothing is left.
pub open spec fn slug(s: Seq<char>) -> Seq<char> {
    let t = drop_trailing(drop_leading(collapse(s, false), '-'), '-');
    if t.len() == 0 {
        untitled()
    } else {
        t
    }
}

/// A character that a slug may hold besides the hyphen.
pub open spec fn is_slug_char(c: char) -> bool {
    ('a' <= c && c <= 'z') || ('0' <= c && c <= '9')
}

/// Lower-case letters, digits and single hyphens.
pub open spec fn slug_shaped(t: Seq<char>) -> bool {
    &&& forall|i: int| 0 <= i < t.len() ==> is_slug_char(#[trigger] t[i]) || t[i] == '-'
    &&& forall|i: int| 0 <= i < t.len() - 1 ==> !(#[trigger] t[i] == '-' && t[i + 1] == '-')
}

/// What `slugify` returns: slug-shaped, non-empty, no hyphen at either end.
pub open spec fn is_slug(t: Seq<char>) -> bool {
    &&& slug_shaped(t)
    &&& t.len() > 0
    &&& t[0] != '-'
    &&& t.last() != '-'
}

/// Trim trailing slashes from a base URL.
pub fn normalize_baseurl(baseurl: &str) -> (r: String)
    ensures
        r@ == normalized_baseurl(baseurl@),
{
    let v = chars_of(baseurl);
    let k = trailing_cut(&v, '/', 0);
    assert(v@.subrange(0, v.len() as int) =~= v@);
    string_of(slice_chars(&v, 0, k).as_slice())
}

/// Create a URL-safe slug from arbitrary input.
pub fn slugify(input: &str) -> (r: String)
    ensures
        r@ == slug(input@),
{
    let v = chars_of(input);
    let n = v.len();
    let mut out: Vec<char> = Vec::new();
    let mut last_dash = false;
    let mut i: usize = 0;
    assert(v@.subrange(0, n as int) =~= v@);
    while i < n
        invariant
            i <= n == v.len(),
            out@ + collapse(v@.subrange(i as int, n as int), last_dash) == collapse(v@, false),
        decreases n - i,
    {
        let ch = v[i];
        let ghost rest = v@.subrange(i as int, n as int);
        assert(rest.drop_first() =~= v@.subrange(i + 1, n as int));
        if is_alnum_char(ch) {
            let lc = lower_char(ch);
            assert(out@.push(lc) + rest.drop_first() =~= out@ + (seq![lc] + rest.drop_first()));
            out.push(lc);
            last_dash = false;
        } else if !last_dash {
            assert(out@.push('-') + collapse(rest.drop_first(), true) =~= out@ + (seq!['-']
                + collapse(rest.drop_first(), true)));
            out.push('-');
            last_dash = true;
        }
        i = i + 1;
    }
    assert(out@ + Seq::<char>::empty() =~= out@);
    let start = leading_cut(&out, '-', out.len());
    let end = trailing_cut(&out, '-', start);
    assert(out@.subrange(0, out.len() as int) =~= out@);
    if start == end {
        proof {
            reveal_strlit("untitled");
        }
        "untitled".to_string()
    } else {
        string_of(slice_chars(&out, start, end).as_slice())
    }
}

/// Normalising a base URL gives the same text whatever number of slashes
/// ends it, and the result never ends in a slash.
pub proof fn lemma_normalize_ignores_trailing_slashes(s: Seq<char>, k: nat)
    ensures
        normalized_baseurl(s + slashes(k)) == normalized_baseurl(s),
        normalized_baseurl(s).len() > 0 ==> normalized_baseurl(s).last() != '/',
    decreases k,
{
    if k > 0 {
        let t = s + slashes(k);
        assert(t.last() == '/');
        assert(t.drop_last() =~= s + slashes((k - 1) as nat));
        lemma_normalize_ignores_trailing_slashes(s, (k - 1) as nat);
    } else {
        assert(s + slashes(0) =~= s);
    }
    let m = lemma_drop_trailing_prefix(s, '/');
}

/// Collapsed text is slug-shaped, and starts with no hyphen right after one.
proof fn lemma_collapse_shape(s: Seq<char>, dash: bool)
    ensures
        slug_shaped(collapse(s, dash)),
        dash && collapse(s, dash).len() > 0 ==> collapse(s, dash)[0] != '-',
    decreases s.len(),
{
    if s.len() > 0 {
        let rest = s.drop_first();
        if is_ascii_alnum(s[0]) {
            lemma_collapse_shape(rest, false);
        } else {
            lemma_collapse_shape(rest, true);
        }
        let c = collapse(s, dash);
        let tail = if is_ascii_alnum(s[0]) {
            collapse(rest, false)
        } else {
            collapse(rest, true)
        };
        if is_ascii_alnum(s[0]) || !dash {
            assert forall|i: int| 1 <= i < c.len() implies c[i] == tail[i - 1] by {}
        }
    }
}

/// Slug-shaped text comes out of `collapse` as it went in.
proof fn lemma_collapse_fixed(t: Seq<char>, dash: bool)
    requires
        slug_shaped(t),
        dash && t.len() > 0 ==> t[0] != '-',
    ensures
        collapse(t, dash) == t,
    decreases t.len(),
{
    if t.len() > 0 {
        let rest = t.drop_first();
        assert(slug_shaped(rest)) by {
            assert forall|i: int| 0 <= i < rest.len() - 1 implies !(#[trigger] rest[i] == '-'
                && rest[i + 1] == '-') by {
                assert(t[i + 1] == rest[i]);
            }
        }
        if t[0] == '-' {
            if t.len() > 1 {
                assert(t[1] == rest[0]);
            }
            lemma_collapse_fixed(rest, true);
        } else {
            lemma_collapse_fixed(rest, false);
        }
        assert(t =~= seq![t[0]] + rest);
    }
}

/// A slug is slug-shaped, non-empty, and has no hyphen at either end.
pub proof fn lemma_slug_is_slug(s: Seq<char>)
    ensures
        is_slug(slug(s)),
{
    let c = collapse(s, false);
    lemma_collapse_shape(s, false);
    let a = lemma_drop_leading_suffix(c, '-');
    let u = c.subrange(a, c.len() as int);
    let b = lemma_drop_trailing_prefix(u, '-');
    let t = u.subrange(0, b);
    if t.len() == 0 {
        assert(untitled()[0] == 'u');
        assert(untitled().last() == 'd');
        assert forall|i: int| 0 <= i < untitled().len() implies is_slug_char(
            #[trigger] untitled()[i],
        ) by {}
    } else {
        assert forall|i: int| 0 <= i < t.len() implies is_slug_char(#[trigger] t[i]) || t[i]
            == '-' by {
            assert(t[i] == c[a + i]);
        }
        assert forall|i: int| 0 <= i < t.len() - 1 implies !(#[trigger] t[i] == '-' && t[i + 1]
            == '-') by {
            assert(t[i] == c[a + i]);
            assert(t[i + 1] == c[a + i + 1]);
        }
    }
}

/// A slug is its own slug.
pub proof fn lemma_slug_fixed(t: Seq<char>)
    requires
        is_slug(t),
    ensures
        slug(t) == t,
{
    lemma_collapse_fixed(t, false);
}

/// Slugging twice gives what slugging once gives.
pub proof fn lemma_slug_idempotent(s: Seq<char>)
    ensures
        slug(slug(s)) == slug(s),
{
    lemma_slug_is_slug(s);
    lemma_slug_fixed(slug(s));
}

/// Text without an ASCII letter or digit slugs to `untitled`.
pub proof fn lemma_slug_without_alnum(s: Seq<char>)
    requires
        forall|i: int| 0 <= i < s.len() ==> !is_ascii_alnum(#[trigger] s[i]),
    ensures
        slug(s) == untitled(),
{
    lemma_collapse_no_alnum(s, false);
    let c = collapse(s, false);
    let a = lemma_drop_leading_suffix(c, '-');
    let b = lemma_drop_trailing_prefix(c.subrange(a, c.len() as int), '-');
}

/// Text without an ASCII letter or digit collapses to hyphens alone.
proof fn lemma_collapse_no_alnum(s: Seq<char>, dash: bool)
    requires
        forall|i: int| 0 <= i < s.len() ==> !is_ascii_alnum(#[trigger] s[i]),
    ensures
        forall|i: int| 0 <= i < collapse(s, dash).len() ==> #[trigger] collapse(s, dash)[i] == '-',
    decreases s.len(),
{
    if s.len() > 0 {
        let rest = s.drop_first();
        assert forall|i: int| 0 <= i < rest.len() implies !is_ascii_alnum(#[trigger] rest[i]) by {
            assert(rest[i] == s[i + 1]);
        }
        lemma_collapse_no_alnum(rest, true);
        let c = collapse(s, dash);
        let tail = collapse(rest, true);
        if !dash {
            assert forall|i: int| 0 <= i < c.len() implies #[trigger] c[i] == '-' by {
                if i > 0 {
                    assert(c[i] == tail[i - 1]);
                }
            }
        }
    }
}

} // verus!
