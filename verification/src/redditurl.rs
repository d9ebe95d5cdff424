//! The URL rewriter: collapse a web forum link into its top-sorted
//! equivalent, by trimming the path, appending the right listing segment,
//! and setting the sort query parameters without duplicating them.

use vstd::prelude::*;
use crate::errors::TransformError;
use crate::strutil::contains_seq;
use crate::strutil::contains_sub;
use crate::strutil::has_prefix;
use crate::strutil::matches_at;
use crate::strutil::str_chars;
use crate::strutil::string_from_chars;
use crate::strutil::str_eq;

verus! {

/// The view of a decoded query-pair list.
pub open spec fn pairs_view(q: Seq<(String, String)>) -> Seq<(Seq<char>, Seq<char>)> {
    q.map_values(|p: (String, String)| (p.0@, p.1@))
}

/// What the library reads of a parsed URL: its path, its decoded query
/// pairs, and whether it is opaque (cannot take path segments).
pub struct UrlParts {
    pub path: String,
    pub pairs: Vec<(String, String)>,
    pub opaque: bool,
}

/// Whether `s` parses as a URL: exactly when `url::Url::parse` succeeds.
pub uninterp spec fn url_parse_ok(s: Seq<char>) -> bool;

/// The path of the URL that `s` parses to.
pub uninterp spec fn url_path_of(s: Seq<char>) -> Seq<char>;

/// The decoded query pairs of the URL that `s` parses to, in order.
pub uninterp spec fn url_pairs_of(s: Seq<char>) -> Seq<(Seq<char>, Seq<char>)>;

/// Whether the URL that `s` parses to is opaque: it cannot be a base, so
/// no path segment can be appended to it.
pub uninterp spec fn url_opaque_of(s: Seq<char>) -> bool;

/// The serialization of the URL that `s` parses to after its path is
/// replaced by `path` and its query pairs by `pairs`.
pub uninterp spec fn url_rebuilt(
    s: Seq<char>,
    path: Seq<char>,
    pairs: Seq<(Seq<char>, Seq<char>)>,
) -> Seq<char>;

/// Relies on `url::Url::parse` and the accessors `path`,
/// `cannot_be_a_base` and `query_pairs`: parsing succeeds exactly on text
/// that parses as a URL, and the parsed URL's path, opacity and decoded
/// query pairs are functions of the text alone.
#[verifier::external_body]
fn parse_url_parts(s: &str) -> (r: Option<UrlParts>)
    ensures
        r is Some <==> url_parse_ok(s@),
        r is Some ==> r->0.path@ == url_path_of(s@),
        r is Some ==> r->0.opaque == url_opaque_of(s@),
        r is Some ==> pairs_view(r->0.pairs@) == url_pairs_of(s@),
{
    match url::Url::parse(s) {
        Ok(u) => Some(
            UrlParts {
                path: u.path().to_string(),
                opaque: u.cannot_be_a_base(),
                pairs: u.query_pairs().map(|(k, v)| (k.into_owned(), v.into_owned())).collect(),
            },
        ),
        Err(_) => None,
    }
}

/// Relies on `url::Url::parse`, `set_path`, `query_pairs_mut` (`clear` then
/// `extend_pairs`) and `as_str`: on text that parses as a URL, replacing
/// the path and the query pairs and re-serializing yields a text that is a
/// function of the original text, the path and the pairs alone.
#[verifier::external_body]
fn rebuild_url(s: &str, path: &str, pairs: &Vec<(String, String)>) -> (r: Option<String>)
    ensures
        r is Some <==> url_parse_ok(s@),
        r is Some ==> r->0@ == url_rebuilt(s@, path@, pairs_view(pairs@)),
{
    match url::Url::parse(s) {
        Ok(mut u) => {
            u.set_path(path);
            u.query_pairs_mut().clear().extend_pairs(pairs.iter().map(|p| (&p.0, &p.1))).finish();
            Some(u.as_str().to_string())
        },
        Err(_) => None,
    }
}

/// `p` without its trailing slashes.
pub open spec fn spec_trim_end_slashes(p: Seq<char>) -> Seq<char>
    decreases p.len(),
{
    if p.len() > 0 && p.last() == '/' {
        spec_trim_end_slashes(p.drop_last())
    } else {
        p
    }
}

proof fn lemma_trim_slashes_step(s: Seq<char>, j: int)
    requires
        0 <= j <= s.len(),
        forall|k: int| j <= k < s.len() ==> s[k] == '/',
    ensures
        spec_trim_end_slashes(s) == spec_trim_end_slashes(s.take(j)),
    decreases s.len() - j,
{
    if j == s.len() {
        assert(s.take(j) =~= s);
    } else {
        assert(s.last() == '/');
        assert(s.drop_last() =~= s.take(s.len() - 1));
        lemma_trim_slashes_step(s.take(s.len() - 1), j);
        assert(s.take(s.len() - 1).take(j) =~= s.take(j));
    }
}

fn trim_end_slashes(v: &Vec<char>) -> (r: Vec<char>)
    ensures
        r@ == spec_trim_end_slashes(v@),
{
    let n = v.len();
    let mut end: usize = n;
    while end > 0 && v[end - 1] == '/'
        invariant
            n == v@.len(),
            end <= n,
            forall|k: int| end <= k < n ==> v@[k] == '/',
        decreases end,
    {
        end -= 1;
    }
    proof {
        lemma_trim_slashes_step(v@, end as int);
        if end > 0 {
            assert(v@.take(end as int).last() == v@[end - 1]);
        }
        assert(spec_trim_end_slashes(v@.take(end as int)) == v@.take(end as int));
    }
    let mut r: Vec<char> = Vec::new();
    let mut i: usize = 0;
    while i < end
        invariant
            n == v@.len(),
            i <= end <= n,
            r@ =~= v@.take(i as int),
        decreases end - i,
    {
        r.push(v[i]);
        i += 1;
    }
    assert(r@ =~= v@.take(end as int));
    r
}

/// The short user-page prefix.
pub open spec fn user_prefix_short() -> Seq<char> {
    seq!['/', 'u', '/']
}

/// The long user-page prefix.
pub open spec fn user_prefix_long() -> Seq<char> {
    seq!['/', 'u', 's', 'e', 'r', '/']
}

/// The comments-page marker segment.
pub open spec fn comments_marker() -> Seq<char> {
    seq!['/', 'c', 'o', 'm', 'm', 'e', 'n', 't', 's', '/']
}

/// Whether a (trimmed) path addresses a user page.
pub open spec fn spec_is_user_path(t: Seq<char>) -> bool {
    matches_at(t, user_prefix_short(), 0) || matches_at(t, user_prefix_long(), 0)
}

/// Whether a (trimmed) path contains a comments segment, marking a single
/// post's page.
pub open spec fn spec_has_comments(t: Seq<char>) -> bool {
    contains_seq(t, comments_marker())
}

/// Whether rewriting this path appends a path segment to the URL.
pub open spec fn spec_needs_segment(p: Seq<char>) -> bool {
    spec_is_user_path(spec_trim_end_slashes(p)) || !spec_has_comments(spec_trim_end_slashes(p))
}

/// The rewritten path: trailing slashes trimmed, then `submitted` appended
/// for a user page, `top` appended for any other page that is not already
/// a comments page.
pub open spec fn spec_new_path(p: Seq<char>) -> Seq<char> {
    let t = spec_trim_end_slashes(p);
    if spec_is_user_path(t) {
        t + "/submitted"@
    } else if !spec_has_comments(t) {
        t + "/top"@
    } else {
        t
    }
}

/// `q` without the pairs whose key is `k`.
pub open spec fn spec_remove_key(
    q: Seq<(Seq<char>, Seq<char>)>,
    k: Seq<char>,
) -> Seq<(Seq<char>, Seq<char>)>
    decreases q.len(),
{
    if q.len() == 0 {
        Seq::<(Seq<char>, Seq<char>)>::empty()
    } else if q[0].0 == k {
        spec_remove_key(q.drop_first(), k)
    } else {
        seq![q[0]] + spec_remove_key(q.drop_first(), k)
    }
}

/// `q` with the parameter `k` set to `v`: the first pair keyed `k` is
/// replaced in place, any later pair keyed `k` is dropped, and the pair is
/// appended at the end when no pair is keyed `k`. Setting never duplicates
/// a parameter.
pub open spec fn spec_set_pair(
    q: Seq<(Seq<char>, Seq<char>)>,
    k: Seq<char>,
    v: Seq<char>,
) -> Seq<(Seq<char>, Seq<char>)>
    decreases q.len(),
{
    if q.len() == 0 {
        seq![(k, v)]
    } else if q[0].0 == k {
        seq![(k, v)] + spec_remove_key(q.drop_first(), k)
    } else {
        seq![q[0]] + spec_set_pair(q.drop_first(), k, v)
    }
}

fn remove_key_from(q: &Vec<(String, String)>, i: usize, k: &str) -> (r: Vec<(String, String)>)
    requires
        i <= q@.len(),
    ensures
        pairs_view(r@) == spec_remove_key(pairs_view(q@).skip(i as int), k@),
    decreases q@.len() - i,
{
    if i == q.len() {
        let r: Vec<(String, String)> = Vec::new();
        assert(pairs_view(r@) =~= spec_remove_key(pairs_view(q@).skip(i as int), k@));
        r
    } else {
        let ghost rest = pairs_view(q@).skip(i as int);
        proof {
            assert(rest[0] == pairs_view(q@)[i as int]);
            assert(rest.drop_first() =~= pairs_view(q@).skip(i + 1));
        }
        let p = &q[i];
        if str_eq(p.0.as_str(), k) {
            let r = remove_key_from(q, i + 1, k);
            assert(pairs_view(r@) == spec_remove_key(rest, k@));
            r
        } else {
            let mut r = remove_key_from(q, i + 1, k);
            r.insert(0, (p.0.clone(), p.1.clone()));
            assert(pairs_view(r@) =~= seq![rest[0]] + spec_remove_key(rest.drop_first(), k@));
            r
        }
    }
}

fn set_pair_from(q: &Vec<(String, String)>, i: usize, k: &str, v: &str) -> (r: Vec<
    (String, String),
>)
    requires
        i <= q@.len(),
    ensures
        pairs_view(r@) == spec_set_pair(pairs_view(q@).skip(i as int), k@, v@),
    decreases q@.len() - i,
{
    if i == q.len() {
        let mut r: Vec<(String, String)> = Vec::new();
        r.push((String::from_str(k), String::from_str(v)));
        assert(pairs_view(r@) =~= spec_set_pair(pairs_view(q@).skip(i as int), k@, v@));
        r
    } else {
        let ghost rest = pairs_view(q@).skip(i as int);
        proof {
            assert(rest[0] == pairs_view(q@)[i as int]);
            assert(rest.drop_first() =~= pairs_view(q@).skip(i + 1));
        }
        let p = &q[i];
        if str_eq(p.0.as_str(), k) {
            let mut r = remove_key_from(q, i + 1, k);
            r.insert(0, (String::from_str(k), String::from_str(v)));
            assert(pairs_view(r@) =~= seq![(k@, v@)] + spec_remove_key(rest.drop_first(), k@));
            r
        } else {
            let mut r = set_pair_from(q, i + 1, k, v);
            r.insert(0, (p.0.clone(), p.1.clone()));
            assert(pairs_view(r@) =~= seq![rest[0]] + spec_set_pair(rest.drop_first(), k@, v@));
            r
        }
    }
}

/// Set the query parameter `k` to `v`, replacing rather than appending.
fn set_pair(q: &Vec<(String, String)>, k: &str, v: &str) -> (r: Vec<(String, String)>)
    ensures
        pairs_view(r@) == spec_set_pair(pairs_view(q@), k@, v@),
{
    let r = set_pair_from(q, 0, k, v);
    assert(pairs_view(q@).skip(0) =~= pairs_view(q@));
    r
}

/// The rewritten query pairs: `sort=top` set for every page, and `t=all`
/// set as well except on user pages.
pub open spec fn spec_new_pairs(
    q: Seq<(Seq<char>, Seq<char>)>,
    p: Seq<char>,
) -> Seq<(Seq<char>, Seq<char>)> {
    if spec_is_user_path(spec_trim_end_slashes(p)) {
        spec_set_pair(q, "sort"@, "top"@)
    } else {
        spec_set_pair(spec_set_pair(q, "sort"@, "top"@), "t"@, "all"@)
    }
}

/// Whether rewriting `s` succeeds: it parses as a URL, and it can take a
/// path segment whenever the rewrite needs to append one.
pub open spec fn spec_reddit_ok(s: Seq<char>) -> bool {
    url_parse_ok(s) && !(url_opaque_of(s) && spec_needs_segment(url_path_of(s)))
}

/// Rewrite a forum URL to its top-sorted equivalent: trim trailing slashes
/// from the path; on a user page append the `submitted` segment and set
/// `sort=top`; on any other page set `sort=top` and `t=all`, appending a
/// `top` segment unless the page is already a single post's comments page.
/// Setting a query parameter replaces any existing occurrence.
pub fn reddit_top(input: &str) -> (r: Result<String, TransformError>)
    ensures
        r is Ok <==> spec_reddit_ok(input@),
        !spec_reddit_ok(input@) ==> r == Err::<String, TransformError>(TransformError::InvalidUrl),
        r is Ok ==> r->Ok_0@ == url_rebuilt(
            input@,
            spec_new_path(url_path_of(input@)),
            spec_new_pairs(url_pairs_of(input@), url_path_of(input@)),
        ),
{
    let parts = match parse_url_parts(input) {
        Some(p) => p,
        None => {
            return Err(TransformError::InvalidUrl);
        },
    };
    let pv = str_chars(parts.path.as_str());
    let mut t = trim_end_slashes(&pv);
    let short_prefix = str_chars("/u/");
    let long_prefix = str_chars("/user/");
    let marker = str_chars("/comments/");
    proof {
        reveal_strlit("/u/");
        reveal_strlit("/user/");
        reveal_strlit("/comments/");
        assert(short_prefix@ =~= user_prefix_short());
        assert(long_prefix@ =~= user_prefix_long());
        assert(marker@ =~= comments_marker());
    }
    let user = has_prefix(&t, &short_prefix) || has_prefix(&t, &long_prefix);
    let comments = contains_sub(&t, &marker);
    if parts.opaque && (user || !comments) {
        return Err(TransformError::InvalidUrl);
    }
    let ghost trimmed = spec_trim_end_slashes(url_path_of(input@));
    if user {
        let mut suffix = str_chars("/submitted");
        t.append(&mut suffix);
        assert(t@ == trimmed + "/submitted"@);
    } else if !comments {
        let mut suffix = str_chars("/top");
        t.append(&mut suffix);
        assert(t@ == trimmed + "/top"@);
    }
    let new_path = string_from_chars(&t);
    let sorted = set_pair(&parts.pairs, "sort", "top");
    let new_pairs = if user {
        sorted
    } else {
        set_pair(&sorted, "t", "all")
    };
    proof {
        assert(pairs_view(new_pairs@) == spec_new_pairs(url_pairs_of(input@), url_path_of(input@)));
        assert(new_path@ == spec_new_path(url_path_of(input@)));
    }
    match rebuild_url(input, new_path.as_str(), &new_pairs) {
        Some(out) => Ok(out),
        None => {
            proof {
                assert(false);
            }
            Err(TransformError::InvalidUrl)
        },
    }
}

} // verus!
