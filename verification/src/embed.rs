//! Which embedded asset a request path names, and its content type.
use vstd::prelude::*;
use crate::text::{chars_of, has_prefix, starts_with, str_eq};

verus! {

/// `s` without its leading slashes (`str::trim_start_matches('/')`).
pub open spec fn without_leading_slashes(s: Seq<char>) -> Seq<char>
    decreases s.len(),
{
    if s.len() > 0 && s[0] == '/' {
        without_leading_slashes(s.drop_first())
    } else {
        s
    }
}

/// Prefixes of the service's own routes, which never name an asset.
pub open spec fn is_api_path(p: Seq<char>) -> bool {
    ||| has_prefix(p, "users"@)
    ||| has_prefix(p, "projects"@)
    ||| has_prefix(p, "time-entries"@)
    ||| has_prefix(p, "departments"@)
    ||| has_prefix(p, "auth"@)
}

/// The asset that a request path names: the index page for an empty path or
/// `/`, otherwise the path without leading slashes, unless that is a route
/// of the service.
pub open spec fn asset_for(path: Seq<char>) -> Option<Seq<char>> {
    let p = if path.len() == 0 || path == "/"@ {
        "index.html"@
    } else {
        without_leading_slashes(path)
    };
    if is_api_path(p) {
        None
    } else {
        Some(p)
    }
}

/// What `mime_guess::from_path(path).first_or_octet_stream()` writes as text.
pub uninterp spec fn guessed_mime(path: Seq<char>) -> Seq<char>;

/// Calls `mime_guess::from_path` and takes its first guess, or
/// `application/octet-stream`; the result is named `guessed_mime`.
#[verifier::external_body]
fn guess_mime(path: &str) -> (r: String)
    ensures
        r@ == guessed_mime(path@),
{
    mime_guess::from_path(path).first_or_octet_stream().to_string()
}

fn strip_leading_slashes(path: &str) -> (r: String)
    ensures
        r@ == without_leading_slashes(path@),
{
    let v = chars_of(path);
    let mut i: usize = 0;
    assert(v@.subrange(0, v@.len() as int) =~= v@);
    while i < v.len() && v[i] == '/'
        invariant
            v@ == path@,
            i <= v@.len(),
            without_leading_slashes(path@) == without_leading_slashes(v@.subrange(i as int, v@.len() as int)),
        decreases v.len() - i,
    {
        assert(v@.subrange(i as int, v@.len() as int).drop_first() =~= v@.subrange(i + 1, v@.len() as int));
        i = i + 1;
    }
    let n = v.len();
    String::from_str(path.substring_char(i, n))
}

/// The asset that a request path names and its content type, or `None`
/// when the path is a route of the service.
pub fn resolve_asset(path: &str) -> (r: Option<(String, String)>)
    ensures
        match r {
            Some((p, mime)) => asset_for(path@) == Some(p@) && mime@ == guessed_mime(p@),
            None => asset_for(path@) is None,
        },
{
    let p = if path.unicode_len() == 0 || str_eq(path, "/") {
        String::from_str("index.html")
    } else {
        strip_leading_slashes(path)
    };
    let ps = p.as_str();
    if starts_with(ps, "users") || starts_with(ps, "projects") || starts_with(ps, "time-entries")
        || starts_with(ps, "departments") || starts_with(ps, "auth") {
        return None;
    }
    let mime = guess_mime(ps);
    Some((p, mime))
}

} // verus!
