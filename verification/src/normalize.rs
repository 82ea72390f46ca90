//! URL normalization.
//!
//! Two normalizers are used during a run.  The crawl normalizer keeps an
//! already-absolute reference unchanged and resolves anything else
//! against a base with standard URL-join semantics; an unresolvable
//! reference is a recoverable skip, never a fatal condition.  The API
//! normalizer additionally filters Base64-like and static-asset paths,
//! substitutes the configured API core for a bare `api` fragment, and
//! hands back an empty string as its rejection sentinel.
use vstd::prelude::*;

use crate::classify::{contains_static_ext, has_static_ext, has_static_ext_within, is_static_url};
use crate::outside::{pct_decode, percent_decoded, url_join, url_joined, url_parse_ok, url_parses};
use crate::text::{contains_str, count3, find_char, spec_contains, spec_count3, spec_find,
    spec_trim_slashes, spec_trim_start_slashes, str_eq, trim_slashes, trim_start_slashes};

verus! {

/// What normalizing a reference for crawling yields: an absolute
/// `http`/`ws` reference is kept as it is; anything else resolves
/// against the base, and a failed resolution is a skip.
pub open spec fn spec_normalize_crawl(path: Seq<char>, base: Seq<char>) -> Option<Seq<char>> {
    if "http"@.is_prefix_of(path) || "ws"@.is_prefix_of(path) {
        Some(path)
    } else {
        url_joined(base, path)
    }
}

/// Normalize a reference for crawling.  A reference that already has an
/// `http`/`ws` scheme prefix is returned unchanged; a relative one is
/// resolved against `base`; an unresolvable one yields `None`, which
/// terminates only the branch that produced it.
pub fn normalize_url_for_crawl(path: &str, base: &str) -> (r: Option<String>)
    ensures
        r.deep_view() == spec_normalize_crawl(path@, base@),
        ("http"@.is_prefix_of(path@) || "ws"@.is_prefix_of(path@)) ==> r.deep_view() == Some(
            path@,
        ),
{
    if crate::text::starts_with_str(path, "http") || crate::text::starts_with_str(path, "ws") {
        Some(String::from_str(path))
    } else {
        url_join(base, path)
    }
}

/// A path fragment that is likely Base64 payload rather than a path:
/// it carries a data-URL marker, or too many of `+`, `/`, `=`, or it is
/// over 100 characters long.
pub open spec fn spec_base64_like(p: Seq<char>) -> bool {
    ||| spec_contains(p, "data:"@)
    ||| spec_contains(p, "base64"@)
    ||| spec_count3(p, '+', '/', '=') > 5
    ||| p.len() > 100
}

/// `p` is likely Base64 payload rather than a path.
pub fn is_base64_like(p: &str) -> (r: bool)
    ensures
        r == spec_base64_like(p@),
{
    contains_str(p, "data:") || contains_str(p, "base64") || count3(p, '+', '/', '=') > 5
        || p.unicode_len() > 100
}

/// The part of `cleaned` before the first `?`.
pub open spec fn spec_path_part(cleaned: Seq<char>) -> Seq<char> {
    let q = spec_find(cleaned, '?');
    if q == -1 {
        cleaned
    } else {
        cleaned.take(q)
    }
}

/// `cleaned` has a `?` with at least one character after it.
pub open spec fn spec_has_query(cleaned: Seq<char>) -> bool {
    let q = spec_find(cleaned, '?');
    q != -1 && q + 1 < cleaned.len()
}

/// A decoded fragment that reads as a static asset rather than an API
/// path: texture words, an asset extension at its end, an asset
/// extension inside its path when a query string is present, or an
/// excessive density of `/`, `+`, `=`.
pub open spec fn spec_api_asset_like(cleaned: Seq<char>) -> bool {
    let path_part = spec_path_part(cleaned);
    ||| spec_contains(path_part, "image"@)
    ||| spec_contains(cleaned, "img"@)
    ||| spec_contains(cleaned, "css"@)
    ||| spec_contains(cleaned, "font"@)
    ||| spec_contains(cleaned, "svg"@)
    ||| has_static_ext(cleaned)
    ||| spec_contains(cleaned, "swf"@)
    ||| (spec_has_query(cleaned) && has_static_ext_within(path_part))
    ||| spec_count3(cleaned, '/', '+', '=') > 10
}

/// The base with a trailing `/` guaranteed.
pub open spec fn spec_with_slash(base: Seq<char>) -> Seq<char> {
    if "/"@.is_suffix_of(base) {
        base
    } else {
        base + "/"@
    }
}

/// The bare-`api` fragments for which the configured API core is
/// substituted.
pub open spec fn spec_bare_api(cp: Seq<char>) -> bool {
    cp == "api"@ || cp == "api/"@ || cp == "/api"@ || cp == "/api/"@
}

/// What normalizing a fragment for API probing yields: empty on any
/// rejection, otherwise the decoded fragment joined onto the base (with
/// the API core substituted for a bare `api`), provided the result
/// parses as a URL.
pub open spec fn spec_normalize_api(path: Seq<char>, base_url: Seq<char>, api_core: Seq<
    char,
>) -> Seq<char> {
    if spec_base64_like(path) {
        Seq::empty()
    } else {
        let cleaned = percent_decoded(path);
        if spec_api_asset_like(cleaned) {
            Seq::empty()
        } else {
            let full = if "http"@.is_prefix_of(path) || "ws"@.is_prefix_of(path) {
                cleaned
            } else {
                let base = spec_with_slash(base_url);
                let cp = spec_trim_start_slashes(cleaned);
                if spec_bare_api(cp) {
                    base + spec_trim_slashes(api_core)
                } else {
                    base + cp
                }
            };
            if url_parses(full) {
                full
            } else {
                Seq::empty()
            }
        }
    }
}

/// Normalize a fragment for API probing, as `spec_normalize_api`
/// describes; the empty string is the rejection sentinel.
pub fn normalize_url_for_api(path: &str, base_url: &str, api_core: &str) -> (r: String)
    ensures
        r@ == spec_normalize_api(path@, base_url@, api_core@),
{
    if is_base64_like(path) {
        return String::new();
    }
    let cleaned = pct_decode(path);
    let cs = cleaned.as_str();
    let n = cs.unicode_len();
    let (path_part, has_query) = match find_char(cs, '?') {
        Some(i) => (cs.substring_char(0, i), i + 1 < n),
        None => (cs, false),
    };
    proof {
        let q = spec_find(cleaned@, '?');
        if q != -1 {
            assert(path_part@ =~= cleaned@.take(q));
        }
    }
    if contains_str(path_part, "image") || contains_str(cs, "img") || contains_str(cs, "css")
        || contains_str(cs, "font") || contains_str(cs, "svg") || is_static_url(cs)
        || contains_str(cs, "swf") || (has_query && contains_static_ext(path_part)) || count3(
        cs,
        '/',
        '+',
        '=',
    ) > 10 {
        return String::new();
    }
    let full: String = if crate::text::starts_with_str(path, "http") || crate::text::starts_with_str(
        path,
        "ws",
    ) {
        cleaned
    } else {
        let mut base = String::from_str(base_url);
        if !crate::text::ends_with_str(base_url, "/") {
            base.append("/");
        }
        let cp = trim_start_slashes(cs);
        if str_eq(cp, "api") || str_eq(cp, "api/") || str_eq(cp, "/api") || str_eq(cp, "/api/") {
            base.append(trim_slashes(api_core));
        } else {
            base.append(cp);
        }
        base
    };
    if url_parse_ok(full.as_str()) {
        full
    } else {
        String::new()
    }
}

} // verus!
