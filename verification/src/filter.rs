//! API-path filter.
//!
//! A stateless multi-stage gate over a candidate string fragment pulled
//! out of a JavaScript body.  Each stage is a hard reject: Base64-like
//! payloads, out-of-range lengths, CJK text, configured noise and
//! markup artifacts, and static-asset paths all yield no result.  What
//! survives is classified as an explicit API path or a RESTful-shaped
//! candidate and resolved against every known base URL.
use vstd::prelude::*;

use crate::classify::{contains_static_ext, has_static_ext_within, is_static_url, has_static_ext};
use crate::normalize::{is_base64_like, normalize_url_for_api, spec_base64_like,
    spec_normalize_api, spec_path_part, spec_has_query};
use crate::outside::{pct_decode, percent_decoded, re_is_match, regex_matched};
use crate::text::{contains_str, count3, find_char, is_alnum_char, spec_contains, spec_count3,
    spec_find, spec_trim, starts_with_str, trim};

verus! {

pub const HAN_RE: &'static str = r"\p{Han}";

/// The trimmed fragment contains a configured noise substring.
pub open spec fn spec_has_noise(t: Seq<char>, noise: Seq<Seq<char>>) -> bool {
    exists|i: int| 0 <= i < noise.len() && spec_contains(t, #[trigger] noise[i])
}

/// The trimmed fragment carries one of the fixed markup or
/// minified-script artifact markers.
pub open spec fn spec_has_artifact(t: Seq<char>) -> bool {
    ||| spec_contains(t, "<?"@)
    ||| spec_contains(t, "?>"@)
    ||| spec_contains(t, "</"@)
    ||| "/#"@.is_prefix_of(t)
    ||| spec_contains(t, "/g,c=r("@)
    ||| spec_contains(t, "schemeClr"@)
    ||| spec_contains(t, "'>"@)
    ||| spec_contains(t, "<a:"@)
    ||| spec_contains(t, "</a:"@)
    ||| spec_contains(t, "length"@)
    ||| spec_contains(t, "\\"@)
}

/// The decoded fragment reads as a static asset: texture words or an
/// asset extension ending its path part.
pub open spec fn spec_filter_asset_like(path_part: Seq<char>) -> bool {
    ||| spec_contains(path_part, "image"@)
    ||| spec_contains(path_part, "img"@)
    ||| spec_contains(path_part, "css"@)
    ||| spec_contains(path_part, "font"@)
    ||| spec_contains(path_part, "svg"@)
    ||| spec_contains(path_part, "swf"@)
    ||| spec_contains(path_part, "ttf"@)
    ||| has_static_ext(path_part)
}

/// The fragment names an API explicitly: it is a bare `api`, starts
/// with `api/`, or contains `/api/`.
pub open spec fn spec_explicit_api(path_part: Seq<char>) -> bool {
    ||| path_part == "api"@
    ||| path_part == "api/"@
    ||| path_part == "/api"@
    ||| path_part == "/api/"@
    ||| "api/"@.is_prefix_of(path_part)
    ||| spec_contains(path_part, "/api/"@)
}

/// The fragment is RESTful-shaped: rooted at `/`, at least two
/// `/`-separated segments, no dot, and only alphanumerics, `-`, `_`
/// and `/`.
pub open spec fn spec_restful_path(path_part: Seq<char>) -> bool {
    &&& "/"@.is_prefix_of(path_part)
    &&& spec_count3(path_part, '/', '/', '/') + 1 >= 2
    &&& !spec_contains(path_part, "."@)
    &&& forall|i: int|
        0 <= i < path_part.len() ==> (is_alnum_char(#[trigger] path_part[i]) || path_part[i] == '/'
            || path_part[i] == '-' || path_part[i] == '_')
}

/// The fragment names an API explicitly (also surfaced to callers as a
/// confidence tier).
pub fn is_explicit_api(path_part: &str) -> (r: bool)
    ensures
        r == spec_explicit_api(path_part@),
{
    crate::text::str_eq(path_part, "api") || crate::text::str_eq(path_part, "api/")
        || crate::text::str_eq(path_part, "/api") || crate::text::str_eq(path_part, "/api/")
        || starts_with_str(path_part, "api/") || contains_str(path_part, "/api/")
}

/// The fragment is RESTful-shaped (the lower confidence tier).
pub fn is_restful_path(path_part: &str) -> (r: bool)
    ensures
        r == spec_restful_path(path_part@),
{
    if !starts_with_str(path_part, "/") {
        return false;
    }
    if count3(path_part, '/', '/', '/') < 1 {
        return false;
    }
    if contains_str(path_part, ".") {
        return false;
    }
    let n = path_part.unicode_len();
    let mut i: usize = 0;
    while i < n
        invariant
            n == path_part@.len(),
            0 <= i <= n,
            forall|j: int|
                0 <= j < i ==> (is_alnum_char(#[trigger] path_part@[j]) || path_part@[j] == '/'
                    || path_part@[j] == '-' || path_part@[j] == '_'),
        decreases n - i,
    {
        let c = path_part.get_char(i);
        if !(c.is_alphanumeric() || c == '/' || c == '-' || c == '_') {
            return false;
        }
        i += 1;
    }
    true
}

/// The resolutions of an accepted, decoded fragment against every known
/// base URL, in base order, empty rejections dropped.
pub open spec fn spec_resolve_all(cleaned: Seq<char>, bases: Seq<Seq<char>>, api_core: Seq<
    char,
>) -> Seq<Seq<char>>
    decreases bases.len(),
{
    if bases.len() == 0 {
        Seq::empty()
    } else {
        let full = spec_normalize_api(cleaned, bases.last(), api_core);
        spec_resolve_all(cleaned, bases.drop_last(), api_core) + if full.len() > 0 {
            seq![full]
        } else {
            Seq::empty()
        }
    }
}

/// What the whole filter pipeline yields for a fragment: nothing on any
/// rejection, else one resolved URL per base URL that accepts it.
pub open spec fn spec_filter_api_path(path: Seq<char>, bases: Seq<Seq<char>>, api_core: Seq<char>,
    noise: Seq<Seq<char>>) -> Seq<Seq<char>> {
    let t = spec_trim(path);
    if spec_base64_like(t) {
        Seq::empty()
    } else if t.len() < 2 || t.len() > 500 {
        Seq::empty()
    } else if regex_matched(HAN_RE@, t) {
        Seq::empty()
    } else if spec_has_noise(t, noise) || spec_has_artifact(t) {
        Seq::empty()
    } else {
        let cleaned = percent_decoded(t);
        let path_part = spec_path_part(cleaned);
        if spec_filter_asset_like(path_part) {
            Seq::empty()
        } else if spec_has_query(cleaned) && has_static_ext_within(path_part) {
            Seq::empty()
        } else if !spec_explicit_api(path_part) && !spec_restful_path(path_part) {
            Seq::empty()
        } else {
            spec_resolve_all(cleaned, bases, api_core)
        }
    }
}

/// Run a candidate fragment through the whole multi-stage gate and
/// resolve what survives against every known base URL.  A fragment
/// holding any CJK character yields nothing, whatever the other rules
/// say.
pub fn filter_api_path(path: &str, base_urls: &Vec<String>, api_core: &str, noise_strings: &Vec<
    String,
>) -> (r: Vec<String>)
    ensures
        r.deep_view() == spec_filter_api_path(
            path@,
            base_urls.deep_view(),
            api_core@,
            noise_strings.deep_view(),
        ),
        regex_matched(HAN_RE@, spec_trim(path@)) ==> r.deep_view() == Seq::<Seq<char>>::empty(),
{
    let trimmed = trim(path);
    if is_base64_like(trimmed) {
        return Vec::new();
    }
    let tn = trimmed.unicode_len();
    if tn < 2 || tn > 500 {
        return Vec::new();
    }
    if re_is_match(HAN_RE, trimmed) {
        return Vec::new();
    }
    let mut noisy = false;
    let nn = noise_strings.len();
    let mut k: usize = 0;
    while k < nn
        invariant
            nn == noise_strings.len(),
            0 <= k <= nn,
            noisy <==> (exists|j: int|
                0 <= j < k && spec_contains(trimmed@, #[trigger] noise_strings.deep_view()[j])),
        decreases nn - k,
    {
        if contains_str(trimmed, noise_strings[k].as_str()) {
            proof {
                assert(noise_strings.deep_view()[k as int] == noise_strings@[k as int]@);
                assert(spec_contains(trimmed@, noise_strings.deep_view()[k as int]));
            }
            noisy = true;
        }
        k += 1;
    }
    if noisy || contains_str(trimmed, "<?") || contains_str(trimmed, "?>") || contains_str(
        trimmed,
        "</",
    ) || starts_with_str(trimmed, "/#") || contains_str(trimmed, "/g,c=r(") || contains_str(
        trimmed,
        "schemeClr",
    ) || contains_str(trimmed, "'>") || contains_str(trimmed, "<a:") || contains_str(trimmed, "</a:")
        || contains_str(trimmed, "length") || contains_str(trimmed, "\\") {
        return Vec::new();
    }
    let cleaned = pct_decode(trimmed);
    let cs = cleaned.as_str();
    let cn = cs.unicode_len();
    let (path_part, has_query) = match find_char(cs, '?') {
        Some(i) => (cs.substring_char(0, i), i + 1 < cn),
        None => (cs, false),
    };
    proof {
        let q = spec_find(cleaned@, '?');
        if q != -1 {
            assert(path_part@ =~= cleaned@.take(q));
        }
    }
    if contains_str(path_part, "image") || contains_str(path_part, "img") || contains_str(
        path_part,
        "css",
    ) || contains_str(path_part, "font") || contains_str(path_part, "svg") || contains_str(
        path_part,
        "swf",
    ) || contains_str(path_part, "ttf") || is_static_url(path_part) {
        return Vec::new();
    }
    if has_query && contains_static_ext(path_part) {
        return Vec::new();
    }
    let explicit = is_explicit_api(path_part);
    let restful = is_restful_path(path_part);
    if !explicit && !restful {
        return Vec::new();
    }
    let ghost bases = base_urls.deep_view();
    let mut results: Vec<String> = Vec::new();
    let bn = base_urls.len();
    let mut b: usize = 0;
    while b < bn
        invariant
            bn == base_urls.len(),
            bases == base_urls.deep_view(),
            cs@ == cleaned@,
            0 <= b <= bn,
            results.deep_view() == spec_resolve_all(cleaned@, bases.take(b as int), api_core@),
        decreases bn - b,
    {
        proof {
            assert(bases.take(b + 1).drop_last() =~= bases.take(b as int));
            assert(bases.take(b + 1).last() == bases[b as int]);
            assert(bases[b as int] == base_urls@[b as int]@);
        }
        let full = normalize_url_for_api(cs, base_urls[b].as_str(), api_core);
        let ghost sf = spec_normalize_api(cleaned@, bases[b as int], api_core@);
        proof {
            assert(full@ == sf);
            assert(spec_resolve_all(cleaned@, bases.take(b + 1), api_core@)
                == spec_resolve_all(cleaned@, bases.take(b as int), api_core@) + (if sf.len() > 0 {
                seq![sf]
            } else {
                Seq::<Seq<char>>::empty()
            }));
        }
        if full.as_str().unicode_len() > 0 {
            results.push(full);
            proof {
                assert(results.deep_view() =~= spec_resolve_all(
                    cleaned@,
                    bases.take(b + 1),
                    api_core@,
                ));
            }
        } else {
            proof {
                assert(results.deep_view() =~= spec_resolve_all(
                    cleaned@,
                    bases.take(b + 1),
                    api_core@,
                ));
            }
        }
        b += 1;
    }
    proof {
        assert(bases.take(bn as int) =~= bases);
    }
    results
}

} // verus!
