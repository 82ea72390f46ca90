//! URL classification by extension.
//!
//! A URL is HTML-like when it ends in one of the page extensions, and a
//! static resource when it ends in one of the asset extensions instead;
//! everything else is silently dropped.  The two outcomes are mutually
//! exclusive by construction.
use vstd::prelude::*;

use crate::text::{contains_str, ends_with_str, spec_contains};

verus! {

/// `u` ends in one of the HTML-page extensions.
pub open spec fn has_html_ext(u: Seq<char>) -> bool {
    ||| ".htm"@.is_suffix_of(u)
    ||| ".html"@.is_suffix_of(u)
    ||| ".jhtml"@.is_suffix_of(u)
    ||| ".xhtml"@.is_suffix_of(u)
    ||| ".shtml"@.is_suffix_of(u)
    ||| ".php"@.is_suffix_of(u)
    ||| ".asp"@.is_suffix_of(u)
    ||| ".jsp"@.is_suffix_of(u)
    ||| ".do"@.is_suffix_of(u)
    ||| ".action"@.is_suffix_of(u)
    ||| ".aspx"@.is_suffix_of(u)
    ||| ".cfm"@.is_suffix_of(u)
    ||| ".pl"@.is_suffix_of(u)
    ||| ".cgi"@.is_suffix_of(u)
}

/// `u` ends in one of the static-resource extensions.
pub open spec fn has_static_ext(u: Seq<char>) -> bool {
    ||| ".js"@.is_suffix_of(u)
    ||| ".json"@.is_suffix_of(u)
    ||| ".map"@.is_suffix_of(u)
    ||| ".mjs"@.is_suffix_of(u)
    ||| ".cjs"@.is_suffix_of(u)
    ||| ".jsx"@.is_suffix_of(u)
    ||| ".vue"@.is_suffix_of(u)
    ||| ".png"@.is_suffix_of(u)
    ||| ".jpg"@.is_suffix_of(u)
    ||| ".jpeg"@.is_suffix_of(u)
    ||| ".gif"@.is_suffix_of(u)
    ||| ".bmp"@.is_suffix_of(u)
    ||| ".svg"@.is_suffix_of(u)
    ||| ".webp"@.is_suffix_of(u)
    ||| ".ico"@.is_suffix_of(u)
    ||| ".tif"@.is_suffix_of(u)
    ||| ".tiff"@.is_suffix_of(u)
    ||| ".heic"@.is_suffix_of(u)
    ||| ".apng"@.is_suffix_of(u)
    ||| ".avif"@.is_suffix_of(u)
    ||| ".psd"@.is_suffix_of(u)
    ||| ".raw"@.is_suffix_of(u)
    ||| ".css"@.is_suffix_of(u)
    ||| ".woff"@.is_suffix_of(u)
    ||| ".woff2"@.is_suffix_of(u)
    ||| ".ttf"@.is_suffix_of(u)
    ||| ".eot"@.is_suffix_of(u)
    ||| ".otf"@.is_suffix_of(u)
    ||| ".zip"@.is_suffix_of(u)
    ||| ".tar.gz"@.is_suffix_of(u)
    ||| ".bak"@.is_suffix_of(u)
    ||| ".config"@.is_suffix_of(u)
    ||| ".swf"@.is_suffix_of(u)
}

/// `u` holds one of the static-resource extensions anywhere inside it.
pub open spec fn has_static_ext_within(u: Seq<char>) -> bool {
    ||| spec_contains(u, ".js"@)
    ||| spec_contains(u, ".json"@)
    ||| spec_contains(u, ".map"@)
    ||| spec_contains(u, ".mjs"@)
    ||| spec_contains(u, ".cjs"@)
    ||| spec_contains(u, ".jsx"@)
    ||| spec_contains(u, ".vue"@)
    ||| spec_contains(u, ".png"@)
    ||| spec_contains(u, ".jpg"@)
    ||| spec_contains(u, ".jpeg"@)
    ||| spec_contains(u, ".gif"@)
    ||| spec_contains(u, ".bmp"@)
    ||| spec_contains(u, ".svg"@)
    ||| spec_contains(u, ".webp"@)
    ||| spec_contains(u, ".ico"@)
    ||| spec_contains(u, ".tif"@)
    ||| spec_contains(u, ".tiff"@)
    ||| spec_contains(u, ".heic"@)
    ||| spec_contains(u, ".apng"@)
    ||| spec_contains(u, ".avif"@)
    ||| spec_contains(u, ".psd"@)
    ||| spec_contains(u, ".raw"@)
    ||| spec_contains(u, ".css"@)
    ||| spec_contains(u, ".woff"@)
    ||| spec_contains(u, ".woff2"@)
    ||| spec_contains(u, ".ttf"@)
    ||| spec_contains(u, ".eot"@)
    ||| spec_contains(u, ".otf"@)
    ||| spec_contains(u, ".zip"@)
    ||| spec_contains(u, ".tar.gz"@)
    ||| spec_contains(u, ".bak"@)
    ||| spec_contains(u, ".config"@)
    ||| spec_contains(u, ".swf"@)
}

/// `u` holds one of the static-resource extensions anywhere inside it.
pub fn contains_static_ext(u: &str) -> (r: bool)
    ensures
        r == has_static_ext_within(u@),
{
    contains_str(u, ".js") || contains_str(u, ".json") || contains_str(u, ".map") || contains_str(
        u,
        ".mjs",
    ) || contains_str(u, ".cjs") || contains_str(u, ".jsx") || contains_str(u, ".vue")
        || contains_str(u, ".png") || contains_str(u, ".jpg") || contains_str(u, ".jpeg")
        || contains_str(u, ".gif") || contains_str(u, ".bmp") || contains_str(u, ".svg")
        || contains_str(u, ".webp") || contains_str(u, ".ico") || contains_str(u, ".tif")
        || contains_str(u, ".tiff") || contains_str(u, ".heic") || contains_str(u, ".apng")
        || contains_str(u, ".avif") || contains_str(u, ".psd") || contains_str(u, ".raw")
        || contains_str(u, ".css") || contains_str(u, ".woff") || contains_str(u, ".woff2")
        || contains_str(u, ".ttf") || contains_str(u, ".eot") || contains_str(u, ".otf")
        || contains_str(u, ".zip") || contains_str(u, ".tar.gz") || contains_str(u, ".bak")
        || contains_str(u, ".config") || contains_str(u, ".swf")
}

/// `u` is placed among the HTML candidates.
pub open spec fn placed_html(u: Seq<char>) -> bool {
    has_html_ext(u)
}

/// `u` is placed among the static-resource candidates.
pub open spec fn placed_static(u: Seq<char>) -> bool {
    !has_html_ext(u) && has_static_ext(u)
}

/// A URL lands in at most one of the two discovery collections:
/// never in both the HTML set and the static set.
pub proof fn lemma_classify_exclusive(u: Seq<char>)
    ensures
        !(placed_html(u) && placed_static(u)),
{
}

/// `u` ends in one of the HTML-page extensions.
pub fn is_html_url(u: &str) -> (r: bool)
    ensures
        r == has_html_ext(u@),
{
    ends_with_str(u, ".htm") || ends_with_str(u, ".html") || ends_with_str(u, ".jhtml")
        || ends_with_str(u, ".xhtml") || ends_with_str(u, ".shtml") || ends_with_str(u, ".php")
        || ends_with_str(u, ".asp") || ends_with_str(u, ".jsp") || ends_with_str(u, ".do")
        || ends_with_str(u, ".action") || ends_with_str(u, ".aspx") || ends_with_str(u, ".cfm")
        || ends_with_str(u, ".pl") || ends_with_str(u, ".cgi")
}

/// `u` ends in one of the static-resource extensions.
pub fn is_static_url(u: &str) -> (r: bool)
    ensures
        r == has_static_ext(u@),
{
    ends_with_str(u, ".js") || ends_with_str(u, ".json") || ends_with_str(u, ".map")
        || ends_with_str(u, ".mjs") || ends_with_str(u, ".cjs") || ends_with_str(u, ".jsx")
        || ends_with_str(u, ".vue") || ends_with_str(u, ".png") || ends_with_str(u, ".jpg")
        || ends_with_str(u, ".jpeg") || ends_with_str(u, ".gif") || ends_with_str(u, ".bmp")
        || ends_with_str(u, ".svg") || ends_with_str(u, ".webp") || ends_with_str(u, ".ico")
        || ends_with_str(u, ".tif") || ends_with_str(u, ".tiff") || ends_with_str(u, ".heic")
        || ends_with_str(u, ".apng") || ends_with_str(u, ".avif") || ends_with_str(u, ".psd")
        || ends_with_str(u, ".raw") || ends_with_str(u, ".css") || ends_with_str(u, ".woff")
        || ends_with_str(u, ".woff2") || ends_with_str(u, ".ttf") || ends_with_str(u, ".eot")
        || ends_with_str(u, ".otf") || ends_with_str(u, ".zip") || ends_with_str(u, ".tar.gz")
        || ends_with_str(u, ".bak") || ends_with_str(u, ".config") || ends_with_str(u, ".swf")
}

/// Append `url` to the HTML candidates when it carries a page extension,
/// to the static candidates when it carries an asset extension, and to
/// neither otherwise.
pub fn classify_url(url: &str, html_urls: &mut Vec<String>, static_urls: &mut Vec<String>)
    ensures
        placed_html(url@) ==> final(html_urls).deep_view() == old(html_urls).deep_view().push(url@)
            && final(static_urls).deep_view() == old(static_urls).deep_view(),
        placed_static(url@) ==> final(static_urls).deep_view() == old(
            static_urls,
        ).deep_view().push(url@) && final(html_urls).deep_view() == old(html_urls).deep_view(),
        !placed_html(url@) && !placed_static(url@) ==> final(html_urls).deep_view() == old(
            html_urls,
        ).deep_view() && final(static_urls).deep_view() == old(static_urls).deep_view(),
{
    if is_html_url(url) {
        html_urls.push(String::from_str(url));
        proof {
            assert(html_urls.deep_view() =~= old(html_urls).deep_view().push(url@));
        }
    } else if is_static_url(url) {
        static_urls.push(String::from_str(url));
        proof {
            assert(static_urls.deep_view() =~= old(static_urls).deep_view().push(url@));
        }
    }
}

} // verus!
