//! Trusted interface to the outside crates.
//!
//! Regular-expression scanning, percent-decoding, URL joining and
//! structural HTML parsing are done by outside crates.  Each call is
//! wrapped here in one `external_body` function; what a call returns is
//! a function of its arguments alone and is given a name below, so the
//! contracts of the verified callers can speak of it exactly.
use vstd::prelude::*;

verus! {

/// Names what `regex::Regex::captures_iter` yields for a pattern over a
/// text: one entry per successive, non-overlapping, leftmost-first match,
/// holding the characters of each capture group (index 0 is the whole
/// match; a group that did not participate holds the empty sequence).
/// For a pattern that is not a valid regular expression it is empty.
pub uninterp spec fn regex_captures(pat: Seq<char>, text: Seq<char>) -> Seq<Seq<Seq<char>>>;

/// Names what `regex::Regex::is_match` returns for a pattern over a
/// text; false for a pattern that is not a valid regular expression.
pub uninterp spec fn regex_matched(pat: Seq<char>, text: Seq<char>) -> bool;

/// Names what `urlencoding::decode` returns: the text with every valid
/// percent-escape decoded, or the text unchanged when decoding does not
/// yield UTF-8.
pub uninterp spec fn percent_decoded(s: Seq<char>) -> Seq<char>;

/// Names what `url::Url::parse(base)` followed by `join(rel)` returns:
/// the resolved absolute URL, or nothing when the base does not parse or
/// the join fails.
pub uninterp spec fn url_joined(base: Seq<char>, rel: Seq<char>) -> Option<Seq<char>>;

/// Names whether `url::Url::parse` accepts a text as an absolute URL.
pub uninterp spec fn url_parses(s: Seq<char>) -> bool;

/// Names the reference attributes that `scraper` finds in a document:
/// for every element carrying a `src` or `href` attribute, that
/// attribute's value, the `src` taken first where it has both (all
/// `src`-carriers first, then all `href`-carriers), followed by the
/// `src` value of every `iframe`.
pub uninterp spec fn html_attr_refs(body: Seq<char>) -> Seq<Seq<char>>;

/// Capture group `k` of the match `m`, or empty when the match has no
/// such group.
pub open spec fn group_or_empty(m: Seq<Seq<char>>, k: int) -> Seq<char> {
    if 0 <= k < m.len() {
        m[k]
    } else {
        Seq::empty()
    }
}

/// Relies on `regex::Regex::new` and `Regex::captures_iter`: the matches
/// of a fixed pattern depend on the text alone.  Hands back capture
/// group 1 of every match.
#[verifier::external_body]
pub fn re_group1(pat: &str, text: &str) -> (r: Vec<String>)
    ensures
        r.deep_view().len() == regex_captures(pat@, text@).len(),
        forall|i: int|
            0 <= i < r.deep_view().len() ==> r.deep_view()[i] == group_or_empty(
                #[trigger] regex_captures(pat@, text@)[i],
                1,
            ),
{
    let re = match regex::Regex::new(pat) {
        Ok(re) => re,
        Err(_) => return Vec::new(),
    };
    let mut out = Vec::new();
    for c in re.captures_iter(text) {
        out.push(c.get(1).map_or("", |m| m.as_str()).to_string());
    }
    out
}

/// Relies on `regex::Regex::new` and `Regex::captures_iter`.  Hands back
/// capture group 2 of every match.
#[verifier::external_body]
pub fn re_group2(pat: &str, text: &str) -> (r: Vec<String>)
    ensures
        r.deep_view().len() == regex_captures(pat@, text@).len(),
        forall|i: int|
            0 <= i < r.deep_view().len() ==> r.deep_view()[i] == group_or_empty(
                #[trigger] regex_captures(pat@, text@)[i],
                2,
            ),
{
    let re = match regex::Regex::new(pat) {
        Ok(re) => re,
        Err(_) => return Vec::new(),
    };
    let mut out = Vec::new();
    for c in re.captures_iter(text) {
        out.push(c.get(2).map_or("", |m| m.as_str()).to_string());
    }
    out
}

/// Relies on `regex::Regex::new` and `Regex::captures_iter`.  Hands back
/// the whole text of every match (capture group 0).
#[verifier::external_body]
pub fn re_group0(pat: &str, text: &str) -> (r: Vec<String>)
    ensures
        r.deep_view().len() == regex_captures(pat@, text@).len(),
        forall|i: int|
            0 <= i < r.deep_view().len() ==> r.deep_view()[i] == group_or_empty(
                #[trigger] regex_captures(pat@, text@)[i],
                0,
            ),
{
    let re = match regex::Regex::new(pat) {
        Ok(re) => re,
        Err(_) => return Vec::new(),
    };
    let mut out = Vec::new();
    for c in re.captures_iter(text) {
        out.push(c.get(0).map_or("", |m| m.as_str()).to_string());
    }
    out
}

/// Relies on `regex::Regex::new` and `Regex::captures_iter`.  Hands back
/// capture groups 1 and 2 of every match as a pair.
#[verifier::external_body]
pub fn re_pairs(pat: &str, text: &str) -> (r: Vec<(String, String)>)
    ensures
        r.deep_view().len() == regex_captures(pat@, text@).len(),
        forall|i: int|
            0 <= i < r.deep_view().len() ==> r.deep_view()[i] == (
                group_or_empty(#[trigger] regex_captures(pat@, text@)[i], 1),
                group_or_empty(regex_captures(pat@, text@)[i], 2),
            ),
{
    let re = match regex::Regex::new(pat) {
        Ok(re) => re,
        Err(_) => return Vec::new(),
    };
    let mut out = Vec::new();
    for c in re.captures_iter(text) {
        let g1 = c.get(1).map_or("", |m| m.as_str()).to_string();
        let g2 = c.get(2).map_or("", |m| m.as_str()).to_string();
        out.push((g1, g2));
    }
    out
}

/// Relies on `regex::Regex::new` and `Regex::is_match`.
#[verifier::external_body]
pub fn re_is_match(pat: &str, text: &str) -> (r: bool)
    ensures
        r == regex_matched(pat@, text@),
{
    match regex::Regex::new(pat) {
        Ok(re) => re.is_match(text),
        Err(_) => false,
    }
}

/// Relies on `urlencoding::decode`: decoding depends on the text alone;
/// when the decoded bytes are not UTF-8 the text is kept unchanged.
#[verifier::external_body]
pub fn pct_decode(s: &str) -> (r: String)
    ensures
        r@ == percent_decoded(s@),
{
    match urlencoding::decode(s) {
        Ok(c) => c.into_owned(),
        Err(_) => s.to_string(),
    }
}

/// Relies on `url::Url::parse` and `url::Url::join`: standard URL-join
/// semantics, a pure function of base and reference.
#[verifier::external_body]
pub fn url_join(base: &str, rel: &str) -> (r: Option<String>)
    ensures
        r.deep_view() == url_joined(base@, rel@),
{
    let b = match url::Url::parse(base) {
        Ok(b) => b,
        Err(_) => return None,
    };
    match b.join(rel) {
        Ok(u) => Some(u.as_str().to_string()),
        Err(_) => None,
    }
}

/// Relies on `url::Url::parse`: whether a text is a well-formed absolute
/// URL depends on the text alone.
#[verifier::external_body]
pub fn url_parse_ok(s: &str) -> (r: bool)
    ensures
        r == url_parses(s@),
{
    url::Url::parse(s).is_ok()
}

/// Relies on `scraper::Html::parse_document`, `Selector::parse` and the
/// `[src]`, `[href]` and `iframe` selectors: structural parsing of a
/// document is a function of its text alone.
#[verifier::external_body]
pub fn html_refs(body: &str) -> (r: Vec<String>)
    ensures
        r.deep_view() == html_attr_refs(body@),
{
    let doc = scraper::Html::parse_document(body);
    let src_sel = scraper::Selector::parse("[src]").unwrap();
    let href_sel = scraper::Selector::parse("[href]").unwrap();
    let iframe_sel = scraper::Selector::parse("iframe").unwrap();
    let mut out = Vec::new();
    for el in doc.select(&src_sel).chain(doc.select(&href_sel)) {
        if let Some(v) = el.value().attr("src").or(el.value().attr("href")) {
            out.push(v.to_string());
        }
    }
    for el in doc.select(&iframe_sel) {
        out.extend(el.value().attr("src").map(|v| v.to_string()));
    }
    out
}

} // verus!
