//! Run configuration.
//!
//! The core consumes an already-validated, immutable configuration:
//! the domain-substring blacklist, the API core segment substituted for
//! a bare `api` fragment, and the noise substrings used to reject
//! extraction artifacts.  Loading files and creating defaults on first
//! run belong to the program around the library; the pure parsing of
//! the file contents is here.
use vstd::prelude::*;

use crate::text::{find_char, spec_find, spec_trim, trim};

verus! {

/// The immutable configuration a run is driven by.
pub struct Config {
    /// Domain substrings whose hosts are never fetched.
    pub blacklist: Vec<String>,
    /// The path segment substituted for a bare `api` fragment.
    pub api_core: String,
    /// Substrings that mark a JavaScript extraction artifact.
    pub noise_strings: Vec<String>,
}

/// The lines of `s`, split on `\n`.
pub open spec fn spec_lines(s: Seq<char>) -> Seq<Seq<char>>
    decreases s.len(),
    via spec_lines_decreases
{
    let f = spec_find(s, '\n');
    if f == -1 {
        seq![s]
    } else {
        seq![s.take(f)] + spec_lines(s.skip(f + 1))
    }
}

#[via_fn]
proof fn spec_lines_decreases(s: Seq<char>) {
    crate::text::lemma_spec_find_range(s, '\n');
}

/// The lines, trimmed, with empty ones dropped.
pub open spec fn spec_clean_lines(lines: Seq<Seq<char>>) -> Seq<Seq<char>>
    decreases lines.len(),
{
    if lines.len() == 0 {
        Seq::empty()
    } else {
        (if spec_trim(lines.first()).len() > 0 {
            seq![spec_trim(lines.first())]
        } else {
            Seq::<Seq<char>>::empty()
        }) + spec_clean_lines(lines.drop_first())
    }
}

/// What parsing a list file yields: its lines, trimmed, empties
/// dropped.
pub open spec fn spec_parse_list(s: Seq<char>) -> Seq<Seq<char>> {
    spec_clean_lines(spec_lines(s))
}

/// Parse the content of a list file (blacklist or noise strings): one
/// entry per line, trimmed, empty lines dropped.
pub fn parse_list(content: &str) -> (r: Vec<String>)
    ensures
        r.deep_view() == spec_parse_list(content@),
{
    let mut out: Vec<String> = Vec::new();
    let mut rest: &str = content;
    loop
        invariant
            spec_parse_list(content@) == out.deep_view() + spec_clean_lines(spec_lines(rest@)),
        decreases rest@.len(),
    {
        let n = rest.unicode_len();
        match find_char(rest, '\n') {
            Some(i) => {
                let line = trim(rest.substring_char(0, i));
                let next = rest.substring_char(i + 1, n);
                proof {
                    let f = spec_find(rest@, '\n');
                    assert(rest@.subrange(0, f) =~= rest@.take(f));
                    assert(rest@.subrange(f + 1, n as int) =~= rest@.skip(f + 1));
                    let lines = spec_lines(rest@);
                    assert(lines.first() == rest@.take(f));
                    assert(lines.drop_first() =~= spec_lines(rest@.skip(f + 1)));
                }
                if line.unicode_len() > 0 {
                    out.push(String::from_str(line));
                }
                proof {
                    assert(out.deep_view() + spec_clean_lines(spec_lines(next@))
                        =~= spec_parse_list(content@));
                }
                rest = next;
            },
            None => {
                let line = trim(rest);
                if line.unicode_len() > 0 {
                    out.push(String::from_str(line));
                }
                proof {
                    let lines = spec_lines(rest@);
                    assert(lines.first() == rest@);
                    assert(lines.drop_first() =~= Seq::<Seq<char>>::empty());
                    assert(spec_clean_lines(lines.drop_first()) == Seq::<Seq<char>>::empty());
                    assert(spec_parse_list(content@) =~= out.deep_view());
                }
                return out;
            },
        }
    }
}

/// What parsing the API-core file yields: its trimmed content, or the
/// default `/api/` when that is empty.
pub open spec fn spec_parse_api_core(s: Seq<char>) -> Seq<char> {
    if spec_trim(s).len() == 0 {
        "/api/"@
    } else {
        spec_trim(s)
    }
}

/// Parse the content of the API-core file.
pub fn parse_api_core(content: &str) -> (r: String)
    ensures
        r@ == spec_parse_api_core(content@),
{
    let t = trim(content);
    if t.unicode_len() == 0 {
        String::from_str("/api/")
    } else {
        String::from_str(t)
    }
}

/// The built-in noise strings written on first run and used when no
/// noise file is configured.
pub fn default_noise_strings() -> (r: Vec<String>)
    ensures
        r.deep_view() == seq![
            "/>"@,
            "><"@,
            ">;"@,
            "};"@,
            "function"@,
            "button"@,
            "webpack"@,
            "chunk"@,
            "module"@,
            "export"@,
            "import"@,
            "return"@,
            "var"@,
            "const"@,
            "let"@,
            "/a"@,
            "/b"@,
            "javascript"@,
            ")||['//'+"@,
            "+"@,
            "="@,
            "/t"@,
            "xlink"@,
            "/!"@,
        ],
{
    let mut v: Vec<String> = Vec::new();
    v.push(String::from_str("/>"));
    v.push(String::from_str("><"));
    v.push(String::from_str(">;"));
    v.push(String::from_str("};"));
    v.push(String::from_str("function"));
    v.push(String::from_str("button"));
    v.push(String::from_str("webpack"));
    v.push(String::from_str("chunk"));
    v.push(String::from_str("module"));
    v.push(String::from_str("export"));
    v.push(String::from_str("import"));
    v.push(String::from_str("return"));
    v.push(String::from_str("var"));
    v.push(String::from_str("const"));
    v.push(String::from_str("let"));
    v.push(String::from_str("/a"));
    v.push(String::from_str("/b"));
    v.push(String::from_str("javascript"));
    v.push(String::from_str(")||['//'+"));
    v.push(String::from_str("+"));
    v.push(String::from_str("="));
    v.push(String::from_str("/t"));
    v.push(String::from_str("xlink"));
    v.push(String::from_str("/!"));
    proof {
        assert(v.deep_view() =~= seq![
            "/>"@,
            "><"@,
            ">;"@,
            "};"@,
            "function"@,
            "button"@,
            "webpack"@,
            "chunk"@,
            "module"@,
            "export"@,
            "import"@,
            "return"@,
            "var"@,
            "const"@,
            "let"@,
            "/a"@,
            "/b"@,
            "javascript"@,
            ")||['//'+"@,
            "+"@,
            "="@,
            "/t"@,
            "xlink"@,
            "/!"@,
        ]);
    }
    v
}

} // verus!
