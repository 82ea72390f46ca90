//! Origin and blacklist policy.
//!
//! The host of an `http(s)` URL is the authority substring up to the
//! first `/`; anything with user-info (`@`) or another scheme yields no
//! host at all.  A URL is blacklisted when its host contains one of the
//! configured substrings, which deliberately also blocks subdomains and
//! typo-variants of a listed domain.
use vstd::prelude::*;

use crate::text::{contains_str, find_char, rfind_char, spec_contains, spec_find, spec_rfind,
    spec_trim, starts_with_str, trim};

verus! {

/// The host of `u`: for an `http(s)` URL, the authority up to the first
/// `/`, unless it contains `@`; nothing for every other scheme.
pub open spec fn spec_extract_domain(u: Seq<char>) -> Option<Seq<char>> {
    let t = spec_trim(u);
    if "http://"@.is_prefix_of(t) || "https://"@.is_prefix_of(t) {
        let rest = if "http://"@.is_prefix_of(t) {
            t.skip(7)
        } else {
            t.skip(8)
        };
        let slash = spec_find(rest, '/');
        let auth = if slash == -1 {
            rest
        } else {
            rest.take(slash)
        };
        if spec_find(auth, '@') == -1 {
            Some(auth)
        } else {
            None
        }
    } else {
        None
    }
}

/// Extract the host of `u`, as `spec_extract_domain` describes it.
pub fn extract_domain(u: &str) -> (r: Option<String>)
    ensures
        r.deep_view() == spec_extract_domain(u@),
{
    let t = trim(u);
    let n = t.unicode_len();
    let is_http = starts_with_str(t, "http://");
    let is_https = starts_with_str(t, "https://");
    if !is_http && !is_https {
        return None;
    }
    let skip: usize = if is_http {
        proof {
            reveal_strlit("http://");
        }
        7
    } else {
        proof {
            reveal_strlit("https://");
        }
        8
    };
    let rest = t.substring_char(skip, n);
    proof {
        assert(rest@ =~= spec_trim(u@).skip(skip as int));
    }
    let m = rest.unicode_len();
    let auth = match find_char(rest, '/') {
        Some(i) => rest.substring_char(0, i),
        None => rest,
    };
    proof {
        let spec_rest = spec_trim(u@).skip(skip as int);
        let slash = spec_find(spec_rest, '/');
        if slash != -1 {
            assert(auth@ =~= spec_rest.take(slash));
        }
    }
    match find_char(auth, '@') {
        Some(_) => None,
        None => Some(String::from_str(auth)),
    }
}

/// The host of `u` contains one of the blacklist entries as a substring.
pub open spec fn spec_is_blacklisted(u: Seq<char>, blacklist: Seq<Seq<char>>) -> bool {
    match spec_extract_domain(u) {
        Some(d) => exists|i: int| 0 <= i < blacklist.len() && spec_contains(d, #[trigger] blacklist[i]),
        None => false,
    }
}

/// True when the host of `u` contains any blacklist entry.
pub fn is_blacklisted(u: &str, blacklist: &Vec<String>) -> (r: bool)
    ensures
        r == spec_is_blacklisted(u@, blacklist.deep_view()),
{
    match extract_domain(u) {
        Some(d) => {
            let n = blacklist.len();
            let mut i: usize = 0;
            while i < n
                invariant
                    n == blacklist.len(),
                    0 <= i <= n,
                    d@ == spec_extract_domain(u@)->Some_0,
                    spec_extract_domain(u@) is Some,
                    forall|j: int| 0 <= j < i ==> !spec_contains(d@, #[trigger] blacklist.deep_view()[j]),
                decreases n - i,
            {
                if contains_str(d.as_str(), blacklist[i].as_str()) {
                    proof {
                        assert(blacklist.deep_view()[i as int] == blacklist@[i as int]@);
                        assert(spec_contains(d@, blacklist.deep_view()[i as int]));
                    }
                    return true;
                }
                i += 1;
            }
            false
        },
        None => false,
    }
}

/// The final path segment of `u`: everything after the last `/`.
pub open spec fn spec_last_segment(u: Seq<char>) -> Seq<char> {
    let slash = spec_rfind(u, '/');
    if slash == -1 {
        u
    } else {
        u.skip(slash + 1)
    }
}

/// The file name of `u` starts with one of the bundler-chunk prefixes,
/// so the file is a generic framework bundle rather than project code.
pub open spec fn spec_is_noise_js(u: Seq<char>) -> bool {
    let seg = spec_last_segment(u);
    ||| "vendor"@.is_prefix_of(seg)
    ||| "chunk-vendors"@.is_prefix_of(seg)
    ||| "main"@.is_prefix_of(seg)
    ||| "polyfills"@.is_prefix_of(seg)
}

/// True when the file name of `u` matches a bundler-chunk prefix.
pub fn is_noise_js_file(u: &str) -> (r: bool)
    ensures
        r == spec_is_noise_js(u@),
{
    let n = u.unicode_len();
    let seg = match rfind_char(u, '/') {
        Some(i) => u.substring_char(i + 1, n),
        None => u,
    };
    proof {
        let slash = spec_rfind(u@, '/');
        if slash != -1 {
            assert(seg@ =~= u@.skip(slash + 1));
        }
    }
    starts_with_str(seg, "vendor") || starts_with_str(seg, "chunk-vendors") || starts_with_str(
        seg,
        "main",
    ) || starts_with_str(seg, "polyfills")
}

} // verus!
