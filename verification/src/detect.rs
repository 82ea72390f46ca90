//! Sensitive-data detector.
//!
//! A stateless scanner: text in, `(category, rendered value)` findings
//! out.  A fixed battery of pattern matchers runs over the body once;
//! the matches themselves come from the regex engine (named by
//! `regex_captures`), and everything decided about a match — acceptance
//! rules, country and operator lookup, rendering — is verified here.
//! Findings are appended in matcher order and never deduplicated.
use vstd::prelude::*;

use crate::classify::{has_static_ext, is_static_url};
use crate::normalize::{normalize_url_for_crawl, spec_normalize_crawl};
use crate::outside::{group_or_empty, re_group0, re_group1, re_pairs, regex_captures};
use crate::text::{ends_with_str, rfind_char, spec_rfind, str_eq};

verus! {

pub const AKSK_RE: &'static str = r#"["']?([a-zA-Z0-9_]+)\s*[=:]\s*["']([A-Za-z0-9\-]{16,64})["']"#;

pub const EMAIL_RE: &'static str = r#""([a-zA-Z0-9._%+-]+@[a-zA-Z0-9.-]+\.[a-zA-Z]{2,})""#;

pub const PHONE_RE: &'static str = r#""(1[3-9]\d{9})""#;

pub const TOKEN_RE: &'static str = r#""(token|auth_token|bearer)\s*([A-Za-z0-9\-_]{16,128})""#;

pub const APIKEY_RE: &'static str = r#""apikey\s*([A-Za-z0-9\-_]{16,64})""#;

pub const JDBC_RE: &'static str = r#""(jdbc:[a-z]+://[a-zA-Z0-9.-]+:[0-9]+/[a-zA-Z0-9_]+)""#;

pub const PASSWORD_RE: &'static str = r#""password\s*=\s*([A-Za-z0-9!@#$%^&*]{8,32})""#;

pub const WS_RE: &'static str = r#""((ws|wss)://[a-zA-Z0-9.-]+(:[0-9]{1,5})?(/[^\"\n]*)?)""#;

pub const BACKUP_RE: &'static str = r#"["']([^"\s;}{><\p{Han}]+\.(?:zip|tar\.gz|bak|config))["']"#;

/// Upper-casing `c` (an ASCII letter or anything else unchanged) gives
/// the upper-case character `u`.
pub open spec fn matches_upper(c: char, u: char) -> bool {
    c == u || (c as u32) == (u as u32) + 32
}

/// The upper-cased pattern `pat` matches `name` at offset `i`, ignoring
/// ASCII case in `name`.
pub open spec fn ci_match_at(name: Seq<char>, pat: Seq<char>, i: int) -> bool {
    &&& 0 <= i
    &&& i + pat.len() <= name.len()
    &&& forall|j: int| 0 <= j < pat.len() ==> matches_upper(name[i + j], #[trigger] pat[j])
}

/// `name`, upper-cased, contains the upper-case pattern `pat`.
pub open spec fn ci_contains(name: Seq<char>, pat: Seq<char>) -> bool {
    exists|i: int| ci_match_at(name, pat, i)
}

/// `v` holds at least one ASCII digit.
pub open spec fn has_digit(v: Seq<char>) -> bool {
    exists|i: int| 0 <= i < v.len() && 48 <= (#[trigger] v[i] as u32) <= 57
}

/// `v` holds at least one ASCII character.
pub open spec fn has_ascii(v: Seq<char>) -> bool {
    exists|i: int| 0 <= i < v.len() && (#[trigger] v[i] as u32) < 128
}

/// `name`, upper-cased, contains `pat` (already upper-case).
fn contains_upper(name: &str, pat: &str) -> (r: bool)
    ensures
        r == ci_contains(name@, pat@),
{
    let n = name.unicode_len();
    let m = pat.unicode_len();
    if m > n {
        return false;
    }
    let mut i: usize = 0;
    while i <= n - m
        invariant
            n == name@.len(),
            m == pat@.len(),
            m <= n,
            0 <= i <= n - m + 1,
            forall|k: int| 0 <= k < i ==> !ci_match_at(name@, pat@, k),
        decreases n - i,
    {
        let mut j: usize = 0;
        let mut ok = true;
        while j < m
            invariant
                n == name@.len(),
                m == pat@.len(),
                i + m <= n,
                0 <= j <= m,
                ok <==> (forall|l: int|
                    0 <= l < j ==> matches_upper(name@[i + l], #[trigger] pat@[l])),
            decreases m - j,
        {
            let c = name.get_char(i + j) as u32;
            let u = pat.get_char(j) as u32;
            if !(c == u || c == u + 32) {
                ok = false;
            }
            j += 1;
        }
        if ok {
            proof {
                assert(ci_match_at(name@, pat@, i as int));
            }
            return true;
        }
        i += 1;
    }
    false
}

/// `v` holds at least one ASCII digit.
fn contains_digit(v: &str) -> (r: bool)
    ensures
        r == has_digit(v@),
{
    let n = v.unicode_len();
    let mut i: usize = 0;
    while i < n
        invariant
            n == v@.len(),
            0 <= i <= n,
            forall|j: int| 0 <= j < i ==> !(48 <= (#[trigger] v@[j] as u32) <= 57),
        decreases n - i,
    {
        let c = v.get_char(i) as u32;
        if 48 <= c && c <= 57 {
            return true;
        }
        i += 1;
    }
    false
}

/// `v` holds at least one ASCII character.
fn contains_ascii(v: &str) -> (r: bool)
    ensures
        r == has_ascii(v@),
{
    let n = v.unicode_len();
    let mut i: usize = 0;
    while i < n
        invariant
            n == v@.len(),
            0 <= i <= n,
            forall|j: int| 0 <= j < i ==> (#[trigger] v@[j] as u32) >= 128,
        decreases n - i,
    {
        if (v.get_char(i) as u32) < 128 {
            return true;
        }
        i += 1;
    }
    false
}

/// A captured `name = "value"` pair is an AK/SK finding when the name,
/// case-insensitively, carries a key-like word and the value holds a
/// digit and an ASCII character.
pub open spec fn aksk_accept(name: Seq<char>, value: Seq<char>) -> bool {
    &&& (ci_contains(name, "ACCESSKEY"@) || ci_contains(name, "SECRETKEY"@) || ci_contains(
        name,
        "AK"@,
    ) || ci_contains(name, "SK"@))
    &&& has_digit(value)
    &&& has_ascii(value)
}

/// The AK/SK findings for the given capture matches: category `AK/SK`,
/// rendered `name = value`, one per accepted match, in match order.
pub open spec fn spec_aksk(caps: Seq<Seq<Seq<char>>>) -> Seq<(Seq<char>, Seq<char>)>
    decreases caps.len(),
{
    if caps.len() == 0 {
        Seq::empty()
    } else {
        let m = caps.last();
        let name = group_or_empty(m, 1);
        let value = group_or_empty(m, 2);
        spec_aksk(caps.drop_last()) + if aksk_accept(name, value) {
            seq![(("AK/SK"@, name + " = "@ + value))]
        } else {
            Seq::empty()
        }
    }
}

/// Scan `content` for AK/SK-style key assignments.
pub fn aksk_findings(content: &str) -> (r: Vec<(String, String)>)
    ensures
        r.deep_view() == spec_aksk(regex_captures(AKSK_RE@, content@)),
{
    let caps = re_pairs(AKSK_RE, content);
    let ghost gcaps = regex_captures(AKSK_RE@, content@);
    let mut out: Vec<(String, String)> = Vec::new();
    let n = caps.len();
    let mut i: usize = 0;
    while i < n
        invariant
            n == caps.len(),
            caps.deep_view().len() == gcaps.len(),
            forall|k: int|
                0 <= k < n ==> caps.deep_view()[k] == (
                    group_or_empty(#[trigger] gcaps[k], 1),
                    group_or_empty(gcaps[k], 2),
                ),
            0 <= i <= n,
            out.deep_view() == spec_aksk(gcaps.take(i as int)),
        decreases n - i,
    {
        proof {
            assert(gcaps.take(i + 1).drop_last() =~= gcaps.take(i as int));
            assert(gcaps.take(i + 1).last() == gcaps[i as int]);
            assert(caps.deep_view()[i as int] == (caps@[i as int].0@, caps@[i as int].1@));
        }
        let name = &caps[i].0;
        let value = &caps[i].1;
        if (contains_upper(name.as_str(), "ACCESSKEY") || contains_upper(name.as_str(), "SECRETKEY")
            || contains_upper(name.as_str(), "AK") || contains_upper(name.as_str(), "SK"))
            && contains_digit(value.as_str()) && contains_ascii(value.as_str()) {
            let mut rendered = name.clone();
            rendered.append(" = ");
            rendered.append(value.as_str());
            out.push((String::from_str("AK/SK"), rendered));
            proof {
                assert(out.deep_view() =~= spec_aksk(gcaps.take(i + 1)));
            }
        } else {
            proof {
                assert(out.deep_view() =~= spec_aksk(gcaps.take(i + 1)));
            }
        }
        i += 1;
    }
    proof {
        assert(gcaps.take(n as int) =~= gcaps);
    }
    out
}

/// The country rendered for an e-mail address, inferred from the final
/// label of its domain.
pub open spec fn spec_country(email: Seq<char>) -> Seq<char> {
    let dot = spec_rfind(email, '.');
    let label = if dot == -1 {
        email
    } else {
        email.skip(dot + 1)
    };
    if label == "cn"@ {
        "中国"@
    } else if label == "jp"@ {
        "日本"@
    } else if label == "uk"@ {
        "英国"@
    } else {
        "未知"@
    }
}

/// The e-mail findings: every quoted address not ending in a static
/// extension, rendered `address (country)`.
pub open spec fn spec_email(caps: Seq<Seq<Seq<char>>>) -> Seq<(Seq<char>, Seq<char>)>
    decreases caps.len(),
{
    if caps.len() == 0 {
        Seq::empty()
    } else {
        let email = group_or_empty(caps.last(), 1);
        spec_email(caps.drop_last()) + if !has_static_ext(email) {
            seq![(("邮箱"@, email + " ("@ + spec_country(email) + ")"@))]
        } else {
            Seq::empty()
        }
    }
}

/// Scan `content` for quoted e-mail addresses.
pub fn email_findings(content: &str) -> (r: Vec<(String, String)>)
    ensures
        r.deep_view() == spec_email(regex_captures(EMAIL_RE@, content@)),
{
    let caps = re_group1(EMAIL_RE, content);
    let ghost gcaps = regex_captures(EMAIL_RE@, content@);
    let mut out: Vec<(String, String)> = Vec::new();
    let n = caps.len();
    let mut i: usize = 0;
    while i < n
        invariant
            n == caps.len(),
            caps.deep_view().len() == gcaps.len(),
            forall|k: int|
                0 <= k < n ==> caps.deep_view()[k] == group_or_empty(#[trigger] gcaps[k], 1),
            0 <= i <= n,
            out.deep_view() == spec_email(gcaps.take(i as int)),
        decreases n - i,
    {
        proof {
            assert(gcaps.take(i + 1).drop_last() =~= gcaps.take(i as int));
            assert(gcaps.take(i + 1).last() == gcaps[i as int]);
            assert(caps.deep_view()[i as int] == caps@[i as int]@);
        }
        let email = &caps[i];
        if !is_static_url(email.as_str()) {
            let em = email.as_str();
            let n2 = em.unicode_len();
            let label = match rfind_char(em, '.') {
                Some(d) => em.substring_char(d + 1, n2),
                None => em,
            };
            proof {
                let dot = spec_rfind(email@, '.');
                if dot != -1 {
                    assert(label@ =~= email@.skip(dot + 1));
                }
            }
            let country: &str = if str_eq(label, "cn") {
                "中国"
            } else if str_eq(label, "jp") {
                "日本"
            } else if str_eq(label, "uk") {
                "英国"
            } else {
                "未知"
            };
            let mut rendered = email.clone();
            rendered.append(" (");
            rendered.append(country);
            rendered.append(")");
            out.push((String::from_str("邮箱"), rendered));
            proof {
                assert(out.deep_view() =~= spec_email(gcaps.take(i + 1)));
            }
        } else {
            proof {
                assert(out.deep_view() =~= spec_email(gcaps.take(i + 1)));
            }
        }
        i += 1;
    }
    proof {
        assert(gcaps.take(n as int) =~= gcaps);
    }
    out
}

/// The mobile operator for a Chinese mobile number, looked up from the
/// three-digit prefix (a best-effort table, not a guaranteed-correct
/// carrier classifier).
pub open spec fn spec_operator(p: Seq<char>) -> Seq<char> {
    if p.len() < 3 || p[0] != '1' {
        "未知运营商"@
    } else {
        let a = p[1];
        let b = p[2];
        if (a == '3' && (b == '4' || b == '5' || b == '6' || b == '7' || b == '8' || b == '9')) || (
        a == '4' && (b == '7' || b == '8')) || (a == '5' && (b == '0' || b == '1' || b == '2' || b
            == '7' || b == '8' || b == '9')) || (a == '6' && b == '5') || (a == '7' && (b == '2' || b
            == '8')) || (a == '8' && (b == '2' || b == '3' || b == '4' || b == '7' || b == '8')) || (
        a == '9' && (b == '5' || b == '7' || b == '8')) {
            "中国移动"@
        } else if (a == '3' && b == '3') || (a == '4' && b == '9') || (a == '5' && b == '3') || (a
            == '7' && (b == '3' || b == '4' || b == '7')) || (a == '8' && (b == '0' || b == '1' || b
            == '9')) || (a == '9' && (b == '0' || b == '1')) {
            "中国电信"@
        } else if (a == '3' && (b == '0' || b == '1' || b == '2')) || (a == '4' && (b == '5' || b
            == '6')) || (a == '5' && (b == '5' || b == '6')) || (a == '6' && b == '6') || (a == '7'
            && (b == '1' || b == '5' || b == '6')) || (a == '8' && (b == '5' || b == '6')) || (a
            == '9' && (b == '6' || b == '9')) {
            "中国联通"@
        } else if a == '6' && b == '2' {
            "中国电信虚拟运营商"@
        } else if a == '6' && b == '7' {
            "中国联通虚拟运营商"@
        } else if a == '9' && b == '2' {
            "中国广电"@
        } else if a == '7' && b == '0' {
            "虚拟运营商"@
        } else {
            "未知运营商"@
        }
    }
}

/// The operator for the captured number, as `spec_operator` gives it.
fn operator_of(p: &str) -> (r: &'static str)
    ensures
        r@ == spec_operator(p@),
{
    let n = p.unicode_len();
    if n < 3 || p.get_char(0) != '1' {
        return "未知运营商";
    }
    let a = p.get_char(1);
    let b = p.get_char(2);
    if (a == '3' && (b == '4' || b == '5' || b == '6' || b == '7' || b == '8' || b == '9')) || (a
        == '4' && (b == '7' || b == '8')) || (a == '5' && (b == '0' || b == '1' || b == '2' || b
        == '7' || b == '8' || b == '9')) || (a == '6' && b == '5') || (a == '7' && (b == '2' || b
        == '8')) || (a == '8' && (b == '2' || b == '3' || b == '4' || b == '7' || b == '8')) || (a
        == '9' && (b == '5' || b == '7' || b == '8')) {
        "中国移动"
    } else if (a == '3' && b == '3') || (a == '4' && b == '9') || (a == '5' && b == '3') || (a == '7'
        && (b == '3' || b == '4' || b == '7')) || (a == '8' && (b == '0' || b == '1' || b == '9'))
        || (a == '9' && (b == '0' || b == '1')) {
        "中国电信"
    } else if (a == '3' && (b == '0' || b == '1' || b == '2')) || (a == '4' && (b == '5' || b == '6'))
        || (a == '5' && (b == '5' || b == '6')) || (a == '6' && b == '6') || (a == '7' && (b == '1'
        || b == '5' || b == '6')) || (a == '8' && (b == '5' || b == '6')) || (a == '9' && (b == '6'
        || b == '9')) {
        "中国联通"
    } else if a == '6' && b == '2' {
        "中国电信虚拟运营商"
    } else if a == '6' && b == '7' {
        "中国联通虚拟运营商"
    } else if a == '9' && b == '2' {
        "中国广电"
    } else if a == '7' && b == '0' {
        "虚拟运营商"
    } else {
        "未知运营商"
    }
}

/// The phone findings: every quoted Chinese mobile number, rendered
/// `number (operator)`.
pub open spec fn spec_phone(caps: Seq<Seq<Seq<char>>>) -> Seq<(Seq<char>, Seq<char>)>
    decreases caps.len(),
{
    if caps.len() == 0 {
        Seq::empty()
    } else {
        let phone = group_or_empty(caps.last(), 1);
        spec_phone(caps.drop_last()).push(
            ("手机号"@, phone + " ("@ + spec_operator(phone) + ")"@),
        )
    }
}

/// Scan `content` for quoted Chinese mobile numbers.
pub fn phone_findings(content: &str) -> (r: Vec<(String, String)>)
    ensures
        r.deep_view() == spec_phone(regex_captures(PHONE_RE@, content@)),
{
    let caps = re_group1(PHONE_RE, content);
    let ghost gcaps = regex_captures(PHONE_RE@, content@);
    let mut out: Vec<(String, String)> = Vec::new();
    let n = caps.len();
    let mut i: usize = 0;
    while i < n
        invariant
            n == caps.len(),
            caps.deep_view().len() == gcaps.len(),
            forall|k: int|
                0 <= k < n ==> caps.deep_view()[k] == group_or_empty(#[trigger] gcaps[k], 1),
            0 <= i <= n,
            out.deep_view() == spec_phone(gcaps.take(i as int)),
        decreases n - i,
    {
        proof {
            assert(gcaps.take(i + 1).drop_last() =~= gcaps.take(i as int));
            assert(gcaps.take(i + 1).last() == gcaps[i as int]);
            assert(caps.deep_view()[i as int] == caps@[i as int]@);
        }
        let phone = &caps[i];
        let op = operator_of(phone.as_str());
        let mut rendered = phone.clone();
        rendered.append(" (");
        rendered.append(op);
        rendered.append(")");
        out.push((String::from_str("手机号"), rendered));
        proof {
            assert(out.deep_view() =~= spec_phone(gcaps.take(i + 1)));
        }
        i += 1;
    }
    proof {
        assert(gcaps.take(n as int) =~= gcaps);
    }
    out
}

/// Findings that simply tag a capture group of every match with a fixed
/// category, in match order.
pub open spec fn spec_tagged(caps: Seq<Seq<Seq<char>>>, tag: Seq<char>, group: int) -> Seq<
    (Seq<char>, Seq<char>),
>
    decreases caps.len(),
{
    if caps.len() == 0 {
        Seq::empty()
    } else {
        spec_tagged(caps.drop_last(), tag, group).push((tag, group_or_empty(caps.last(), group)))
    }
}

/// Tag every entry of `caps` with `tag`.
fn tag_all(caps: &Vec<String>, tag: &str, ghost_caps: Ghost<Seq<Seq<Seq<char>>>>, group: u32) -> (r:
    Vec<(String, String)>)
    requires
        caps.deep_view().len() == ghost_caps@.len(),
        forall|k: int|
            0 <= k < caps.deep_view().len() ==> caps.deep_view()[k] == group_or_empty(
                #[trigger] ghost_caps@[k],
                group as int,
            ),
    ensures
        r.deep_view() == spec_tagged(ghost_caps@, tag@, group as int),
{
    let mut out: Vec<(String, String)> = Vec::new();
    let n = caps.len();
    let mut i: usize = 0;
    while i < n
        invariant
            n == caps.len(),
            caps.deep_view().len() == ghost_caps@.len(),
            forall|k: int|
                0 <= k < n ==> caps.deep_view()[k] == group_or_empty(
                    #[trigger] ghost_caps@[k],
                    group as int,
                ),
            0 <= i <= n,
            out.deep_view() == spec_tagged(ghost_caps@.take(i as int), tag@, group as int),
        decreases n - i,
    {
        proof {
            assert(ghost_caps@.take(i + 1).drop_last() =~= ghost_caps@.take(i as int));
            assert(ghost_caps@.take(i + 1).last() == ghost_caps@[i as int]);
            assert(caps.deep_view()[i as int] == caps@[i as int]@);
        }
        out.push((String::from_str(tag), caps[i].clone()));
        proof {
            assert(out.deep_view() =~= spec_tagged(
                ghost_caps@.take(i + 1),
                tag@,
                group as int,
            ));
        }
        i += 1;
    }
    proof {
        assert(ghost_caps@.take(n as int) =~= ghost_caps@);
    }
    out
}

/// Scan `content` for quoted bearer-style tokens; the whole match is
/// the finding.
pub fn token_findings(content: &str) -> (r: Vec<(String, String)>)
    ensures
        r.deep_view() == spec_tagged(regex_captures(TOKEN_RE@, content@), "Token"@, 0),
{
    let caps = re_group0(TOKEN_RE, content);
    tag_all(&caps, "Token", Ghost(regex_captures(TOKEN_RE@, content@)), 0)
}

/// Scan `content` for quoted API keys.
pub fn apikey_findings(content: &str) -> (r: Vec<(String, String)>)
    ensures
        r.deep_view() == spec_tagged(regex_captures(APIKEY_RE@, content@), "APIKey"@, 1),
{
    let caps = re_group1(APIKEY_RE, content);
    tag_all(&caps, "APIKey", Ghost(regex_captures(APIKEY_RE@, content@)), 1)
}

/// Scan `content` for quoted JDBC connection URLs.
pub fn jdbc_findings(content: &str) -> (r: Vec<(String, String)>)
    ensures
        r.deep_view() == spec_tagged(regex_captures(JDBC_RE@, content@), "JDBC连接"@, 1),
{
    let caps = re_group1(JDBC_RE, content);
    tag_all(&caps, "JDBC连接", Ghost(regex_captures(JDBC_RE@, content@)), 1)
}

/// Scan `content` for quoted `password = value` assignments.
pub fn password_findings(content: &str) -> (r: Vec<(String, String)>)
    ensures
        r.deep_view() == spec_tagged(regex_captures(PASSWORD_RE@, content@), "密码"@, 1),
{
    let caps = re_group1(PASSWORD_RE, content);
    tag_all(&caps, "密码", Ghost(regex_captures(PASSWORD_RE@, content@)), 1)
}

/// Scan `content` for quoted WebSocket endpoints.
pub fn ws_findings(content: &str) -> (r: Vec<(String, String)>)
    ensures
        r.deep_view() == spec_tagged(regex_captures(WS_RE@, content@), "WebSocket接口"@, 1),
{
    let caps = re_group1(WS_RE, content);
    tag_all(&caps, "WebSocket接口", Ghost(regex_captures(WS_RE@, content@)), 1)
}

/// The category for a captured backup-like path: configuration file
/// when it ends in `.config`, backup file otherwise.
pub open spec fn spec_backup_tag(path: Seq<char>) -> Seq<char> {
    if ".config"@.is_suffix_of(path) {
        "配置文件"@
    } else {
        "备份文件"@
    }
}

/// The backup/config findings: every captured path resolved against the
/// base URL; a path that does not resolve is skipped.
pub open spec fn spec_backup(caps: Seq<Seq<Seq<char>>>, base: Seq<char>) -> Seq<
    (Seq<char>, Seq<char>),
>
    decreases caps.len(),
{
    if caps.len() == 0 {
        Seq::empty()
    } else {
        let path = group_or_empty(caps.last(), 1);
        spec_backup(caps.drop_last(), base) + match spec_normalize_crawl(path, base) {
            Some(full) => seq![((spec_backup_tag(path), full))],
            None => Seq::empty(),
        }
    }
}

/// Scan `content` for quoted backup and configuration file paths and
/// resolve each against `base_url`.
pub fn backup_findings(content: &str, base_url: &str) -> (r: Vec<(String, String)>)
    ensures
        r.deep_view() == spec_backup(regex_captures(BACKUP_RE@, content@), base_url@),
{
    let caps = re_group1(BACKUP_RE, content);
    let ghost gcaps = regex_captures(BACKUP_RE@, content@);
    let mut out: Vec<(String, String)> = Vec::new();
    let n = caps.len();
    let mut i: usize = 0;
    while i < n
        invariant
            n == caps.len(),
            caps.deep_view().len() == gcaps.len(),
            forall|k: int|
                0 <= k < n ==> caps.deep_view()[k] == group_or_empty(#[trigger] gcaps[k], 1),
            0 <= i <= n,
            out.deep_view() == spec_backup(gcaps.take(i as int), base_url@),
        decreases n - i,
    {
        proof {
            assert(gcaps.take(i + 1).drop_last() =~= gcaps.take(i as int));
            assert(gcaps.take(i + 1).last() == gcaps[i as int]);
            assert(caps.deep_view()[i as int] == caps@[i as int]@);
        }
        let path = &caps[i];
        match normalize_url_for_crawl(path.as_str(), base_url) {
            Some(full) => {
                let tag: &str = if ends_with_str(path.as_str(), ".config") {
                    "配置文件"
                } else {
                    "备份文件"
                };
                out.push((String::from_str(tag), full));
                proof {
                    assert(out.deep_view() =~= spec_backup(gcaps.take(i + 1), base_url@));
                }
            },
            None => {
                proof {
                    assert(out.deep_view() =~= spec_backup(gcaps.take(i + 1), base_url@));
                }
            },
        }
        i += 1;
    }
    proof {
        assert(gcaps.take(n as int) =~= gcaps);
    }
    out
}

/// Every finding the battery of matchers yields for `content`, in
/// matcher order.
pub open spec fn spec_detect(content: Seq<char>, base_url: Seq<char>) -> Seq<
    (Seq<char>, Seq<char>),
> {
    spec_aksk(regex_captures(AKSK_RE@, content)) + spec_email(regex_captures(EMAIL_RE@, content))
        + spec_phone(regex_captures(PHONE_RE@, content)) + spec_tagged(
        regex_captures(TOKEN_RE@, content),
        "Token"@,
        0,
    ) + spec_tagged(regex_captures(APIKEY_RE@, content), "APIKey"@, 1) + spec_tagged(
        regex_captures(JDBC_RE@, content),
        "JDBC连接"@,
        1,
    ) + spec_tagged(regex_captures(PASSWORD_RE@, content), "密码"@, 1) + spec_tagged(
        regex_captures(WS_RE@, content),
        "WebSocket接口"@,
        1,
    ) + spec_backup(regex_captures(BACKUP_RE@, content), base_url)
}

/// Run the whole battery of matchers over `content`, resolving backup
/// paths against `base_url`.  Findings come back in matcher order, with
/// duplicates preserved.
pub fn detect_sensitive_info(content: &str, base_url: &str) -> (r: Vec<(String, String)>)
    ensures
        r.deep_view() == spec_detect(content@, base_url@),
{
    let mut out = aksk_findings(content);
    let mut part = email_findings(content);
    out.append(&mut part);
    let mut part = phone_findings(content);
    out.append(&mut part);
    let mut part = token_findings(content);
    out.append(&mut part);
    let mut part = apikey_findings(content);
    out.append(&mut part);
    let mut part = jdbc_findings(content);
    out.append(&mut part);
    let mut part = password_findings(content);
    out.append(&mut part);
    let mut part = ws_findings(content);
    out.append(&mut part);
    let mut part = backup_findings(content, base_url);
    out.append(&mut part);
    proof {
        assert(out.deep_view() =~= spec_detect(content@, base_url@));
    }
    out
}

} // verus!
