//! Discovery engine.
//!
//! The traversal controller: a worklist of `(url, base, depth,
//! third-party)` items drained one task at a time.  `take_next` applies
//! the termination policy — the global visited set, the blacklist and
//! the depth caps — and marks a task visited before it is handed out to
//! be fetched; `process_page` feeds a fetched body to the detector,
//! extracts outbound references by regex and by structural parsing,
//! classifies them and grows the worklist.  The two JavaScript passes
//! enrich the base-URL set and collect candidate API paths.  Fetching
//! itself happens outside the library.
use vstd::prelude::*;

use crate::classify::{classify_url, placed_html, placed_static};
use crate::config::Config;
use crate::detect::{detect_sensitive_info, spec_detect};
use crate::domain::{extract_domain, is_blacklisted, is_noise_js_file, spec_extract_domain,
    spec_is_blacklisted, spec_is_noise_js};
use crate::filter::{filter_api_path, spec_filter_api_path};
use crate::normalize::{normalize_url_for_crawl, spec_normalize_crawl};
use crate::outside::{group_or_empty, html_attr_refs, html_refs, re_group1, re_group2,
    regex_captures};
use crate::text::{ends_with_str, str_eq, vec_contains_str};

verus! {

pub const SRC_HREF_RE: &'static str = r#"(?i)(src|href)=["']([^"']+)["']"#;

pub const JS_URL_RE: &'static str = r#"(https?://[^\s'"]+)"#;

pub const API_FRAG_RE: &'static str = r#"(?:["']|/)(/[^"\s;}{><\p{Han}]+|api/?(?:[^"\s;}{><\p{Han}]+)?)(?:["']|/)?(?:[^"\s;}{><\p{Han}]*)"#;

/// One traversal step: a URL to fetch, the base it was discovered
/// under, its depth, and whether it lies on a third-party excursion.
pub struct CrawlTask {
    pub url: String,
    pub base_url: String,
    pub depth: u8,
    pub third_party: bool,
}

/// The mathematical value of a traversal step.
#[verifier::ext_equal]
pub struct TaskView {
    pub url: Seq<char>,
    pub base_url: Seq<char>,
    pub depth: int,
    pub third_party: bool,
}

impl View for CrawlTask {
    type V = TaskView;

    open spec fn view(&self) -> TaskView {
        TaskView {
            url: self.url@,
            base_url: self.base_url@,
            depth: self.depth as int,
            third_party: self.third_party,
        }
    }
}

/// The run context the controller owns: every collection a traversal
/// mutates.
pub struct Crawler {
    /// Exact URLs already fetched or handed out to be fetched.
    pub visited: Vec<String>,
    /// HTML-candidate URLs, in discovery order.
    pub html_urls: Vec<String>,
    /// Static-resource URLs, in discovery order.
    pub static_urls: Vec<String>,
    /// `(category, value)` findings, never deduplicated.
    pub findings: Vec<(String, String)>,
    /// Hostnames seen in any extracted reference, deduplicated.
    pub domains: Vec<String>,
    /// The worklist of traversal steps still to make.
    pub queue: Vec<CrawlTask>,
    /// Resolution contexts for API fragments; starts as the seed alone.
    pub base_urls: Vec<String>,
    /// Candidate API URLs collected from JavaScript bodies.
    pub api_paths: Vec<String>,
    /// The seed URL of the run.
    pub seed: String,
    /// The immutable run configuration.
    pub config: Config,
}

/// The mathematical value of the run context.
#[verifier::ext_equal]
pub struct CrawlView {
    pub visited: Seq<Seq<char>>,
    pub html: Seq<Seq<char>>,
    pub statics: Seq<Seq<char>>,
    pub findings: Seq<(Seq<char>, Seq<char>)>,
    pub domains: Seq<Seq<char>>,
    pub queue: Seq<TaskView>,
    pub base_urls: Seq<Seq<char>>,
    pub api_paths: Seq<Seq<char>>,
}

impl View for Crawler {
    type V = CrawlView;

    open spec fn view(&self) -> CrawlView {
        CrawlView {
            visited: self.visited.deep_view(),
            html: self.html_urls.deep_view(),
            statics: self.static_urls.deep_view(),
            findings: self.findings.deep_view(),
            domains: self.domains.deep_view(),
            queue: Seq::new(self.queue@.len(), |i: int| self.queue@[i]@),
            base_urls: self.base_urls.deep_view(),
            api_paths: self.api_paths.deep_view(),
        }
    }
}

/// Every step of `q` obeys the depth policy.
pub open spec fn queue_ok(q: Seq<TaskView>) -> bool {
    forall|i: int| 0 <= i < q.len() ==> depth_ok((#[trigger] q[i]).depth, q[i].third_party)
}

/// The depth policy: a first-party chain runs at most three hops deep,
/// a third-party excursion a single one.
pub open spec fn depth_ok(depth: int, third_party: bool) -> bool {
    if third_party {
        1 <= depth <= 1
    } else {
        1 <= depth <= 3
    }
}

/// A queued step the policy drops without fetching: out of depth,
/// already visited, or blacklisted — exactly the guard the traversal
/// applies before every fetch.  Dropping such a step changes nothing;
/// in particular it never touches the visited set.
pub open spec fn spec_task_skipped(t: TaskView, visited: Seq<Seq<char>>, blacklist: Seq<
    Seq<char>,
>) -> bool {
    ||| (t.depth > 3 && !t.third_party)
    ||| (t.depth > 1 && t.third_party)
    ||| visited.contains(t.url)
    ||| spec_is_blacklisted(t.url, blacklist)
}

/// The host a traversal base resolves to, or empty when it has none.
pub open spec fn spec_base_domain(base: Seq<char>) -> Seq<char> {
    match spec_extract_domain(base) {
        Some(d) => d,
        None => Seq::empty(),
    }
}

/// `s` with the host `d` recorded in the domain registry.
pub open spec fn spec_push_domain(s: CrawlView, d: Seq<char>) -> CrawlView {
    if s.domains.contains(d) {
        s
    } else {
        CrawlView { domains: s.domains.push(d), ..s }
    }
}

/// `s` with `full` classified into the HTML or static collection.
pub open spec fn spec_classify_into(s: CrawlView, full: Seq<char>) -> CrawlView {
    if placed_html(full) {
        CrawlView { html: s.html.push(full), ..s }
    } else if placed_static(full) {
        CrawlView { statics: s.statics.push(full), ..s }
    } else {
        s
    }
}

/// How one extracted reference changes the run context, seen from the
/// step `cur`: normalize it (an unresolvable one is skipped), record
/// its host, then either queue a third-party excursion at depth 1, or
/// classify it and queue a deeper first-party step for a
/// directory-like URL.
pub open spec fn spec_handle_ref(s: CrawlView, cur: TaskView, blacklist: Seq<Seq<char>>, r: Seq<
    char,
>) -> CrawlView {
    let bd = spec_base_domain(cur.base_url);
    match spec_normalize_crawl(r, cur.base_url) {
        None => s,
        Some(full) => match spec_extract_domain(full) {
            None => s,
            Some(d) => {
                let s1 = spec_push_domain(s, d);
                if d != bd {
                    if !cur.third_party && !spec_is_blacklisted(full, blacklist) {
                        CrawlView {
                            queue: s1.queue.push(
                                TaskView {
                                    url: full,
                                    base_url: full,
                                    depth: 1,
                                    third_party: true,
                                },
                            ),
                            ..s1
                        }
                    } else {
                        s1
                    }
                } else {
                    let s2 = spec_classify_into(s1, full);
                    if "/"@.is_suffix_of(full) && cur.depth < 3 && !cur.third_party {
                        CrawlView {
                            queue: s2.queue.push(
                                TaskView {
                                    url: full,
                                    base_url: cur.base_url,
                                    depth: cur.depth + 1,
                                    third_party: false,
                                },
                            ),
                            ..s2
                        }
                    } else {
                        s2
                    }
                }
            },
        },
    }
}

/// `spec_handle_ref` folded over a whole reference list, first to last.
pub open spec fn spec_handle_refs(s: CrawlView, cur: TaskView, blacklist: Seq<Seq<char>>,
    refs: Seq<Seq<char>>) -> CrawlView
    decreases refs.len(),
{
    if refs.len() == 0 {
        s
    } else {
        spec_handle_ref(
            spec_handle_refs(s, cur, blacklist, refs.drop_last()),
            cur,
            blacklist,
            refs.last(),
        )
    }
}

/// `s` with new findings appended.
pub open spec fn spec_with_findings(s: CrawlView, fs: Seq<(Seq<char>, Seq<char>)>) -> CrawlView {
    CrawlView { findings: s.findings + fs, ..s }
}

/// Handling a reference never touches the visited set: only
/// `Crawler::take_next` writes it, so a URL once visited stays visited
/// for the rest of the run and is never handed out to be fetched again.
pub proof fn lemma_handle_ref_preserves_visited(s: CrawlView, cur: TaskView,
    blacklist: Seq<Seq<char>>, r: Seq<char>)
    ensures
        spec_handle_ref(s, cur, blacklist, r).visited == s.visited,
{
}

/// Processing a whole page body never touches the visited set.
pub proof fn lemma_handle_refs_preserves_visited(s: CrawlView, cur: TaskView,
    blacklist: Seq<Seq<char>>, refs: Seq<Seq<char>>)
    ensures
        spec_handle_refs(s, cur, blacklist, refs).visited == s.visited,
    decreases refs.len(),
{
    if refs.len() > 0 {
        lemma_handle_refs_preserves_visited(s, cur, blacklist, refs.drop_last());
    }
}

/// The JavaScript sweeps never touch the visited set either.
pub proof fn lemma_harvest_preserves_visited(s: CrawlView, urls: Seq<Seq<char>>,
    seed_domain: Seq<char>, blacklist: Seq<Seq<char>>)
    ensures
        spec_harvest_urls(s, urls, seed_domain, blacklist).visited == s.visited,
    decreases urls.len(),
{
    if urls.len() > 0 {
        lemma_harvest_preserves_visited(s, urls.drop_last(), seed_domain, blacklist);
    }
}

/// The attribute values the `src`/`href` regex pass extracts from a
/// body.
pub open spec fn spec_regex_refs(body: Seq<char>) -> Seq<Seq<char>> {
    Seq::new(
        regex_captures(SRC_HREF_RE@, body).len(),
        |i: int| group_or_empty(regex_captures(SRC_HREF_RE@, body)[i], 2),
    )
}

/// Every outbound reference a page body yields: the regex pass first,
/// then the structural pass over the same body.
pub open spec fn spec_page_refs(body: Seq<char>) -> Seq<Seq<char>> {
    spec_regex_refs(body) + html_attr_refs(body)
}

/// `u` is worth a JavaScript pass: a same-domain `.js` resource that is
/// not a generic bundler chunk.
pub open spec fn spec_js_target(u: Seq<char>, seed: Seq<char>) -> bool {
    ".js"@.is_suffix_of(u) && !spec_is_noise_js(u) && spec_base_domain(u) == spec_base_domain(seed)
}

/// The JavaScript targets among the discovered static resources, in
/// discovery order.
pub open spec fn spec_js_targets(statics: Seq<Seq<char>>, seed: Seq<char>) -> Seq<Seq<char>>
    decreases statics.len(),
{
    if statics.len() == 0 {
        Seq::empty()
    } else {
        spec_js_targets(statics.drop_last(), seed) + if spec_js_target(statics.last(), seed) {
            seq![statics.last()]
        } else {
            Seq::<Seq<char>>::empty()
        }
    }
}

/// The absolute `http(s)` URLs the JavaScript URL regex extracts from a
/// body.
pub open spec fn spec_js_urls(body: Seq<char>) -> Seq<Seq<char>> {
    Seq::new(
        regex_captures(JS_URL_RE@, body).len(),
        |i: int| group_or_empty(regex_captures(JS_URL_RE@, body)[i], 1),
    )
}

/// The candidate API fragments the fragment regex extracts from a body.
pub open spec fn spec_api_frags(body: Seq<char>) -> Seq<Seq<char>> {
    Seq::new(
        regex_captures(API_FRAG_RE@, body).len(),
        |i: int| group_or_empty(regex_captures(API_FRAG_RE@, body)[i], 1),
    )
}

/// How one absolute URL found in JavaScript changes the run context:
/// its host is recorded, and the URL itself joins the base-URL set when
/// it is neither blacklisted nor already known and lies on the seed's
/// domain.
pub open spec fn spec_harvest_url(s: CrawlView, u: Seq<char>, seed_domain: Seq<char>,
    blacklist: Seq<Seq<char>>) -> CrawlView {
    let s1 = match spec_extract_domain(u) {
        Some(d) => spec_push_domain(s, d),
        None => s,
    };
    if !spec_is_blacklisted(u, blacklist) && !s1.base_urls.contains(u) {
        if spec_base_domain(u) == seed_domain {
            CrawlView { base_urls: s1.base_urls.push(u), ..s1 }
        } else {
            s1
        }
    } else {
        s1
    }
}

/// `spec_harvest_url` folded over a whole URL list, first to last.
pub open spec fn spec_harvest_urls(s: CrawlView, urls: Seq<Seq<char>>, seed_domain: Seq<char>,
    blacklist: Seq<Seq<char>>) -> CrawlView
    decreases urls.len(),
{
    if urls.len() == 0 {
        s
    } else {
        spec_harvest_url(
            spec_harvest_urls(s, urls.drop_last(), seed_domain, blacklist),
            urls.last(),
            seed_domain,
            blacklist,
        )
    }
}

/// What running every extracted fragment through the API-path filter
/// yields, in fragment order.
pub open spec fn spec_api_results(frags: Seq<Seq<char>>, bases: Seq<Seq<char>>, core: Seq<char>,
    noise: Seq<Seq<char>>) -> Seq<Seq<char>>
    decreases frags.len(),
{
    if frags.len() == 0 {
        Seq::empty()
    } else {
        spec_api_results(frags.drop_last(), bases, core, noise) + spec_filter_api_path(
            frags.last(),
            bases,
            core,
            noise,
        )
    }
}

impl Crawler {
    /// Every queued step obeys the depth policy, so no traversal can
    /// outrun the caps.
    pub open spec fn wf(self) -> bool {
        queue_ok(self@.queue)
    }

    /// A fresh run context: everything empty but for the seed, which
    /// stands as the one queued step and the first base URL.
    pub fn new(seed: String, config: Config) -> (c: Crawler)
        ensures
            c.wf(),
            c@.visited == Seq::<Seq<char>>::empty(),
            c@.html == Seq::<Seq<char>>::empty(),
            c@.statics == Seq::<Seq<char>>::empty(),
            c@.findings == Seq::<(Seq<char>, Seq<char>)>::empty(),
            c@.domains == Seq::<Seq<char>>::empty(),
            c@.api_paths == Seq::<Seq<char>>::empty(),
            c@.base_urls == seq![seed@],
            c@.queue == seq![
                (TaskView { url: seed@, base_url: seed@, depth: 1, third_party: false }),
            ],
            c.seed@ == seed@,
            c.config == config,
    {
        let mut queue: Vec<CrawlTask> = Vec::new();
        queue.push(
            CrawlTask {
                url: seed.clone(),
                base_url: seed.clone(),
                depth: 1,
                third_party: false,
            },
        );
        let mut base_urls: Vec<String> = Vec::new();
        base_urls.push(seed.clone());
        let c = Crawler {
            visited: Vec::new(),
            html_urls: Vec::new(),
            static_urls: Vec::new(),
            findings: Vec::new(),
            domains: Vec::new(),
            queue,
            base_urls,
            api_paths: Vec::new(),
            seed,
            config,
        };
        proof {
            assert(c@.base_urls =~= seq![c.seed@]);
            assert(c@.queue =~= seq![
                (TaskView { url: c.seed@, base_url: c.seed@, depth: 1, third_party: false }),
            ]);
            assert(c@.visited =~= Seq::<Seq<char>>::empty());
            assert(c@.html =~= Seq::<Seq<char>>::empty());
            assert(c@.statics =~= Seq::<Seq<char>>::empty());
            assert(c@.findings =~= Seq::<(Seq<char>, Seq<char>)>::empty());
            assert(c@.domains =~= Seq::<Seq<char>>::empty());
            assert(c@.api_paths =~= Seq::<Seq<char>>::empty());
        }
        c
    }

    /// Pop steps off the worklist, newest first, until one passes the
    /// policy: not yet visited, not blacklisted, within the depth caps.
    /// That step's URL — and nothing else — is recorded as visited
    /// before the step is handed out, so a URL is never handed out
    /// twice in a run, whatever paths reach it.  A step that fails the
    /// policy is dropped without any other effect, and `None` comes
    /// back only once every queued step has been found ineligible.
    pub fn take_next(&mut self) -> (r: Option<CrawlTask>)
        requires
            old(self).wf(),
        ensures
            final(self).wf(),
            final(self)@.html == old(self)@.html,
            final(self)@.statics == old(self)@.statics,
            final(self)@.findings == old(self)@.findings,
            final(self)@.domains == old(self)@.domains,
            final(self)@.base_urls == old(self)@.base_urls,
            final(self)@.api_paths == old(self)@.api_paths,
            final(self).seed == old(self).seed,
            final(self).config == old(self).config,
            match r {
                Some(t) => {
                    &&& !old(self)@.visited.contains(t@.url)
                    &&& final(self)@.visited == old(self)@.visited.push(t@.url)
                    &&& final(self)@.visited.contains(t@.url)
                    &&& depth_ok(t@.depth, t@.third_party)
                    &&& !spec_is_blacklisted(t@.url, old(self).config.blacklist.deep_view())
                    &&& final(self)@.queue.len() < old(self)@.queue.len()
                    &&& t@ == old(self)@.queue[final(self)@.queue.len() as int]
                    &&& final(self)@.queue == old(self)@.queue.take(
                        final(self)@.queue.len() as int,
                    )
                    &&& forall|i: int|
                        final(self)@.queue.len() < i < old(self)@.queue.len()
                            ==> spec_task_skipped(
                            #[trigger] old(self)@.queue[i],
                            old(self)@.visited,
                            old(self).config.blacklist.deep_view(),
                        )
                },
                None => {
                    &&& final(self)@.visited == old(self)@.visited
                    &&& final(self)@.queue.len() == 0
                    &&& forall|i: int|
                        0 <= i < old(self)@.queue.len() ==> spec_task_skipped(
                            #[trigger] old(self)@.queue[i],
                            old(self)@.visited,
                            old(self).config.blacklist.deep_view(),
                        )
                },
            },
    {
        proof {
            assert(old(self)@.queue.take(old(self)@.queue.len() as int) =~= old(self)@.queue);
        }
        loop
            invariant
                self.wf(),
                self@.visited == old(self)@.visited,
                self@.html == old(self)@.html,
                self@.statics == old(self)@.statics,
                self@.findings == old(self)@.findings,
                self@.domains == old(self)@.domains,
                self@.base_urls == old(self)@.base_urls,
                self@.api_paths == old(self)@.api_paths,
                self.seed == old(self).seed,
                self.config == old(self).config,
                self@.queue.len() <= old(self)@.queue.len(),
                self@.queue == old(self)@.queue.take(self@.queue.len() as int),
                forall|i: int|
                    self@.queue.len() <= i < old(self)@.queue.len() ==> spec_task_skipped(
                        #[trigger] old(self)@.queue[i],
                        old(self)@.visited,
                        old(self).config.blacklist.deep_view(),
                    ),
            decreases self.queue.len(),
        {
            let ghost q0 = self@.queue;
            let t = match self.queue.pop() {
                Some(t) => t,
                None => {
                    return None;
                },
            };
            proof {
                assert(t@ == q0[q0.len() - 1]);
                assert(t@ == old(self)@.queue[q0.len() - 1]);
                assert(self@.queue =~= q0.drop_last());
                assert(self@.queue =~= old(self)@.queue.take(self@.queue.len() as int));
                assert(depth_ok(t@.depth, t@.third_party));
                assert(self.wf());
            }
            let depth_bad = (t.depth > 3 && !t.third_party) || (t.depth > 1 && t.third_party);
            if !depth_bad && !vec_contains_str(&self.visited, t.url.as_str()) && !is_blacklisted(
                t.url.as_str(),
                &self.config.blacklist,
            ) {
                self.visited.push(t.url.clone());
                proof {
                    assert(self@.visited =~= old(self)@.visited.push(t.url@));
                    assert(self@.visited.last() == t.url@);
                    assert(self@.visited.contains(t.url@));
                    assert(t@ == old(self)@.queue[self@.queue.len() as int]);
                }
                return Some(t);
            }
            proof {
                assert(spec_task_skipped(
                    old(self)@.queue[self@.queue.len() as int],
                    old(self)@.visited,
                    old(self).config.blacklist.deep_view(),
                ));
            }
        }
    }

    /// Handle one extracted reference, exactly as `spec_handle_ref`
    /// describes.
    fn handle_ref(&mut self, task: &CrawlTask, r: &str)
        requires
            old(self).wf(),
        ensures
            final(self).wf(),
            final(self)@ == spec_handle_ref(
                old(self)@,
                task@,
                old(self).config.blacklist.deep_view(),
                r@,
            ),
            final(self).seed == old(self).seed,
            final(self).config == old(self).config,
    {
        let full = match normalize_url_for_crawl(r, task.base_url.as_str()) {
            Some(f) => f,
            None => {
                return ;
            },
        };
        let d = match extract_domain(full.as_str()) {
            Some(d) => d,
            None => {
                return ;
            },
        };
        let ghost s0 = self@;
        if !vec_contains_str(&self.domains, d.as_str()) {
            self.domains.push(d.clone());
        }
        proof {
            if s0.domains.contains(d@) {
                assert(self@ =~= spec_push_domain(s0, d@));
            } else {
                assert(self@.domains =~= s0.domains.push(d@));
                assert(self@ =~= spec_push_domain(s0, d@));
            }
        }
        let ghost s1 = self@;
        let base_domain = match extract_domain(task.base_url.as_str()) {
            Some(b) => b,
            None => String::new(),
        };
        if !str_eq(d.as_str(), base_domain.as_str()) {
            if !task.third_party && !is_blacklisted(full.as_str(), &self.config.blacklist) {
                let base_copy = full.clone();
                self.queue.push(
                    CrawlTask { url: full, base_url: base_copy, depth: 1, third_party: true },
                );
                proof {
                    assert(self@.queue =~= s1.queue.push(
                        TaskView {
                            url: full@,
                            base_url: full@,
                            depth: 1,
                            third_party: true,
                        },
                    ));
                    assert(self@ =~= spec_handle_ref(
                        s0,
                        task@,
                        old(self).config.blacklist.deep_view(),
                        r@,
                    ));
                }
            }
        } else {
            classify_url(full.as_str(), &mut self.html_urls, &mut self.static_urls);
            proof {
                assert(self@ =~= spec_classify_into(s1, full@));
            }
            let ghost s2 = self@;
            if ends_with_str(full.as_str(), "/") && task.depth < 3 && !task.third_party {
                let base_copy = task.base_url.clone();
                self.queue.push(
                    CrawlTask {
                        url: full,
                        base_url: base_copy,
                        depth: task.depth + 1,
                        third_party: false,
                    },
                );
                proof {
                    assert(self@.queue =~= s2.queue.push(
                        TaskView {
                            url: full@,
                            base_url: task.base_url@,
                            depth: task@.depth + 1,
                            third_party: false,
                        },
                    ));
                    assert(self@ =~= spec_handle_ref(
                        s0,
                        task@,
                        old(self).config.blacklist.deep_view(),
                        r@,
                    ));
                }
            }
        }
    }

    /// Process a fetched page body: run the detector over it, then
    /// extract outbound references with both the regex pass and the
    /// structural pass and handle each in order.
    pub fn process_page(&mut self, task: &CrawlTask, body: &str)
        requires
            old(self).wf(),
        ensures
            final(self).wf(),
            final(self)@ == spec_handle_refs(
                spec_with_findings(old(self)@, spec_detect(body@, task.base_url@)),
                task@,
                old(self).config.blacklist.deep_view(),
                spec_page_refs(body@),
            ),
            final(self).seed == old(self).seed,
            final(self).config == old(self).config,
    {
        let mut fs = detect_sensitive_info(body, task.base_url.as_str());
        self.findings.append(&mut fs);
        proof {
            assert(self@ =~= spec_with_findings(old(self)@, spec_detect(body@, task.base_url@)));
        }
        let ghost start = self@;
        let ghost bl = self.config.blacklist.deep_view();
        let refs1 = re_group2(SRC_HREF_RE, body);
        let ghost gr1 = spec_regex_refs(body@);
        proof {
            assert(refs1.deep_view() =~= gr1);
        }
        let n1 = refs1.len();
        let mut i: usize = 0;
        while i < n1
            invariant
                self.wf(),
                n1 == refs1.len(),
                refs1.deep_view() == gr1,
                bl == self.config.blacklist.deep_view(),
                self.seed == old(self).seed,
                self.config == old(self).config,
                0 <= i <= n1,
                self@ == spec_handle_refs(start, task@, bl, gr1.take(i as int)),
            decreases n1 - i,
        {
            proof {
                assert(gr1.take(i + 1).drop_last() =~= gr1.take(i as int));
                assert(gr1.take(i + 1).last() == gr1[i as int]);
                assert(refs1.deep_view()[i as int] == refs1@[i as int]@);
            }
            self.handle_ref(task, refs1[i].as_str());
            i += 1;
        }
        let refs2 = html_refs(body);
        let ghost gall = spec_page_refs(body@);
        proof {
            assert(gr1.take(n1 as int) =~= gr1);
            assert(gall.take(n1 as int) =~= gr1);
        }
        let n2 = refs2.len();
        let mut j: usize = 0;
        while j < n2
            invariant
                self.wf(),
                n1 == gr1.len(),
                n2 == refs2.len(),
                refs2.deep_view() == html_attr_refs(body@),
                gall == spec_page_refs(body@),
                gall == gr1 + html_attr_refs(body@),
                bl == self.config.blacklist.deep_view(),
                self.seed == old(self).seed,
                self.config == old(self).config,
                0 <= j <= n2,
                self@ == spec_handle_refs(start, task@, bl, gall.take(n1 + j)),
            decreases n2 - j,
        {
            proof {
                assert(gall.take(n1 + j + 1).drop_last() =~= gall.take(n1 + j));
                assert(gall.take(n1 + j + 1).last() == gall[n1 + j]);
                assert(gall[n1 + j] == html_attr_refs(body@)[j as int]);
                assert(refs2.deep_view()[j as int] == refs2@[j as int]@);
            }
            self.handle_ref(task, refs2[j].as_str());
            j += 1;
        }
        proof {
            assert(gall.take(n1 + n2) =~= gall);
        }
    }

    /// The JavaScript resources the enrichment passes fetch: the
    /// discovered same-domain `.js` URLs that are not bundler chunks.
    pub fn js_targets(&self) -> (r: Vec<String>)
        ensures
            r.deep_view() == spec_js_targets(self@.statics, self.seed@),
    {
        let sd = match extract_domain(self.seed.as_str()) {
            Some(d) => d,
            None => String::new(),
        };
        let mut out: Vec<String> = Vec::new();
        let n = self.static_urls.len();
        let mut i: usize = 0;
        while i < n
            invariant
                n == self.static_urls.len(),
                sd@ == spec_base_domain(self.seed@),
                0 <= i <= n,
                out.deep_view() == spec_js_targets(self@.statics.take(i as int), self.seed@),
            decreases n - i,
        {
            proof {
                assert(self@.statics.take(i + 1).drop_last() =~= self@.statics.take(i as int));
                assert(self@.statics.take(i + 1).last() == self@.statics[i as int]);
                assert(self@.statics[i as int] == self.static_urls@[i as int]@);
            }
            let u = self.static_urls[i].as_str();
            let dom_matches = match extract_domain(u) {
                Some(d) => str_eq(d.as_str(), sd.as_str()),
                None => sd.as_str().unicode_len() == 0,
            };
            proof {
                if sd@.len() == 0 {
                    assert(sd@ =~= Seq::<char>::empty());
                }
                assert(dom_matches == (spec_base_domain(u@) == sd@));
            }
            if ends_with_str(u, ".js") && !is_noise_js_file(u) && dom_matches {
                out.push(String::from_str(u));
                proof {
                    assert(out.deep_view() =~= spec_js_targets(
                        self@.statics.take(i + 1),
                        self.seed@,
                    ));
                }
            } else {
                proof {
                    assert(out.deep_view() =~= spec_js_targets(
                        self@.statics.take(i + 1),
                        self.seed@,
                    ));
                }
            }
            i += 1;
        }
        proof {
            assert(self@.statics.take(n as int) =~= self@.statics);
        }
        out
    }

    /// First JavaScript sweep over a fetched body: run the detector
    /// (against the seed base), record every extracted host, and grow
    /// the base-URL set with fresh same-domain absolute URLs.
    pub fn harvest_base_urls(&mut self, body: &str)
        requires
            old(self).wf(),
        ensures
            final(self).wf(),
            final(self)@ == spec_harvest_urls(
                spec_with_findings(old(self)@, spec_detect(body@, old(self).seed@)),
                spec_js_urls(body@),
                spec_base_domain(old(self).seed@),
                old(self).config.blacklist.deep_view(),
            ),
            final(self).seed == old(self).seed,
            final(self).config == old(self).config,
    {
        let mut fs = detect_sensitive_info(body, self.seed.as_str());
        self.findings.append(&mut fs);
        proof {
            assert(self@ =~= spec_with_findings(old(self)@, spec_detect(body@, old(self).seed@)));
        }
        let ghost start = self@;
        let ghost bl = self.config.blacklist.deep_view();
        let urls = re_group1(JS_URL_RE, body);
        let ghost gu = spec_js_urls(body@);
        proof {
            assert(urls.deep_view() =~= gu);
        }
        let sd = match extract_domain(self.seed.as_str()) {
            Some(d) => d,
            None => String::new(),
        };
        let n = urls.len();
        let mut i: usize = 0;
        while i < n
            invariant
                self.wf(),
                n == urls.len(),
                urls.deep_view() == gu,
                bl == self.config.blacklist.deep_view(),
                sd@ == spec_base_domain(old(self).seed@),
                self.seed == old(self).seed,
                self.config == old(self).config,
                0 <= i <= n,
                self@ == spec_harvest_urls(start, gu.take(i as int), sd@, bl),
            decreases n - i,
        {
            proof {
                assert(gu.take(i + 1).drop_last() =~= gu.take(i as int));
                assert(gu.take(i + 1).last() == gu[i as int]);
                assert(urls.deep_view()[i as int] == urls@[i as int]@);
            }
            let u = urls[i].as_str();
            let ghost s_pre = self@;
            match extract_domain(u) {
                Some(d) => {
                    let ghost dv = d@;
                    if !vec_contains_str(&self.domains, d.as_str()) {
                        self.domains.push(d);
                    }
                    proof {
                        if s_pre.domains.contains(dv) {
                            assert(self@ =~= spec_push_domain(s_pre, dv));
                        } else {
                            assert(self@.domains =~= s_pre.domains.push(dv));
                            assert(self@ =~= spec_push_domain(s_pre, dv));
                        }
                    }
                },
                None => {},
            }
            let ghost s1 = self@;
            if !is_blacklisted(u, &self.config.blacklist) && !vec_contains_str(&self.base_urls, u) {
                let dom_matches = match extract_domain(u) {
                    Some(d2) => str_eq(d2.as_str(), sd.as_str()),
                    None => sd.as_str().unicode_len() == 0,
                };
                proof {
                    if sd@.len() == 0 {
                        assert(sd@ =~= Seq::<char>::empty());
                    }
                    assert(dom_matches == (spec_base_domain(u@) == sd@));
                }
                if dom_matches {
                    self.base_urls.push(String::from_str(u));
                    proof {
                        assert(self@.base_urls =~= s1.base_urls.push(urls.deep_view()[i as int]));
                    }
                }
            }
            proof {
                assert(self@ =~= spec_harvest_urls(start, gu.take(i + 1), sd@, bl));
            }
            i += 1;
        }
        proof {
            assert(gu.take(n as int) =~= gu);
        }
    }

    /// Second JavaScript sweep over a fetched body: run every extracted
    /// path-like fragment through the API-path filter against the full
    /// base-URL set and collect the candidates.
    pub fn harvest_api_paths(&mut self, body: &str)
        requires
            old(self).wf(),
        ensures
            final(self).wf(),
            final(self)@ == (CrawlView {
                api_paths: old(self)@.api_paths + spec_api_results(
                    spec_api_frags(body@),
                    old(self)@.base_urls,
                    old(self).config.api_core@,
                    old(self).config.noise_strings.deep_view(),
                ),
                ..old(self)@
            }),
            final(self).seed == old(self).seed,
            final(self).config == old(self).config,
    {
        let frags = re_group1(API_FRAG_RE, body);
        let ghost gf = spec_api_frags(body@);
        proof {
            assert(frags.deep_view() =~= gf);
        }
        let ghost start = self@;
        let ghost core = self.config.api_core@;
        let ghost noise = self.config.noise_strings.deep_view();
        let n = frags.len();
        let mut i: usize = 0;
        while i < n
            invariant
                queue_ok(start.queue),
                n == frags.len(),
                frags.deep_view() == gf,
                core == self.config.api_core@,
                noise == self.config.noise_strings.deep_view(),
                self.seed == old(self).seed,
                self.config == old(self).config,
                0 <= i <= n,
                self@ == (CrawlView {
                    api_paths: start.api_paths + spec_api_results(
                        gf.take(i as int),
                        start.base_urls,
                        core,
                        noise,
                    ),
                    ..start
                }),
            decreases n - i,
        {
            proof {
                assert(gf.take(i + 1).drop_last() =~= gf.take(i as int));
                assert(gf.take(i + 1).last() == gf[i as int]);
                assert(frags.deep_view()[i as int] == frags@[i as int]@);
            }
            let mut rs = filter_api_path(
                frags[i].as_str(),
                &self.base_urls,
                self.config.api_core.as_str(),
                &self.config.noise_strings,
            );
            let ghost rsv = rs.deep_view();
            self.api_paths.append(&mut rs);
            proof {
                assert(self@.api_paths =~= start.api_paths + spec_api_results(
                    gf.take(i as int),
                    start.base_urls,
                    core,
                    noise,
                ) + rsv);
                assert(self@ =~= (CrawlView {
                    api_paths: start.api_paths + spec_api_results(
                        gf.take(i + 1),
                        start.base_urls,
                        core,
                        noise,
                    ),
                    ..start
                }));
                assert(self@.queue =~= start.queue);
            }
            i += 1;
        }
        proof {
            assert(gf.take(n as int) =~= gf);
        }
    }
}

} // verus!
