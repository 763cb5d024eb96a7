//! Domain-blocking policy of the web-protection collaborator.
//!
//! The DNS server, the blocklist downloads and the system-resolver rewiring
//! are outside work in the embedding program; this module verifies the
//! policy under it: which hosts a blocklist text names, how user entries are
//! normalized, when a cached blocklist is stale, how the active domain set
//! is assembled, and which queried names it blocks.

use vstd::prelude::*;
use vstd::string::StrSliceExecFns;
use crate::errors::AvError;
use crate::settings::WebSecuritySettings;
use crate::text::{eq_ignore_case, find_non_space, find_space, is_space, lemma_non_space_pos_is,
    lemma_space_pos_is, lower_seq, non_space_pos, space_pos, spec_lines, spec_trim,
    spec_trim_end_ch, split_lines, starts_with_str, str_eq, substr, to_lowercase_str,
    trim_end_matches_char, trim_str};

verus! {

/// A cached blocklist is refreshed after this many hours.
pub const CACHE_DURATION_HOURS: u64 = 24;

/// What is remembered about a downloaded blocklist cache.
#[derive(Debug)]
pub struct CacheMetadata {
    pub last_updated: u64,
    pub source_url: String,
}

/// Is a cache timestamp too old at time `now` (both in seconds): never set,
/// or older than the cache duration? A timestamp from the future counts as
/// fresh.
pub open spec fn spec_expired(ts: u64, now: u64) -> bool {
    ts == 0 || (now >= ts && now - ts > CACHE_DURATION_HOURS * 3600)
}

/// Decides whether a cache timestamp is expired at time `now`.
pub fn expired(ts: u64, now: u64) -> (r: bool)
    ensures
        r == spec_expired(ts, now),
{
    ts == 0 || (now >= ts && now - ts > CACHE_DURATION_HOURS * 3600)
}

/// Decides whether a cached blocklist must be fetched again: no metadata,
/// a changed source, or an expired timestamp.
pub fn cache_is_stale(meta: Option<&CacheMetadata>, url: &str, now: u64) -> (r: bool)
    ensures
        match meta {
            Some(m) => r == (m.source_url@ != url@ || spec_expired(m.last_updated, now)),
            None => r == true,
        },
{
    match meta {
        Some(m) => !str_eq(m.source_url.as_str(), url) || expired(m.last_updated, now),
        None => true,
    }
}

/// The host named by one (trimmed) blocklist line: the second
/// whitespace-separated token if the line has one, else the whole line.
pub open spec fn spec_hosts_token(t: Seq<char>) -> Seq<char> {
    let p = space_pos(t);
    if p >= t.len() {
        t
    } else {
        let rest = t.skip(p as int);
        let rest2 = rest.skip(non_space_pos(rest) as int);
        rest2.take(space_pos(rest2) as int)
    }
}

/// Extracts the host token of a trimmed blocklist line.
fn hosts_token(t: &str) -> (r: String)
    ensures
        r@ == spec_hosts_token(t@),
{
    let n = t.unicode_len();
    match find_space(t, 0) {
        None => {
            proof {
                lemma_space_pos_is(t@, n as int);
            }
            t.to_owned()
        },
        Some(p) => {
            proof {
                lemma_space_pos_is(t@, p as int);
            }
            let ghost rest = t@.skip(p as int);
            match find_non_space(t, p) {
                Some(q) => {
                    proof {
                        assert forall|j: int| 0 <= j < q - p implies is_space(rest[j]) by {
                            assert(rest[j] == t@[p + j]);
                        }
                        assert(rest[q - p] == t@[q as int]);
                        lemma_non_space_pos_is(rest, q - p);
                        assert(rest.skip(q - p) =~= t@.skip(q as int));
                    }
                    let ghost rest2 = t@.skip(q as int);
                    match find_space(t, q) {
                        Some(e) => {
                            proof {
                                assert forall|j: int| 0 <= j < e - q implies !is_space(
                                    rest2[j],
                                ) by {
                                    assert(rest2[j] == t@[q + j]);
                                }
                                assert(rest2[e - q] == t@[e as int]);
                                lemma_space_pos_is(rest2, e - q);
                                assert(rest2.take(e - q) =~= t@.subrange(q as int, e as int));
                            }
                            substr(t, q, e)
                        },
                        None => {
                            proof {
                                assert forall|j: int| 0 <= j < rest2.len() implies !is_space(
                                    rest2[j],
                                ) by {
                                    assert(rest2[j] == t@[q + j]);
                                }
                                lemma_space_pos_is(rest2, rest2.len() as int);
                                assert(rest2.take(rest2.len() as int) =~= t@.subrange(
                                    q as int,
                                    n as int,
                                ));
                            }
                            substr(t, q, n)
                        },
                    }
                },
                None => {
                    proof {
                        assert forall|j: int| 0 <= j < rest.len() implies is_space(rest[j]) by {
                            assert(rest[j] == t@[p + j]);
                        }
                        lemma_non_space_pos_is(rest, rest.len() as int);
                        assert(rest.skip(rest.len() as int) =~= Seq::<char>::empty());
                        assert(spec_hosts_token(t@) =~= Seq::<char>::empty());
                    }
                    String::new()
                },
            }
        },
    }
}

/// The host a blocklist line contributes: nothing for blank or comment
/// lines, else the lower-cased host token of the trimmed line.
pub open spec fn spec_hosts_entry(line: Seq<char>) -> Option<Seq<char>> {
    let t = spec_trim(line);
    if t.len() == 0 || t[0] == '#' {
        None
    } else {
        Some(lower_seq(spec_hosts_token(t)))
    }
}

/// The hosts named by blocklist lines, in order.
pub open spec fn spec_hosts_entries(lines: Seq<Seq<char>>) -> Seq<Seq<char>>
    decreases lines.len(),
{
    if lines.len() == 0 {
        Seq::empty()
    } else {
        spec_hosts_entries(lines.drop_last()) + (match spec_hosts_entry(lines.last()) {
            Some(h) => seq![h],
            None => Seq::empty(),
        })
    }
}

/// The hosts named by a blocklist text.
pub open spec fn spec_parse_hosts(content: Seq<char>) -> Seq<Seq<char>> {
    spec_hosts_entries(spec_lines(content))
}

/// Reads the hosts out of a blocklist text: one per non-blank, non-comment
/// line, lower-cased; a line of the common `address host` shape contributes
/// its second token, a bare line contributes itself.
pub fn parse_hosts(content: &str) -> (r: Vec<String>)
    ensures
        r.deep_view() == spec_parse_hosts(content@),
{
    let lines = split_lines(content);
    let mut out: Vec<String> = Vec::new();
    let n = lines.len();
    let mut i: usize = 0;
    proof {
        assert(lines.deep_view().take(0) =~= Seq::<Seq<char>>::empty());
    }
    while i < n
        invariant
            i <= n,
            n == lines@.len(),
            lines.deep_view() == spec_lines(content@),
            out.deep_view() == spec_hosts_entries(lines.deep_view().take(i as int)),
        decreases n - i,
    {
        proof {
            assert(lines.deep_view()[i as int] == lines@[i as int]@);
            assert(lines.deep_view().take(i + 1).drop_last() =~= lines.deep_view().take(i as int));
            assert(lines.deep_view().take(i + 1).last() == lines.deep_view()[i as int]);
        }
        let t = trim_str(lines[i].as_str());
        let keep = t.as_str().unicode_len() > 0 && t.as_str().get_char(0) != '#';
        if keep {
            out.push(to_lowercase_str(hosts_token(t.as_str()).as_str()));
        }
        i = i + 1;
        proof {
            assert(out.deep_view() =~= spec_hosts_entries(lines.deep_view().take(i as int)));
        }
    }
    proof {
        assert(lines.deep_view().take(n as int) =~= lines.deep_view());
    }
    out
}

/// What the URL library reads as the host of a string: the host component
/// when the string parses as an absolute URL that has one, nothing
/// otherwise. The result depends on the string alone.
pub uninterp spec fn spec_url_host(s: Seq<char>) -> Option<Seq<char>>;

/// Relies on url::Url::parse followed by Url::host_str: whether the string
/// parses, and which host it carries, are functions of the string alone.
#[verifier::external_body]
fn url_host(s: &str) -> (r: Option<String>)
    ensures
        match r {
            Some(h) => spec_url_host(s@) == Some(h@),
            None => spec_url_host(s@) is None,
        },
{
    url::Url::parse(s).ok().and_then(|u| u.host_str().map(|h| h.to_string()))
}

/// The domain a user-list entry contributes: nothing for blank or comment
/// lines; an entry starting with `http` contributes its URL host (nothing if
/// it does not parse); anything else contributes itself; all lower-cased.
pub open spec fn spec_normalize_entry(s: Seq<char>) -> Option<Seq<char>> {
    let t = spec_trim(s);
    if t.len() == 0 || t[0] == '#' {
        None
    } else if t.len() >= 4 && t.take(4) == "http"@ {
        match spec_url_host(t) {
            Some(h) => Some(lower_seq(h)),
            None => None,
        }
    } else {
        Some(lower_seq(t))
    }
}

/// The domains a user list contributes, in order.
pub open spec fn spec_normalize(list: Seq<Seq<char>>) -> Seq<Seq<char>>
    decreases list.len(),
{
    if list.len() == 0 {
        Seq::empty()
    } else {
        spec_normalize(list.drop_last()) + (match spec_normalize_entry(list.last()) {
            Some(d) => seq![d],
            None => Seq::empty(),
        })
    }
}

/// Normalizes a user domain list: trims, drops blanks and comments, takes
/// the URL host of `http...` entries, and lower-cases everything.
pub fn normalize(list: &Vec<String>) -> (r: Vec<String>)
    ensures
        r.deep_view() == spec_normalize(list.deep_view()),
{
    let mut out: Vec<String> = Vec::new();
    let n = list.len();
    let mut i: usize = 0;
    proof {
        assert(list.deep_view().take(0) =~= Seq::<Seq<char>>::empty());
    }
    while i < n
        invariant
            i <= n,
            n == list@.len(),
            out.deep_view() == spec_normalize(list.deep_view().take(i as int)),
        decreases n - i,
    {
        proof {
            assert(list.deep_view()[i as int] == list@[i as int]@);
            assert(list.deep_view().take(i + 1).drop_last() =~= list.deep_view().take(i as int));
            assert(list.deep_view().take(i + 1).last() == list.deep_view()[i as int]);
        }
        let t = trim_str(list[i].as_str());
        if t.as_str().unicode_len() > 0 && t.as_str().get_char(0) != '#' {
            if starts_with_str(t.as_str(), "http") {
                proof {
                    reveal_strlit("http");
                }
                match url_host(t.as_str()) {
                    Some(h) => {
                        out.push(to_lowercase_str(h.as_str()));
                    },
                    None => {},
                }
            } else {
                proof {
                    reveal_strlit("http");
                }
                out.push(to_lowercase_str(t.as_str()));
            }
        }
        i = i + 1;
        proof {
            assert(out.deep_view() =~= spec_normalize(list.deep_view().take(i as int)));
        }
    }
    proof {
        assert(list.deep_view().take(n as int) =~= list.deep_view());
    }
    out
}

/// Is `x` one of `xs`?
pub open spec fn seq_contains_str(xs: Seq<Seq<char>>, x: Seq<char>) -> bool {
    exists|i: int| 0 <= i < xs.len() && xs[i] == x
}

/// `xs` without the elements of `ys`, in order.
pub open spec fn spec_remove_all(xs: Seq<Seq<char>>, ys: Seq<Seq<char>>) -> Seq<Seq<char>>
    decreases xs.len(),
{
    if xs.len() == 0 {
        Seq::empty()
    } else {
        spec_remove_all(xs.drop_last(), ys) + (if seq_contains_str(ys, xs.last()) {
            Seq::empty()
        } else {
            seq![xs.last()]
        })
    }
}

/// Appends clones of all strings in `src` to `dst`.
fn append_all(dst: &mut Vec<String>, src: &Vec<String>)
    ensures
        final(dst).deep_view() == old(dst).deep_view() + src.deep_view(),
{
    let n = src.len();
    let mut i: usize = 0;
    proof {
        assert(dst.deep_view() =~= old(dst).deep_view() + src.deep_view().take(0));
    }
    while i < n
        invariant
            i <= n,
            n == src@.len(),
            dst.deep_view() == old(dst).deep_view() + src.deep_view().take(i as int),
        decreases n - i,
    {
        proof {
            assert(src.deep_view()[i as int] == src@[i as int]@);
        }
        let ghost pre = dst.deep_view();
        let ghost prev = dst@;
        let x = src[i].clone();
        let ghost xv = x@;
        dst.push(x);
        i = i + 1;
        proof {
            assert forall|j: int| 0 <= j < dst@.len() implies dst.deep_view()[j] == pre.push(
                xv,
            )[j] by {
                assert(dst.deep_view()[j] == dst@[j]@);
                if j < pre.len() {
                    assert(dst@[j] == prev[j]);
                    assert(pre[j] == prev[j]@);
                }
            }
            assert(dst.deep_view() =~= pre.push(xv));
            assert(dst.deep_view() =~= old(dst).deep_view() + src.deep_view().take(i as int));
        }
    }
    proof {
        assert(src.deep_view().take(n as int) =~= src.deep_view());
    }
}

/// Is `x` one of the strings in `v`?
fn vec_contains_str(v: &Vec<String>, x: &str) -> (r: bool)
    ensures
        r == seq_contains_str(v.deep_view(), x@),
{
    let n = v.len();
    let mut i: usize = 0;
    while i < n
        invariant
            i <= n,
            n == v@.len(),
            forall|j: int| 0 <= j < i ==> v.deep_view()[j] != x@,
        decreases n - i,
    {
        proof {
            assert(v.deep_view()[i as int] == v@[i as int]@);
        }
        if str_eq(v[i].as_str(), x) {
            return true;
        }
        i = i + 1;
    }
    false
}

/// The assembled blocking set: the hosts of the enabled cached blocklists
/// (in order: malware, then tracker), then the normalized user blacklist,
/// with every normalized whitelist entry removed.
pub open spec fn spec_gather_domains(
    malware_hosts: Option<Seq<char>>,
    tracker_hosts: Option<Seq<char>>,
    s: WebSecuritySettings,
) -> Seq<Seq<char>> {
    let malware = if s.enable_malware_protection && malware_hosts is Some {
        spec_parse_hosts(malware_hosts->0)
    } else {
        Seq::empty()
    };
    let tracker = if s.enable_tracker_protection && tracker_hosts is Some {
        spec_parse_hosts(tracker_hosts->0)
    } else {
        Seq::empty()
    };
    spec_remove_all(
        malware + tracker + spec_normalize(s.user_blacklist.deep_view()),
        spec_normalize(s.user_whitelist.deep_view()),
    )
}

/// Assembles the blocking set from the cached blocklist texts (absent caches
/// contribute nothing) and the user lists of the configuration.
pub fn gather_domains(
    malware_hosts: Option<&str>,
    tracker_hosts: Option<&str>,
    s: &WebSecuritySettings,
) -> (r: Vec<String>)
    ensures
        r.deep_view() == spec_gather_domains(
            match malware_hosts {
                Some(c) => Some(c@),
                None => None,
            },
            match tracker_hosts {
                Some(c) => Some(c@),
                None => None,
            },
            *s,
        ),
{
    let mut all: Vec<String> = Vec::new();
    if s.enable_malware_protection {
        match malware_hosts {
            Some(content) => {
                all = parse_hosts(content);
            },
            None => {},
        }
    }
    let tracker: Vec<String> = if s.enable_tracker_protection {
        match tracker_hosts {
            Some(content) => parse_hosts(content),
            None => Vec::new(),
        }
    } else {
        Vec::new()
    };
    append_all(&mut all, &tracker);
    let black = normalize(&s.user_blacklist);
    append_all(&mut all, &black);
    let white = normalize(&s.user_whitelist);
    let mut out: Vec<String> = Vec::new();
    let an = all.len();
    let mut ai: usize = 0;
    proof {
        assert(all.deep_view().take(0) =~= Seq::<Seq<char>>::empty());
    }
    while ai < an
        invariant
            ai <= an,
            an == all@.len(),
            white.deep_view() == spec_normalize(s.user_whitelist.deep_view()),
            out.deep_view() == spec_remove_all(all.deep_view().take(ai as int), white.deep_view()),
        decreases an - ai,
    {
        proof {
            assert(all.deep_view()[ai as int] == all@[ai as int]@);
            assert(all.deep_view().take(ai + 1).drop_last() =~= all.deep_view().take(ai as int));
            assert(all.deep_view().take(ai + 1).last() == all.deep_view()[ai as int]);
        }
        if !vec_contains_str(&white, all[ai].as_str()) {
            out.push(all[ai].clone());
        }
        ai = ai + 1;
        proof {
            assert(out.deep_view() =~= spec_remove_all(
                all.deep_view().take(ai as int),
                white.deep_view(),
            ));
        }
    }
    proof {
        assert(all.deep_view().take(an as int) =~= all.deep_view());
    }
    out
}

/// The state of the web-protection collaborator as the engine sees it: is
/// the local resolver running, and which domains it blocks. Starting and
/// stopping the real resolver and rewiring the system DNS are the embedding
/// program's work; it commits these transitions when that work succeeds.
pub struct WebSecurity {
    active: bool,
    blocklist: Vec<String>,
}

impl WebSecurity {
    /// Is protection on?
    pub closed spec fn spec_is_active(&self) -> bool {
        self.active
    }

    /// The blocked domains.
    pub closed spec fn spec_blocklist(&self) -> Seq<Seq<char>> {
        self.blocklist.deep_view()
    }

    /// A fresh, inactive protection state with an empty blocking set.
    pub fn new() -> (r: Result<WebSecurity, AvError>)
        ensures
            match r {
                Ok(w) => !w.spec_is_active() && w.spec_blocklist().len() == 0,
                Err(_) => false,
            },
    {
        Ok(WebSecurity { active: false, blocklist: Vec::new() })
    }

    /// Turns protection on over the given blocking set.
    pub fn start_protection(&mut self, domains: Vec<String>) -> (r: Result<(), AvError>)
        ensures
            r is Ok,
            final(self).spec_is_active(),
            final(self).spec_blocklist() == domains.deep_view(),
    {
        self.blocklist = domains;
        self.active = true;
        Ok(())
    }

    /// Turns protection on, keeping the current blocking set (the embedding
    /// program refreshes the set with `update_blocklist` around this call).
    pub fn resume_protection(&mut self) -> (r: Result<(), AvError>)
        ensures
            r is Ok,
            final(self).spec_is_active(),
            final(self).spec_blocklist() == old(self).spec_blocklist(),
    {
        self.active = true;
        Ok(())
    }

    /// Turns protection off; the blocking set is kept for the next start.
    pub fn stop_protection(&mut self) -> (r: Result<(), AvError>)
        ensures
            r is Ok,
            !final(self).spec_is_active(),
            final(self).spec_blocklist() == old(self).spec_blocklist(),
    {
        self.active = false;
        Ok(())
    }

    /// Reports whether protection is on.
    pub fn is_protection_active(&self) -> (r: bool)
        ensures
            r == self.spec_is_active(),
    {
        self.active
    }

    /// Replaces the blocking set without changing whether protection is on.
    pub fn update_blocklist(&mut self, domains: Vec<String>) -> (r: Result<(), AvError>)
        ensures
            r is Ok,
            final(self).spec_is_active() == old(self).spec_is_active(),
            final(self).spec_blocklist() == domains.deep_view(),
    {
        self.blocklist = domains;
        Ok(())
    }

    /// Should this queried name be answered with the blocking address: its
    /// trailing dots removed and compared against the blocking set up to
    /// ASCII case.
    pub fn should_block(&self, queried_name: &str) -> (r: bool)
        ensures
            r == exists|i: int|
                0 <= i < self.spec_blocklist().len() && lower_seq(
                    #[trigger] self.spec_blocklist()[i],
                ) == lower_seq(spec_trim_end_ch(queried_name@, '.')),
    {
        let domain = trim_end_matches_char(queried_name, '.');
        let n = self.blocklist.len();
        let mut i: usize = 0;
        while i < n
            invariant
                i <= n,
                n == self.blocklist@.len(),
                domain@ == spec_trim_end_ch(queried_name@, '.'),
                forall|j: int| 0 <= j < i ==> lower_seq(self.spec_blocklist()[j]) != lower_seq(
                    spec_trim_end_ch(queried_name@, '.'),
                ),
            decreases n - i,
        {
            proof {
                assert(self.spec_blocklist()[i as int] == self.blocklist@[i as int]@);
            }
            if eq_ignore_case(self.blocklist[i].as_str(), domain.as_str()) {
                return true;
            }
            i = i + 1;
        }
        false
    }
}

/// Points the system resolver at the local blocking server. On platforms
/// without a resolver override there is nothing to change, so this succeeds
/// doing nothing; rewiring a real system resolver is platform work done by
/// the embedding program.
pub fn set_dns_to_local() -> (r: Result<(), AvError>)
    ensures
        r is Ok,
{
    Ok(())
}

/// Returns the system resolver to automatic configuration; the counterpart
/// of `set_dns_to_local`, succeeding with nothing to change.
pub fn restore_dns_auto() -> (r: Result<(), AvError>)
    ensures
        r is Ok,
{
    Ok(())
}

} // verus!
