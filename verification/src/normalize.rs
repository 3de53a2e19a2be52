//! Deduplication keys and field normalization, the rule that decides which source
//! items describe the same project.
//!
//! The key falls back by priority:
//! 1. a GitHub identity (`full_name` of a GitHub repository, or the GitHub repository
//!    a Hacker News story links to) gives `gh:{owner}/{repo}`, all lowercase, so a
//!    repository and the stories about it share one key;
//! 2. any other link gives `url:` followed by the normalized link;
//! 3. a story without a link gives `hn:{object_id}`.

use vstd::prelude::*;

use crate::models::{NormalizedRecord, SourceKind};
use crate::source::{GithubRepoRaw, HnStoryRaw, RawItem};
use crate::text::{
    lemma_ci_at_lower, lemma_first_any_lower, lemma_lower_idempotent, lemma_lower_subrange,
    lemma_trim_lower, no_letters, lemma_trim_end_concat, lemma_trim_end_keeps,
    lemma_trim_start_keeps, lemma_trim_end_prefix, lemma_first_any_prefix, lemma_trim_end_char, lemma_trim_idempotent,
    is_white_space, lemma_first_any_none, lemma_first_any_shift, lower_char,
    chars_of, ci_at, ci_at_exec, find_any, first_any, lemma_first_any, lower, lower_range, string_of,
    sub_vec, trim, trim_end, trim_start, trim_end_char, ci_char, trim_end_char_vec, trimmed_chars, push_all,
};

verus! {

pub open spec fn https_lit() -> Seq<char> {
    seq!['h', 't', 't', 'p', 's', ':', '/', '/']
}

pub open spec fn http_lit() -> Seq<char> {
    seq!['h', 't', 't', 'p', ':', '/', '/']
}

pub open spec fn www_lit() -> Seq<char> {
    seq!['w', 'w', 'w', '.']
}

pub open spec fn github_com_lit() -> Seq<char> {
    seq!['g', 'i', 't', 'h', 'u', 'b', '.', 'c', 'o', 'm', '/']
}

pub open spec fn dot_git_lit() -> Seq<char> {
    seq!['.', 'g', 'i', 't']
}

/// The owner and repository parts of a GitHub repository link, before lowercasing.
///
/// The grammar, case-insensitive on its literal parts:
/// `http` `s`? `://` (`www.`)? `github.com/` OWNER `/` REPO (`.git`)? ([`/?#`] REST)?
/// spanning the whole text, where OWNER is a non-empty run without `/`, REPO is a
/// non-empty run without `/`, `?`, `#` (the shortest one, so a final `.git` is not
/// part of it), and REST holds no line feed.
pub open spec fn github_captures(t: Seq<char>) -> Option<(Seq<char>, Seq<char>)> {
    let p: int = if ci_at(t, 0, https_lit()) {
        8
    } else if ci_at(t, 0, http_lit()) {
        7
    } else {
        -1
    };
    if p < 0 {
        None
    } else {
        let q: int = if ci_at(t, p, www_lit()) {
            p + 4
        } else {
            p
        };
        if !ci_at(t, q, github_com_lit()) {
            None
        } else {
            captures_at(t, q + 11)
        }
    }
}

/// The owner and repository parts of `t` read from index `r` on, just after the
/// `github.com/` of a link (see [`github_captures`]): OWNER `/` REPO (`.git`)?
/// ([`/?#`] REST)? up to the end of `t`.
pub open spec fn captures_at(t: Seq<char>, r: int) -> Option<(Seq<char>, Seq<char>)> {
    let o = first_any(t, r, seq!['/']);
    if o >= t.len() || o == r {
        None
    } else {
        let e = first_any(t, o + 1, seq!['/', '?', '#']);
        if e == o + 1 {
            None
        } else if e < t.len() && first_any(t, e + 1, seq!['\n']) < t.len() {
            None
        } else {
            let seg = t.subrange(o + 1, e);
            let repo = if seg.len() > 4 && ci_at(seg, seg.len() - 4, dot_git_lit()) {
                seg.subrange(0, seg.len() - 4)
            } else {
                seg
            };
            Some((t.subrange(r, o), repo))
        }
    }
}

/// The lowercase `(owner, repo)` of a GitHub repository link, after trimming white
/// space; `None` for any other text.
pub open spec fn github_identity(url: Seq<char>) -> Option<(Seq<char>, Seq<char>)> {
    match github_captures(trim(url)) {
        Some((o, r)) => Some((lower(o), lower(r))),
        None => None,
    }
}

fn literal(s: &str) -> (v: Vec<char>)
    ensures
        v@ == s@,
{
    chars_of(s)
}

/// The lowercase `(owner, repo)` of a GitHub repository link, `None` when `url` is not
/// a link to a GitHub repository (see [`github_captures`] for the accepted form).
pub fn extract_github_identity(url: &str) -> (r: Option<(String, String)>)
    ensures
        match r {
            Some((o, p)) => github_identity(url@) == Some((o@, p@)),
            None => github_identity(url@) is None,
        },
{
    let t = trimmed_chars(url);
    let ghost tv = t@;
    let https = literal("https://");
    let http = literal("http://");
    let www = literal("www.");
    let gh = literal("github.com/");
    let dot_git = literal(".git");
    let slash = literal("/");
    let stops = literal("/?#");
    let nl = literal("\n");
    proof {
        reveal_strlit("https://");
        reveal_strlit("http://");
        reveal_strlit("www.");
        reveal_strlit("github.com/");
        reveal_strlit(".git");
        reveal_strlit("/");
        reveal_strlit("/?#");
        reveal_strlit("\n");
        assert(https@ =~= https_lit());
        assert(http@ =~= http_lit());
        assert(www@ =~= www_lit());
        assert(gh@ =~= github_com_lit());
        assert(dot_git@ =~= dot_git_lit());
        assert(slash@ =~= seq!['/']);
        assert(stops@ =~= seq!['/', '?', '#']);
        assert(nl@ =~= seq!['\n']);
    }
    let p: usize = if ci_at_exec(&t, 0, &https) {
        8
    } else if ci_at_exec(&t, 0, &http) {
        7
    } else {
        return None;
    };
    let q: usize = if ci_at_exec(&t, p, &www) {
        p + 4
    } else {
        p
    };
    if !ci_at_exec(&t, q, &gh) {
        return None;
    }
    let r = q + 11;
    let o = find_any(&t, r, &slash);
    proof {
        lemma_first_any(tv, r as int, seq!['/']);
    }
    if o >= t.len() || o == r {
        return None;
    }
    let e = find_any(&t, o + 1, &stops);
    proof {
        lemma_first_any(tv, o + 1, seq!['/', '?', '#']);
    }
    if e == o + 1 {
        return None;
    }
    if e < t.len() && find_any(&t, e + 1, &nl) < t.len() {
        return None;
    }
    let seg = sub_vec(&t, o + 1, e);
    let repo_chars = if seg.len() > 4 && ci_at_exec(&seg, seg.len() - 4, &dot_git) {
        sub_vec(&seg, 0, seg.len() - 4)
    } else {
        seg
    };
    let owner = lower_range(&t, r, o);
    let repo = lower_range(&repo_chars, 0, repo_chars.len());
    proof {
        assert(repo_chars@.subrange(0, repo_chars@.len() as int) =~= repo_chars@);
    }
    if owner.len() == 0 || repo.len() == 0 {
        return None;
    }
    Some((string_of(&owner), string_of(&repo)))
}

/// The first index at or after `start` where `://` begins; `t.len()` when none does.
pub open spec fn first_scheme_sep(t: Seq<char>, start: int) -> int
    decreases t.len() - start,
{
    if start + 3 > t.len() {
        t.len() as int
    } else if t[start] == ':' && t[start + 1] == '/' && t[start + 2] == '/' {
        start
    } else {
        first_scheme_sep(t, start + 1)
    }
}

proof fn lemma_first_scheme_sep(t: Seq<char>, start: int)
    requires
        0 <= start,
    ensures
        start <= first_scheme_sep(t, start) <= t.len() || first_scheme_sep(t, start) == t.len(),
        first_scheme_sep(t, start) < t.len() ==> first_scheme_sep(t, start) + 3 <= t.len(),
    decreases t.len() - start,
{
    if start + 3 <= t.len() && !(t[start] == ':' && t[start + 1] == '/' && t[start + 2] == '/') {
        lemma_first_scheme_sep(t, start + 1);
    }
}

/// The normalized form of a non-GitHub link: the text is trimmed; the scheme (up to the
/// first `://`) is dropped; the host runs up to the first `/`, `?` or `#`, is lowercased
/// and loses a leading `www.`; the query and fragment (from the first `?` or `#` on) are
/// dropped, wherever they start; the path is lowercased and loses its trailing
/// slashes; the result is `host` or `host/path`.
pub open spec fn normalized_url(url: Seq<char>) -> Seq<char> {
    let t = trim(url);
    let k = first_scheme_sep(t, 0);
    let rest = if k < t.len() {
        t.subrange(k + 3, t.len() as int)
    } else {
        t
    };
    let i = first_any(rest, 0, seq!['/', '?', '#']);
    let authority = rest.subrange(0, i);
    let path_part = if i < rest.len() && rest[i] == '/' {
        rest.subrange(i + 1, rest.len() as int)
    } else {
        Seq::<char>::empty()
    };
    let path = path_part.subrange(0, first_any(path_part, 0, seq!['?', '#']));
    let host_lower = lower(authority);
    let host = if host_lower.len() >= 4 && host_lower.subrange(0, 4) == www_lit() {
        host_lower.subrange(4, host_lower.len() as int)
    } else {
        host_lower
    };
    let p = trim_end_char(lower(path), '/');
    if p.len() == 0 {
        host
    } else {
        host + seq!['/'] + p
    }
}

/// The index of the first `://` in `t`, `t.len()` when there is none.
fn find_scheme_sep(t: &Vec<char>) -> (k: usize)
    ensures
        k == first_scheme_sep(t@, 0),
{
    let mut i: usize = 0;
    while i < t.len() && t.len() - i >= 3 && !(t[i] == ':' && t[i + 1] == '/' && t[i + 2] == '/')
        invariant
            i <= t@.len(),
            first_scheme_sep(t@, 0) == first_scheme_sep(t@, i as int),
        decreases t@.len() - i,
    {
        i = i + 1;
    }
    if i >= t.len() || t.len() - i < 3 {
        t.len()
    } else {
        i
    }
}

/// Normalizes a non-GitHub link (see [`normalized_url`]), so that spellings of one
/// page that differ in scheme, `www.`, case, query, fragment or a trailing slash agree,
/// also when the query or fragment follows the host directly.
pub fn normalize_url(url: &str) -> (r: String)
    ensures
        r@ == normalized_url(url@),
{
    let t = trimmed_chars(url);
    let stops = literal("/?#");
    let qf = literal("?#");
    let www = literal("www.");
    proof {
        reveal_strlit("/?#");
        reveal_strlit("?#");
        reveal_strlit("www.");
        assert(stops@ =~= seq!['/', '?', '#']);
        assert(qf@ =~= seq!['?', '#']);
        assert(www@ =~= www_lit());
    }
    let k = find_scheme_sep(&t);
    proof {
        lemma_first_scheme_sep(t@, 0);
    }
    let rest = if k < t.len() {
        sub_vec(&t, k + 3, t.len())
    } else {
        t
    };
    let i = find_any(&rest, 0, &stops);
    proof {
        lemma_first_any(rest@, 0, seq!['/', '?', '#']);
    }
    let host_lower = lower_range(&rest, 0, i);
    let path_part = if i < rest.len() && rest[i] == '/' {
        sub_vec(&rest, i + 1, rest.len())
    } else {
        Vec::new()
    };
    let j = find_any(&path_part, 0, &qf);
    proof {
        lemma_first_any(path_part@, 0, seq!['?', '#']);
    }
    let mut p = lower_range(&path_part, 0, j);
    trim_end_char_vec(&mut p, '/');
    let mut out = if host_lower.len() >= 4 && ci_prefix_exact(&host_lower, &www) {
        sub_vec(&host_lower, 4, host_lower.len())
    } else {
        host_lower
    };
    if p.len() > 0 {
        out.push('/');
        push_all(&mut out, &p);
    }
    string_of(&out)
}

/// Whether `v` starts with `lit`, char for char.
fn ci_prefix_exact(v: &Vec<char>, lit: &Vec<char>) -> (b: bool)
    ensures
        b == (lit@.len() <= v@.len() && v@.subrange(0, lit@.len() as int) == lit@),
{
    if lit.len() > v.len() {
        return false;
    }
    let mut k: usize = 0;
    while k < lit.len()
        invariant
            k <= lit@.len() <= v@.len(),
            forall|j: int| 0 <= j < k ==> v@[j] == lit@[j],
        decreases lit@.len() - k,
    {
        if v[k] != lit[k] {
            assert(v@.subrange(0, lit@.len() as int)[k as int] != lit@[k as int]);
            return false;
        }
        k = k + 1;
    }
    assert(v@.subrange(0, lit@.len() as int) =~= lit@);
    true
}

/// `owner/repo` split at the first `/` into lowercase parts; without a `/` the owner is
/// empty and the whole text is the repository.
pub open spec fn split_name(s: Seq<char>) -> (Seq<char>, Seq<char>) {
    let i = first_any(s, 0, seq!['/']);
    if i < s.len() {
        (lower(s.subrange(0, i)), lower(s.subrange(i + 1, s.len() as int)))
    } else {
        (Seq::<char>::empty(), lower(s))
    }
}

/// Splits `owner/repo` into lowercase parts (see [`split_name`]).
pub fn split_full_name(full_name: &str) -> (r: (String, String))
    ensures
        (r.0@, r.1@) == split_name(full_name@),
{
    let v = chars_of(full_name);
    let slash = literal("/");
    proof {
        reveal_strlit("/");
        assert(slash@ =~= seq!['/']);
    }
    let i = find_any(&v, 0, &slash);
    proof {
        lemma_first_any(v@, 0, seq!['/']);
    }
    if i < v.len() {
        let o = lower_range(&v, 0, i);
        let r = lower_range(&v, i + 1, v.len());
        (string_of(&o), string_of(&r))
    } else {
        let r = lower_range(&v, 0, v.len());
        proof {
            assert(v@.subrange(0, v@.len() as int) =~= v@);
        }
        (String::new(), string_of(&r))
    }
}

/// `o/r` joined with a slash.
pub open spec fn slash_join(o: Seq<char>, r: Seq<char>) -> Seq<char> {
    o + seq!['/'] + r
}

/// The key of a GitHub identity: `gh:{owner}/{repo}`.
pub open spec fn gh_key(o: Seq<char>, r: Seq<char>) -> Seq<char> {
    seq!['g', 'h', ':'] + slash_join(o, r)
}

/// The key of a non-GitHub link: `url:{normalized link}`.
pub open spec fn url_key(link: Seq<char>) -> Seq<char> {
    seq!['u', 'r', 'l', ':'] + normalized_url(link)
}

/// The key of a story without a link: `hn:{object_id}`.
pub open spec fn hn_key(object_id: Seq<char>) -> Seq<char> {
    seq!['h', 'n', ':'] + object_id
}

/// The canonical link of a GitHub repository.
pub open spec fn github_repo_url(o: Seq<char>, r: Seq<char>) -> Seq<char> {
    seq!['h', 't', 't', 'p', 's', ':', '/', '/', 'g', 'i', 't', 'h', 'u', 'b', '.', 'c', 'o', 'm', '/']
        + slash_join(o, r)
}

/// `o` holds a string whose chars are `v`.
pub open spec fn holds(o: Option<String>, v: Seq<char>) -> bool {
    o matches Some(x) && x@ == v
}

/// The homepage of a repository: trimmed, and absent when blank.
pub open spec fn homepage_of(h: Option<String>, out: Option<String>) -> bool {
    match h {
        None => out is None,
        Some(x) => if trim(x@).len() == 0 {
            out is None
        } else {
            holds(out, trim(x@))
        },
    }
}

/// `rec` is the normalization of the GitHub repository `g`.
pub open spec fn normalized_github(g: GithubRepoRaw, rec: NormalizedRecord) -> bool {
    let (o, r) = split_name(g.full_name@);
    &&& rec.dedup_key@ == gh_key(o, r)
    &&& rec.name == g.name
    &&& holds(rec.full_name, lower(g.full_name@))
    &&& rec.description == g.description
    &&& rec.repo_url == Some(g.html_url)
    &&& homepage_of(g.homepage, rec.homepage_url)
    &&& rec.language == g.language
    &&& rec.topics@ == g.topics@
    &&& rec.stars == Some(g.stargazers_count)
    &&& rec.forks == Some(g.forks_count)
    &&& rec.open_issues == Some(g.open_issues_count)
    &&& rec.hn_points is None
    &&& rec.hn_comment_count is None
    &&& rec.github_created_at == Some(g.created_at)
    &&& rec.github_updated_at == Some(g.updated_at)
    &&& rec.last_activity_at == Some(g.updated_at)
    &&& rec.source_kind == SourceKind::Github
    &&& rec.metadata == g.extra
}

/// The fields every story normalizes the same way, whatever it links to.
pub open spec fn hn_common(s: HnStoryRaw, rec: NormalizedRecord) -> bool {
    &&& rec.name == s.title
    &&& holds(rec.description, s.title@)
    &&& rec.homepage_url is None
    &&& rec.language is None
    &&& rec.topics@.len() == 0
    &&& rec.stars is None
    &&& rec.forks is None
    &&& rec.open_issues is None
    &&& rec.hn_points == s.points
    &&& rec.hn_comment_count == s.comment_count
    &&& rec.github_created_at is None
    &&& rec.github_updated_at is None
    &&& rec.last_activity_at == s.posted_at
    &&& rec.source_kind == SourceKind::Hackernews
    &&& rec.metadata == s.extra
}

/// `rec` is the normalization of the story `s`: keyed by the GitHub repository it links
/// to, else by its normalized link, else by its id.
pub open spec fn normalized_hn(s: HnStoryRaw, rec: NormalizedRecord) -> bool {
    &&& hn_common(s, rec)
    &&& match s.linked_url {
        Some(link) => match github_identity(link@) {
            Some((o, r)) => {
                &&& rec.dedup_key@ == gh_key(o, r)
                &&& holds(rec.full_name, slash_join(o, r))
                &&& holds(rec.repo_url, github_repo_url(o, r))
            },
            None => {
                &&& rec.dedup_key@ == url_key(link@)
                &&& rec.full_name is None
                &&& holds(rec.repo_url, link@)
            },
        },
        None => {
            &&& rec.dedup_key@ == hn_key(s.object_id@)
            &&& rec.full_name is None
            &&& rec.repo_url is None
        },
    }
}

/// `rec` is the normalization of `item`.
pub open spec fn normalized(item: RawItem, rec: NormalizedRecord) -> bool {
    match item {
        RawItem::GithubRepo(g) => normalized_github(g, rec),
        RawItem::HnStory(s) => normalized_hn(s, rec),
    }
}

fn string_plus(a: &str, b: &Vec<char>) -> (r: String)
    ensures
        r@ == a@ + b@,
{
    let mut v = chars_of(a);
    push_all(&mut v, b);
    string_of(&v)
}

fn chars_join(o: &String, r: &String) -> (v: Vec<char>)
    ensures
        v@ == slash_join(o@, r@),
{
    let mut v = chars_of(o.as_str());
    v.push('/');
    let rv = chars_of(r.as_str());
    push_all(&mut v, &rv);
    v
}

/// Normalizes a GitHub repository (see [`normalized_github`]).
pub fn normalize_github(g: &GithubRepoRaw) -> (rec: NormalizedRecord)
    ensures
        normalized_github(*g, rec),
        rec.last_activity_at == Some(g.updated_at),
{
    let (owner, repo) = split_full_name(g.full_name.as_str());
    let joined = chars_join(&owner, &repo);
    let dedup_key = string_plus("gh:", &joined);
    proof {
        reveal_strlit("gh:");
        assert(dedup_key@ =~= gh_key(owner@, repo@));
    }
    let fv = chars_of(g.full_name.as_str());
    let fl = lower_range(&fv, 0, fv.len());
    proof {
        assert(fv@.subrange(0, fv@.len() as int) =~= fv@);
    }
    let homepage_url = match &g.homepage {
        None => None,
        Some(h) => {
            let t = trimmed_chars(h.as_str());
            if t.len() == 0 {
                None
            } else {
                Some(string_of(&t))
            }
        },
    };
    let topics = g.topics.clone();
    proof {
        assert(topics@ =~= g.topics@);
    }
    NormalizedRecord {
        dedup_key,
        name: g.name.clone(),
        full_name: Some(string_of(&fl)),
        description: g.description.clone(),
        repo_url: Some(g.html_url.clone()),
        homepage_url,
        language: g.language.clone(),
        topics,
        stars: Some(g.stargazers_count),
        forks: Some(g.forks_count),
        open_issues: Some(g.open_issues_count),
        hn_points: None,
        hn_comment_count: None,
        github_created_at: Some(g.created_at),
        github_updated_at: Some(g.updated_at),
        last_activity_at: Some(g.updated_at),
        source_kind: SourceKind::Github,
        metadata: g.extra.clone(),
    }
}

/// Normalizes a Hacker News story (see [`normalized_hn`]).
pub fn normalize_hn(s: &HnStoryRaw) -> (rec: NormalizedRecord)
    ensures
        normalized_hn(*s, rec),
{
    let (dedup_key, full_name, repo_url) = match &s.linked_url {
        Some(linked) => match extract_github_identity(linked.as_str()) {
            Some((owner, repo)) => {
                let joined = chars_join(&owner, &repo);
                let key = string_plus("gh:", &joined);
                let url = string_plus("https://github.com/", &joined);
                proof {
                    reveal_strlit("gh:");
                    reveal_strlit("https://github.com/");
                    assert(key@ =~= gh_key(owner@, repo@));
                    assert(url@ =~= github_repo_url(owner@, repo@));
                }
                (key, Some(string_of(&joined)), Some(url))
            },
            None => {
                let n = normalize_url(linked.as_str());
                let nv = chars_of(n.as_str());
                let key = string_plus("url:", &nv);
                proof {
                    reveal_strlit("url:");
                    assert(key@ =~= url_key(linked@));
                }
                (key, None, Some(linked.clone()))
            },
        },
        None => {
            let idv = chars_of(s.object_id.as_str());
            let key = string_plus("hn:", &idv);
            proof {
                reveal_strlit("hn:");
                assert(key@ =~= hn_key(s.object_id@));
            }
            (key, None, None)
        },
    };
    NormalizedRecord {
        dedup_key,
        name: s.title.clone(),
        full_name,
        description: Some(s.title.clone()),
        repo_url,
        homepage_url: None,
        language: None,
        topics: Vec::new(),
        stars: None,
        forks: None,
        open_issues: None,
        hn_points: s.points,
        hn_comment_count: s.comment_count,
        github_created_at: None,
        github_updated_at: None,
        last_activity_at: s.posted_at,
        source_kind: SourceKind::Hackernews,
        metadata: s.extra.clone(),
    }
}

/// Normalizes a raw item into the record that is upserted (see [`normalized`]).
pub fn normalize(item: &RawItem) -> (rec: NormalizedRecord)
    ensures
        normalized(*item, rec),
{
    match item {
        RawItem::GithubRepo(r) => normalize_github(r),
        RawItem::HnStory(s) => normalize_hn(s),
    }
}

/// A repository's record is active as of the repository's last update, whenever the
/// repository was created; it carries the repository's own counts (stars, forks, open
/// issues) and no Hacker News metrics, and its own name, description, page, language,
/// topics and payload, with the full name in lowercase.
pub proof fn lemma_github_record_fields(g: GithubRepoRaw, rec: NormalizedRecord)
    requires
        normalized(RawItem::GithubRepo(g), rec),
    ensures
        rec.last_activity_at == Some(g.updated_at),
        rec.github_updated_at == Some(g.updated_at),
        rec.github_created_at == Some(g.created_at),
        rec.stars == Some(g.stargazers_count),
        rec.forks == Some(g.forks_count),
        rec.open_issues == Some(g.open_issues_count),
        rec.hn_points is None && rec.hn_comment_count is None,
        rec.source_kind == SourceKind::Github,
        rec.name == g.name,
        rec.description == g.description,
        rec.repo_url == Some(g.html_url),
        rec.language == g.language,
        rec.topics@ == g.topics@,
        rec.metadata == g.extra,
        rec.full_name matches Some(f) && f@ == lower(g.full_name@),
{
}

/// A story's record is active as of the story's posting, carries the story's points and
/// comment count as its Hacker News metrics and no GitHub metrics or dates, is named and
/// described by the story's title, and keeps a non-GitHub link as its page.
pub proof fn lemma_hn_record_fields(st: HnStoryRaw, rec: NormalizedRecord)
    requires
        normalized(RawItem::HnStory(st), rec),
    ensures
        rec.last_activity_at == st.posted_at,
        rec.hn_points == st.points,
        rec.hn_comment_count == st.comment_count,
        rec.stars is None && rec.forks is None && rec.open_issues is None,
        rec.github_created_at is None && rec.github_updated_at is None,
        rec.source_kind == SourceKind::Hackernews,
        rec.name == st.title,
        rec.description matches Some(d) && d@ == st.title@,
        rec.homepage_url is None && rec.language is None && rec.topics@.len() == 0,
        rec.metadata == st.extra,
        st.linked_url is None ==> rec.repo_url is None && rec.full_name is None,
        st.linked_url matches Some(l) ==> (github_identity(l@) is None ==> (rec.repo_url matches Some(
            u,
        ) && u@ == l@) && rec.full_name is None),
{
}

/// `https://github.com/`.
pub open spec fn github_prefix() -> Seq<char> {
    https_lit() + github_com_lit()
}

/// `full` is a plain `owner/repo` name as GitHub gives it: a non-empty owner, a slash,
/// and a non-empty repository name without `/`, `?`, `#` that does not end in `.git`,
/// with no trailing white space.
pub open spec fn plain_repo_name(full: Seq<char>) -> bool {
    let i = first_any(full, 0, seq!['/']);
    let repo = full.subrange(i + 1, full.len() as int);
    &&& 0 < i < full.len() - 1
    &&& forall|k: int| 0 <= k < repo.len() ==> !seq!['/', '?', '#'].contains(#[trigger] repo[k])
    &&& !is_white_space(full.last())
    &&& !(repo.len() > 4 && ci_at(repo, repo.len() - 4, dot_git_lit()))
}

/// `tail` is empty, or leads from a repository's page to a page under it (`/...`), a
/// query (`?...`) or a fragment (`#...`), on one line and without trailing white space.
pub open spec fn page_tail(tail: Seq<char>) -> bool {
    ||| tail.len() == 0
    ||| {
        &&& seq!['/', '?', '#'].contains(tail[0])
        &&& forall|k: int| 1 <= k < tail.len() ==> #[trigger] tail[k] != '\n'
        &&& !is_white_space(tail.last())
    }
}

/// The GitHub page of a repository, `https://github.com/{owner}/{repo}`, and any page,
/// query or fragment under it, have the repository's own lowercase owner and name as
/// their GitHub identity.
pub proof fn lemma_repo_link_identity(full: Seq<char>, tail: Seq<char>)
    requires
        plain_repo_name(full),
        page_tail(tail),
    ensures
        github_identity(github_prefix() + full + tail) == Some(split_name(full)),
{
    let slash = seq!['/'];
    let stops = seq!['/', '?', '#'];
    let nl = seq!['\n'];
    let x = full + tail;
    let rest = github_com_lit() + x;
    assert(github_prefix() + full + tail =~= github_link_prefix(true, false) + rest);
    assert(ci_at(rest, 0, github_com_lit())) by {
        assert forall|k: int| 0 <= k < github_com_lit().len() implies ci_char(
            #[trigger] rest[0 + k],
            github_com_lit()[k],
        ) by {
            assert(rest[0 + k] == github_com_lit()[k]);
        }
    }
    lemma_prefixed_captures(true, false, rest);
    assert(rest.last() == x.last());
    if tail.len() == 0 {
        assert(x =~= full);
    } else {
        assert(x.last() == tail.last());
    }
    assert(trim_end(rest) == rest);
    lemma_captures_at_shift(github_com_lit(), x, 0);
    lemma_first_any(full, 0, slash);
    let i = first_any(full, 0, slash);
    lemma_first_any_prefix(full, tail, 0, slash);
    let repo = full.subrange(i + 1, full.len() as int);
    let n = full.len() as int;
    assert forall|k: int| i + 1 <= k < n implies !stops.contains(#[trigger] x[k]) by {
        assert(x[k] == repo[k - (i + 1)]);
    }
    lemma_first_any(x, i + 1, stops);
    let e = first_any(x, i + 1, stops);
    if tail.len() == 0 {
        lemma_first_any_none(x, i + 1, stops);
        assert(e == n);
    } else {
        assert(x[n] == tail[0]);
        if e < n {
            assert(!stops.contains(x[e]));
        }
        assert(e == n);
        assert forall|k: int| e + 1 <= k < x.len() implies !nl.contains(#[trigger] x[k]) by {
            assert(x[k] == tail[k - n]);
            assert(tail[k - n] != '\n');
            if nl.contains(x[k]) {
                let j = choose|j: int| 0 <= j < nl.len() && nl[j] == x[k];
                assert(nl[j] == '\n');
            }
        }
        lemma_first_any_none(x, e + 1, nl);
    }
    assert(x.subrange(i + 1, e) =~= repo);
    assert(x.subrange(0, i) =~= full.subrange(0, i));
}

/// A repository's GitHub page names the same repository with or without a final `.git`.
pub proof fn lemma_repo_link_git_suffix(full: Seq<char>)
    requires
        plain_repo_name(full),
    ensures
        github_identity(github_prefix() + full + dot_git_lit()) == github_identity(
            github_prefix() + full,
        ),
{
    lemma_repo_link_identity(full, Seq::<char>::empty());
    assert(github_prefix() + full + Seq::<char>::empty() =~= github_prefix() + full);
    let slash = seq!['/'];
    let stops = seq!['/', '?', '#'];
    let x = full + dot_git_lit();
    let rest = github_com_lit() + x;
    assert(github_prefix() + full + dot_git_lit() =~= github_link_prefix(true, false) + rest);
    assert(ci_at(rest, 0, github_com_lit())) by {
        assert forall|k: int| 0 <= k < github_com_lit().len() implies ci_char(
            #[trigger] rest[0 + k],
            github_com_lit()[k],
        ) by {
            assert(rest[0 + k] == github_com_lit()[k]);
        }
    }
    lemma_prefixed_captures(true, false, rest);
    assert(rest.last() == 't');
    assert(trim_end(rest) == rest);
    lemma_captures_at_shift(github_com_lit(), x, 0);
    assert(captures_at(rest, 11) == captures_at(x, 0));
    lemma_first_any(full, 0, slash);
    let i = first_any(full, 0, slash);
    lemma_first_any_prefix(full, dot_git_lit(), 0, slash);
    let repo = full.subrange(i + 1, full.len() as int);
    assert forall|k: int| i + 1 <= k < x.len() implies !stops.contains(#[trigger] x[k]) by {
        if k < full.len() {
            assert(x[k] == repo[k - (i + 1)]);
        } else {
            assert(x[k] == dot_git_lit()[k - full.len()]);
            assert(!stops.contains('.') && !stops.contains('g') && !stops.contains('i')
                && !stops.contains('t')) by {
                assert(stops =~= seq!['/', '?', '#']);
            }
        }
    }
    lemma_first_any_none(x, i + 1, stops);
    let seg = x.subrange(i + 1, x.len() as int);
    assert(seg =~= repo + dot_git_lit());
    assert(ci_at(seg, seg.len() - 4, dot_git_lit())) by {
        assert forall|k: int| 0 <= k < dot_git_lit().len() implies ci_char(
            #[trigger] seg[seg.len() - 4 + k],
            dot_git_lit()[k],
        ) by {
            assert(seg[seg.len() - 4 + k] == dot_git_lit()[k]);
        }
    }
    assert(seg.subrange(0, seg.len() - 4) =~= repo);
    assert(x.subrange(0, i) =~= full.subrange(0, i));
}

/// Lowercasing keeps a char, or turns a capital letter into a small one.
proof fn lemma_lower_char_kind(c: char)
    ensures
        lower_char(c) == c || ('A' <= c <= 'Z' && 'a' <= lower_char(c) <= 'z'),
{
}

/// A plain repository name stays plain when lowercased, and splits alike.
proof fn lemma_plain_repo_name_lower(full: Seq<char>)
    requires
        plain_repo_name(full),
    ensures
        plain_repo_name(lower(full)),
        split_name(lower(full)) == split_name(full),
{
    let slash = seq!['/'];
    let stops = seq!['/', '?', '#'];
    assert(no_letters(slash));
    assert(no_letters(stops));
    let f = lower(full);
    lemma_first_any_lower(full, 0, slash);
    lemma_first_any(full, 0, slash);
    let i = first_any(full, 0, slash);
    let repo = full.subrange(i + 1, full.len() as int);
    lemma_lower_subrange(full, i + 1, full.len() as int);
    lemma_lower_subrange(full, 0, i);
    lemma_lower_keeps_stops_out(repo, stops);
    assert(f.last() == lower_char(full.last()));
    lemma_lower_char_kind(full.last());
    if repo.len() > 4 {
        lemma_ci_at_lower(repo, repo.len() - 4, dot_git_lit());
    }
    lemma_lower_idempotent(full.subrange(0, i));
    lemma_lower_idempotent(repo);
}

/// A page tail stays one when lowercased.
proof fn lemma_page_tail_lower(tail: Seq<char>)
    requires
        page_tail(tail),
    ensures
        page_tail(lower(tail)),
{
    let stops = seq!['/', '?', '#'];
    assert(no_letters(stops));
    if tail.len() > 0 {
        let t = lower(tail);
        lemma_lower_char_kind(tail[0]);
        if !(tail[0] == lower_char(tail[0])) {
            let j = choose|j: int| 0 <= j < stops.len() && stops[j] == tail[0];
            assert(stops[j] == tail[0]);
        }
        assert(t[0] == tail[0]);
        assert forall|k: int| 1 <= k < t.len() implies #[trigger] t[k] != '\n' by {
            assert(t[k] == lower_char(tail[k]));
            lemma_lower_char_kind(tail[k]);
        }
        assert(t.last() == lower_char(tail.last()));
        lemma_lower_char_kind(tail.last());
    }
}

/// A Hacker News story that links to a repository's GitHub page, or to any page, query
/// or fragment under it, in any letter case, merges with the repository: both normalize
/// to the same key and the same full name.
pub proof fn lemma_story_merges_with_repo(
    g: GithubRepoRaw,
    s: HnStoryRaw,
    name: Seq<char>,
    tail: Seq<char>,
    rg: NormalizedRecord,
    rs: NormalizedRecord,
)
    requires
        normalized_github(g, rg),
        normalized_hn(s, rs),
        plain_repo_name(g.full_name@),
        lower(name) == lower(g.full_name@),
        page_tail(tail),
        s.linked_url matches Some(l) && l@ == github_prefix() + name + tail,
    ensures
        rg.dedup_key@ == rs.dedup_key@,
        rs.full_name matches Some(fs) && rg.full_name matches Some(fg) && fs@ == fg@,
{
    let full = g.full_name@;
    let link = github_prefix() + name + tail;
    lemma_plain_repo_name_lower(full);
    lemma_page_tail_lower(tail);
    lemma_repo_link_identity(lower(full), lower(tail));
    lemma_identity_ignores_case(link);
    assert(lower(link) =~= github_prefix() + lower(full) + lower(tail)) by {
        assert(lower(link) =~= lower(github_prefix()) + lower(name) + lower(tail));
        assert(lower(github_prefix()) =~= github_prefix());
    }
    let i = first_any(full, 0, seq!['/']);
    lemma_first_any(full, 0, seq!['/']);
    let (o, r) = split_name(full);
    assert(lower(full) =~= slash_join(o, r)) by {
        assert(full =~= full.subrange(0, i) + seq!['/'] + full.subrange(i + 1, full.len() as int));
        assert(full[i] == '/');
        lemma_lower_subrange(full, 0, i);
        lemma_lower_subrange(full, i + 1, full.len() as int);
    }
}

/// Reading after a prefix is reading the rest, shifted by the prefix length.
proof fn lemma_captures_at_shift(p: Seq<char>, s: Seq<char>, j: int)
    requires
        0 <= j <= s.len(),
    ensures
        captures_at(p + s, p.len() + j) == captures_at(s, j),
{
    let t = p + s;
    let slash = seq!['/'];
    let stops = seq!['/', '?', '#'];
    let nl = seq!['\n'];
    lemma_first_any_shift(p, s, j, slash);
    lemma_first_any(s, j, slash);
    let o = first_any(s, j, slash);
    if o < s.len() && o != j {
        lemma_first_any_shift(p, s, o + 1, stops);
        lemma_first_any(s, o + 1, stops);
        let e = first_any(s, o + 1, stops);
        if e < s.len() {
            lemma_first_any_shift(p, s, e + 1, nl);
        }
        assert(t.subrange(p.len() + o + 1, p.len() + e) =~= s.subrange(o + 1, e));
        assert(t.subrange(p.len() + j, p.len() + o) =~= s.subrange(j, o));
    }
}

/// The scheme, and `www.` or nothing, that may stand before the `github.com/` of a
/// link: `https://` when `secure`, else `http://`.
pub open spec fn github_link_prefix(secure: bool, www: bool) -> Seq<char> {
    (if secure {
        https_lit()
    } else {
        http_lit()
    }) + (if www {
        www_lit()
    } else {
        Seq::<char>::empty()
    })
}

/// After any scheme and `www.` prefix, the captures of a `github.com/` link are read from
/// the text after `github.com/`, its trailing white space trimmed.
proof fn lemma_prefixed_captures(secure: bool, www: bool, rest: Seq<char>)
    requires
        ci_at(rest, 0, github_com_lit()),
    ensures
        github_captures(trim(github_link_prefix(secure, www) + rest)) == captures_at(
            trim_end(rest),
            11,
        ),
{
    let pre = github_link_prefix(secure, www);
    let u = pre + rest;
    let n = pre.len() as int;
    let sch: int = if secure {
        8
    } else {
        7
    };
    assert(n == sch + (if www {
        4int
    } else {
        0int
    }));
    assert(pre[0] == 'h');
    assert(pre.last() == '/' || pre.last() == '.');
    assert(u[0] == 'h');
    lemma_trim_start_keeps(u);
    lemma_trim_end_concat(pre, rest);
    let re = trim_end(rest);
    assert(ci_char(rest[0int + 10int], github_com_lit()[10]));
    assert(rest[10] == '/');
    lemma_trim_end_keeps(rest, 10);
    let t = pre + re;
    assert(trim(u) == t);
    assert forall|k: int| 0 <= k < 11 implies re[k] == rest[k] by {
        assert(re[k] == rest.subrange(0, re.len() as int)[k]);
    }
    assert(ci_at(re, 0, github_com_lit())) by {
        assert forall|k: int| 0 <= k < github_com_lit().len() implies ci_char(
            #[trigger] re[0 + k],
            github_com_lit()[k],
        ) by {
            assert(re[0 + k] == rest[0 + k]);
        }
    }
    assert forall|k: int| 0 <= k < n implies #[trigger] t[k] == pre[k] by {}
    assert forall|k: int| 0 <= k < re.len() implies #[trigger] t[n + k] == re[k] by {}
    if secure {
        assert(ci_at(t, 0, https_lit())) by {
            assert forall|k: int| 0 <= k < https_lit().len() implies ci_char(
                #[trigger] t[0 + k],
                https_lit()[k],
            ) by {
                assert(t[0 + k] == pre[k]);
            }
        }
    } else {
        assert(!ci_at(t, 0, https_lit())) by {
            assert(t[0int + 4int] == ':');
            assert(!ci_char(t[0int + 4int], https_lit()[4]));
        }
        assert(ci_at(t, 0, http_lit())) by {
            assert forall|k: int| 0 <= k < http_lit().len() implies ci_char(
                #[trigger] t[0 + k],
                http_lit()[k],
            ) by {
                assert(t[0 + k] == pre[k]);
            }
        }
    }
    if www {
        assert(ci_at(t, sch, www_lit())) by {
            assert forall|k: int| 0 <= k < www_lit().len() implies ci_char(
                #[trigger] t[sch + k],
                www_lit()[k],
            ) by {
                assert(t[sch + k] == pre[sch + k]);
            }
        }
    } else {
        assert(!ci_at(t, sch, www_lit())) by {
            assert(t[sch + 0] == re[0]);
            assert(ci_char(re[0int + 0int], github_com_lit()[0]));
            assert(!ci_char(t[sch + 0], www_lit()[0]));
        }
    }
    assert(ci_at(t, n, github_com_lit())) by {
        assert forall|k: int| 0 <= k < github_com_lit().len() implies ci_char(
            #[trigger] t[n + k],
            github_com_lit()[k],
        ) by {
            assert(t[n + k] == re[0 + k]);
        }
    }
    lemma_captures_at_shift(pre, re, 11);
}

/// A link to a repository on `github.com` names the same repository whether it uses
/// `http` or `https`, and whether `www.` stands before `github.com`.
pub proof fn lemma_identity_ignores_scheme_and_www(secure: bool, www: bool, rest: Seq<char>)
    requires
        ci_at(rest, 0, github_com_lit()),
    ensures
        github_identity(github_link_prefix(secure, www) + rest) == github_identity(
            github_link_prefix(true, false) + rest,
        ),
{
    lemma_prefixed_captures(secure, www, rest);
    lemma_prefixed_captures(true, false, rest);
}

proof fn lemma_captures_lower(t: Seq<char>)
    ensures
        match github_captures(t) {
            Some((o, r)) => github_captures(lower(t)) == Some((lower(o), lower(r))),
            None => github_captures(lower(t)) is None,
        },
{
    let lt = lower(t);
    let slash = seq!['/'];
    let stops = seq!['/', '?', '#'];
    let nl = seq!['\n'];
    assert(no_letters(slash));
    assert(no_letters(stops));
    assert(no_letters(nl));
    lemma_ci_at_lower(t, 0, https_lit());
    lemma_ci_at_lower(t, 0, http_lit());
    let p: int = if ci_at(t, 0, https_lit()) {
        8
    } else if ci_at(t, 0, http_lit()) {
        7
    } else {
        -1
    };
    if p >= 0 {
        lemma_ci_at_lower(t, p, www_lit());
        let q: int = if ci_at(t, p, www_lit()) {
            p + 4
        } else {
            p
        };
        lemma_ci_at_lower(t, q, github_com_lit());
        if ci_at(t, q, github_com_lit()) {
            let r = q + 11;
            lemma_first_any_lower(t, r, slash);
            lemma_first_any(t, r, slash);
            let o = first_any(t, r, slash);
            if o < t.len() && o != r {
                lemma_first_any_lower(t, o + 1, stops);
                lemma_first_any(t, o + 1, stops);
                let e = first_any(t, o + 1, stops);
                if e < t.len() {
                    lemma_first_any_lower(t, e + 1, nl);
                }
                let seg = t.subrange(o + 1, e);
                lemma_lower_subrange(t, o + 1, e);
                lemma_lower_subrange(t, r, o);
                if seg.len() > 4 {
                    lemma_ci_at_lower(seg, seg.len() - 4, dot_git_lit());
                    lemma_lower_subrange(seg, 0, seg.len() - 4);
                }
            }
        }
    }
}

/// Letter case does not matter to a link's GitHub identity: a link and its lowercase
/// spelling have the same identity.
pub proof fn lemma_identity_ignores_case(url: Seq<char>)
    ensures
        github_identity(lower(url)) == github_identity(url),
{
    lemma_trim_lower(url);
    lemma_captures_lower(trim(url));
    match github_captures(trim(url)) {
        Some((o, r)) => {
            lemma_lower_idempotent(o);
            lemma_lower_idempotent(r);
        },
        None => {},
    }
}

/// `://` starts at index `i` of `t`.
pub open spec fn sep_at(t: Seq<char>, i: int) -> bool {
    &&& 0 <= i
    &&& i + 3 <= t.len()
    &&& t[i] == ':'
    &&& t[i + 1] == '/'
    &&& t[i + 2] == '/'
}

/// `t` holds no `://`.
pub open spec fn no_scheme_sep(t: Seq<char>) -> bool {
    forall|i: int| !#[trigger] sep_at(t, i)
}

/// `s` is a URL scheme made of ASCII letters, such as `https` or `ftp`.
pub open spec fn letter_scheme(s: Seq<char>) -> bool {
    &&& s.len() > 0
    &&& forall|k: int| 0 <= k < s.len() ==> ('a' <= #[trigger] s[k] <= 'z') || ('A' <= s[k] <= 'Z')
}

proof fn lemma_no_sep_first(t: Seq<char>, j: int)
    requires
        0 <= j,
        no_scheme_sep(t),
    ensures
        first_scheme_sep(t, j) == t.len(),
    decreases t.len() - j,
{
    if j + 3 <= t.len() {
        assert(!sep_at(t, j));
        lemma_no_sep_first(t, j + 1);
    }
}

proof fn lemma_sep_after_scheme(t: Seq<char>, i: int, n: int)
    requires
        0 <= i <= n,
        sep_at(t, n),
        forall|k: int| i <= k < n ==> #[trigger] t[k] != ':',
    ensures
        first_scheme_sep(t, i) == n,
    decreases n - i,
{
    if i < n {
        lemma_sep_after_scheme(t, i + 1, n);
    }
}

/// Dropping the scheme does not change how a link normalizes: `{scheme}://{rest}` and
/// `rest` normalize alike, when `rest` holds no further `://` and does not start with
/// white space.
pub proof fn lemma_normalized_url_ignores_scheme(scheme: Seq<char>, rest: Seq<char>)
    requires
        letter_scheme(scheme),
        no_scheme_sep(rest),
        rest.len() > 0 ==> !is_white_space(rest[0]),
    ensures
        normalized_url(scheme + "://"@ + rest) == normalized_url(rest),
{
    reveal_strlit("://");
    let n = scheme.len() as int;
    let pre = scheme + "://"@;
    assert(pre + rest =~= scheme + "://"@ + rest);
    assert(pre.len() == n + 3);
    assert(pre[0] == scheme[0]);
    assert(pre.last() == '/');
    lemma_trim_start_keeps(pre + rest);
    lemma_trim_end_concat(pre, rest);
    let re = trim_end(rest);
    let t = pre + re;
    assert(trim(pre + rest) == t);
    if rest.len() > 0 {
        lemma_trim_start_keeps(rest);
    } else {
        assert(trim_start(rest) == rest);
    }
    assert(trim(rest) == re);
    lemma_trim_end_prefix(rest);
    assert(no_scheme_sep(re)) by {
        assert forall|i: int| !#[trigger] sep_at(re, i) by {
            if sep_at(re, i) {
                assert(re[i] == rest[i] && re[i + 1] == rest[i + 1] && re[i + 2] == rest[i + 2]);
                assert(sep_at(rest, i));
            }
        }
    }
    lemma_no_sep_first(re, 0);
    assert(sep_at(t, n));
    assert forall|k: int| 0 <= k < n implies #[trigger] t[k] != ':' by {
        assert(t[k] == scheme[k]);
    }
    lemma_sep_after_scheme(t, 0, n);
    assert(t.subrange(n + 3, t.len() as int) =~= re);
}

/// White space around a link does not matter to its GitHub identity.
pub proof fn lemma_identity_ignores_surrounding_space(url: Seq<char>)
    ensures
        github_identity(trim(url)) == github_identity(url),
{
    lemma_trim_idempotent(url);
}

proof fn lemma_scheme_sep_lower(t: Seq<char>, start: int)
    requires
        0 <= start,
    ensures
        first_scheme_sep(lower(t), start) == first_scheme_sep(t, start),
    decreases t.len() - start,
{
    if start + 3 <= t.len() {
        assert(lower(t)[start] == lower_char(t[start]));
        assert(lower(t)[start + 1] == lower_char(t[start + 1]));
        assert(lower(t)[start + 2] == lower_char(t[start + 2]));
        lemma_scheme_sep_lower(t, start + 1);
    }
}

/// The chars of `lower(s)` that are none of `stops` come from chars of `s` that are
/// none of them, when no stop is a letter.
proof fn lemma_lower_keeps_stops_out(s: Seq<char>, stops: Seq<char>)
    requires
        no_letters(stops),
        forall|k: int| 0 <= k < s.len() ==> !stops.contains(#[trigger] s[k]),
    ensures
        forall|k: int| 0 <= k < s.len() ==> !stops.contains(#[trigger] lower(s)[k]),
{
    assert forall|k: int| 0 <= k < s.len() implies !stops.contains(#[trigger] lower(s)[k]) by {
        let c = s[k];
        assert(lower(s)[k] == lower_char(c));
        if stops.contains(lower_char(c)) {
            let j = choose|j: int| 0 <= j < stops.len() && stops[j] == lower_char(c);
            assert(stops[j] == lower_char(c));
            if 'A' <= c && c <= 'Z' {
                assert('a' <= lower_char(c) <= 'z');
            } else {
                assert(lower_char(c) == c);
            }
        }
    }
}

/// `host` or `host/path`.
pub open spec fn host_and_path(host: Seq<char>, p: Seq<char>) -> Seq<char> {
    if p.len() == 0 {
        host
    } else {
        host + seq!['/'] + p
    }
}

/// A host and path as normalization leaves them: the host holds no `/`, `?`, `#` and
/// the path no `?`, `#`; both are lowercase; the path does not end in `/`.
pub open spec fn clean_parts(host: Seq<char>, p: Seq<char>) -> bool {
    &&& forall|m: int| 0 <= m < host.len() ==> !seq!['/', '?', '#'].contains(#[trigger] host[m])
    &&& forall|m: int| 0 <= m < p.len() ==> !seq!['?', '#'].contains(#[trigger] p[m])
    &&& lower(host) == host
    &&& lower(p) == p
    &&& (p.len() == 0 || p.last() != '/')
}

/// A normalized link is a clean host and path.
#[verifier::rlimit(30)]
proof fn lemma_normalized_parts(url: Seq<char>) -> (r: (Seq<char>, Seq<char>))
    ensures
        normalized_url(url) == host_and_path(r.0, r.1),
        clean_parts(r.0, r.1),
{
    let stops = seq!['/', '?', '#'];
    let qf = seq!['?', '#'];
    assert(no_letters(stops));
    assert(no_letters(qf));
    let t = trim(url);
    lemma_first_scheme_sep(t, 0);
    let k = first_scheme_sep(t, 0);
    let rest = if k < t.len() {
        t.subrange(k + 3, t.len() as int)
    } else {
        t
    };
    lemma_first_any(rest, 0, stops);
    let i = first_any(rest, 0, stops);
    let authority = rest.subrange(0, i);
    let path_part = if i < rest.len() && rest[i] == '/' {
        rest.subrange(i + 1, rest.len() as int)
    } else {
        Seq::<char>::empty()
    };
    lemma_first_any(path_part, 0, qf);
    let j = first_any(path_part, 0, qf);
    let path = path_part.subrange(0, j);
    let host_lower = lower(authority);
    let host = if host_lower.len() >= 4 && host_lower.subrange(0, 4) == www_lit() {
        host_lower.subrange(4, host_lower.len() as int)
    } else {
        host_lower
    };
    let p = trim_end_char(lower(path), '/');
    assert forall|m: int| 0 <= m < authority.len() implies !stops.contains(
        #[trigger] authority[m],
    ) by {
        assert(authority[m] == rest[m]);
    }
    lemma_lower_keeps_stops_out(authority, stops);
    assert forall|m: int| 0 <= m < host.len() implies !stops.contains(#[trigger] host[m]) by {
        if host_lower.len() >= 4 && host_lower.subrange(0, 4) == www_lit() {
            assert(host[m] == host_lower[m + 4]);
        }
    }
    lemma_lower_idempotent(authority);
    if host_lower.len() >= 4 && host_lower.subrange(0, 4) == www_lit() {
        lemma_lower_subrange(host_lower, 4, host_lower.len() as int);
    }
    assert forall|m: int| 0 <= m < path.len() implies !qf.contains(#[trigger] path[m]) by {
        assert(path[m] == path_part[m]);
    }
    lemma_lower_keeps_stops_out(path, qf);
    lemma_trim_end_char(lower(path), '/');
    assert forall|m: int| 0 <= m < p.len() implies !qf.contains(#[trigger] p[m]) by {
        assert(p[m] == lower(path)[m]);
    }
    lemma_lower_idempotent(path);
    lemma_lower_subrange(lower(path), 0, p.len() as int);
    (host, p)
}

/// A clean host and path, written as a link, normalize to themselves unless the text
/// would read otherwise (white space at an end, a `://`, a leading `www.`).
#[verifier::rlimit(30)]
proof fn lemma_clean_parts_fixed(host: Seq<char>, p: Seq<char>)
    requires
        clean_parts(host, p),
        trim(host_and_path(host, p)) == host_and_path(host, p),
        no_scheme_sep(host_and_path(host, p)),
        !(host.len() >= 4 && host.subrange(0, 4) == www_lit()),
    ensures
        normalized_url(host_and_path(host, p)) == host_and_path(host, p),
{
    let stops = seq!['/', '?', '#'];
    let qf = seq!['?', '#'];
    let v = host_and_path(host, p);
    lemma_no_sep_first(v, 0);
    lemma_first_any(v, 0, stops);
    let i2 = first_any(v, 0, stops);
    assert forall|m: int| 0 <= m < host.len() implies #[trigger] v[m] == host[m] by {}
    if i2 < host.len() {
        assert(stops.contains(v[i2]));
        assert(v[i2] == host[i2]);
    }
    if p.len() > 0 {
        assert(v[host.len() as int] == '/');
        assert(stops.contains(v[host.len() as int]));
    }
    assert(i2 == host.len());
    assert(v.subrange(0, i2) =~= host);
    let pp = if i2 < v.len() && v[i2] == '/' {
        v.subrange(i2 + 1, v.len() as int)
    } else {
        Seq::<char>::empty()
    };
    if p.len() > 0 {
        assert(pp =~= p);
    } else {
        assert(pp =~= Seq::<char>::empty());
    }
    lemma_first_any_none(pp, 0, qf);
    assert(pp.subrange(0, pp.len() as int) =~= pp);
    lemma_trim_end_char(pp, '/');
    assert(trim_end_char(pp, '/') == pp);
    assert(lower(Seq::<char>::empty()) =~= Seq::<char>::empty());
}

/// A normalized link normalizes to itself, as long as it still reads as a link without
/// scheme: it is trimmed, holds no `://` and does not start with `www.`.
pub proof fn lemma_normalized_url_idempotent(url: Seq<char>)
    requires
        trim(normalized_url(url)) == normalized_url(url),
        no_scheme_sep(normalized_url(url)),
        !(normalized_url(url).len() >= 4 && normalized_url(url).subrange(0, 4) == www_lit()),
    ensures
        normalized_url(normalized_url(url)) == normalized_url(url),
{
    let (host, p) = lemma_normalized_parts(url);
    let v = host_and_path(host, p);
    if host.len() >= 4 && host.subrange(0, 4) == www_lit() {
        assert(v.subrange(0, 4) =~= host.subrange(0, 4));
    }
    lemma_clean_parts_fixed(host, p);
}

/// Letter case does not matter to a normalized link: a link and its lowercase spelling
/// normalize alike.
pub proof fn lemma_normalized_url_ignores_case(url: Seq<char>)
    ensures
        normalized_url(lower(url)) == normalized_url(url),
{
    let slash = seq!['/', '?', '#'];
    let qf = seq!['?', '#'];
    assert(no_letters(slash));
    assert(no_letters(qf));
    lemma_trim_lower(url);
    let t = trim(url);
    lemma_scheme_sep_lower(t, 0);
    lemma_first_scheme_sep(t, 0);
    let k = first_scheme_sep(t, 0);
    let rest = if k < t.len() {
        t.subrange(k + 3, t.len() as int)
    } else {
        t
    };
    if k < t.len() {
        lemma_lower_subrange(t, k + 3, t.len() as int);
    }
    lemma_first_any_lower(rest, 0, slash);
    lemma_first_any(rest, 0, slash);
    let i = first_any(rest, 0, slash);
    lemma_lower_subrange(rest, 0, i);
    if i < rest.len() {
        assert(lower(rest)[i] == lower_char(rest[i]));
        assert(slash.contains(rest[i]));
        let c = choose|c: int| 0 <= c < slash.len() && slash[c] == rest[i];
        assert(lower_char(rest[i]) == rest[i]);
    }
    let path_part = if i < rest.len() && rest[i] == '/' {
        rest.subrange(i + 1, rest.len() as int)
    } else {
        Seq::<char>::empty()
    };
    if i < rest.len() && rest[i] == '/' {
        lemma_lower_subrange(rest, i + 1, rest.len() as int);
    } else {
        assert(lower(Seq::<char>::empty()) =~= Seq::<char>::empty());
    }
    lemma_first_any_lower(path_part, 0, qf);
    lemma_first_any(path_part, 0, qf);
    let j = first_any(path_part, 0, qf);
    lemma_lower_subrange(path_part, 0, j);
    lemma_lower_idempotent(rest.subrange(0, i));
    lemma_lower_idempotent(path_part.subrange(0, j));
}

} // verus!
