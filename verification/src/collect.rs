//! The decisions of the collectors: how a search is configured and requested, how a
//! reply status is read, when paging stops, and how a failed fetch is retried.
//! Sending the requests, waiting and persisting happen around these decisions.

use vstd::prelude::*;

use crate::models::SourceError;
use crate::source::{GithubRepoRaw, HnStoryRaw};
use crate::token::{after_rotations, TokenRotator};
use crate::text::{chars_of, decimal, decimal_chars, push_str, string_of};

verus! {

/// The GitHub search parameters: the endpoint, the `q` query, the page size (clamped
/// to 1..=100) and the number of pages to read at most.
pub struct GithubSearch {
    pub base_url: String,
    pub query: String,
    pub per_page: u32,
    pub max_pages: u32,
}

/// `v` clamped into `lo..=hi`.
pub open spec fn clamp(v: u32, lo: u32, hi: u32) -> u32 {
    if v < lo {
        lo
    } else if v > hi {
        hi
    } else {
        v
    }
}

/// The earliest instant `chrono` represents, -262143-01-01T00:00:00Z, in microseconds.
pub const EARLIEST_DATE_MICROS: i64 = -8_334_601_228_800_000_000;

/// The latest instant `chrono` represents, +262142-12-31T23:59:59.999999Z, in
/// microseconds.
pub const LATEST_DATE_MICROS: i64 = 8_210_266_876_799_999_999;

/// The calendar day (`%Y-%m-%d`, UTC) of a timestamp, as `chrono` renders it.
pub uninterp spec fn utc_date_text(micros: i64) -> Seq<char>;

/// `chrono`'s `DateTime::<Utc>::from_timestamp_micros(micros)` formatted with
/// `%Y-%m-%d`: the contract only names the text; within the range `chrono` represents,
/// the conversion succeeds.
#[verifier::external_body]
fn utc_date(micros: i64) -> (r: String)
    requires
        EARLIEST_DATE_MICROS <= micros <= LATEST_DATE_MICROS,
    ensures
        r@ == utc_date_text(micros),
{
    chrono::DateTime::from_timestamp_micros(micros).unwrap().format("%Y-%m-%d").to_string()
}

impl GithubSearch {
    /// The parameters of a GitHub repository search; the page size is clamped to 1..=100.
    pub fn new(base_url: String, query: String, per_page: u32, max_pages: u32) -> (s: Self)
        ensures
            s.base_url == base_url,
            s.query == query,
            s.per_page == clamp(per_page, 1, 100),
            s.max_pages == max_pages,
    {
        let per_page = if per_page < 1 {
            1
        } else if per_page > 100 {
            100
        } else {
            per_page
        };
        GithubSearch { base_url, query, per_page, max_pages }
    }

    /// The search text: the query, narrowed to repositories pushed after the day of
    /// `since` when it is given.
    pub fn build_query(&self, since: Option<i64>) -> (r: String)
        requires
            since matches Some(t) ==> EARLIEST_DATE_MICROS <= t <= LATEST_DATE_MICROS,
        ensures
            r@ == match since {
                Some(t) => self.query@ + " pushed:>"@ + utc_date_text(t),
                None => self.query@,
            },
    {
        match since {
            Some(t) => {
                let d = utc_date(t);
                self.query_pushed_after(d.as_str())
            },
            None => self.query.clone(),
        }
    }

    /// The query narrowed to repositories pushed after the calendar day `day`
    /// (`YYYY-MM-DD`): `{query} pushed:>{day}`.
    pub fn query_pushed_after(&self, day: &str) -> (r: String)
        ensures
            r@ == self.query@ + " pushed:>"@ + day@,
    {
        let mut v = chars_of(self.query.as_str());
        push_str(&mut v, " pushed:>");
        push_str(&mut v, day);
        string_of(&v)
    }

    /// The endpoint: `{base_url}/search/repositories`.
    pub fn endpoint(&self) -> (r: String)
        ensures
            r@ == self.base_url@ + "/search/repositories"@,
    {
        let mut v = chars_of(self.base_url.as_str());
        push_str(&mut v, "/search/repositories");
        string_of(&v)
    }

    /// The query parameters of page `page` for the search text `query`:
    /// `q`, `sort=stars`, `order=desc`, `per_page`, `page`.
    pub fn params(&self, query: &str, page: u32) -> (r: Vec<(String, String)>)
        ensures
            r@.len() == 5,
            r@[0].0@ == "q"@ && r@[0].1@ == query@,
            r@[1].0@ == "sort"@ && r@[1].1@ == "stars"@,
            r@[2].0@ == "order"@ && r@[2].1@ == "desc"@,
            r@[3].0@ == "per_page"@ && r@[3].1@ == decimal(self.per_page as nat),
            r@[4].0@ == "page"@ && r@[4].1@ == decimal(page as nat),
    {
        let mut r: Vec<(String, String)> = Vec::new();
        r.push((str_string("q"), str_string(query)));
        r.push((str_string("sort"), str_string("stars")));
        r.push((str_string("order"), str_string("desc")));
        r.push((str_string("per_page"), number_string(self.per_page as u64)));
        r.push((str_string("page"), number_string(page as u64)));
        r
    }
}

/// A copy of `s`.
pub fn str_string(s: &str) -> (r: String)
    ensures
        r@ == s@,
{
    let v = chars_of(s);
    string_of(&v)
}

/// The decimal rendering of `n`.
pub fn number_string(n: u64) -> (r: String)
    ensures
        r@ == decimal(n as nat),
{
    let v = decimal_chars(n);
    string_of(&v)
}

/// The `Authorization` header value for a token: `Bearer {token}`.
pub fn bearer(token: &str) -> (r: String)
    ensures
        r@ == "Bearer "@ + token@,
{
    let mut v = chars_of("Bearer ");
    push_str(&mut v, token);
    string_of(&v)
}

/// The Hacker News (Algolia) search parameters: the endpoint, the tags, an optional
/// numeric filter, the page size (clamped to 1..=50) and the number of pages to read.
pub struct HnSearch {
    pub base_url: String,
    pub tags: String,
    pub numeric_filter: Option<String>,
    pub hits_per_page: u32,
    pub max_pages: u32,
}

impl HnSearch {
    /// The parameters of a story search; the page size is clamped to 1..=50.
    pub fn new(
        base_url: String,
        tags: String,
        numeric_filter: Option<String>,
        hits_per_page: u32,
        max_pages: u32,
    ) -> (s: Self)
        ensures
            s.base_url == base_url,
            s.tags == tags,
            s.numeric_filter == numeric_filter,
            s.hits_per_page == clamp(hits_per_page, 1, 50),
            s.max_pages == max_pages,
    {
        let hits_per_page = if hits_per_page < 1 {
            1
        } else if hits_per_page > 50 {
            50
        } else {
            hits_per_page
        };
        HnSearch { base_url, tags, numeric_filter, hits_per_page, max_pages }
    }

    /// The endpoint: `{base_url}/search`.
    pub fn endpoint(&self) -> (r: String)
        ensures
            r@ == self.base_url@ + "/search"@,
    {
        let mut v = chars_of(self.base_url.as_str());
        push_str(&mut v, "/search");
        string_of(&v)
    }

    /// The query parameters of page `page`: `tags`, `hitsPerPage`, `page`, and
    /// `numericFilters` when a filter is set.
    pub fn params(&self, page: u32) -> (r: Vec<(String, String)>)
        ensures
            r@.len() == (if self.numeric_filter is Some { 4int } else { 3int }),
            r@[0].0@ == "tags"@ && r@[0].1@ == self.tags@,
            r@[1].0@ == "hitsPerPage"@ && r@[1].1@ == decimal(self.hits_per_page as nat),
            r@[2].0@ == "page"@ && r@[2].1@ == decimal(page as nat),
            self.numeric_filter matches Some(f) ==> r@[3].0@ == "numericFilters"@ && r@[3].1@
                == f@,
    {
        let mut r: Vec<(String, String)> = Vec::new();
        r.push((str_string("tags"), self.tags.clone()));
        r.push((str_string("hitsPerPage"), number_string(self.hits_per_page as u64)));
        r.push((str_string("page"), number_string(page as u64)));
        match &self.numeric_filter {
            Some(f) => r.push((str_string("numericFilters"), f.clone())),
            None => {},
        }
        r
    }
}

/// How a search reply status is read.
#[derive(Debug, Clone, Copy, PartialEq, Eq, Structural)]
pub enum StatusClass {
    /// A 2xx reply: its body is parsed.
    Success,
    /// The source rate limits the client.
    RateLimited,
    /// Any other status: the fetch fails with it.
    Failed,
}

/// Whether `status` is a 2xx status.
pub open spec fn is_success(status: u16) -> bool {
    200 <= status <= 299
}

/// GitHub signals rate limiting with 429 or 403; the token in use is then rotated.
pub fn github_status_class(status: u16) -> (c: StatusClass)
    ensures
        c == github_class(status),
{
    if status == 429 || status == 403 {
        StatusClass::RateLimited
    } else if 200 <= status && status <= 299 {
        StatusClass::Success
    } else {
        StatusClass::Failed
    }
}

/// Hacker News signals rate limiting with 429.
pub fn hn_status_class(status: u16) -> (c: StatusClass)
    ensures
        c == hn_class(status),
{
    if status == 429 {
        StatusClass::RateLimited
    } else if 200 <= status && status <= 299 {
        StatusClass::Success
    } else {
        StatusClass::Failed
    }
}

/// The class of a GitHub reply status (see [`github_status_class`]).
pub open spec fn github_class(status: u16) -> StatusClass {
    if status == 429 || status == 403 {
        StatusClass::RateLimited
    } else if is_success(status) {
        StatusClass::Success
    } else {
        StatusClass::Failed
    }
}

/// The class of a Hacker News reply status (see [`hn_status_class`]).
pub open spec fn hn_class(status: u16) -> StatusClass {
    if status == 429 {
        StatusClass::RateLimited
    } else if is_success(status) {
        StatusClass::Success
    } else {
        StatusClass::Failed
    }
}

/// Acts on a GitHub reply status: a success lets the body be read; a rate limit moves on
/// to the next token and fails with `RateLimited`; any other status fails with
/// `github status {status_text}`, `status_text` being how the status is written (such
/// as `500 Internal Server Error`). Only a rate limit touches the tokens.
pub fn github_reply_status(status: u16, status_text: &str, tokens: &mut TokenRotator) -> (r:
    Result<(), SourceError>)
    ensures
        match github_class(status) {
            StatusClass::Success => r is Ok && *final(tokens) == *old(tokens),
            StatusClass::RateLimited => {
                &&& r == Err::<(), SourceError>(SourceError::RateLimited)
                &&& final(tokens).tokens() == old(tokens).tokens()
                &&& final(tokens).position() == after_rotations(
                    old(tokens).position(),
                    old(tokens).tokens().len(),
                    1,
                )
            },
            StatusClass::Failed => {
                &&& r matches Err(SourceError::Other(m)) && m@ == "github status "@ + status_text@
                &&& *final(tokens) == *old(tokens)
            },
        },
{
    match github_status_class(status) {
        StatusClass::Success => Ok(()),
        StatusClass::RateLimited => {
            tokens.rotate();
            Err(SourceError::RateLimited)
        },
        StatusClass::Failed => {
            let mut m = chars_of("github status ");
            push_str(&mut m, status_text);
            Err(SourceError::Other(string_of(&m)))
        },
    }
}

/// Acts on a Hacker News reply status: a success lets the body be read; a rate limit
/// fails with `RateLimited`; any other status fails with `hn status {status_text}`.
pub fn hn_reply_status(status: u16, status_text: &str) -> (r: Result<(), SourceError>)
    ensures
        match hn_class(status) {
            StatusClass::Success => r is Ok,
            StatusClass::RateLimited => r == Err::<(), SourceError>(SourceError::RateLimited),
            StatusClass::Failed => r matches Err(SourceError::Other(m)) && m@ == "hn status "@
                + status_text@,
        },
{
    match hn_status_class(status) {
        StatusClass::Success => Ok(()),
        StatusClass::RateLimited => Err(SourceError::RateLimited),
        StatusClass::Failed => {
            let mut m = chars_of("hn status ");
            push_str(&mut m, status_text);
            Err(SourceError::Other(string_of(&m)))
        },
    }
}

/// What a paged fetch does next.
#[derive(Debug, Clone, Copy, PartialEq, Eq, Structural)]
pub enum PageStep {
    /// Fetch this page.
    Fetch(u32),
    /// Stop and return what was collected.
    Finished,
    /// Stop with a cancellation error.
    Cancelled,
}

/// The state of a paged fetch: pages `first`, `first + 1`, ... are read, at most
/// `max_pages` of them, until a page comes back short or is the last one.
pub struct Pager {
    pub first: u32,
    pub max_pages: u32,
    pub per_page: u32,
    /// How many pages were read so far.
    pub fetched: u32,
    /// Whether a short or last page ended the fetch.
    pub done: bool,
}

impl Pager {
    /// The pager is consistent: no more pages read than allowed, page numbers in range.
    pub open spec fn wf(&self) -> bool {
        &&& self.fetched <= self.max_pages
        &&& self.first + self.max_pages <= u32::MAX + 1
    }

    /// A fetch of pages `first..first + max_pages` with pages of `per_page` items.
    pub fn new(first: u32, max_pages: u32, per_page: u32) -> (p: Self)
        requires
            first + max_pages <= u32::MAX + 1,
        ensures
            p.wf(),
            p == (Pager { first, max_pages, per_page, fetched: 0, done: false }),
    {
        Pager { first, max_pages, per_page, fetched: 0, done: false }
    }

    /// What to do before reading the next page: stop when done or out of pages, fail
    /// when cancelled, else fetch the next page number.
    pub fn next_step(&self, cancelled: bool) -> (s: PageStep)
        requires
            self.wf(),
        ensures
            s == (if self.done || self.fetched >= self.max_pages {
                PageStep::Finished
            } else if cancelled {
                PageStep::Cancelled
            } else {
                PageStep::Fetch((self.first + self.fetched) as u32)
            }),
    {
        if self.done || self.fetched >= self.max_pages {
            PageStep::Finished
        } else if cancelled {
            PageStep::Cancelled
        } else {
            PageStep::Fetch(self.first + self.fetched)
        }
    }

    /// The pager after a page of `got` items was recorded, `total_pages` being the page
    /// count the source reported (0 when it reports none).
    pub open spec fn after_page(self, got: u32, total_pages: u32) -> Pager {
        Pager {
            first: self.first,
            max_pages: self.max_pages,
            per_page: self.per_page,
            fetched: (self.fetched + 1) as u32,
            done: got < self.per_page || (total_pages != 0 && self.first + self.fetched + 1
                >= total_pages),
        }
    }

    /// Whether the next step is no fetch, whatever the cancellation.
    pub open spec fn stopped(self) -> bool {
        self.done || self.fetched >= self.max_pages
    }

    /// The page numbers a fetch requests from this state on, when the source answers
    /// the requests with pages of `gots[0]`, `gots[1]`, ... items and no cancellation
    /// comes.
    pub open spec fn requested(self, gots: Seq<u32>, total_pages: u32) -> Seq<u32>
        decreases gots.len(),
    {
        if self.stopped() || gots.len() == 0 {
            Seq::empty()
        } else {
            seq![(self.first + self.fetched) as u32] + self.after_page(gots[0], total_pages).requested(
                gots.drop_first(),
                total_pages,
            )
        }
    }

    /// Records that the fetched page held `got` items, out of `total_pages` pages when
    /// the source says so (0 when it does not): a short page or the last page ends it.
    pub fn record_page(&mut self, got: usize, total_pages: u32)
        requires
            old(self).wf(),
            !old(self).done,
            old(self).fetched < old(self).max_pages,
        ensures
            final(self).wf(),
            *final(self) == old(self).after_page(
                (#[verifier::truncate] (got as u32)),
                total_pages,
            ),
    {
        let page = self.first + self.fetched;
        let short = (#[verifier::truncate] (got as u32)) < self.per_page;
        let last_page = total_pages != 0 && (page as u64) + 1 >= total_pages as u64;
        self.fetched = self.fetched + 1;
        self.done = short || last_page;
    }
}

/// The index of the first page of `gots` with fewer than `per_page` items, or the
/// length of `gots` when there is none.
pub open spec fn first_short(gots: Seq<u32>, per_page: u32) -> nat
    decreases gots.len(),
{
    if gots.len() == 0 {
        0
    } else if gots[0] < per_page {
        0
    } else {
        1 + first_short(gots.drop_first(), per_page)
    }
}

/// The smaller of two integers.
pub open spec fn min_int(a: int, b: int) -> int {
    if a <= b {
        a
    } else {
        b
    }
}

/// How many pages a fetch reads from a pager that has read `fetched` of them: up to and
/// including the first short page, the last page the source reports (`total_pages`,
/// none when 0), or `max_pages` pages, whichever comes first.
pub open spec fn pages_read(
    first: u32,
    max_pages: u32,
    per_page: u32,
    fetched: u32,
    gots: Seq<u32>,
    total_pages: u32,
) -> int {
    let by_short = fetched + first_short(gots, per_page) + 1;
    let by_last = if total_pages == 0 {
        max_pages as int
    } else if fetched + 1 >= total_pages - first {
        fetched + 1
    } else {
        total_pages - first
    };
    min_int(max_pages as int, min_int(by_short, by_last))
}

/// The pages requested from a pager that has read `p.fetched` pages follow on one
/// another from `p.first + p.fetched`, and there are `pages_read(..) - p.fetched` of them.
proof fn lemma_requested(p: Pager, gots: Seq<u32>, total_pages: u32)
    requires
        p.wf(),
        !p.done,
        p.fetched + gots.len() >= p.max_pages,
    ensures
        p.requested(gots, total_pages) == Seq::new(
            (pages_read(p.first, p.max_pages, p.per_page, p.fetched, gots, total_pages)
                - p.fetched) as nat,
            |i: int| (p.first + p.fetched + i) as u32,
        ),
    decreases gots.len(),
{
    let k = pages_read(p.first, p.max_pages, p.per_page, p.fetched, gots, total_pages);
    if p.fetched >= p.max_pages {
        assert(p.requested(gots, total_pages) =~= Seq::<u32>::empty());
        assert(Seq::new((k - p.fetched) as nat, |i: int| (p.first + p.fetched + i) as u32)
            =~= Seq::<u32>::empty());
    } else {
        let q = p.after_page(gots[0], total_pages);
        let rest = gots.drop_first();
        if q.done {
            assert(q.requested(rest, total_pages) =~= Seq::<u32>::empty());
            assert(k == p.fetched + 1);
        } else {
            lemma_requested(q, rest, total_pages);
            assert(first_short(gots, p.per_page) == 1 + first_short(rest, p.per_page));
            assert(k == pages_read(q.first, q.max_pages, q.per_page, q.fetched, rest, total_pages));
        }
        assert(p.requested(gots, total_pages) =~= Seq::new(
            (k - p.fetched) as nat,
            |i: int| (p.first + p.fetched + i) as u32,
        ));
    }
}

/// A paged fetch requests the pages `first`, `first + 1`, ... in turn, and stops after
/// the first short page, after the last page the source reports, or after `max_pages`
/// pages, whichever comes first (when the source answers every request and no
/// cancellation comes).
pub proof fn lemma_paged_fetch(
    first: u32,
    max_pages: u32,
    per_page: u32,
    gots: Seq<u32>,
    total_pages: u32,
)
    requires
        first + max_pages <= u32::MAX + 1,
        gots.len() >= max_pages,
    ensures
        (Pager { first, max_pages, per_page, fetched: 0, done: false }).requested(
            gots,
            total_pages,
        ) == Seq::new(
            pages_read(first, max_pages, per_page, 0, gots, total_pages) as nat,
            |i: int| (first + i) as u32,
        ),
{
    let p = Pager { first, max_pages, per_page, fetched: 0, done: false };
    lemma_requested(p, gots, total_pages);
    assert(Seq::new(
        (pages_read(first, max_pages, per_page, 0, gots, total_pages) - 0) as nat,
        |i: int| (p.first + p.fetched + i) as u32,
    ) =~= Seq::new(
        pages_read(first, max_pages, per_page, 0, gots, total_pages) as nat,
        |i: int| (first + i) as u32,
    ));
}

/// The tries of a fetch, and the pause before the next one.
pub struct Retry {
    /// The 0-based number of the try in progress.
    pub attempt: u32,
    /// The pause before the next try, in seconds.
    pub backoff_secs: u64,
}

/// How many times a fetch is tried.
pub const MAX_ATTEMPTS: u32 = 3;

/// The pause before the second try, in seconds; it doubles after each failure.
pub const INITIAL_BACKOFF_SECS: u64 = 2;

/// `2^k`.
pub open spec fn pow2(k: nat) -> nat
    decreases k,
{
    if k == 0 {
        1
    } else {
        2 * pow2((k - 1) as nat)
    }
}

/// What a retried fetch does next.
#[derive(Debug, Clone, Copy, PartialEq, Eq, Structural)]
pub enum RetryStep {
    /// Try the fetch.
    Attempt,
    /// Wait this many seconds, then try again.
    Backoff(u64),
    /// Give up: the collection was cancelled.
    Cancelled,
    /// Give up: every try failed.
    Exhausted,
}

impl Retry {
    /// The retry state is consistent: a try in range, and the pause doubled once per
    /// failed try.
    pub open spec fn wf(&self) -> bool {
        &&& self.attempt < MAX_ATTEMPTS
        &&& self.backoff_secs == INITIAL_BACKOFF_SECS * pow2(self.attempt as nat)
    }

    /// The state before the first try.
    pub fn new() -> (r: Self)
        ensures
            r.wf(),
            r.attempt == 0,
            r.backoff_secs == INITIAL_BACKOFF_SECS,
    {
        Retry { attempt: 0, backoff_secs: INITIAL_BACKOFF_SECS }
    }

    /// Before a try: give up when cancelled, else try.
    pub fn before_attempt(&self, cancelled: bool) -> (s: RetryStep)
        ensures
            s == (if cancelled {
                RetryStep::Cancelled
            } else {
                RetryStep::Attempt
            }),
    {
        if cancelled {
            RetryStep::Cancelled
        } else {
            RetryStep::Attempt
        }
    }

    /// After a failed try: give up on a cancellation or after the last try; else wait
    /// the current pause, then the next try comes with the pause doubled.
    pub fn on_failure(&mut self, cancelled: bool) -> (s: RetryStep)
        requires
            old(self).wf(),
        ensures
            s == (if cancelled {
                RetryStep::Cancelled
            } else if old(self).attempt + 1 == MAX_ATTEMPTS {
                RetryStep::Exhausted
            } else {
                RetryStep::Backoff(old(self).backoff_secs)
            }),
            s matches RetryStep::Backoff(_) ==> final(self).wf() && final(self).attempt
                == old(self).attempt + 1 && final(self).backoff_secs == 2 * old(self).backoff_secs,
            !(s matches RetryStep::Backoff(_)) ==> *final(self) == *old(self),
            !cancelled ==> s == failure_run(*old(self))[0],
    {
        if cancelled {
            RetryStep::Cancelled
        } else if self.attempt + 1 == MAX_ATTEMPTS {
            RetryStep::Exhausted
        } else {
            let wait = self.backoff_secs;
            proof {
                reveal_with_fuel(pow2, 3);
                assert(pow2(self.attempt as nat + 1) == 2 * pow2(self.attempt as nat));
            }
            self.attempt = self.attempt + 1;
            self.backoff_secs = self.backoff_secs * 2;
            RetryStep::Backoff(wait)
        }
    }
}

/// The steps that failure after failure brings from the retry state `r`, with no
/// cancellation: a pause per failure while tries remain, then giving up.
pub open spec fn failure_run(r: Retry) -> Seq<RetryStep>
    decreases MAX_ATTEMPTS - r.attempt,
{
    if r.attempt + 1 >= MAX_ATTEMPTS {
        seq![RetryStep::Exhausted]
    } else {
        seq![RetryStep::Backoff(r.backoff_secs)] + failure_run(
            Retry { attempt: (r.attempt + 1) as u32, backoff_secs: (r.backoff_secs * 2) as u64 },
        )
    }
}

/// A fetch that keeps failing, uncancelled, waits 2 seconds, then 4, then gives up: it is
/// tried `MAX_ATTEMPTS` times in all, and from any state the pause doubles after each
/// failure until the tries run out.
#[verifier::spinoff_prover]
pub proof fn lemma_retry_schedule(r: Retry)
    requires
        r.wf(),
    ensures
        failure_run(r).len() == MAX_ATTEMPTS - r.attempt,
        failure_run(r).last() == RetryStep::Exhausted,
        forall|i: int|
            0 <= i < failure_run(r).len() - 1 ==> #[trigger] failure_run(r)[i] == RetryStep::Backoff(
                (r.backoff_secs * pow2(i as nat)) as u64,
            ),
        failure_run(Retry { attempt: 0, backoff_secs: INITIAL_BACKOFF_SECS }) == seq![
            RetryStep::Backoff(2),
            RetryStep::Backoff(4),
            RetryStep::Exhausted,
        ],
    decreases MAX_ATTEMPTS - r.attempt,
{
    reveal_with_fuel(pow2, 3);
    if r.attempt + 1 < MAX_ATTEMPTS {
        let q = Retry { attempt: (r.attempt + 1) as u32, backoff_secs: (r.backoff_secs * 2) as u64 };
        assert(q.wf());
        lemma_retry_schedule(q);
        let f = failure_run(r);
        let g = failure_run(q);
        assert(f == seq![RetryStep::Backoff(r.backoff_secs)] + g);
        assert(f.len() == 1 + g.len());
        assert forall|i: int| 0 <= i < f.len() - 1 implies #[trigger] f[i] == RetryStep::Backoff(
            (r.backoff_secs * pow2(i as nat)) as u64,
        ) by {
            if i == 0 {
                assert(f[0] == RetryStep::Backoff(r.backoff_secs));
                assert(pow2(0) == 1);
            } else {
                assert(f[i] == g[i - 1]);
                assert(0 <= i - 1 < g.len() - 1);
                assert(g[i - 1] == RetryStep::Backoff((q.backoff_secs * pow2((i - 1) as nat)) as u64));
                assert(pow2(i as nat) == 2 * pow2((i - 1) as nat));
                assert(q.backoff_secs * pow2((i - 1) as nat) == r.backoff_secs * pow2(i as nat))
                    by (nonlinear_arith)
                    requires
                        q.backoff_secs == r.backoff_secs * 2,
                        pow2(i as nat) == 2 * pow2((i - 1) as nat),
                ;
            }
        }
    }
    let s = Retry { attempt: 0, backoff_secs: INITIAL_BACKOFF_SECS };
    let s1 = Retry { attempt: 1, backoff_secs: 4 };
    let s2 = Retry { attempt: 2, backoff_secs: 8 };
    assert(failure_run(s2) == seq![RetryStep::Exhausted]);
    assert(failure_run(s1) =~= seq![RetryStep::Backoff(4), RetryStep::Exhausted]);
    assert(failure_run(s) =~= seq![
        RetryStep::Backoff(2),
        RetryStep::Backoff(4),
        RetryStep::Exhausted,
    ]);
}

/// A repository as the GitHub search reply lists it.
#[derive(Debug, Clone)]
pub struct RepoJson {
    pub node_id: Option<String>,
    pub name: String,
    pub full_name: String,
    pub html_url: String,
    pub description: Option<String>,
    pub homepage: Option<String>,
    pub language: Option<String>,
    pub topics: Option<Vec<String>>,
    pub stargazers_count: i64,
    pub forks_count: i64,
    pub open_issues_count: i64,
    pub created_at: i64,
    pub updated_at: i64,
}

impl RepoJson {
    /// The raw repository, with `extra` (the reply entry itself) kept as metadata and
    /// missing topics read as none.
    pub fn into_raw(self, extra: serde_json::Value) -> (g: GithubRepoRaw)
        ensures
            g.full_name == self.full_name,
            g.name == self.name,
            g.description == self.description,
            g.html_url == self.html_url,
            g.homepage == self.homepage,
            g.language == self.language,
            g.topics@ == match self.topics {
                Some(t) => t@,
                None => Seq::<String>::empty(),
            },
            g.stargazers_count == self.stargazers_count,
            g.forks_count == self.forks_count,
            g.open_issues_count == self.open_issues_count,
            g.created_at == self.created_at,
            g.updated_at == self.updated_at,
            g.node_id == self.node_id,
            g.extra == extra,
    {
        let topics = match self.topics {
            Some(t) => t,
            None => Vec::new(),
        };
        GithubRepoRaw {
            full_name: self.full_name,
            name: self.name,
            description: self.description,
            html_url: self.html_url,
            homepage: self.homepage,
            language: self.language,
            topics,
            stargazers_count: self.stargazers_count,
            forks_count: self.forks_count,
            open_issues_count: self.open_issues_count,
            created_at: self.created_at,
            updated_at: self.updated_at,
            node_id: self.node_id,
            extra,
        }
    }
}

/// A story as the Hacker News search reply lists it.
#[derive(Debug, Clone)]
pub struct HitJson {
    pub object_id: String,
    pub title: Option<String>,
    /// The link of the story; none for Ask/Show HN posts.
    pub url: Option<String>,
    pub author: Option<String>,
    pub points: Option<i64>,
    pub num_comments: Option<i64>,
    pub created_at: Option<i64>,
}

/// The discussion page of a story.
pub open spec fn hn_item_url(object_id: Seq<char>) -> Seq<char> {
    "https://news.ycombinator.com/item?id="@ + object_id
}

impl HitJson {
    /// The raw story, with its discussion page, `extra` (the reply entry itself) kept
    /// as metadata, and a missing title read as empty.
    pub fn into_raw(self, extra: serde_json::Value) -> (s: HnStoryRaw)
        ensures
            s.object_id == self.object_id,
            s.hn_url@ == hn_item_url(self.object_id@),
            s.linked_url == self.url,
            s.title@ == match self.title {
                Some(t) => t@,
                None => Seq::<char>::empty(),
            },
            s.author == self.author,
            s.points == self.points,
            s.comment_count == self.num_comments,
            s.posted_at == self.created_at,
            s.extra == extra,
    {
        let mut u = chars_of("https://news.ycombinator.com/item?id=");
        push_str(&mut u, self.object_id.as_str());
        let title = match self.title {
            Some(t) => t,
            None => String::new(),
        };
        HnStoryRaw {
            object_id: self.object_id,
            hn_url: string_of(&u),
            linked_url: self.url,
            title,
            author: self.author,
            points: self.points,
            comment_count: self.num_comments,
            posted_at: self.created_at,
            extra,
        }
    }
}

/// What a collection run does with the next fetched item.
#[derive(Debug, Clone, Copy, PartialEq, Eq, Structural)]
pub enum PersistStep {
    /// Persist the item at this index.
    Persist(usize),
    /// Stop: all items were handled, or the run was cancelled.
    Stop,
}

/// The progress of persisting a batch of fetched items: items are persisted in order
/// until the batch ends or the run is cancelled; a failed item is skipped.
pub struct PersistRun {
    pub total: usize,
    /// The index of the next item.
    pub next: usize,
    /// How many items were persisted.
    pub persisted: usize,
}

impl PersistRun {
    /// The run is consistent: no more items handled than fetched, no more persisted than
    /// handled.
    pub open spec fn wf(&self) -> bool {
        self.persisted <= self.next <= self.total
    }

    /// A run over `total` fetched items.
    pub fn new(total: usize) -> (r: Self)
        ensures
            r.wf(),
            r.total == total && r.next == 0 && r.persisted == 0,
    {
        PersistRun { total, next: 0, persisted: 0 }
    }

    /// Before the next item: stop when cancelled or out of items.
    pub fn next_step(&self, cancelled: bool) -> (s: PersistStep)
        requires
            self.wf(),
        ensures
            s == (if self.next >= self.total || cancelled {
                PersistStep::Stop
            } else {
                PersistStep::Persist(self.next)
            }),
    {
        if self.next >= self.total || cancelled {
            PersistStep::Stop
        } else {
            PersistStep::Persist(self.next)
        }
    }

    /// Records whether the item was persisted; a failure is skipped.
    pub fn record(&mut self, ok: bool)
        requires
            old(self).wf(),
            old(self).next < old(self).total,
        ensures
            final(self).wf(),
            final(self).total == old(self).total,
            final(self).next == old(self).next + 1,
            final(self).persisted == old(self).persisted + (if ok { 1int } else { 0int }),
    {
        self.next = self.next + 1;
        if ok {
            self.persisted = self.persisted + 1;
        }
    }
}

/// How many of `oks` are `true`.
pub open spec fn count_ok(oks: Seq<bool>) -> nat
    decreases oks.len(),
{
    if oks.len() == 0 {
        0
    } else {
        (if oks[0] {
            1nat
        } else {
            0nat
        }) + count_ok(oks.drop_first())
    }
}

impl PersistRun {
    /// The run after its next items were handled in turn, `oks` saying which were
    /// persisted, with no cancellation.
    pub open spec fn after_items(self, oks: Seq<bool>) -> PersistRun
        decreases oks.len(),
    {
        if oks.len() == 0 || self.next >= self.total {
            self
        } else {
            (PersistRun {
                total: self.total,
                next: (self.next + 1) as usize,
                persisted: (self.persisted + if oks[0] {
                    1int
                } else {
                    0int
                }) as usize,
            }).after_items(oks.drop_first())
        }
    }
}

proof fn lemma_after_items(r: PersistRun, oks: Seq<bool>)
    requires
        r.wf(),
        r.next + oks.len() == r.total,
    ensures
        r.after_items(oks) == (PersistRun {
            total: r.total,
            next: r.total,
            persisted: (r.persisted + count_ok(oks)) as usize,
        }),
    decreases oks.len(),
{
    if oks.len() > 0 {
        let q = PersistRun {
            total: r.total,
            next: (r.next + 1) as usize,
            persisted: (r.persisted + if oks[0] {
                1int
            } else {
                0int
            }) as usize,
        };
        lemma_after_items(q, oks.drop_first());
    }
}

/// Without cancellation, a run over `oks.len()` fetched items handles each of them once
/// and reports as persisted exactly those whose persistence succeeded: a failed item is
/// skipped, neither retried nor counted.
pub proof fn lemma_persist_run(oks: Seq<bool>)
    requires
        oks.len() <= usize::MAX,
    ensures
        (PersistRun { total: oks.len() as usize, next: 0, persisted: 0 }).after_items(oks) == (
        PersistRun { total: oks.len() as usize, next: oks.len() as usize, persisted: count_ok(
            oks,
        ) as usize }),
{
    lemma_after_items(PersistRun { total: oks.len() as usize, next: 0, persisted: 0 }, oks);
}

/// The index of the first registered source of kind `kind`.
pub fn find_source(kinds: &Vec<crate::models::SourceKind>, kind: crate::models::SourceKind) -> (r:
    Option<usize>)
    ensures
        match r {
            Some(i) => i < kinds@.len() && kinds@[i as int] == kind && forall|j: int|
                0 <= j < i ==> kinds@[j] != kind,
            None => forall|j: int| 0 <= j < kinds@.len() ==> kinds@[j] != kind,
        },
{
    let mut i: usize = 0;
    while i < kinds.len()
        invariant
            i <= kinds@.len(),
            forall|j: int| 0 <= j < i ==> kinds@[j] != kind,
        decreases kinds@.len() - i,
    {
        if kinds[i] == kind {
            return Some(i);
        }
        i = i + 1;
    }
    None
}

} // verus!
