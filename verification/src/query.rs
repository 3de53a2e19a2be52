//! Listing queries: sort orders, filters, paging, and the rows they return.
//!
//! Timestamps are microseconds since the Unix epoch, UTC.

use vstd::prelude::*;

use crate::digest::DAY_MICROS;
use crate::text::{chars_of, push_str, string_of, text_eq};

verus! {

/// The orders of the project listing.
#[derive(Debug, Clone, Copy, PartialEq, Eq, Structural)]
pub enum Sort {
    /// Stars and Hacker News points, decayed by inactivity over 180 days.
    Hottest,
    Stars,
    Recent,
    HnPoints,
}

impl Default for Sort {
    fn default() -> (s: Self)
        ensures
            s == Sort::Hottest,
    {
        Sort::Hottest
    }
}

/// The order named by a query parameter; any other name means `Hottest`.
pub open spec fn sort_named(s: Seq<char>) -> Sort {
    if s == "stars"@ {
        Sort::Stars
    } else if s == "recent"@ {
        Sort::Recent
    } else if s == "hn_points"@ {
        Sort::HnPoints
    } else {
        Sort::Hottest
    }
}

impl Sort {
    /// The order named `s` (`stars`, `recent`, `hn_points`); anything else is `Hottest`.
    pub fn parse(s: &str) -> (r: Sort)
        ensures
            r == sort_named(s@),
    {
        if text_eq(s, "stars") {
            Sort::Stars
        } else if text_eq(s, "recent") {
            Sort::Recent
        } else if text_eq(s, "hn_points") {
            Sort::HnPoints
        } else {
            Sort::Hottest
        }
    }

    /// The SQL `ORDER BY` expression of the order.
    pub fn order_by(&self) -> (r: &'static str)
        ensures
            r@ == order_text(*self),
    {
        match self {
            Sort::Hottest => "(COALESCE(stars,0)/50.0 + COALESCE(hn_points,0)/5.0) * GREATEST(0, 1 - EXTRACT(epoch FROM (now() - COALESCE(last_activity_at, now())))/86400.0/180.0) DESC NULLS LAST",
            Sort::Stars => "stars DESC NULLS LAST",
            Sort::Recent => "last_activity_at DESC NULLS LAST",
            Sort::HnPoints => "hn_points DESC NULLS LAST",
        }
    }
}

/// The SQL `ORDER BY` expression of an order: the hottest order weighs stars and
/// Hacker News points and decays them linearly over 180 days without activity.
pub open spec fn order_text(s: Sort) -> Seq<char> {
    match s {
        Sort::Hottest => "(COALESCE(stars,0)/50.0 + COALESCE(hn_points,0)/5.0) * GREATEST(0, 1 - EXTRACT(epoch FROM (now() - COALESCE(last_activity_at, now())))/86400.0/180.0) DESC NULLS LAST"@,
        Sort::Stars => "stars DESC NULLS LAST"@,
        Sort::Recent => "last_activity_at DESC NULLS LAST"@,
        Sort::HnPoints => "hn_points DESC NULLS LAST"@,
    }
}

/// Every listing order puts the largest values first and unknown values last (its
/// `ORDER BY` text ends in `DESC NULLS LAST`), and each order sorts by its own column:
/// the recent order by the last activity, the stars order by stars, the points order by
/// Hacker News points, the hottest order by a score of stars and points.
pub proof fn lemma_orders_descending(s: Sort)
    ensures
        order_text(s).len() >= 16,
        order_text(s).subrange(order_text(s).len() - 16, order_text(s).len() as int)
            == " DESC NULLS LAST"@,
        s == Sort::Recent ==> order_text(s) == "last_activity_at"@ + " DESC NULLS LAST"@,
        s == Sort::Stars ==> order_text(s) == "stars"@ + " DESC NULLS LAST"@,
        s == Sort::HnPoints ==> order_text(s) == "hn_points"@ + " DESC NULLS LAST"@,
        s == Sort::Hottest ==> order_text(s).subrange(0, 52)
            == "(COALESCE(stars,0)/50.0 + COALESCE(hn_points,0)/5.0)"@,
{
    reveal_strlit(" DESC NULLS LAST");
    reveal_strlit("last_activity_at");
    reveal_strlit("stars");
    reveal_strlit("hn_points");
    reveal_strlit("(COALESCE(stars,0)/50.0 + COALESCE(hn_points,0)/5.0)");
    reveal_strlit("last_activity_at DESC NULLS LAST");
    reveal_strlit("stars DESC NULLS LAST");
    reveal_strlit("hn_points DESC NULLS LAST");
    reveal_strlit("(COALESCE(stars,0)/50.0 + COALESCE(hn_points,0)/5.0) * GREATEST(0, 1 - EXTRACT(epoch FROM (now() - COALESCE(last_activity_at, now())))/86400.0/180.0) DESC NULLS LAST");
    let t = order_text(s);
    assert(t.subrange(t.len() - 16, t.len() as int) =~= " DESC NULLS LAST"@);
    match s {
        Sort::Recent => {
            assert(t =~= "last_activity_at"@ + " DESC NULLS LAST"@);
        },
        Sort::Stars => {
            assert(t =~= "stars"@ + " DESC NULLS LAST"@);
        },
        Sort::HnPoints => {
            assert(t =~= "hn_points"@ + " DESC NULLS LAST"@);
        },
        Sort::Hottest => {
            assert(t.subrange(0, 52) =~= "(COALESCE(stars,0)/50.0 + COALESCE(hn_points,0)/5.0)"@);
        },
    }
}

/// The columns of a project row, selected from `projects`.
pub open spec fn select_cols_text() -> Seq<char> {
    "SELECT id, dedup_key, name, full_name, description, repo_url, homepage_url, language, topics, stars, forks, open_issues, hn_points, hn_comment_count, github_created_at, github_updated_at, last_activity_at, source_kinds::text[] AS source_kinds, metadata, first_seen_at, last_collected_at FROM projects"@
}

/// The listing filters, bound as `$1` language, `$2` topic, `$3` source, `$4` activity
/// lower bound, `$5` search text (name, full name or description, ignoring case),
/// `$6` first-sighting lower bound; an unbound (null) one lets every row through.
pub open spec fn filter_text() -> Seq<char> {
    "WHERE ($1::text IS NULL OR language = $1) AND ($2::text IS NULL OR $2 = ANY(topics)) AND ($3::text IS NULL OR $3::source_kind = ANY(source_kinds)) AND ($4::timestamptz IS NULL OR last_activity_at >= $4) AND ($5::text IS NULL OR name ILIKE '%' || $5 || '%' OR full_name ILIKE '%' || $5 || '%' OR description ILIKE '%' || $5 || '%') AND ($6::timestamptz IS NULL OR first_seen_at >= $6)"@
}

/// The columns of the `projects` table, in the order of the fields of [`Project`].
pub open spec fn project_columns() -> Seq<Seq<char>> {
    seq![
        "id"@,
        "dedup_key"@,
        "name"@,
        "full_name"@,
        "description"@,
        "repo_url"@,
        "homepage_url"@,
        "language"@,
        "topics"@,
        "stars"@,
        "forks"@,
        "open_issues"@,
        "hn_points"@,
        "hn_comment_count"@,
        "github_created_at"@,
        "github_updated_at"@,
        "last_activity_at"@,
        "source_kinds"@,
        "metadata"@,
        "first_seen_at"@,
        "last_collected_at"@
    ]
}

/// How a column is read: under its own name; the source kinds, an enum array, cast to
/// text and named again after the column.
pub open spec fn read_column(c: Seq<char>) -> Seq<char> {
    if c == "source_kinds"@ {
        c + "::text[] AS "@ + c
    } else {
        c
    }
}

/// The columns `cols`, each as it is read (see [`read_column`]), joined by `, `.
pub open spec fn select_list(cols: Seq<Seq<char>>) -> Seq<char>
    decreases cols.len(),
{
    if cols.len() == 0 {
        Seq::empty()
    } else if cols.len() == 1 {
        read_column(cols[0])
    } else {
        select_list(cols.drop_last()) + ", "@ + read_column(cols.last())
    }
}

/// A project row is read column by column from `projects`: every column of the table,
/// in order, each under its own name, so that a field of [`Project`] holds the column of
/// the same name (no column is read as another).
#[verifier::rlimit(100)]
#[verifier::spinoff_prover]
pub proof fn lemma_select_reads_own_columns()
    ensures
        select_cols_text() == "SELECT "@ + select_list(project_columns()) + " FROM projects"@,
{
    reveal_strlit("id");
    reveal_strlit("dedup_key");
    reveal_strlit("name");
    reveal_strlit("full_name");
    reveal_strlit("description");
    reveal_strlit("repo_url");
    reveal_strlit("homepage_url");
    reveal_strlit("language");
    reveal_strlit("topics");
    reveal_strlit("stars");
    reveal_strlit("forks");
    reveal_strlit("open_issues");
    reveal_strlit("hn_points");
    reveal_strlit("hn_comment_count");
    reveal_strlit("github_created_at");
    reveal_strlit("github_updated_at");
    reveal_strlit("last_activity_at");
    reveal_strlit("source_kinds");
    reveal_strlit("metadata");
    reveal_strlit("first_seen_at");
    reveal_strlit("last_collected_at");
    reveal_strlit("SELECT ");
    reveal_strlit(" FROM projects");
    reveal_strlit(", ");
    reveal_strlit("::text[] AS ");
    reveal_strlit("SELECT id, dedup_key, name, full_name, description, repo_url, homepage_url, language, topics, stars, forks, open_issues, hn_points, hn_comment_count, github_created_at, github_updated_at, last_activity_at, source_kinds::text[] AS source_kinds, metadata, first_seen_at, last_collected_at FROM projects");
    let t = select_cols_text();
    let cols = project_columns();
    assert(cols[0].len() != 12 || cols[0][0] != 's');
    assert(read_column(cols[0]) == cols[0]);
    assert(select_list(cols.take(1)) =~= t.subrange(7, 9));
    assert(cols.take(2).drop_last() =~= cols.take(1));
    assert(cols[1].len() != 12 || cols[1][0] != 's');
    assert(read_column(cols[1]) == cols[1]);
    assert(select_list(cols.take(2)) =~= t.subrange(7, 20));
    assert(cols.take(3).drop_last() =~= cols.take(2));
    assert(cols[2].len() != 12 || cols[2][0] != 's');
    assert(read_column(cols[2]) == cols[2]);
    assert(select_list(cols.take(3)) =~= t.subrange(7, 26));
    assert(cols.take(4).drop_last() =~= cols.take(3));
    assert(cols[3].len() != 12 || cols[3][0] != 's');
    assert(read_column(cols[3]) == cols[3]);
    assert(select_list(cols.take(4)) =~= t.subrange(7, 37));
    assert(cols.take(5).drop_last() =~= cols.take(4));
    assert(cols[4].len() != 12 || cols[4][0] != 's');
    assert(read_column(cols[4]) == cols[4]);
    assert(select_list(cols.take(5)) =~= t.subrange(7, 50));
    assert(cols.take(6).drop_last() =~= cols.take(5));
    assert(cols[5].len() != 12 || cols[5][0] != 's');
    assert(read_column(cols[5]) == cols[5]);
    assert(select_list(cols.take(6)) =~= t.subrange(7, 60));
    assert(cols.take(7).drop_last() =~= cols.take(6));
    assert(cols[6].len() != 12 || cols[6][0] != 's');
    assert(read_column(cols[6]) == cols[6]);
    assert(select_list(cols.take(7)) =~= t.subrange(7, 74));
    assert(cols.take(8).drop_last() =~= cols.take(7));
    assert(cols[7].len() != 12 || cols[7][0] != 's');
    assert(read_column(cols[7]) == cols[7]);
    assert(select_list(cols.take(8)) =~= t.subrange(7, 84));
    assert(cols.take(9).drop_last() =~= cols.take(8));
    assert(cols[8].len() != 12 || cols[8][0] != 's');
    assert(read_column(cols[8]) == cols[8]);
    assert(select_list(cols.take(9)) =~= t.subrange(7, 92));
    assert(cols.take(10).drop_last() =~= cols.take(9));
    assert(cols[9].len() != 12 || cols[9][0] != 's');
    assert(read_column(cols[9]) == cols[9]);
    assert(select_list(cols.take(10)) =~= t.subrange(7, 99));
    assert(cols.take(11).drop_last() =~= cols.take(10));
    assert(cols[10].len() != 12 || cols[10][0] != 's');
    assert(read_column(cols[10]) == cols[10]);
    assert(select_list(cols.take(11)) =~= t.subrange(7, 106));
    assert(cols.take(12).drop_last() =~= cols.take(11));
    assert(cols[11].len() != 12 || cols[11][0] != 's');
    assert(read_column(cols[11]) == cols[11]);
    assert(select_list(cols.take(12)) =~= t.subrange(7, 119));
    assert(cols.take(13).drop_last() =~= cols.take(12));
    assert(cols[12].len() != 12 || cols[12][0] != 's');
    assert(read_column(cols[12]) == cols[12]);
    assert(select_list(cols.take(13)) =~= t.subrange(7, 130));
    assert(cols.take(14).drop_last() =~= cols.take(13));
    assert(cols[13].len() != 12 || cols[13][0] != 's');
    assert(read_column(cols[13]) == cols[13]);
    assert(select_list(cols.take(14)) =~= t.subrange(7, 148));
    assert(cols.take(15).drop_last() =~= cols.take(14));
    assert(cols[14].len() != 12 || cols[14][0] != 's');
    assert(read_column(cols[14]) == cols[14]);
    assert(select_list(cols.take(15)) =~= t.subrange(7, 167));
    assert(cols.take(16).drop_last() =~= cols.take(15));
    assert(cols[15].len() != 12 || cols[15][0] != 's');
    assert(read_column(cols[15]) == cols[15]);
    assert(select_list(cols.take(16)) =~= t.subrange(7, 186));
    assert(cols.take(17).drop_last() =~= cols.take(16));
    assert(cols[16].len() != 12 || cols[16][0] != 's');
    assert(read_column(cols[16]) == cols[16]);
    assert(select_list(cols.take(17)) =~= t.subrange(7, 204));
    assert(cols.take(18).drop_last() =~= cols.take(17));
    assert(select_list(cols.take(18)) =~= t.subrange(7, 242));
    assert(cols.take(19).drop_last() =~= cols.take(18));
    assert(cols[18].len() != 12 || cols[18][0] != 's');
    assert(read_column(cols[18]) == cols[18]);
    assert(select_list(cols.take(19)) =~= t.subrange(7, 252));
    assert(cols.take(20).drop_last() =~= cols.take(19));
    assert(cols[19].len() != 12 || cols[19][0] != 's');
    assert(read_column(cols[19]) == cols[19]);
    assert(select_list(cols.take(20)) =~= t.subrange(7, 267));
    assert(cols.take(21).drop_last() =~= cols.take(20));
    assert(cols[20].len() != 12 || cols[20][0] != 's');
    assert(read_column(cols[20]) == cols[20]);
    assert(select_list(cols.take(21)) =~= t.subrange(7, 286));
    assert(cols.take(21) =~= cols);
    assert(t =~= "SELECT "@ + t.subrange(7, 286) + " FROM projects"@);
}

/// `w` occurs in `t`.
pub open spec fn contains_text(t: Seq<char>, w: Seq<char>) -> bool {
    exists|i: int| 0 <= i && i + w.len() <= t.len() && #[trigger] t.subrange(i, i + w.len()) == w
}

/// A text found in `t` is found in any text around `t`.
pub proof fn lemma_contains_within(a: Seq<char>, t: Seq<char>, b: Seq<char>, w: Seq<char>)
    requires
        contains_text(t, w),
    ensures
        contains_text(a + t + b, w),
{
    let i = choose|i: int| 0 <= i && i + w.len() <= t.len() && #[trigger] t.subrange(i, i + w.len()) == w;
    let u = a + t + b;
    assert(u.subrange(a.len() + i, a.len() + i + w.len()) =~= t.subrange(i, i + w.len()));
}

/// The conditions a listed project meets, one per bound parameter; an unset (null)
/// parameter lets every project through:
/// `$1` is the language; `$2` is one of the topics; `$3` is one of the sources;
/// `$4` is a lower bound on the last activity (the project was active at or after it);
/// `$5` occurs, ignoring case, in the name, the full name or the description;
/// `$6` is a lower bound on the first sighting.
pub open spec fn filter_clauses() -> Seq<Seq<char>> {
    seq![
        "($1::text IS NULL OR language = $1)"@,
        "($2::text IS NULL OR $2 = ANY(topics))"@,
        "($3::text IS NULL OR $3::source_kind = ANY(source_kinds))"@,
        "($4::timestamptz IS NULL OR last_activity_at >= $4)"@,
        "($5::text IS NULL OR name ILIKE '%' || $5 || '%' OR full_name ILIKE '%' || $5 || '%' OR description ILIKE '%' || $5 || '%')"@,
        "($6::timestamptz IS NULL OR first_seen_at >= $6)"@
    ]
}

/// The listing and its count both apply every filter condition (see
/// [`filter_clauses`]); in particular the activity window keeps only the projects active
/// at or after its bound, and the first-sighting bound only those first seen at or after it.
pub proof fn lemma_listing_filters(sort: Sort)
    ensures
        forall|k: int|
            0 <= k < filter_clauses().len() ==> {
                &&& contains_text(filter_text(), #[trigger] filter_clauses()[k])
                &&& contains_text(
                    select_cols_text() + " "@ + filter_text() + " ORDER BY "@ + order_text(sort)
                        + " LIMIT $7 OFFSET $8"@,
                    filter_clauses()[k],
                )
                &&& contains_text("SELECT count(*) FROM projects "@ + filter_text(), filter_clauses()[k])
            },
{
    reveal_strlit("($1::text IS NULL OR language = $1)");
    reveal_strlit("($2::text IS NULL OR $2 = ANY(topics))");
    reveal_strlit("($3::text IS NULL OR $3::source_kind = ANY(source_kinds))");
    reveal_strlit("($4::timestamptz IS NULL OR last_activity_at >= $4)");
    reveal_strlit("($5::text IS NULL OR name ILIKE '%' || $5 || '%' OR full_name ILIKE '%' || $5 || '%' OR description ILIKE '%' || $5 || '%')");
    reveal_strlit("($6::timestamptz IS NULL OR first_seen_at >= $6)");
    reveal_strlit("WHERE ($1::text IS NULL OR language = $1) AND ($2::text IS NULL OR $2 = ANY(topics)) AND ($3::text IS NULL OR $3::source_kind = ANY(source_kinds)) AND ($4::timestamptz IS NULL OR last_activity_at >= $4) AND ($5::text IS NULL OR name ILIKE '%' || $5 || '%' OR full_name ILIKE '%' || $5 || '%' OR description ILIKE '%' || $5 || '%') AND ($6::timestamptz IS NULL OR first_seen_at >= $6)");
    assert(filter_text().subrange(6, 41) =~= "($1::text IS NULL OR language = $1)"@);
    assert(filter_text().subrange(46, 84) =~= "($2::text IS NULL OR $2 = ANY(topics))"@);
    assert(filter_text().subrange(89, 146) =~= "($3::text IS NULL OR $3::source_kind = ANY(source_kinds))"@);
    assert(filter_text().subrange(151, 202) =~= "($4::timestamptz IS NULL OR last_activity_at >= $4)"@);
    assert(filter_text().subrange(207, 330) =~= "($5::text IS NULL OR name ILIKE '%' || $5 || '%' OR full_name ILIKE '%' || $5 || '%' OR description ILIKE '%' || $5 || '%')"@);
    assert(filter_text().subrange(335, 383) =~= "($6::timestamptz IS NULL OR first_seen_at >= $6)"@);
    assert forall|k: int| 0 <= k < filter_clauses().len() implies contains_text(
        filter_text(),
        #[trigger] filter_clauses()[k],
    ) by {
        let c = filter_clauses()[k];
        let i: int = if k == 0 { 6 } else if k == 1 { 46 } else if k == 2 { 89 } else if k == 3 { 151 } else if k == 4 { 207 } else { 335 };
        assert(filter_text().subrange(i, i + c.len()) == c);
    }
    assert forall|k: int| 0 <= k < filter_clauses().len() implies {
        &&& contains_text(
            select_cols_text() + " "@ + filter_text() + " ORDER BY "@ + order_text(sort)
                + " LIMIT $7 OFFSET $8"@,
            #[trigger] filter_clauses()[k],
        )
        &&& contains_text("SELECT count(*) FROM projects "@ + filter_text(), filter_clauses()[k])
    } by {
        let c = filter_clauses()[k];
        lemma_contains_within(
            select_cols_text() + " "@,
            filter_text(),
            " ORDER BY "@ + order_text(sort) + " LIMIT $7 OFFSET $8"@,
            c,
        );
        assert(select_cols_text() + " "@ + filter_text() + " ORDER BY "@ + order_text(sort)
            + " LIMIT $7 OFFSET $8"@ =~= (select_cols_text() + " "@) + filter_text() + (
        " ORDER BY "@ + order_text(sort) + " LIMIT $7 OFFSET $8"@));
        lemma_contains_within("SELECT count(*) FROM projects "@, filter_text(), Seq::<char>::empty(), c);
        assert("SELECT count(*) FROM projects "@ + filter_text() + Seq::<char>::empty()
            =~= "SELECT count(*) FROM projects "@ + filter_text());
    }
}

/// The `SELECT` of project rows.
pub fn select_cols() -> (r: &'static str)
    ensures
        r@ == select_cols_text(),
{
    "SELECT id, dedup_key, name, full_name, description, repo_url, homepage_url, language, topics, stars, forks, open_issues, hn_points, hn_comment_count, github_created_at, github_updated_at, last_activity_at, source_kinds::text[] AS source_kinds, metadata, first_seen_at, last_collected_at FROM projects"
}

/// The `WHERE` clause of the listing filters.
pub fn filter_sql() -> (r: &'static str)
    ensures
        r@ == filter_text(),
{
    "WHERE ($1::text IS NULL OR language = $1) AND ($2::text IS NULL OR $2 = ANY(topics)) AND ($3::text IS NULL OR $3::source_kind = ANY(source_kinds)) AND ($4::timestamptz IS NULL OR last_activity_at >= $4) AND ($5::text IS NULL OR name ILIKE '%' || $5 || '%' OR full_name ILIKE '%' || $5 || '%' OR description ILIKE '%' || $5 || '%') AND ($6::timestamptz IS NULL OR first_seen_at >= $6)"
}

/// The statement that reads one project by id, bound as `$1`.
pub fn get_sql() -> (r: String)
    ensures
        r@ == select_cols_text() + " WHERE id = $1"@,
{
    let mut v = chars_of(select_cols());
    push_str(&mut v, " WHERE id = $1");
    string_of(&v)
}

/// The statement that counts the projects the listing filters let through.
pub fn count_sql() -> (r: String)
    ensures
        r@ == "SELECT count(*) FROM projects "@ + filter_text(),
{
    let mut v = chars_of("SELECT count(*) FROM projects ");
    push_str(&mut v, filter_sql());
    string_of(&v)
}

/// The filters, order and page of a project listing.
#[derive(Debug, Clone)]
pub struct ProjectFilter {
    pub language: Option<String>,
    pub topic: Option<String>,
    /// `github`, `hackernews`, or none for all sources.
    pub source: Option<String>,
    /// Matched against name, full name and description, ignoring case.
    pub q: Option<String>,
    pub sort: Sort,
    /// Lower bound of the last activity.
    pub since: Option<i64>,
    /// Lower bound of the first sighting (the digest's "new today").
    pub first_seen_since: Option<i64>,
    pub page: i64,
    pub per_page: i64,
}

impl Default for ProjectFilter {
    fn default() -> (f: Self)
        ensures
            f.language is None && f.topic is None && f.source is None && f.q is None,
            f.sort == Sort::Hottest,
            f.since is None && f.first_seen_since is None,
            f.page == 0 && f.per_page == 0,
    {
        ProjectFilter {
            language: None,
            topic: None,
            source: None,
            q: None,
            sort: Sort::Hottest,
            since: None,
            first_seen_since: None,
            page: 0,
            per_page: 0,
        }
    }
}

/// The page size: the requested size clamped into 1..=100.
pub open spec fn page_limit(per_page: i64) -> int {
    if per_page < 1 {
        1
    } else if per_page > 100 {
        100
    } else {
        per_page as int
    }
}

/// The number of rows skipped: the pages before the requested one (pages count from
/// 1; a page below 1 is the first).
pub open spec fn page_offset(page: i64, per_page: i64) -> int {
    ((if page < 1 {
        1
    } else {
        page as int
    }) - 1) * page_limit(per_page)
}

impl ProjectFilter {
    /// The statement of one listing page: the filters, the order, then the page size
    /// bound as `$7` and the offset as `$8` (see [`ProjectFilter::limit_offset`]).
    pub fn list_sql(&self) -> (r: String)
        ensures
            r@ == select_cols_text() + " "@ + filter_text() + " ORDER BY "@ + order_text(self.sort)
                + " LIMIT $7 OFFSET $8"@,
    {
        let mut v = chars_of(select_cols());
        push_str(&mut v, " ");
        push_str(&mut v, filter_sql());
        push_str(&mut v, " ORDER BY ");
        push_str(&mut v, self.sort.order_by());
        push_str(&mut v, " LIMIT $7 OFFSET $8");
        string_of(&v)
    }

    /// Whether the offset of the requested page fits an `i64`.
    pub fn offset_fits(&self) -> (b: bool)
        ensures
            b == (page_offset(self.page, self.per_page) <= i64::MAX),
    {
        let limit: i64 = if self.per_page < 1 {
            1
        } else if self.per_page > 100 {
            100
        } else {
            self.per_page
        };
        let p: i64 = if self.page < 1 {
            1
        } else {
            self.page
        };
        let before = p - 1;
        let r = before <= i64::MAX / limit;
        proof {
            let m = i64::MAX as int;
            let l = limit as int;
            let b = before as int;
            assert(0 < l);
            assert(0 <= b);
            if r {
                assert(b * l <= (m / l) * l) by (nonlinear_arith)
                    requires
                        b <= m / l,
                        0 < l,
                        0 <= b,
                ;
                assert((m / l) * l <= m) by (nonlinear_arith)
                    requires
                        0 < l,
                        0 <= m,
                ;
            } else {
                assert(b * l > m) by (nonlinear_arith)
                    requires
                        b > m / l,
                        0 < l,
                        0 <= m,
                ;
            }
        }
        r
    }

    /// The `LIMIT` and `OFFSET` of the requested page.
    pub fn limit_offset(&self) -> (r: (i64, i64))
        requires
            page_offset(self.page, self.per_page) <= i64::MAX,
        ensures
            r.0 == page_limit(self.per_page),
            r.1 == page_offset(self.page, self.per_page),
            1 <= r.0 <= 100,
            r.1 >= 0,
    {
        let limit: i64 = if self.per_page < 1 {
            1
        } else if self.per_page > 100 {
            100
        } else {
            self.per_page
        };
        let p: i64 = if self.page < 1 {
            1
        } else {
            self.page
        };
        proof {
            assert(0 <= (p - 1) * limit) by (nonlinear_arith)
                requires
                    p >= 1,
                    limit >= 1,
            ;
        }
        (limit, (p - 1) * limit)
    }
}

/// Pages tile the listing: a page holds 1 to 100 rows (the size asked for when it is in
/// that range), the first page starts at the first row, a page number below 1 reads the
/// first page, and each page starts right where the one before it ends.
pub proof fn lemma_pages_tile(page: i64, per_page: i64)
    ensures
        1 <= page_limit(per_page) <= 100,
        1 <= per_page <= 100 ==> page_limit(per_page) == per_page,
        page_offset(1, per_page) == 0,
        page < 1 ==> page_offset(page, per_page) == 0,
        1 <= page < i64::MAX ==> page_offset((page + 1) as i64, per_page) == page_offset(
            page,
            per_page,
        ) + page_limit(per_page),
{
    let l = page_limit(per_page);
    if 1 <= page < i64::MAX {
        let p = page as int;
        assert(p * l == (p - 1) * l + l) by (nonlinear_arith);
    }
}

/// The query parameters of the listing endpoint.
#[derive(Debug, Clone)]
pub struct ListParams {
    pub page: i64,
    pub per_page: i64,
    pub language: Option<String>,
    pub topic: Option<String>,
    pub source: Option<String>,
    pub q: Option<String>,
    /// The order name (see [`Sort::parse`]).
    pub sort: String,
    /// The activity window: `7d`, `30d`, or anything else for no bound.
    pub since: String,
}

/// The page requested when none is given.
pub fn default_page() -> (p: i64)
    ensures
        p == 1,
{
    1
}

/// The page size requested when none is given.
pub fn default_per_page() -> (p: i64)
    ensures
        p == 20,
{
    20
}

/// The lower bound of the last activity for an activity window at `now`.
pub open spec fn since_bound(since: Seq<char>, now: int) -> Option<int> {
    if since == "7d"@ {
        Some(now - 7 * DAY_MICROS)
    } else if since == "30d"@ {
        Some(now - 30 * DAY_MICROS)
    } else {
        None
    }
}

/// The activity windows end at `now` and reach back 7 and 30 days (of 86 400 000 000
/// microseconds each); any other window name sets no bound.
pub proof fn lemma_activity_windows(since: Seq<char>, now: int)
    ensures
        since == "7d"@ ==> since_bound(since, now) == Some(now - 7 * 86_400_000_000),
        since == "30d"@ ==> since_bound(since, now) == Some(now - 30 * 86_400_000_000),
        since != "7d"@ && since != "30d"@ ==> since_bound(since, now) is None,
{
    reveal_strlit("7d");
    reveal_strlit("30d");
    if since == "30d"@ {
        assert("30d"@ != "7d"@) by {
            assert("30d"@.len() != "7d"@.len());
        }
    }
}

impl ListParams {
    /// The listing filter these parameters ask for at `now`.
    pub fn to_filter(&self, now: i64) -> (f: ProjectFilter)
        requires
            now >= i64::MIN + 30 * DAY_MICROS,
        ensures
            f.language == self.language,
            f.topic == self.topic,
            f.source == self.source,
            f.q == self.q,
            f.sort == sort_named(self.sort@),
            match since_bound(self.since@, now as int) {
                Some(b) => f.since == Some(b as i64),
                None => f.since is None,
            },
            f.first_seen_since is None,
            f.page == self.page,
            f.per_page == self.per_page,
    {
        let since = if text_eq(self.since.as_str(), "7d") {
            Some(now - 7 * DAY_MICROS)
        } else if text_eq(self.since.as_str(), "30d") {
            Some(now - 30 * DAY_MICROS)
        } else {
            None
        };
        ProjectFilter {
            language: self.language.clone(),
            topic: self.topic.clone(),
            source: self.source.clone(),
            q: self.q.clone(),
            sort: Sort::parse(self.sort.as_str()),
            since,
            first_seen_since: None,
            page: self.page,
            per_page: self.per_page,
        }
    }
}

/// A project row.
#[derive(Debug, Clone)]
pub struct Project {
    pub id: i64,
    pub dedup_key: String,
    pub name: String,
    pub full_name: Option<String>,
    pub description: Option<String>,
    pub repo_url: Option<String>,
    pub homepage_url: Option<String>,
    pub language: Option<String>,
    pub topics: Vec<String>,
    pub stars: Option<i64>,
    pub forks: Option<i64>,
    pub open_issues: Option<i64>,
    pub hn_points: Option<i64>,
    pub hn_comment_count: Option<i64>,
    pub github_created_at: Option<i64>,
    pub github_updated_at: Option<i64>,
    pub last_activity_at: Option<i64>,
    pub source_kinds: Vec<String>,
    pub metadata: serde_json::Value,
    pub first_seen_at: i64,
    pub last_collected_at: i64,
}

/// A page of the project listing.
#[derive(Debug, Clone)]
pub struct ListResponse {
    pub data: Vec<Project>,
    pub page: i64,
    pub per_page: i64,
    pub total: i64,
}

/// A metric snapshot of a project.
#[derive(Debug, Clone)]
pub struct Snapshot {
    pub id: i64,
    pub project_id: i64,
    pub stars: Option<i64>,
    pub hn_points: Option<i64>,
    pub captured_at: i64,
}

/// A facet value with its number of projects.
#[derive(Debug, Clone, PartialEq, Eq)]
pub struct Facet {
    pub key: String,
    pub count: i64,
}

/// The collection status of a source.
#[derive(Debug, Clone, PartialEq, Eq)]
pub struct SourceStatus {
    pub source: String,
    pub last_collected_at: Option<i64>,
    pub project_count: i64,
}

/// A stored Hacker News story of a project.
#[derive(Debug, Clone, PartialEq, Eq)]
pub struct HnStoryRecord {
    pub object_id: String,
    pub hn_url: String,
    pub linked_url: Option<String>,
    pub author: Option<String>,
    pub points: Option<i64>,
    pub comment_count: Option<i64>,
    pub posted_at: Option<i64>,
}

/// A stored GitHub repository of a project.
#[derive(Debug, Clone, PartialEq, Eq)]
pub struct GithubRepoRecord {
    pub full_name: String,
    pub node_id: Option<String>,
}

/// The source records a project was seen in.
#[derive(Debug, Clone, PartialEq, Eq)]
pub struct ProjectSources {
    pub github: Option<GithubRepoRecord>,
    pub hackernews: Vec<HnStoryRecord>,
}

} // verus!
