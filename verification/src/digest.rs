//! The daily digest: when it goes out, and how its markdown is laid out.
//!
//! Timestamps are microseconds since the Unix epoch, UTC.

use vstd::prelude::*;

use crate::text::{chars_of, decimal, decimal_chars, push_all, push_str, string_of};

verus! {

/// Microseconds in an hour.
pub const HOUR_MICROS: i64 = 3_600_000_000;

/// Microseconds in a day.
pub const DAY_MICROS: i64 = 86_400_000_000;

/// The instant `min(hour, 23):00` UTC on the day of `now`.
pub open spec fn today_at_hour(now: int, hour: u32) -> int {
    let h: int = if hour > 23 {
        23
    } else {
        hour as int
    };
    now - now % (DAY_MICROS as int) + h * (HOUR_MICROS as int)
}

/// The wait from `now` until the next `hour:00` UTC: today's when `now` is before it,
/// else tomorrow's.
pub open spec fn digest_delay(now: int, hour: u32) -> int {
    let today = today_at_hour(now, hour);
    if now < today {
        today - now
    } else {
        today + DAY_MICROS - now
    }
}

/// The wait, in microseconds, from `now` until the next `hour:00` UTC (an hour above
/// 23 counts as 23): today's when `now` is before it, else tomorrow's. The wait is
/// positive, at most a day, and ends on the hour.
pub fn next_digest_delay(now: i64, hour: u32) -> (d: u64)
    requires
        i64::MIN + 2 * DAY_MICROS <= now <= i64::MAX - 2 * DAY_MICROS,
    ensures
        d == digest_delay(now as int, hour),
        0 < d <= DAY_MICROS,
        (now + d) % (DAY_MICROS as int) == (if hour > 23 {
            23
        } else {
            hour as int
        }) * HOUR_MICROS,
{
    let r = now.checked_rem_euclid(DAY_MICROS).unwrap();
    let h: i64 = if hour > 23 {
        23
    } else {
        hour as i64
    };
    let today = now - r + h * HOUR_MICROS;
    let target = if now < today {
        today
    } else {
        today + DAY_MICROS
    };
    proof {
        lemma_delay_lands_on_hour(now as int, hour);
    }
    (target - now) as u64
}

/// The wait ends on `min(hour, 23):00` of some day.
proof fn lemma_delay_lands_on_hour(now: int, hour: u32)
    ensures
        0 < digest_delay(now, hour) <= DAY_MICROS,
        (now + digest_delay(now, hour)) % (DAY_MICROS as int) == (if hour > 23 {
            23
        } else {
            hour as int
        }) * HOUR_MICROS,
{
    let dm = DAY_MICROS as int;
    let h: int = if hour > 23 {
        23
    } else {
        hour as int
    };
    vstd::arithmetic::div_mod::lemma_fundamental_div_mod(now, dm);
    let q = now / dm;
    assert(0 <= now % dm < dm);
    assert(now - now % dm == q * dm);
    assert((q * dm + h * HOUR_MICROS) % dm == h * HOUR_MICROS) by {
        vstd::arithmetic::div_mod::lemma_mod_multiples_vanish(q, h * HOUR_MICROS, dm);
        vstd::arithmetic::div_mod::lemma_small_mod((h * HOUR_MICROS) as nat, dm as nat);
    }
    assert(((q + 1) * dm + h * HOUR_MICROS) % dm == h * HOUR_MICROS) by {
        vstd::arithmetic::div_mod::lemma_mod_multiples_vanish(q + 1, h * HOUR_MICROS, dm);
        vstd::arithmetic::div_mod::lemma_small_mod((h * HOUR_MICROS) as nat, dm as nat);
    }
    assert((q + 1) * dm == q * dm + dm) by (nonlinear_arith);
}

/// The digest goes out once a day: when the wait from any instant has passed, the wait
/// for the next digest is exactly one day.
pub proof fn lemma_digest_daily(now: int, hour: u32)
    ensures
        digest_delay(now + digest_delay(now, hour), hour) == DAY_MICROS,
{
    lemma_delay_lands_on_hour(now, hour);
    let t = now + digest_delay(now, hour);
    let h: int = if hour > 23 {
        23
    } else {
        hour as int
    };
    assert(t % (DAY_MICROS as int) == h * HOUR_MICROS);
    assert(today_at_hour(t, hour) == t);
}

/// One project of the digest, with its counts already rendered for display.
pub struct DigestEntry {
    pub name: String,
    pub full_name: Option<String>,
    pub repo_url: Option<String>,
    /// The rendered star count.
    pub stars: Option<String>,
    /// The rendered star gain over the last day.
    pub star_delta: Option<String>,
    /// The rendered Hacker News points.
    pub hn_points: Option<String>,
    pub description: Option<String>,
}

/// A digest ready to send.
pub struct DigestReport {
    pub title: String,
    pub markdown: String,
    pub count: usize,
}

/// The text of `o`, or `d` when absent.
pub open spec fn text_or(o: Option<String>, d: Seq<char>) -> Seq<char> {
    match o {
        Some(s) => s@,
        None => d,
    }
}

/// `s` with each line feed turned into a space.
pub open spec fn one_line(s: Seq<char>) -> Seq<char> {
    s.map_values(|c: char|
        if c == '\n' {
            ' '
        } else {
            c
        })
}

/// The first line of entry number `n`: a numbered bold link with the star count, and
/// the star gain and the Hacker News points when known.
pub open spec fn entry_head(n: nat, e: DigestEntry) -> Seq<char> {
    let name = text_or(e.full_name, e.name@);
    let link = text_or(e.repo_url, "#"@);
    let stars = text_or(e.stars, "-"@);
    let delta = match e.star_delta {
        Some(d) => " 🔺+"@ + d@,
        None => Seq::<char>::empty(),
    };
    let hn = match e.hn_points {
        Some(h) => " · 🟧"@ + h@,
        None => Seq::<char>::empty(),
    };
    decimal(n) + ". **["@ + name + "]("@ + link + ")** ⭐"@ + stars + delta + hn + "\n"@
}

/// The entry without its star gain and Hacker News points.
pub open spec fn without_metrics(e: DigestEntry) -> DigestEntry {
    DigestEntry {
        name: e.name,
        full_name: e.full_name,
        repo_url: e.repo_url,
        stars: e.stars,
        star_delta: None,
        hn_points: None,
        description: e.description,
    }
}

/// An entry's first line names the project (its full name, else its name), links it
/// (`#` without a link) and gives its star count (`-` when unknown); after the count come
/// the star gain behind `🔺+` and then the Hacker News points behind `🟧`, each only when
/// known; the line ends there.
pub proof fn lemma_entry_metrics(n: nat, e: DigestEntry)
    ensures
        ({
            let plain = decimal(n) + ". **["@ + text_or(e.full_name, e.name@) + "]("@ + text_or(
                e.repo_url,
                "#"@,
            ) + ")** ⭐"@ + text_or(e.stars, "-"@);
            &&& entry_head(n, without_metrics(e)) == plain + "\n"@
            &&& e.star_delta matches Some(d) ==> (e.hn_points is None ==> entry_head(n, e)
                == plain + " 🔺+"@ + d@ + "\n"@)
            &&& e.hn_points matches Some(h) ==> (e.star_delta is None ==> entry_head(n, e)
                == plain + " · 🟧"@ + h@ + "\n"@)
            &&& e.star_delta matches Some(d) ==> (e.hn_points matches Some(h) ==> entry_head(n, e)
                == plain + " 🔺+"@ + d@ + " · 🟧"@ + h@ + "\n"@)
            &&& (e.star_delta is None && e.hn_points is None) ==> entry_head(n, e) == plain + "\n"@
        }),
{
    let plain = decimal(n) + ". **["@ + text_or(e.full_name, e.name@) + "]("@ + text_or(
        e.repo_url,
        "#"@,
    ) + ")** ⭐"@ + text_or(e.stars, "-"@);
    assert(entry_head(n, without_metrics(e)) =~= plain + Seq::<char>::empty() + Seq::<char>::empty() + "\n"@);
    assert(entry_head(n, without_metrics(e)) =~= plain + "\n"@);
    match (e.star_delta, e.hn_points) {
        (Some(d), Some(h)) => {
            assert(entry_head(n, e) =~= plain + " 🔺+"@ + d@ + " · 🟧"@ + h@ + "\n"@);
        },
        (Some(d), None) => {
            assert(entry_head(n, e) =~= plain + (" 🔺+"@ + d@) + Seq::<char>::empty() + "\n"@);
            assert(entry_head(n, e) =~= plain + " 🔺+"@ + d@ + "\n"@);
        },
        (None, Some(h)) => {
            assert(entry_head(n, e) =~= plain + Seq::<char>::empty() + (" · 🟧"@ + h@) + "\n"@);
            assert(entry_head(n, e) =~= plain + " · 🟧"@ + h@ + "\n"@);
        },
        (None, None) => {
            assert(entry_head(n, e) =~= plain + Seq::<char>::empty() + Seq::<char>::empty() + "\n"@);
            assert(entry_head(n, e) =~= plain + "\n"@);
        },
    }
}

/// The description line of an entry: indented, on one line, and absent when the
/// description is empty or unknown.
pub open spec fn entry_desc(e: DigestEntry) -> Seq<char> {
    match e.description {
        Some(d) => if d@.len() > 0 {
            "   "@ + one_line(d@) + "\n"@
        } else {
            Seq::<char>::empty()
        },
        None => Seq::<char>::empty(),
    }
}

/// The markdown of entry number `n`.
pub open spec fn entry_markdown(n: nat, e: DigestEntry) -> Seq<char> {
    entry_head(n, e) + entry_desc(e)
}

/// The markdown of the entries, numbered from 1.
pub open spec fn entries_markdown(es: Seq<DigestEntry>) -> Seq<char>
    decreases es.len(),
{
    if es.len() == 0 {
        Seq::<char>::empty()
    } else {
        entries_markdown(es.drop_last()) + entry_markdown(es.len(), es.last())
    }
}

/// The digest title for a month and day.
pub open spec fn digest_title(month: u32, day: u32) -> Seq<char> {
    "开源雷达日报 · "@ + decimal(month as nat) + "月"@ + decimal(day as nat) + "日"@
}

/// The digest markdown: a heading with the number of entries, then the entries.
pub open spec fn digest_markdown(es: Seq<DigestEntry>) -> Seq<char> {
    "## 上升最快 TOP "@ + decimal(es.len()) + "\n\n"@ + entries_markdown(es)
}

/// Entries are numbered from 1 in their order: one more entry adds its markdown, numbered
/// one past the entries before it, after theirs.
pub proof fn lemma_entries_numbered(es: Seq<DigestEntry>, e: DigestEntry)
    ensures
        entries_markdown(es.push(e)) == entries_markdown(es) + entry_markdown(es.len() + 1, e),
        entries_markdown(seq![e]) == entry_markdown(1, e),
{
    assert(es.push(e).drop_last() =~= es);
    assert(seq![e].drop_last() =~= Seq::<DigestEntry>::empty());
    assert(entries_markdown(Seq::<DigestEntry>::empty()) + entry_markdown(1, e) =~= entry_markdown(
        1,
        e,
    ));
}

/// The title gives the month, followed by 月, then the day, followed by 日; the heading of
/// the markdown gives the number of entries.
pub proof fn lemma_digest_title_and_heading(month: u32, day: u32, es: Seq<DigestEntry>)
    ensures
        ({
            let t = digest_title(month, day);
            let tail = decimal(day as nat) + "日"@;
            &&& t.subrange(t.len() - tail.len(), t.len() as int) == tail
            &&& t.subrange(0, t.len() - tail.len()) == "开源雷达日报 · "@ + decimal(month as nat)
                + "月"@
        }),
        digest_markdown(es).subrange(0, ("## 上升最快 TOP "@ + decimal(es.len()) + "\n\n"@).len() as int)
            == "## 上升最快 TOP "@ + decimal(es.len()) + "\n\n"@,
{
    let t = digest_title(month, day);
    let tail = decimal(day as nat) + "日"@;
    let head = "开源雷达日报 · "@ + decimal(month as nat) + "月"@;
    assert(t =~= head + tail);
    assert(t.subrange(t.len() - tail.len(), t.len() as int) =~= tail);
    assert(t.subrange(0, t.len() - tail.len()) =~= head);
    let h = "## 上升最快 TOP "@ + decimal(es.len()) + "\n\n"@;
    assert(digest_markdown(es).subrange(0, h.len() as int) =~= h);
}

fn push_text_or(v: &mut Vec<char>, o: &Option<String>, d: &str)
    ensures
        final(v)@ == old(v)@ + text_or(*o, d@),
{
    match o {
        Some(s) => push_str(v, s.as_str()),
        None => push_str(v, d),
    }
}

fn push_one_line(v: &mut Vec<char>, s: &str)
    ensures
        final(v)@ == old(v)@ + one_line(s@),
{
    let w = chars_of(s);
    let mut i: usize = 0;
    while i < w.len()
        invariant
            i <= w@.len(),
            v@ == old(v)@ + one_line(w@.take(i as int)),
        decreases w@.len() - i,
    {
        let c = w[i];
        v.push(if c == '\n' { ' ' } else { c });
        i = i + 1;
        assert(one_line(w@.take(i as int)) =~= one_line(w@.take(i - 1)).push(
            if c == '\n' { ' ' } else { c },
        ));
        assert(v@ =~= old(v)@ + one_line(w@.take(i as int)));
    }
    assert(w@.take(w@.len() as int) =~= w@);
}

fn push_opt_prefixed(v: &mut Vec<char>, o: &Option<String>, prefix: &str)
    ensures
        final(v)@ == old(v)@ + match *o {
            Some(x) => prefix@ + x@,
            None => Seq::<char>::empty(),
        },
{
    match o {
        Some(x) => {
            push_str(v, prefix);
            push_str(v, x.as_str());
            assert(v@ =~= old(v)@ + (prefix@ + x@));
        },
        None => {
            assert(v@ =~= old(v)@ + Seq::<char>::empty());
        },
    }
}

#[verifier::spinoff_prover]
#[verifier::rlimit(40)]
fn push_entry_head(v: &mut Vec<char>, n: u64, e: &DigestEntry)
    ensures
        final(v)@ == old(v)@ + entry_head(n as nat, *e),
{
    let ghost start = v@;
    let digits = decimal_chars(n);
    push_all(v, &digits);
    push_str(v, ". **[");
    match &e.full_name {
        Some(f) => push_str(v, f.as_str()),
        None => push_str(v, e.name.as_str()),
    }
    let ghost a = v@;
    assert(a =~= start + (decimal(n as nat) + ". **["@ + text_or(e.full_name, e.name@)));
    push_str(v, "](");
    push_text_or(v, &e.repo_url, "#");
    push_str(v, ")** ⭐");
    push_text_or(v, &e.stars, "-");
    let ghost b = v@;
    assert(b =~= a + ("]("@ + text_or(e.repo_url, "#"@) + ")** ⭐"@ + text_or(e.stars, "-"@)));
    push_opt_prefixed(v, &e.star_delta, " 🔺+");
    push_opt_prefixed(v, &e.hn_points, " · 🟧");
    push_str(v, "\n");
    assert(v@ =~= start + entry_head(n as nat, *e));
}

fn push_entry(v: &mut Vec<char>, n: u64, e: &DigestEntry)
    ensures
        final(v)@ == old(v)@ + entry_markdown(n as nat, *e),
{
    let ghost start = v@;
    push_entry_head(v, n, e);
    let ghost mid = v@;
    match &e.description {
        Some(d) => {
            if !d.as_str().is_empty() {
                push_str(v, "   ");
                push_one_line(v, d.as_str());
                push_str(v, "\n");
                assert(v@ =~= mid + entry_desc(*e));
            } else {
                assert(v@ =~= mid + entry_desc(*e));
            }
        },
        None => {
            assert(v@ =~= mid + entry_desc(*e));
        },
    }
    assert(v@ =~= start + entry_markdown(n as nat, *e));
}

/// The digest of the projects in `entries`, in their order; `None` when there is none,
/// so that no empty digest goes out.
pub fn render_digest(entries: &Vec<DigestEntry>, month: u32, day: u32) -> (r: Option<
    DigestReport,
>)
    ensures
        entries@.len() == 0 <==> r is None,
        r matches Some(rep) ==> {
            &&& rep.count == entries@.len()
            &&& rep.title@ == digest_title(month, day)
            &&& rep.markdown@ == digest_markdown(entries@)
        },
{
    if entries.len() == 0 {
        return None;
    }
    let count = entries.len();
    let mut t = chars_of("开源雷达日报 · ");
    let m = decimal_chars(month as u64);
    push_all(&mut t, &m);
    push_str(&mut t, "月");
    let d = decimal_chars(day as u64);
    push_all(&mut t, &d);
    push_str(&mut t, "日");
    let mut md = chars_of("## 上升最快 TOP ");
    let c = decimal_chars(count as u64);
    push_all(&mut md, &c);
    push_str(&mut md, "\n\n");
    let ghost header = md@;
    let mut i: usize = 0;
    while i < count
        invariant
            i <= count == entries@.len(),
            md@ == header + entries_markdown(entries@.take(i as int)),
        decreases count - i,
    {
        push_entry(&mut md, (i + 1) as u64, &entries[i]);
        proof {
            let es = entries@.take(i + 1);
            assert(es.drop_last() =~= entries@.take(i as int));
            assert(es.last() == entries@[i as int]);
        }
        i = i + 1;
    }
    assert(entries@.take(count as int) =~= entries@);
    Some(DigestReport { title: string_of(&t), markdown: string_of(&md), count })
}

} // verus!
