//! Character-level text helpers: ASCII case folding, Unicode whitespace trimming,
//! decimal rendering, and conversion between `str`/`String` and `Vec<char>`.

use vstd::prelude::*;

verus! {

/// `c` with an ASCII capital letter mapped to its small letter; any other char unchanged.
pub open spec fn lower_char(c: char) -> char {
    if 'A' <= c && c <= 'Z' {
        ((c as u32) + 32) as char
    } else {
        c
    }
}

/// The ASCII lowercase form of a text (`str::to_ascii_lowercase`).
pub open spec fn lower(s: Seq<char>) -> Seq<char> {
    s.map_values(|c: char| lower_char(c))
}

/// The chars with the Unicode `White_Space` property, the set `str::trim` removes.
pub open spec fn is_white_space(c: char) -> bool {
    ||| ('\u{9}' <= c && c <= '\u{d}')
    ||| c == ' '
    ||| c == '\u{85}'
    ||| c == '\u{a0}'
    ||| c == '\u{1680}'
    ||| ('\u{2000}' <= c && c <= '\u{200a}')
    ||| c == '\u{2028}'
    ||| c == '\u{2029}'
    ||| c == '\u{202f}'
    ||| c == '\u{205f}'
    ||| c == '\u{3000}'
}

/// `s` without its leading white space.
pub open spec fn trim_start(s: Seq<char>) -> Seq<char>
    decreases s.len(),
{
    if s.len() > 0 && is_white_space(s[0]) {
        trim_start(s.drop_first())
    } else {
        s
    }
}

/// `s` without its trailing white space.
pub open spec fn trim_end(s: Seq<char>) -> Seq<char>
    decreases s.len(),
{
    if s.len() > 0 && is_white_space(s.last()) {
        trim_end(s.drop_last())
    } else {
        s
    }
}

/// `s` without leading and trailing white space (`str::trim`).
pub open spec fn trim(s: Seq<char>) -> Seq<char> {
    trim_end(trim_start(s))
}

/// `s` without the trailing `c` chars (`str::trim_end_matches` with one char).
pub open spec fn trim_end_char(s: Seq<char>, c: char) -> Seq<char>
    decreases s.len(),
{
    if s.len() > 0 && s.last() == c {
        trim_end_char(s.drop_last(), c)
    } else {
        s
    }
}

/// The decimal digit char of `d` (for `d < 10`).
pub open spec fn digit_char(d: nat) -> char {
    ((d + 48) as u32) as char
}

/// The decimal rendering of `n`, without sign or leading zeros (`u64::to_string`).
pub open spec fn decimal(n: nat) -> Seq<char>
    decreases n,
{
    if n < 10 {
        seq![digit_char(n)]
    } else {
        decimal(n / 10).push(digit_char(n % 10))
    }
}

/// Appends one char to a `String` (`String::push`).
#[verifier::external_body]
fn push_char(s: &mut String, c: char)
    ensures
        final(s)@ == old(s)@.push(c),
{
    s.push(c);
}

/// The chars of a string slice, in order.
pub fn chars_of(s: &str) -> (v: Vec<char>)
    ensures
        v@ == s@,
{
    let mut v: Vec<char> = Vec::new();
    for c in it: s.chars()
        invariant
            v@ == it.seq().take(it.index() as int),
    {
        v.push(c);
    }
    v
}

/// The string made of the chars `v@[from..to]`.
pub fn string_of_range(v: &Vec<char>, from: usize, to: usize) -> (s: String)
    requires
        from <= to <= v@.len(),
    ensures
        s@ == v@.subrange(from as int, to as int),
{
    let mut s = String::new();
    let mut i = from;
    while i < to
        invariant
            from <= i <= to <= v@.len(),
            s@ == v@.subrange(from as int, i as int),
        decreases to - i,
    {
        push_char(&mut s, v[i]);
        i = i + 1;
        assert(s@ =~= v@.subrange(from as int, i as int));
    }
    s
}

/// The string made of the chars `v@`.
pub fn string_of(v: &Vec<char>) -> (s: String)
    ensures
        s@ == v@,
{
    let s = string_of_range(v, 0, v.len());
    assert(v@.subrange(0, v@.len() as int) =~= v@);
    s
}

/// The ASCII lowercase copy of `v@[from..to]`.
pub fn lower_range(v: &Vec<char>, from: usize, to: usize) -> (r: Vec<char>)
    requires
        from <= to <= v@.len(),
    ensures
        r@ == lower(v@.subrange(from as int, to as int)),
{
    let mut r: Vec<char> = Vec::new();
    let mut i = from;
    while i < to
        invariant
            from <= i <= to <= v@.len(),
            r@ == lower(v@.subrange(from as int, i as int)),
        decreases to - i,
    {
        let c = v[i];
        let l = if 'A' <= c && c <= 'Z' {
            ((c as u8) + 32) as char
        } else {
            c
        };
        r.push(l);
        i = i + 1;
        assert(r@ =~= lower(v@.subrange(from as int, i as int)));
    }
    r
}

/// Whether `c` is Unicode white space (see [`is_white_space`]).
pub fn is_white_space_exec(c: char) -> (b: bool)
    ensures
        b == is_white_space(c),
{
    ('\u{9}' <= c && c <= '\u{d}') || c == ' ' || c == '\u{85}' || c == '\u{a0}' || c == '\u{1680}'
        || ('\u{2000}' <= c && c <= '\u{200a}') || c == '\u{2028}' || c == '\u{2029}' || c
        == '\u{202f}' || c == '\u{205f}' || c == '\u{3000}'
}

/// The bounds `(a, b)` with `v@[a..b]` equal to the trimmed text of `v@`.
pub fn trim_bounds(v: &Vec<char>) -> (r: (usize, usize))
    ensures
        r.0 <= r.1 <= v@.len(),
        v@.subrange(r.0 as int, r.1 as int) == trim(v@),
{
    let n = v.len();
    let mut i: usize = 0;
    assert(v@.subrange(0, n as int) =~= v@);
    while i < n && is_white_space_exec(v[i])
        invariant
            i <= n == v@.len(),
            trim_start(v@) == trim_start(v@.subrange(i as int, n as int)),
        decreases n - i,
    {
        assert(v@.subrange(i as int, n as int).drop_first() =~= v@.subrange(i + 1, n as int));
        i = i + 1;
    }
    assert(trim_start(v@) == v@.subrange(i as int, n as int));
    let mut j: usize = n;
    while j > i && is_white_space_exec(v[j - 1])
        invariant
            i <= j <= n == v@.len(),
            trim_start(v@) == v@.subrange(i as int, n as int),
            trim(v@) == trim_end(v@.subrange(i as int, j as int)),
        decreases j,
    {
        assert(v@.subrange(i as int, j as int).drop_last() =~= v@.subrange(i as int, j - 1));
        j = j - 1;
    }
    (i, j)
}

/// Removes the trailing `c` chars from `r`.
pub fn trim_end_char_vec(r: &mut Vec<char>, c: char)
    ensures
        final(r)@ == trim_end_char(old(r)@, c),
{
    while r.len() > 0 && r[r.len() - 1] == c
        invariant
            trim_end_char(old(r)@, c) == trim_end_char(r@, c),
        decreases r@.len(),
    {
        let ghost before = r@;
        r.pop();
        assert(r@ =~= before.drop_last());
    }
}

/// Appends the chars of `w` to `v`.
pub fn push_all(v: &mut Vec<char>, w: &Vec<char>)
    ensures
        final(v)@ == old(v)@ + w@,
{
    let mut i: usize = 0;
    while i < w.len()
        invariant
            i <= w@.len(),
            v@ == old(v)@ + w@.take(i as int),
        decreases w@.len() - i,
    {
        v.push(w[i]);
        i = i + 1;
        assert(v@ =~= old(v)@ + w@.take(i as int));
    }
    assert(w@.take(w@.len() as int) =~= w@);
}

/// Appends the chars of `s` to `v`.
pub fn push_str(v: &mut Vec<char>, s: &str)
    ensures
        final(v)@ == old(v)@ + s@,
{
    let w = chars_of(s);
    push_all(v, &w);
}

/// The decimal rendering of `n` as chars.
pub fn decimal_chars(n: u64) -> (r: Vec<char>)
    ensures
        r@ == decimal(n as nat),
    decreases n,
{
    if n < 10 {
        let c = ((n as u8) + 48) as char;
        let mut r: Vec<char> = Vec::new();
        r.push(c);
        assert(r@ =~= seq![digit_char(n as nat)]);
        r
    } else {
        let mut r = decimal_chars(n / 10);
        let d = ((n % 10) as u8 + 48) as char;
        r.push(d);
        r
    }
}

/// The decimal rendering of a signed integer, with `-` before a negative one
/// (`i64::to_string`).
pub open spec fn signed_decimal(n: int) -> Seq<char> {
    if n < 0 {
        seq!['-'] + decimal((-n) as nat)
    } else {
        decimal(n as nat)
    }
}

/// The decimal rendering of a signed `n` as chars.
pub fn signed_decimal_chars(n: i64) -> (r: Vec<char>)
    ensures
        r@ == signed_decimal(n as int),
{
    if n < 0 {
        let magnitude: u64 = ((-(n + 1)) as u64) + 1;
        let mut r: Vec<char> = Vec::new();
        r.push('-');
        let d = decimal_chars(magnitude);
        push_all(&mut r, &d);
        r
    } else {
        decimal_chars(n as u64)
    }
}

/// The first index at or after `start` whose char is one of `stops`; `t.len()` when none is.
pub open spec fn first_any(t: Seq<char>, start: int, stops: Seq<char>) -> int
    decreases t.len() - start,
{
    if start >= t.len() {
        t.len() as int
    } else if stops.contains(t[start]) {
        start
    } else {
        first_any(t, start + 1, stops)
    }
}

/// What `first_any` returns: a bound after `start` with no stop char before it,
/// and a stop char at it unless it is the end.
pub proof fn lemma_first_any(t: Seq<char>, start: int, stops: Seq<char>)
    requires
        0 <= start <= t.len(),
    ensures
        start <= first_any(t, start, stops) <= t.len(),
        forall|k: int| start <= k < first_any(t, start, stops) ==> !stops.contains(#[trigger] t[k]),
        first_any(t, start, stops) < t.len() ==> stops.contains(t[first_any(t, start, stops)]),
    decreases t.len() - start,
{
    if start < t.len() && !stops.contains(t[start]) {
        lemma_first_any(t, start + 1, stops);
    }
}

/// Searching after a prefix is searching the rest, shifted by the prefix length.
pub proof fn lemma_first_any_shift(p: Seq<char>, s: Seq<char>, j: int, stops: Seq<char>)
    requires
        0 <= j <= s.len(),
    ensures
        first_any(p + s, p.len() + j, stops) == p.len() + first_any(s, j, stops),
    decreases s.len() - j,
{
    if j < s.len() {
        assert((p + s)[p.len() + j] == s[j]);
        lemma_first_any_shift(p, s, j + 1, stops);
    }
}

/// A search that meets a stop char in a text meets the same one in any longer text.
pub proof fn lemma_first_any_prefix(a: Seq<char>, b: Seq<char>, j: int, stops: Seq<char>)
    requires
        0 <= j <= a.len(),
        first_any(a, j, stops) < a.len(),
    ensures
        first_any(a + b, j, stops) == first_any(a, j, stops),
    decreases a.len() - j,
{
    assert((a + b)[j] == a[j]);
    if !stops.contains(a[j]) {
        lemma_first_any_prefix(a, b, j + 1, stops);
    }
}

/// A search that meets no stop char runs to the end.
pub proof fn lemma_first_any_none(t: Seq<char>, start: int, stops: Seq<char>)
    requires
        0 <= start <= t.len(),
        forall|k: int| start <= k < t.len() ==> !stops.contains(#[trigger] t[k]),
    ensures
        first_any(t, start, stops) == t.len(),
{
    lemma_first_any(t, start, stops);
}

/// `stops` holds no ASCII capital or small letter.
pub open spec fn no_letters(stops: Seq<char>) -> bool {
    forall|k: int| 0 <= k < stops.len() ==> !('A' <= #[trigger] stops[k] <= 'Z') && !('a'
        <= stops[k] <= 'z')
}

/// Lowercasing does not move the first stop char when no stop char is a letter.
pub proof fn lemma_first_any_lower(t: Seq<char>, start: int, stops: Seq<char>)
    requires
        0 <= start <= t.len(),
        no_letters(stops),
    ensures
        first_any(lower(t), start, stops) == first_any(t, start, stops),
    decreases t.len() - start,
{
    if start < t.len() {
        let c = t[start];
        assert(lower(t)[start] == lower_char(c));
        if stops.contains(c) {
            let k = choose|k: int| 0 <= k < stops.len() && stops[k] == c;
            assert(lower_char(c) == c);
        } else {
            if stops.contains(lower_char(c)) {
                let k = choose|k: int| 0 <= k < stops.len() && stops[k] == lower_char(c);
                assert(stops[k] == lower_char(c));
                assert(false);
            }
        }
        lemma_first_any_lower(t, start + 1, stops);
    }
}

/// Lowercasing and trimming commute.
pub proof fn lemma_trim_lower(s: Seq<char>)
    ensures
        trim(lower(s)) == lower(trim(s)),
{
    lemma_trim_start_lower(s);
    lemma_trim_end_lower(trim_start(s));
}

proof fn lemma_trim_start_lower(s: Seq<char>)
    ensures
        trim_start(lower(s)) == lower(trim_start(s)),
    decreases s.len(),
{
    if s.len() > 0 {
        assert(lower(s)[0] == lower_char(s[0]));
        if is_white_space(s[0]) {
            assert(lower(s).drop_first() =~= lower(s.drop_first()));
            lemma_trim_start_lower(s.drop_first());
        }
    } else {
        assert(lower(s) =~= s);
    }
}

proof fn lemma_trim_end_lower(s: Seq<char>)
    ensures
        trim_end(lower(s)) == lower(trim_end(s)),
    decreases s.len(),
{
    if s.len() > 0 {
        assert(lower(s).last() == lower_char(s.last()));
        if is_white_space(s.last()) {
            assert(lower(s).drop_last() =~= lower(s.drop_last()));
            lemma_trim_end_lower(s.drop_last());
        }
    } else {
        assert(lower(s) =~= s);
    }
}

/// Trailing white space after a text that does not end in white space is all that
/// trimming the end removes.
pub proof fn lemma_trim_end_concat(p: Seq<char>, s: Seq<char>)
    requires
        p.len() > 0,
        !is_white_space(p.last()),
    ensures
        trim_end(p + s) == p + trim_end(s),
    decreases s.len(),
{
    if s.len() == 0 {
        assert(p + s =~= p);
        assert(trim_end(s) =~= s);
    } else {
        assert((p + s).last() == s.last());
        if is_white_space(s.last()) {
            assert((p + s).drop_last() =~= p + s.drop_last());
            lemma_trim_end_concat(p, s.drop_last());
        }
    }
}

/// Trimming the end keeps a prefix of the text, and keeps every char up to one that is
/// not white space.
pub proof fn lemma_trim_end_keeps(s: Seq<char>, i: int)
    requires
        0 <= i < s.len(),
        !is_white_space(s[i]),
    ensures
        i < trim_end(s).len() <= s.len(),
        trim_end(s) == s.subrange(0, trim_end(s).len() as int),
    decreases s.len(),
{
    if is_white_space(s.last()) {
        assert(i < s.len() - 1);
        assert(s.drop_last()[i] == s[i]);
        lemma_trim_end_keeps(s.drop_last(), i);
        assert(trim_end(s) == trim_end(s.drop_last()));
        let n = trim_end(s).len() as int;
        assert(s.drop_last().subrange(0, n) =~= s.subrange(0, n));
    } else {
        assert(s.subrange(0, s.len() as int) =~= s);
    }
}

/// Trimming the end keeps a prefix of the text.
pub proof fn lemma_trim_end_prefix(s: Seq<char>)
    ensures
        trim_end(s).len() <= s.len(),
        trim_end(s) == s.subrange(0, trim_end(s).len() as int),
    decreases s.len(),
{
    if s.len() > 0 && is_white_space(s.last()) {
        lemma_trim_end_prefix(s.drop_last());
        let n = trim_end(s).len() as int;
        assert(s.drop_last().subrange(0, n) =~= s.subrange(0, n));
    } else {
        assert(s.subrange(0, s.len() as int) =~= s);
    }
}

/// A text that starts with a char that is not white space loses nothing at its start
/// when trimmed.
pub proof fn lemma_trim_start_keeps(s: Seq<char>)
    requires
        s.len() > 0,
        !is_white_space(s[0]),
    ensures
        trim_start(s) == s,
{
}

/// Trimming trailing `c` chars keeps a prefix that does not end in `c`, so trimming
/// again changes nothing.
pub proof fn lemma_trim_end_char(s: Seq<char>, c: char)
    ensures
        trim_end_char(s, c).len() <= s.len(),
        trim_end_char(s, c) == s.subrange(0, trim_end_char(s, c).len() as int),
        trim_end_char(s, c).len() == 0 || trim_end_char(s, c).last() != c,
        trim_end_char(trim_end_char(s, c), c) == trim_end_char(s, c),
    decreases s.len(),
{
    if s.len() > 0 && s.last() == c {
        lemma_trim_end_char(s.drop_last(), c);
        let n = trim_end_char(s, c).len() as int;
        assert(s.drop_last().subrange(0, n) =~= s.subrange(0, n));
    } else {
        assert(s.subrange(0, s.len() as int) =~= s);
    }
}

proof fn lemma_trim_start_first(s: Seq<char>)
    ensures
        trim_start(s).len() == 0 || !is_white_space(trim_start(s)[0]),
    decreases s.len(),
{
    if s.len() > 0 && is_white_space(s[0]) {
        lemma_trim_start_first(s.drop_first());
    }
}

proof fn lemma_trim_end_last(s: Seq<char>)
    ensures
        trim_end(s).len() == 0 || !is_white_space(trim_end(s).last()),
    decreases s.len(),
{
    if s.len() > 0 && is_white_space(s.last()) {
        lemma_trim_end_last(s.drop_last());
    }
}

/// Trimming twice is trimming once.
pub proof fn lemma_trim_idempotent(s: Seq<char>)
    ensures
        trim(trim(s)) == trim(s),
{
    let a = trim_start(s);
    let b = trim_end(a);
    lemma_trim_start_first(s);
    lemma_trim_end_prefix(a);
    lemma_trim_end_last(a);
    if b.len() > 0 {
        assert(b[0] == a[0]);
        lemma_trim_start_keeps(b);
    }
    assert(trim_start(b) == b);
}

/// Lowercasing twice is lowercasing once.
pub proof fn lemma_lower_idempotent(s: Seq<char>)
    ensures
        lower(lower(s)) == lower(s),
{
    assert(lower(lower(s)) =~= lower(s));
}

/// Lowercasing and taking a part commute.
pub proof fn lemma_lower_subrange(s: Seq<char>, a: int, b: int)
    requires
        0 <= a <= b <= s.len(),
    ensures
        lower(s).subrange(a, b) == lower(s.subrange(a, b)),
{
    assert(lower(s).subrange(a, b) =~= lower(s.subrange(a, b)));
}

/// Matching a literal ignoring case is blind to lowercasing.
pub proof fn lemma_ci_at_lower(t: Seq<char>, i: int, lit: Seq<char>)
    ensures
        ci_at(lower(t), i, lit) == ci_at(t, i, lit),
{
    if 0 <= i && i + lit.len() <= t.len() {
        assert forall|k: int| 0 <= k < lit.len() implies ci_char(#[trigger] lower(t)[i + k], lit[k])
            == ci_char(t[i + k], lit[k]) by {
            assert(lower(t)[i + k] == lower_char(t[i + k]));
        }
        if ci_at(t, i, lit) {
            assert forall|k: int| 0 <= k < lit.len() implies ci_char(
                #[trigger] lower(t)[i + k],
                lit[k],
            ) by {
                assert(ci_char(t[i + k], lit[k]));
            }
        }
        if ci_at(lower(t), i, lit) {
            assert forall|k: int| 0 <= k < lit.len() implies ci_char(#[trigger] t[i + k], lit[k]) by {
                assert(ci_char(lower(t)[i + k], lit[k]));
            }
        }
    }
}

/// Whether `c` is in `stops`.
pub fn contains_char(stops: &Vec<char>, c: char) -> (b: bool)
    ensures
        b == stops@.contains(c),
{
    let mut i: usize = 0;
    while i < stops.len()
        invariant
            i <= stops@.len(),
            forall|k: int| 0 <= k < i ==> stops@[k] != c,
        decreases stops@.len() - i,
    {
        if stops[i] == c {
            assert(stops@[i as int] == c);
            return true;
        }
        i = i + 1;
    }
    false
}

/// The first index at or after `start` whose char is one of `stops` (see [`first_any`]).
pub fn find_any(v: &Vec<char>, start: usize, stops: &Vec<char>) -> (r: usize)
    requires
        start <= v@.len(),
    ensures
        r == first_any(v@, start as int, stops@),
{
    let mut i = start;
    while i < v.len() && !contains_char(stops, v[i])
        invariant
            start <= i <= v@.len(),
            first_any(v@, start as int, stops@) == first_any(v@, i as int, stops@),
        decreases v@.len() - i,
    {
        i = i + 1;
    }
    i
}

/// `c` matches the small ASCII letter or symbol `lit` when case is ignored the way a
/// Unicode case-insensitive pattern does: `lit`, its capital, and for `s` also `ſ`.
pub open spec fn ci_char(c: char, lit: char) -> bool {
    lower_char(c) == lit || (lit == 's' && c == '\u{17f}')
}

/// `t[i..i + lit.len()]` matches `lit` char by char, ignoring case (see [`ci_char`]).
pub open spec fn ci_at(t: Seq<char>, i: int, lit: Seq<char>) -> bool {
    &&& 0 <= i
    &&& i + lit.len() <= t.len()
    &&& forall|k: int| 0 <= k < lit.len() ==> ci_char(#[trigger] t[i + k], lit[k])
}

/// Whether `v@[i..]` starts with `lit`, ignoring case (see [`ci_at`]).
pub fn ci_at_exec(v: &Vec<char>, i: usize, lit: &Vec<char>) -> (b: bool)
    ensures
        b == ci_at(v@, i as int, lit@),
{
    if i > v.len() || lit.len() > v.len() - i {
        return false;
    }
    let mut k: usize = 0;
    while k < lit.len()
        invariant
            k <= lit@.len(),
            i + lit.len() <= v.len(),
            forall|j: int| 0 <= j < k ==> ci_char(#[trigger] v@[i + j], lit@[j]),
        decreases lit@.len() - k,
    {
        let c = v[i + k];
        let l = lit[k];
        let lc = if 'A' <= c && c <= 'Z' {
            ((c as u8) + 32) as char
        } else {
            c
        };
        if !(lc == l || (l == 's' && c == '\u{17f}')) {
            assert(!ci_char(v@[i + k], lit@[k as int]));
            return false;
        }
        k = k + 1;
    }
    true
}

/// A copy of `v@[from..to]`.
pub fn sub_vec(v: &Vec<char>, from: usize, to: usize) -> (r: Vec<char>)
    requires
        from <= to <= v@.len(),
    ensures
        r@ == v@.subrange(from as int, to as int),
{
    let mut r: Vec<char> = Vec::new();
    let mut i = from;
    while i < to
        invariant
            from <= i <= to <= v@.len(),
            r@ == v@.subrange(from as int, i as int),
        decreases to - i,
    {
        r.push(v[i]);
        i = i + 1;
        assert(r@ =~= v@.subrange(from as int, i as int));
    }
    r
}

/// The chars of `s` with leading and trailing white space removed.
pub fn trimmed_chars(s: &str) -> (r: Vec<char>)
    ensures
        r@ == trim(s@),
{
    let all = chars_of(s);
    let (a, b) = trim_bounds(&all);
    sub_vec(&all, a, b)
}

/// Whether two texts are equal, char for char.
pub fn text_eq(a: &str, b: &str) -> (r: bool)
    ensures
        r == (a@ == b@),
{
    let v = chars_of(a);
    let w = chars_of(b);
    if v.len() != w.len() {
        return false;
    }
    let mut i: usize = 0;
    while i < v.len()
        invariant
            i <= v@.len() == w@.len(),
            v@ == a@,
            w@ == b@,
            forall|k: int| 0 <= k < i ==> v@[k] == w@[k],
        decreases v@.len() - i,
    {
        if v[i] != w[i] {
            assert(v@[i as int] != w@[i as int]);
            return false;
        }
        i = i + 1;
    }
    assert(v@ =~= w@);
    true
}

} // verus!
