//! Settings of the server, read from the process environment. Reading the variables is
//! left to the caller; this module applies the defaults and parses the values.

use vstd::prelude::*;

use crate::text::{
    decimal, digit_char, chars_of, first_any, is_white_space_exec, lemma_first_any, string_of, sub_vec, trim,
    trim_bounds,
};

verus! {

/// Whether `c` is an ASCII decimal digit.
pub open spec fn is_digit(c: char) -> bool {
    '0' <= c && c <= '9'
}

/// The value of a run of decimal digits.
pub open spec fn digits_value(s: Seq<char>) -> nat
    decreases s.len(),
{
    if s.len() == 0 {
        0
    } else {
        digits_value(s.drop_last()) * 10 + ((s.last() as u32) - 48) as nat
    }
}

/// Whether every char of `b` is a decimal digit.
pub open spec fn all_digits(b: Seq<char>) -> bool {
    forall|i: int| 0 <= i < b.len() ==> is_digit(#[trigger] b[i])
}

/// `s` without a leading `+`.
pub open spec fn without_plus(s: Seq<char>) -> Seq<char> {
    if s.len() > 0 && s[0] == '+' {
        s.subrange(1, s.len() as int)
    } else {
        s
    }
}

/// The digits after an optional `+`, when there is at least one digit and nothing else.
pub open spec fn unsigned_digits(s: Seq<char>) -> Option<Seq<char>> {
    let body = without_plus(s);
    if body.len() > 0 && all_digits(body) {
        Some(body)
    } else {
        None
    }
}

/// The value of an unsigned decimal text with an optional `+`, as `u64::from_str` reads
/// it: `None` when the text is not of that form or the value exceeds `max`.
pub open spec fn parsed_unsigned(s: Seq<char>, max: nat) -> Option<nat> {
    match unsigned_digits(s) {
        Some(d) => if digits_value(d) <= max {
            Some(digits_value(d))
        } else {
            None
        },
        None => None,
    }
}

proof fn lemma_decimal_digits(n: nat)
    ensures
        decimal(n).len() > 0,
        all_digits(decimal(n)),
        decimal(n)[0] != '+',
        digits_value(decimal(n)) == n,
    decreases n,
{
    if n >= 10 {
        lemma_decimal_digits(n / 10);
        let d = decimal(n);
        assert(d.drop_last() =~= decimal(n / 10));
        assert(d.last() == digit_char(n % 10));
        assert((digit_char(n % 10) as u32) == n % 10 + 48);
        assert(digits_value(d) == digits_value(decimal(n / 10)) * 10 + (((d.last() as u32) - 48)
            as nat));
        vstd::arithmetic::div_mod::lemma_fundamental_div_mod(n as int, 10);
        assert((n / 10) * 10 + n % 10 == n);
        assert forall|i: int| 0 <= i < d.len() implies is_digit(#[trigger] d[i]) by {
            if i < d.len() - 1 {
                assert(d[i] == decimal(n / 10)[i]);
            }
        }
        assert(digits_value(d) == n);
    } else {
        let d = decimal(n);
        assert((digit_char(n) as u32) == n + 48);
        assert(d.drop_last() =~= Seq::<char>::empty());
        assert(digits_value(d.drop_last()) == 0);
        assert(digits_value(d) == n);
    }
}

/// Reading the decimal rendering of a number gives the number back, when it is within
/// the bound read against.
pub proof fn lemma_parse_decimal(n: nat, max: nat)
    requires
        n <= max,
    ensures
        parsed_unsigned(decimal(n), max) == Some(n),
{
    lemma_decimal_digits(n);
}

/// A longer run of digits is worth at least as much as its prefix.
proof fn lemma_digits_value_grows(s: Seq<char>, k: int)
    requires
        0 <= k <= s.len(),
    ensures
        digits_value(s.take(k)) <= digits_value(s),
    decreases s.len() - k,
{
    if k < s.len() {
        lemma_digits_value_grows(s, k + 1);
        assert(s.take(k + 1).drop_last() =~= s.take(k));
        assert(digits_value(s.take(k)) <= digits_value(s.take(k + 1)));
    } else {
        assert(s.take(k) =~= s);
    }
}

/// The value of the digits `v@[from..]`, `None` when it exceeds `u64::MAX`.
fn digits_to_u64(v: &Vec<char>, from: usize) -> (r: Option<u64>)
    requires
        from <= v@.len(),
        forall|i: int| from <= i < v@.len() ==> is_digit(#[trigger] v@[i]),
    ensures
        match r {
            Some(x) => x == digits_value(v@.subrange(from as int, v@.len() as int)),
            None => digits_value(v@.subrange(from as int, v@.len() as int)) > u64::MAX,
        },
{
    let ghost body = v@.subrange(from as int, v@.len() as int);
    let mut acc: u64 = 0;
    let mut i = from;
    while i < v.len()
        invariant
            from <= i <= v@.len(),
            body == v@.subrange(from as int, v@.len() as int),
            forall|k: int| from <= k < v@.len() ==> is_digit(#[trigger] v@[k]),
            acc == digits_value(body.take(i - from)),
        decreases v@.len() - i,
    {
        let c = v[i];
        let d = (c as u32 - 48) as u64;
        proof {
            assert(body.take(i - from + 1).drop_last() =~= body.take(i - from));
            assert(body.take(i - from + 1).last() == c);
        }
        match acc.checked_mul(10) {
            Some(m) => match m.checked_add(d) {
                Some(n) => {
                    acc = n;
                },
                None => {
                    proof {
                        lemma_digits_value_grows(body, i - from + 1);
                    }
                    return None;
                },
            },
            None => {
                proof {
                    lemma_digits_value_grows(body, i - from + 1);
                }
                return None;
            },
        }
        i = i + 1;
    }
    assert(body.take(body.len() as int) =~= body);
    Some(acc)
}

/// Parses an unsigned decimal text the way `u64::from_str` does (see [`parsed_unsigned`]).
pub fn parse_u64(s: &str) -> (r: Option<u64>)
    ensures
        match r {
            Some(x) => parsed_unsigned(s@, u64::MAX as nat) == Some(x as nat),
            None => parsed_unsigned(s@, u64::MAX as nat) is None,
        },
{
    let v = chars_of(s);
    let from: usize = if v.len() > 0 && v[0] == '+' {
        1
    } else {
        0
    };
    proof {
        assert(v@.subrange(0, v@.len() as int) =~= v@);
    }
    if from >= v.len() {
        return None;
    }
    let mut i = from;
    while i < v.len()
        invariant
            from <= i <= v@.len(),
            from < v@.len(),
            v@ == s@,
            from == (if v@.len() > 0 && v@[0] == '+' { 1int } else { 0int }),
            forall|k: int| from <= k < i ==> is_digit(#[trigger] v@[k]),
        decreases v@.len() - i,
    {
        if !('0' <= v[i] && v[i] <= '9') {
            proof {
                let body = v@.subrange(from as int, v@.len() as int);
                assert(body == without_plus(s@));
                assert(!is_digit(body[i - from]));
                assert(!all_digits(body));
            }
            return None;
        }
        i = i + 1;
    }
    proof {
        let body = v@.subrange(from as int, v@.len() as int);
        assert forall|k: int| 0 <= k < body.len() implies is_digit(#[trigger] body[k]) by {
            assert(body[k] == v@[from + k]);
        }
    }
    digits_to_u64(&v, from)
}

/// Parses an unsigned decimal text into a `u32`, as `u32::from_str` does.
pub fn parse_u32(s: &str) -> (r: Option<u32>)
    ensures
        match r {
            Some(x) => parsed_unsigned(s@, u32::MAX as nat) == Some(x as nat),
            None => parsed_unsigned(s@, u32::MAX as nat) is None,
        },
{
    match parse_u64(s) {
        Some(x) => if x <= u32::MAX as u64 {
            Some(x as u32)
        } else {
            None
        },
        None => None,
    }
}

/// The value of a signed decimal text with an optional `+` or `-`, as `i64::from_str`
/// reads it; `None` when the text is not of that form or the value is out of range.
pub open spec fn parsed_i64(s: Seq<char>) -> Option<int> {
    if s.len() > 0 && s[0] == '-' {
        match parsed_unsigned(s.subrange(1, s.len() as int), u64::MAX as nat) {
            Some(v) => if s.len() > 1 && s[1] != '+' && v <= 0x8000_0000_0000_0000 {
                Some(-v)
            } else {
                None
            },
            None => None,
        }
    } else {
        match parsed_unsigned(s, i64::MAX as nat) {
            Some(v) => Some(v as int),
            None => None,
        }
    }
}

/// Parses a signed decimal text the way `i64::from_str` does (see [`parsed_i64`]).
pub fn parse_i64(s: &str) -> (r: Option<i64>)
    ensures
        match r {
            Some(x) => parsed_i64(s@) == Some(x as int),
            None => parsed_i64(s@) is None,
        },
{
    let v = chars_of(s);
    if v.len() > 0 && v[0] == '-' {
        if v.len() < 2 || v[1] == '+' {
            return None;
        }
        let rest = sub_vec(&v, 1, v.len());
        let rest_s = string_of(&rest);
        match parse_u64(rest_s.as_str()) {
            Some(x) => if x <= 0x8000_0000_0000_0000u64 {
                if x == 0x8000_0000_0000_0000u64 {
                    Some(i64::MIN)
                } else {
                    Some(-(x as i64))
                }
            } else {
                None
            },
            None => None,
        }
    } else {
        match parse_u64(s) {
            Some(x) => if x <= i64::MAX as u64 {
                Some(x as i64)
            } else {
                None
            },
            None => None,
        }
    }
}

/// The comma-separated pieces of `s` (`str::split(',')`): at least one, possibly empty.
pub open spec fn comma_pieces(s: Seq<char>) -> Seq<Seq<char>>
    decreases s.len(),
{
    let i = first_any(s, 0, seq![',']);
    if 0 <= i < s.len() {
        seq![s.subrange(0, i)] + comma_pieces(s.subrange(i + 1, s.len() as int))
    } else {
        seq![s]
    }
}

/// The trimmed pieces that are not empty, in order.
pub open spec fn kept_pieces(parts: Seq<Seq<char>>) -> Seq<Seq<char>>
    decreases parts.len(),
{
    if parts.len() == 0 {
        Seq::<Seq<char>>::empty()
    } else {
        (if trim(parts[0]).len() > 0 {
            seq![trim(parts[0])]
        } else {
            Seq::<Seq<char>>::empty()
        }) + kept_pieces(parts.drop_first())
    }
}

/// The tokens of a comma-separated list: each piece trimmed, blank pieces dropped.
pub open spec fn token_list(s: Seq<char>) -> Seq<Seq<char>> {
    kept_pieces(comma_pieces(s))
}

/// Splits a comma-separated list into its trimmed, non-blank tokens (see [`token_list`]).
pub fn parse_token_list(s: &str) -> (r: Vec<String>)
    ensures
        r@.len() == token_list(s@).len(),
        forall|j: int| 0 <= j < r@.len() ==> (#[trigger] r@[j])@ == token_list(s@)[j],
{
    let v = chars_of(s);
    let ghost full = v@;
    let mut out: Vec<String> = Vec::new();
    let ghost mut outv: Seq<Seq<char>> = Seq::empty();
    let mut seg_start: usize = 0;
    let mut i: usize = 0;
    proof {
        assert(v@.subrange(0, v@.len() as int) =~= v@);
    }
    while i < v.len()
        invariant
            v@ == full,
            full == s@,
            seg_start <= i <= v@.len(),
            forall|k: int| seg_start <= k < i ==> v@[k] != ',',
            outv + token_list(v@.subrange(seg_start as int, v@.len() as int)) == token_list(full),
            out@.len() == outv.len(),
            forall|j: int| 0 <= j < out@.len() ==> (#[trigger] out@[j])@ == outv[j],
        decreases v@.len() - i,
    {
        if v[i] == ',' {
            let ghost w = v@.subrange(seg_start as int, v@.len() as int);
            proof {
                lemma_first_any(w, 0, seq![',']);
                let f = first_any(w, 0, seq![',']);
                let k = i - seg_start;
                assert(w[k] == ',');
                assert(seq![','][0] == ',');
                assert(seq![','].contains(w[k]));
                if f < k {
                    assert(w[f] == v@[seg_start + f]);
                    assert(seq![','].contains(w[f]));
                }
                assert(f == k);
                assert(w.subrange(0, k) =~= v@.subrange(seg_start as int, i as int));
                assert(w.subrange(k + 1, w.len() as int) =~= v@.subrange(i + 1, v@.len() as int));
                let parts = comma_pieces(w);
                assert(parts[0] == w.subrange(0, k));
                assert(parts.drop_first() =~= comma_pieces(v@.subrange(i + 1, v@.len() as int)));
            }
            let piece = sub_vec(&v, seg_start, i);
            let (a, b) = trim_bounds(&piece);
            if a < b {
                let t = sub_vec(&piece, a, b);
                let ts = string_of(&t);
                out.push(ts);
                proof {
                    outv = outv.push(t@);
                }
            }
            proof {
                let w = v@.subrange(seg_start as int, v@.len() as int);
                let rest = v@.subrange(i + 1, v@.len() as int);
                let first_kept = if trim(piece@).len() > 0 {
                    seq![trim(piece@)]
                } else {
                    Seq::<Seq<char>>::empty()
                };
                assert(token_list(w) == first_kept + token_list(rest));
                assert forall|j: int| 0 <= j < out@.len() implies (#[trigger] out@[j])@
                    == outv[j] by {}
            }
            seg_start = i + 1;
        }
        i = i + 1;
    }
    proof {
        let w = v@.subrange(seg_start as int, v@.len() as int);
        lemma_first_any(w, 0, seq![',']);
        let f = first_any(w, 0, seq![',']);
        if f < w.len() {
            assert(w[f] == v@[seg_start + f]);
            assert(seq![','].contains(w[f]));
        }
        assert(comma_pieces(w) == seq![w]);
        assert(kept_pieces(seq![w]).len() == kept_pieces(seq![w]).len());
        assert(seq![w].drop_first() =~= Seq::<Seq<char>>::empty());
    }
    let piece = sub_vec(&v, seg_start, v.len());
    let (a, b) = trim_bounds(&piece);
    if a < b {
        let t = sub_vec(&piece, a, b);
        let ts = string_of(&t);
        out.push(ts);
        proof {
            outv = outv.push(t@);
        }
    }
    proof {
        let w = v@.subrange(seg_start as int, v@.len() as int);
        let first_kept = if trim(w).len() > 0 {
            seq![trim(w)]
        } else {
            Seq::<Seq<char>>::empty()
        };
        assert(kept_pieces(Seq::<Seq<char>>::empty()) =~= Seq::<Seq<char>>::empty());
        assert(seq![w][0] == w);
        assert(kept_pieces(seq![w]) == first_kept + kept_pieces(seq![w].drop_first()));
        assert(token_list(w) =~= first_kept);
        assert(outv =~= token_list(full));
    }
    out
}

/// The raw values of the environment variables the server reads; `None` when a
/// variable is unset (or not valid unicode).
pub struct EnvVars {
    /// `DATABASE_URL`
    pub database_url: Option<String>,
    /// `BIND_ADDR`
    pub bind_addr: Option<String>,
    /// `GITHUB_TOKENS`, comma-separated
    pub github_tokens: Option<String>,
    /// `ADMIN_TOKEN`
    pub admin_token: Option<String>,
    /// `SCHEDULE_GITHUB_SECS`
    pub schedule_github_secs: Option<String>,
    /// `SCHEDULE_HN_SECS`
    pub schedule_hn_secs: Option<String>,
    /// `SERVERCHAN_SENDKEY`
    pub serverchan_sendkey: Option<String>,
    /// `DIGEST_HOUR`
    pub digest_hour: Option<String>,
    /// `DIGEST_TOP_N`
    pub digest_top_n: Option<String>,
}

/// The server settings.
#[derive(Debug, Clone)]
pub struct Settings {
    pub database_url: String,
    pub bind_addr: String,
    pub github_tokens: Vec<String>,
    pub admin_token: String,
    pub schedule_github_secs: u64,
    pub schedule_hn_secs: u64,
    /// The Server酱 send key; the daily digest is off without it.
    pub serverchan_sendkey: Option<String>,
    /// The UTC hour the daily digest goes out.
    pub digest_hour: u32,
    /// How many projects the daily digest lists.
    pub digest_top_n: i64,
}

/// A variable holds a value that does not parse; the error names the variable.
#[derive(Debug, Clone, PartialEq, Eq)]
pub enum ConfigError {
    Invalid(String),
}

/// The value of a variable, or `d` when it is unset.
pub open spec fn value_or(o: Option<String>, d: Seq<char>) -> Seq<char> {
    match o {
        Some(s) => s@,
        None => d,
    }
}

/// `err` is the error that names the variable `name`.
pub open spec fn names(err: ConfigError, name: Seq<char>) -> bool {
    match err {
        ConfigError::Invalid(n) => n@ == name,
    }
}

fn value_or_default(o: &Option<String>, d: &str) -> (r: String)
    ensures
        r@ == value_or(*o, d@),
{
    match o {
        Some(s) => s.clone(),
        None => string_of(&chars_of(d)),
    }
}

fn invalid(name: &str) -> (e: ConfigError)
    ensures
        names(e, name@),
{
    ConfigError::Invalid(string_of(&chars_of(name)))
}

impl Settings {
    /// The settings from the raw variables, with the documented defaults:
    /// `postgres://localhost:5432/openradar`, `0.0.0.0:8080`, no GitHub token, admin
    /// token `changeme`, collection every 3600 s (GitHub) and 1800 s (Hacker News), no
    /// digest key, digest at 9:00 with the top 10. The first collection period whose
    /// value does not parse (GitHub's, then Hacker News') is reported; a digest hour or
    /// size that does not parse falls back to its default.
    pub fn from_vars(vars: &EnvVars) -> (r: Result<Settings, ConfigError>)
        ensures
            ({
                let gh = parsed_unsigned(value_or(vars.schedule_github_secs, "3600"@), u64::MAX as nat);
                let hn = parsed_unsigned(value_or(vars.schedule_hn_secs, "1800"@), u64::MAX as nat);
                let hour = parsed_unsigned(value_or(vars.digest_hour, "9"@), u32::MAX as nat);
                let top = parsed_i64(value_or(vars.digest_top_n, "10"@));
                match r {
                    Err(e) => if gh is None {
                        names(e, "SCHEDULE_GITHUB_SECS"@)
                    } else {
                        hn is None && names(e, "SCHEDULE_HN_SECS"@)
                    },
                    Ok(st) => {
                        &&& gh == Some(st.schedule_github_secs as nat)
                        &&& hn == Some(st.schedule_hn_secs as nat)
                        &&& st.digest_hour as nat == match hour {
                            Some(h) => h,
                            None => 9nat,
                        }
                        &&& st.digest_top_n as int == match top {
                            Some(t) => t,
                            None => 10int,
                        }
                        &&& st.database_url@ == value_or(
                            vars.database_url,
                            "postgres://localhost:5432/openradar"@,
                        )
                        &&& st.bind_addr@ == value_or(vars.bind_addr, "0.0.0.0:8080"@)
                        &&& st.admin_token@ == value_or(vars.admin_token, "changeme"@)
                        &&& st.github_tokens@.len() == token_list(
                            value_or(vars.github_tokens, Seq::empty()),
                        ).len()
                        &&& forall|j: int|
                            0 <= j < st.github_tokens@.len() ==> (#[trigger] st.github_tokens@[j])@
                                == token_list(value_or(vars.github_tokens, Seq::empty()))[j]
                        &&& match vars.serverchan_sendkey {
                            Some(k) => if k@.len() > 0 {
                                st.serverchan_sendkey == Some(k)
                            } else {
                                st.serverchan_sendkey is None
                            },
                            None => st.serverchan_sendkey is None,
                        }
                    },
                }
            }),
    {
        let tokens_text = value_or_default(&vars.github_tokens, "");
        proof {
            reveal_strlit("");
            assert(""@ =~= Seq::<char>::empty());
        }
        let github_tokens = parse_token_list(tokens_text.as_str());
        let gh_text = value_or_default(&vars.schedule_github_secs, "3600");
        let schedule_github_secs = match parse_u64(gh_text.as_str()) {
            Some(x) => x,
            None => return Err(invalid("SCHEDULE_GITHUB_SECS")),
        };
        let hn_text = value_or_default(&vars.schedule_hn_secs, "1800");
        let schedule_hn_secs = match parse_u64(hn_text.as_str()) {
            Some(x) => x,
            None => return Err(invalid("SCHEDULE_HN_SECS")),
        };
        let hour_text = value_or_default(&vars.digest_hour, "9");
        let digest_hour = match parse_u32(hour_text.as_str()) {
            Some(x) => x,
            None => 9,
        };
        let top_text = value_or_default(&vars.digest_top_n, "10");
        let digest_top_n = match parse_i64(top_text.as_str()) {
            Some(x) => x,
            None => 10,
        };
        let serverchan_sendkey = match &vars.serverchan_sendkey {
            Some(k) => if k.as_str().is_empty() {
                None
            } else {
                Some(k.clone())
            },
            None => None,
        };
        Ok(Settings {
            database_url: value_or_default(&vars.database_url, "postgres://localhost:5432/openradar"),
            bind_addr: value_or_default(&vars.bind_addr, "0.0.0.0:8080"),
            github_tokens,
            admin_token: value_or_default(&vars.admin_token, "changeme"),
            schedule_github_secs,
            schedule_hn_secs,
            serverchan_sendkey,
            digest_hour,
            digest_top_n,
        })
    }
}

} // verus!
