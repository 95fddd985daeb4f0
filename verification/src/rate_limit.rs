//! Rate-limit settings: parsing the textual form ("-1", "0", "10/m",
//! "20h", ...), choosing the active setting, and the decisions around
//! reserving a slot in the current window.

use vstd::prelude::*;
use vstd::string::*;
use crate::appdata::{AppdataStore, StoreModel, appdata_as, env_app, env_app_name, get_appdata};
use crate::clock::{
    Instant, format_wall_clock, formatted_of, local_instant_of, localize, naive_datetime_of, not_after,
    instant_not_after, parse_naive, parse_rfc3339, rfc3339_instant_of,
};
use crate::text::{
    count_leading_digits, find_char, index_of_char, is_ascii_digit, lemma_count_while_bounds, lemma_count_while_exact,
    lemma_trim_idempotent, ascii_lower_seq, ascii_upper_seq, all_ws, is_ascii_seq, lemma_trim_ascii,
    lemma_trim_surrounded, lemma_trim_ascii_upper, lemma_lower_of_upper,
    leading_digits, lowercase_of, not_char, str_eq, to_lowercase, trim, trim_str,
};

verus! {

/// The length of a rate-limit window.
#[derive(Debug, Clone, Copy, PartialEq, Eq, Structural)]
pub enum RateLimitUnit {
    Minute,
    Hour,
    Day,
}

/// A rate-limit setting: `limit` is -1 for unlimited, 0 for blocked, and
/// otherwise the largest number of messages per `unit`.
#[derive(Debug, Clone, Copy, PartialEq, Eq, Structural)]
pub struct RateLimit {
    pub limit: i64,
    pub unit: Option<RateLimitUnit>,
}

/// Decimal value of a non-empty run of ASCII digits.
pub open spec fn digits_value(s: Seq<char>) -> int
    decreases s.len(),
{
    if s.len() == 0 {
        0
    } else {
        digits_value(s.drop_last()) * 10 + ((s.last() as u32) - ('0' as u32))
    }
}

pub open spec fn all_digits(s: Seq<char>) -> bool {
    forall|i: int| 0 <= i < s.len() ==> is_ascii_digit(#[trigger] s[i])
}

/// The `i64` that `str::parse::<i64>` reads from `s`: an optional `+` or
/// `-`, then one or more ASCII digits, and a value that fits in `i64`.
pub open spec fn decimal_i64(s: Seq<char>) -> Option<int> {
    let signed = s.len() > 0 && (s[0] == '+' || s[0] == '-');
    let body = if signed { s.drop_first() } else { s };
    let magnitude = digits_value(body);
    let v = if signed && s[0] == '-' { -magnitude } else { magnitude };
    if body.len() > 0 && all_digits(body) && i64::MIN <= v <= i64::MAX {
        Some(v)
    } else {
        None
    }
}

/// The text of the error that `str::parse::<i64>` reports for `s`.
pub uninterp spec fn i64_parse_error_text(s: Seq<char>) -> Seq<char>;

/// Calls `str::parse::<i64>`, turning its error into its message. The
/// contract states the documented grammar (an optional sign followed by
/// decimal digits, within range); the wording of the error is named only.
#[verifier::external_body]
fn parse_i64(s: &str) -> (r: Result<i64, String>)
    ensures
        match r {
            Ok(v) => decimal_i64(s@) == Some(v as int),
            Err(e) => decimal_i64(s@) is None && e@ == i64_parse_error_text(s@),
        },
{
    s.parse::<i64>().map_err(|e| e.to_string())
}

/// The window unit named by a (trimmed) unit word.
pub open spec fn unit_named(u: Seq<char>) -> Option<RateLimitUnit> {
    if u == seq!['m'] || u == seq!['m', 'i', 'n', 'u', 't', 'e'] || u == seq!['m', 'i', 'n', 'u', 't', 'e', 's'] {
        Some(RateLimitUnit::Minute)
    } else if u == seq!['h'] || u == seq!['h', 'o', 'u', 'r'] || u == seq!['h', 'o', 'u', 'r', 's'] {
        Some(RateLimitUnit::Hour)
    } else if u == seq!['d'] || u == seq!['d', 'a', 'y'] || u == seq!['d', 'a', 'y', 's'] {
        Some(RateLimitUnit::Day)
    } else {
        None
    }
}

/// How a normalized setting splits into its number and its unit: at the
/// first '/', or else after the leading digits (none when there are no
/// leading digits).
pub open spec fn split_setting(l: Seq<char>) -> Option<(Seq<char>, Seq<char>)> {
    let slash = index_of_char(l, '/');
    let digits = leading_digits(l);
    if slash < l.len() {
        Some((l.subrange(0, slash as int), l.subrange(slash + 1 as int, l.len() as int)))
    } else if digits == 0 {
        None
    } else {
        Some((l.subrange(0, digits as int), l.subrange(digits as int, l.len() as int)))
    }
}

/// The result of parsing a setting that is already trimmed and lower-cased.
/// A count is -1 (unlimited), 0 (blocked) or positive; a count below -1 is
/// refused.
pub open spec fn rate_limit_of(l: Seq<char>) -> Result<RateLimit, Seq<char>> {
    if l == seq!['-', '1'] {
        Ok(RateLimit { limit: -1i64, unit: None })
    } else if l == seq!['0'] {
        Ok(RateLimit { limit: 0i64, unit: None })
    } else {
        match split_setting(l) {
            None => Err("invalid rate limit format: "@ + l),
            Some((num, unit)) => match decimal_i64(num) {
                None => Err(i64_parse_error_text(num)),
                Some(n) => if n < -1 {
                    Err("invalid rate limit value: "@ + num)
                } else {
                    match unit_named(trim(unit)) {
                        None => Err("unknown rate limit unit: "@ + unit),
                        Some(u) => Ok(RateLimit { limit: n as i64, unit: Some(u) }),
                    }
                },
            },
        }
    }
}

/// The result of parsing the setting text `s`: it is trimmed and
/// lower-cased first.
pub open spec fn parsed_rate_limit(s: Seq<char>) -> Result<RateLimit, Seq<char>> {
    rate_limit_of(lowercase_of(trim(s)))
}

pub open spec fn same_result(r: Result<RateLimit, String>, s: Result<RateLimit, Seq<char>>) -> bool {
    match r {
        Ok(v) => s == Ok::<RateLimit, Seq<char>>(v),
        Err(e) => s == Err::<RateLimit, Seq<char>>(e@),
    }
}

/// Parses a setting that is already trimmed and lower-cased.
pub fn parse_lowered_rate_limit(l: &str) -> (r: Result<RateLimit, String>)
    ensures
        same_result(r, rate_limit_of(l@)),
{
    let n = l.unicode_len();
    if n == 2 && l.get_char(0) == '-' && l.get_char(1) == '1' {
        assert(l@ =~= seq!['-', '1']);
        return Ok(RateLimit { limit: -1, unit: None });
    }
    if n == 1 && l.get_char(0) == '0' {
        assert(l@ =~= seq!['0']);
        return Ok(RateLimit { limit: 0, unit: None });
    }
    assert(l@ != seq!['-', '1']);
    assert(l@ != seq!['0']);
    proof {
        lemma_count_while_bounds(l@, not_char('/'));
        lemma_count_while_bounds(l@, |x: char| is_ascii_digit(x));
    }
    let slash = find_char(l, '/');
    let (num, unit) = if slash < n {
        (l.substring_char(0, slash), l.substring_char(slash + 1, n))
    } else {
        let digits = count_leading_digits(l);
        if digits == 0 {
            let mut m = String::from_str("invalid rate limit format: ");
            m.append(l);
            return Err(m);
        }
        (l.substring_char(0, digits), l.substring_char(digits, n))
    };
    let limit = match parse_i64(num) {
        Ok(v) => v,
        Err(e) => {
            return Err(e);
        },
    };
    if limit < -1 {
        let mut m = String::from_str("invalid rate limit value: ");
        m.append(num);
        return Err(m);
    }
    let u = trim_str(unit);
    let found = if str_eq(u, "m") || str_eq(u, "minute") || str_eq(u, "minutes") {
        Some(RateLimitUnit::Minute)
    } else if str_eq(u, "h") || str_eq(u, "hour") || str_eq(u, "hours") {
        Some(RateLimitUnit::Hour)
    } else if str_eq(u, "d") || str_eq(u, "day") || str_eq(u, "days") {
        Some(RateLimitUnit::Day)
    } else {
        None
    };
    proof {
        reveal_strlit("m");
        reveal_strlit("minute");
        reveal_strlit("minutes");
        reveal_strlit("h");
        reveal_strlit("hour");
        reveal_strlit("hours");
        reveal_strlit("d");
        reveal_strlit("day");
        reveal_strlit("days");
        assert("m"@ =~= seq!['m']);
        assert("minute"@ =~= seq!['m', 'i', 'n', 'u', 't', 'e']);
        assert("minutes"@ =~= seq!['m', 'i', 'n', 'u', 't', 'e', 's']);
        assert("h"@ =~= seq!['h']);
        assert("hour"@ =~= seq!['h', 'o', 'u', 'r']);
        assert("hours"@ =~= seq!['h', 'o', 'u', 'r', 's']);
        assert("d"@ =~= seq!['d']);
        assert("day"@ =~= seq!['d', 'a', 'y']);
        assert("days"@ =~= seq!['d', 'a', 'y', 's']);
    }
    match found {
        Some(unit_value) => Ok(RateLimit { limit, unit: Some(unit_value) }),
        None => {
            let mut m = String::from_str("unknown rate limit unit: ");
            m.append(unit);
            Err(m)
        },
    }
}

/// How an ASCII setting reads: trimmed, its ASCII letters lower-cased.
pub open spec fn ascii_rate_limit(s: Seq<char>) -> Result<RateLimit, Seq<char>> {
    rate_limit_of(ascii_lower_seq(trim(s)))
}

/// Parses rate-limit settings such as "-1" (unlimited), "0" (blocked),
/// "10/m", "20/h", "50/d", "10m", "20h" or "50d". The text is trimmed and
/// lower-cased before it is read. A limit read is never below -1.
pub fn parse_rate_limit(s: &str) -> (r: Result<RateLimit, String>)
    ensures
        same_result(r, parsed_rate_limit(s@)),
        r matches Ok(v) ==> v.limit >= -1,
        is_ascii_seq(s@) ==> same_result(r, ascii_rate_limit(s@)),
{
    let t = trim_str(s);
    proof {
        if is_ascii_seq(s@) {
            lemma_trim_ascii(s@);
        }
    }
    let lowered = to_lowercase(t);
    parse_lowered_rate_limit(lowered.as_str())
}


/// Surrounding white space does not change how a setting is read: a
/// setting reads the same as its trimmed text.
pub proof fn lemma_parse_ignores_surrounding_space(s: Seq<char>)
    ensures
        parsed_rate_limit(trim(s)) == parsed_rate_limit(s),
{
    lemma_trim_idempotent(s);
}

/// Case and surrounding white space do not change how an ASCII setting
/// reads: the setting upper-cased, with white space before and after it,
/// reads as the setting itself.
pub proof fn lemma_parse_ignores_case_and_space(s: Seq<char>, before: Seq<char>, after: Seq<char>)
    requires
        all_ws(before),
        all_ws(after),
    ensures
        ascii_rate_limit(before + ascii_upper_seq(s) + after) == ascii_rate_limit(s),
{
    lemma_trim_surrounded(before, ascii_upper_seq(s), after);
    lemma_trim_ascii_upper(s);
    lemma_lower_of_upper(trim(s));
}

proof fn lemma_split_digits_then(d: Seq<char>, sep: Seq<char>, u: Seq<char>)
    requires
        d.len() > 0,
        all_digits(d),
        sep == seq!['/'] || (sep.len() == 0 && u.len() > 0 && !is_ascii_digit(u[0]) && !u.contains('/')),
    ensures
        split_setting(d + sep + u) == Some((d, u)),
{
    let l = d + sep + u;
    if sep.len() == 1 {
        assert forall|j: int| 0 <= j < d.len() implies (not_char('/'))(#[trigger] l[j]) by {
            assert(l[j] == d[j]);
            assert(is_ascii_digit(d[j]));
        }
        assert(l[d.len() as int] == '/');
        lemma_count_while_exact(l, not_char('/'), d.len() as int);
        assert(l.subrange(0, d.len() as int) =~= d);
        assert(l.subrange(d.len() + 1int, l.len() as int) =~= u);
    } else {
        assert(l =~= d + u);
        assert forall|j: int| 0 <= j < l.len() implies (not_char('/'))(#[trigger] l[j]) by {
            if j < d.len() {
                assert(l[j] == d[j]);
                assert(is_ascii_digit(d[j]));
            } else {
                assert(l[j] == u[j - d.len()]);
            }
        }
        lemma_count_while_exact(l, not_char('/'), l.len() as int);
        assert forall|j: int| 0 <= j < d.len() implies (|x: char| is_ascii_digit(x))(#[trigger] l[j]) by {
            assert(l[j] == d[j]);
        }
        assert(l[d.len() as int] == u[0]);
        lemma_count_while_exact(l, |x: char| is_ascii_digit(x), d.len() as int);
        assert(l.subrange(0, d.len() as int) =~= d);
        assert(l.subrange(d.len() as int, l.len() as int) =~= u);
    }
}

/// "N/unit" and "Nunit" are the same setting: with digits N and a unit
/// text that does not start with a digit and holds no '/', both forms read
/// the same.
pub proof fn lemma_slash_and_suffix_forms_agree(d: Seq<char>, u: Seq<char>)
    requires
        d.len() > 0,
        all_digits(d),
        u.len() > 0,
        !is_ascii_digit(u[0]),
        !u.contains('/'),
    ensures
        rate_limit_of(d + seq!['/'] + u) == rate_limit_of(d + Seq::<char>::empty() + u),
{
    lemma_split_digits_then(d, seq!['/'], u);
    lemma_split_digits_then(d, Seq::empty(), u);
    let l1 = d + seq!['/'] + u;
    let l2 = d + Seq::<char>::empty() + u;
    assert(l1.len() >= 3);
    assert(l2.len() >= 2);
    assert(l2[0] == d[0]);
    assert(is_ascii_digit(d[0]));
    assert(l1 != seq!['-', '1']);
    assert(l2 != seq!['-', '1']) by {
        if l2 == seq!['-', '1'] {
            assert(l2[0] == '-');
        }
    }
}

/// A count of minutes, hours or days: ASCII digits whose value fits in
/// `i64`, a '/', and a unit word ("m", "minute", "minutes", "h", ...,
/// possibly with surrounding space) read as that count per that unit.
pub proof fn lemma_count_per_unit(d: Seq<char>, u: Seq<char>)
    requires
        d.len() > 0,
        all_digits(d),
        digits_value(d) <= i64::MAX,
        unit_named(trim(u)) is Some,
    ensures
        rate_limit_of(d + seq!['/'] + u) == Ok::<RateLimit, Seq<char>>(
            RateLimit { limit: digits_value(d) as i64, unit: unit_named(trim(u)) },
        ),
{
    lemma_split_digits_then(d, seq!['/'], u);
    let l = d + seq!['/'] + u;
    assert(l.len() >= 2);
    assert(l != seq!['-', '1']) by {
        if l == seq!['-', '1'] {
            assert(l[0] == d[0]);
            assert(is_ascii_digit(d[0]));
        }
    }
    assert(l != seq!['0']);
    assert(is_ascii_digit(d[0]));
    lemma_digits_value_nonneg(d);
    assert(decimal_i64(d) == Some(digits_value(d))) by {
        assert(!(d[0] == '+' || d[0] == '-'));
    }
}

proof fn lemma_digits_value_nonneg(s: Seq<char>)
    requires
        all_digits(s),
    ensures
        digits_value(s) >= 0,
    decreases s.len(),
{
    if s.len() > 0 {
        assert(all_digits(s.drop_last())) by {
            assert forall|i: int| 0 <= i < s.drop_last().len() implies is_ascii_digit(#[trigger] s.drop_last()[i]) by {
                assert(s.drop_last()[i] == s[i]);
            }
        }
        lemma_digits_value_nonneg(s.drop_last());
        assert(is_ascii_digit(s[s.len() - 1]));
    }
}

/// Only a readable setting of 0 makes the proxy refuse; no readable
/// setting, -1, or a setting without unit lets mail through uncounted.
pub proof fn lemma_proxy_refuses_only_when_blocked(active: Option<RateLimit>)
    ensures
        proxy_plan(active) is Refuse <==> (active is Some && active->Some_0.limit == 0),
        proxy_plan(active) is Unlimited <==> (active is None || active->Some_0.limit == -1 || (
        active->Some_0.limit != 0 && active->Some_0.unit is None)),
{
}

/// For an application, a missing or unreadable setting refuses like a
/// setting of 0; -1 or a setting without unit lets mail through uncounted.
pub proof fn lemma_app_refuses_unless_configured(active: Option<RateLimit>)
    ensures
        app_plan(active) is Refuse <==> (active is None || active->Some_0.limit == 0),
        app_plan(active) is Unlimited <==> (active is Some && active->Some_0.limit != 0 && (
        active->Some_0.limit == -1 || active->Some_0.unit is None)),
{
}

/// A counted plan compares the window's count against the setting's own
/// limit and unit.
pub proof fn lemma_counted_plans_keep_the_setting(active: Option<RateLimit>)
    ensures
        proxy_plan(active) matches PlanModel::Reserve { unit, limit } ==> active == Some(
            RateLimit { limit, unit: Some(unit) },
        ) && limit != 0 && limit != -1,
        app_plan(active) matches PlanModel::Reserve { unit, limit } ==> active == Some(
            RateLimit { limit, unit: Some(unit) },
        ) && limit != 0 && limit != -1,
{
}

/// The instant a date text names in the zone `tz`, as the settings accept
/// it (after trimming): RFC 3339 with an offset; else
/// "YYYY-MM-DDTHH:MM:SS" or else "YYYY-MM-DD HH:MM:SS" as wall-clock time
/// in `tz` (none when that wall time is skipped or repeated there).
pub open spec fn datetime_in_zone(s: Seq<char>, tz: chrono_tz::Tz) -> Option<Instant> {
    let t = trim(s);
    match rfc3339_instant_of(t) {
        Some(i) => Some(i),
        None => match naive_datetime_of(t, "%Y-%m-%dT%H:%M:%S"@) {
            Some(n) => local_instant_of(n, tz),
            None => match naive_datetime_of(t, "%Y-%m-%d %H:%M:%S"@) {
                Some(n) => local_instant_of(n, tz),
                None => None,
            },
        },
    }
}

/// Reads a date setting in the zone `tz`.
pub fn parse_datetime(s: &str, tz: chrono_tz::Tz) -> (r: Option<Instant>)
    ensures
        r == datetime_in_zone(s@, tz),
{
    let t = trim_str(s);
    if let Some(i) = parse_rfc3339(t) {
        return Some(i);
    }
    if let Some(n) = parse_naive(t, "%Y-%m-%dT%H:%M:%S") {
        return localize(&n, tz);
    }
    if let Some(n) = parse_naive(t, "%Y-%m-%d %H:%M:%S") {
        return localize(&n, tz);
    }
    None
}

/// The two sides of the first ',' in `s`, if there is one.
pub open spec fn split_at_comma(s: Seq<char>) -> Option<(Seq<char>, Seq<char>)> {
    let i = index_of_char(s, ',');
    if i < s.len() {
        Some((s.subrange(0, i as int), s.subrange(i + 1int, s.len() as int)))
    } else {
        None
    }
}

/// The window "start,end" that `range` names, if both ends can be read.
pub open spec fn override_window(range: Seq<char>, tz: chrono_tz::Tz) -> Option<(Instant, Instant)> {
    match split_at_comma(range) {
        Some((a, b)) => match (datetime_in_zone(a, tz), datetime_in_zone(b, tz)) {
            (Some(start), Some(end)) => Some((start, end)),
            _ => None,
        },
        None => None,
    }
}

/// The setting in force at `now`: the override, when it is set together
/// with a readable time window that contains `now` and the override itself
/// can be read; otherwise the default, when it can be read.
pub open spec fn active_rate_limit(
    override_text: Option<Seq<char>>,
    range: Option<Seq<char>>,
    default_text: Seq<char>,
    now: Instant,
    tz: chrono_tz::Tz,
) -> Option<RateLimit> {
    let overridden = match (override_text, range) {
        (Some(o), Some(rg)) => match override_window(rg, tz) {
            Some((start, end)) => if not_after(start, now) && not_after(now, end) {
                match parsed_rate_limit(o) {
                    Ok(l) => Some(l),
                    Err(_) => None,
                }
            } else {
                None
            },
            None => None,
        },
        _ => None,
    };
    match overridden {
        Some(l) => Some(l),
        None => match parsed_rate_limit(default_text) {
            Ok(l) => Some(l),
            Err(_) => None,
        },
    }
}

/// The default setting's reading, as the active limit when no override
/// applies.
pub open spec fn default_reading(default_text: Seq<char>) -> Option<RateLimit> {
    match parsed_rate_limit(default_text) {
        Ok(l) => Some(l),
        Err(_) => None,
    }
}

/// An override whose window has not started yet, or has already ended, is
/// not in force: the default applies. Inside its window (both ends
/// included) a readable override is in force.
pub proof fn lemma_override_only_inside_window(
    override_text: Seq<char>,
    range: Seq<char>,
    default_text: Seq<char>,
    now: Instant,
    tz: chrono_tz::Tz,
    start_text: Seq<char>,
    end_text: Seq<char>,
    start: Instant,
    end: Instant,
)
    requires
        split_at_comma(range) == Some((start_text, end_text)),
        datetime_in_zone(start_text, tz) == Some(start),
        datetime_in_zone(end_text, tz) == Some(end),
    ensures
        (now.secs < start.secs || (now.secs == start.secs && now.nanos < start.nanos)) ==> active_rate_limit(
            Some(override_text),
            Some(range),
            default_text,
            now,
            tz,
        ) == default_reading(default_text),
        (end.secs < now.secs || (end.secs == now.secs && end.nanos < now.nanos)) ==> active_rate_limit(
            Some(override_text),
            Some(range),
            default_text,
            now,
            tz,
        ) == default_reading(default_text),
        ((start.secs < now.secs || (start.secs == now.secs && start.nanos <= now.nanos)) && (now.secs < end.secs || (
        now.secs == end.secs && now.nanos <= end.nanos)) && parsed_rate_limit(override_text) is Ok) ==> active_rate_limit(
            Some(override_text),
            Some(range),
            default_text,
            now,
            tz,
        ) == Some(parsed_rate_limit(override_text)->Ok_0),
{
}

/// Without both an override and its window, the default applies.
pub proof fn lemma_no_override_uses_default(
    override_text: Option<Seq<char>>,
    range: Option<Seq<char>>,
    default_text: Seq<char>,
    now: Instant,
    tz: chrono_tz::Tz,
)
    requires
        override_text is None || range is None,
    ensures
        active_rate_limit(override_text, range, default_text, now, tz) == default_reading(default_text),
{
}

/// Chooses the rate limit in force at `now` from the override, its time
/// window ("start,end") and the default.
pub fn get_active_rate_limit(
    override_text: Option<&str>,
    range: Option<&str>,
    default_text: &str,
    now: Instant,
    tz: chrono_tz::Tz,
) -> (r: Option<RateLimit>)
    ensures
        r == active_rate_limit(
            match override_text { Some(o) => Some(o@), None => None },
            match range { Some(g) => Some(g@), None => None },
            default_text@,
            now,
            tz,
        ),
{
    if let (Some(o), Some(rg)) = (override_text, range) {
        let n = rg.unicode_len();
        let i = find_char(rg, ',');
        proof {
            lemma_count_while_bounds(rg@, not_char(','));
        }
        if i < n {
            let start = parse_datetime(rg.substring_char(0, i), tz);
            let end = parse_datetime(rg.substring_char(i + 1, n), tz);
            if let (Some(start), Some(end)) = (start, end) {
                if instant_not_after(start, now) && instant_not_after(now, end) {
                    if let Ok(l) = parse_rate_limit(o) {
                        return Some(l);
                    }
                }
            }
        }
    }
    match parse_rate_limit(default_text) {
        Ok(l) => Some(l),
        Err(_) => None,
    }
}

/// The text setting `key` of the pair, if set.
pub open spec fn text_setting(store: StoreModel, pair: Seq<char>, key: Seq<char>) -> Option<Seq<char>> {
    appdata_as::<String>(store, pair, key)
}

/// The rate limit in force at `now` for an environment and application,
/// from the pair's settings "email-rate-limit-override",
/// "email-rate-limit-time-range" and "email-rate-limit" (empty when unset).
pub fn active_rate_limit_for_app(
    store: &AppdataStore,
    env: &str,
    app: &str,
    now: Instant,
    tz: chrono_tz::Tz,
) -> (r: Option<RateLimit>)
    ensures
        r == active_rate_limit(
            text_setting(store@, env_app_name(env@, app@), "email-rate-limit-override"@),
            text_setting(store@, env_app_name(env@, app@), "email-rate-limit-time-range"@),
            match text_setting(store@, env_app_name(env@, app@), "email-rate-limit"@) {
                Some(t) => t,
                None => Seq::empty(),
            },
            now,
            tz,
        ),
{
    let pair = env_app(env, app);
    let over = get_appdata::<String>(store, pair.as_str(), "email-rate-limit-override");
    let range = get_appdata::<String>(store, pair.as_str(), "email-rate-limit-time-range");
    let default_text = match get_appdata::<String>(store, pair.as_str(), "email-rate-limit") {
        Some(t) => t,
        None => String::new(),
    };
    let o = match &over {
        Some(t) => Some(t.as_str()),
        None => None,
    };
    let g = match &range {
        Some(t) => Some(t.as_str()),
        None => None,
    };
    get_active_rate_limit(o, g, default_text.as_str(), now, tz)
}

/// What to do about a message given the rate limit in force.
#[derive(Debug, PartialEq, Eq)]
pub enum ReservePlan {
    /// Send without counting.
    Unlimited,
    /// Refuse with this message.
    Refuse(String),
    /// Count the message in the current window of this unit, against this
    /// limit.
    Reserve { unit: RateLimitUnit, limit: i64 },
}

pub enum PlanModel {
    Unlimited,
    Refuse(Seq<char>),
    Reserve { unit: RateLimitUnit, limit: i64 },
}

impl View for ReservePlan {
    type V = PlanModel;

    open spec fn view(&self) -> PlanModel {
        match self {
            ReservePlan::Unlimited => PlanModel::Unlimited,
            ReservePlan::Refuse(m) => PlanModel::Refuse(m@),
            ReservePlan::Reserve { unit, limit } => PlanModel::Reserve { unit: *unit, limit: *limit },
        }
    }
}

/// The SMTP proxy's plan: no readable setting or -1 means unlimited, 0
/// refuses, a setting without unit is unlimited, anything else is counted.
pub open spec fn proxy_plan(active: Option<RateLimit>) -> PlanModel {
    match active {
        None => PlanModel::Unlimited,
        Some(l) => if l.limit == -1 {
            PlanModel::Unlimited
        } else if l.limit == 0 {
            PlanModel::Refuse("Sending email is blocked by rate limit configuration (limit = 0)"@)
        } else {
            match l.unit {
                None => PlanModel::Unlimited,
                Some(u) => PlanModel::Reserve { unit: u, limit: l.limit },
            }
        },
    }
}

pub fn proxy_reserve_plan(active: Option<RateLimit>) -> (r: ReservePlan)
    ensures
        r@ == proxy_plan(active),
{
    match active {
        None => ReservePlan::Unlimited,
        Some(l) => {
            if l.limit == -1 {
                ReservePlan::Unlimited
            } else if l.limit == 0 {
                ReservePlan::Refuse(String::from_str("Sending email is blocked by rate limit configuration (limit = 0)"))
            } else {
                match l.unit {
                    None => ReservePlan::Unlimited,
                    Some(u) => ReservePlan::Reserve { unit: u, limit: l.limit },
                }
            }
        },
    }
}

/// The per-application plan: no readable setting refuses, 0 refuses, -1
/// or a setting without unit is unlimited, anything else is counted.
pub open spec fn app_plan(active: Option<RateLimit>) -> PlanModel {
    match active {
        None => PlanModel::Refuse("sending email is blocked by rate limit"@),
        Some(l) => if l.limit == 0 {
            PlanModel::Refuse("sending email is blocked by rate limit configuration"@)
        } else if l.limit == -1 {
            PlanModel::Unlimited
        } else {
            match l.unit {
                None => PlanModel::Unlimited,
                Some(u) => PlanModel::Reserve { unit: u, limit: l.limit },
            }
        },
    }
}

pub fn app_reserve_plan(active: Option<RateLimit>) -> (r: ReservePlan)
    ensures
        r@ == app_plan(active),
{
    match active {
        None => ReservePlan::Refuse(String::from_str("sending email is blocked by rate limit")),
        Some(l) => {
            if l.limit == 0 {
                ReservePlan::Refuse(String::from_str("sending email is blocked by rate limit configuration"))
            } else if l.limit == -1 {
                ReservePlan::Unlimited
            } else {
                match l.unit {
                    None => ReservePlan::Unlimited,
                    Some(u) => ReservePlan::Reserve { unit: u, limit: l.limit },
                }
            }
        },
    }
}

/// After counting a message: it is accepted while the window's count does
/// not exceed the limit; otherwise the count is rolled back and the
/// message refused.
pub fn count_verdict(count: i64, limit: i64) -> (r: Result<(), String>)
    ensures
        match r {
            Ok(()) => count <= limit,
            Err(m) => count > limit && m@ == "Rate limit exceeded. Please try again later."@,
        },
{
    if count > limit {
        Err(String::from_str("Rate limit exceeded. Please try again later."))
    } else {
        Ok(())
    }
}

/// Whether old windows are purged on this reservation: when the clock's
/// nanoseconds since the epoch are a multiple of 100 (about one in a hundred
/// reservations).
pub fn purge_due(nanos_since_epoch: u128) -> (r: bool)
    ensures
        r == (nanos_since_epoch % 100 == 0),
{
    nanos_since_epoch % 100 == 0
}

/// The strftime pattern of a window's calendar text.
pub open spec fn window_format(unit: RateLimitUnit) -> Seq<char> {
    match unit {
        RateLimitUnit::Minute => "%Y-%m-%d %H:%M"@,
        RateLimitUnit::Hour => "%Y-%m-%d %H"@,
        RateLimitUnit::Day => "%Y-%m-%d"@,
    }
}

pub open spec fn unit_word(unit: RateLimitUnit) -> Seq<char> {
    match unit {
        RateLimitUnit::Minute => "minute"@,
        RateLimitUnit::Hour => "hour"@,
        RateLimitUnit::Day => "day"@,
    }
}

fn window_text(unit: RateLimitUnit, now: &chrono::NaiveDateTime) -> (r: String)
    ensures
        r@ == formatted_of(*now, window_format(unit)),
{
    match unit {
        RateLimitUnit::Minute => format_wall_clock(now, "%Y-%m-%d %H:%M"),
        RateLimitUnit::Hour => format_wall_clock(now, "%Y-%m-%d %H"),
        RateLimitUnit::Day => format_wall_clock(now, "%Y-%m-%d"),
    }
}

fn unit_text(unit: RateLimitUnit) -> (r: &'static str)
    ensures
        r@ == unit_word(unit),
{
    match unit {
        RateLimitUnit::Minute => "minute",
        RateLimitUnit::Hour => "hour",
        RateLimitUnit::Day => "day",
    }
}

/// The counter key of the proxy's current window: "rate:<unit>:" and the
/// window's calendar text, read from the wall-clock time `now` in the
/// service's zone.
pub fn get_window_key(unit: &RateLimitUnit, now: &chrono::NaiveDateTime) -> (r: String)
    ensures
        r@ == "rate:"@ + unit_word(*unit) + ":"@ + formatted_of(*now, window_format(*unit)),
{
    let t = window_text(*unit, now);
    let mut k = String::from_str("rate:");
    k.append(unit_text(*unit));
    k.append(":");
    k.append(t.as_str());
    k
}

/// The counter key of an application's current window:
/// "rate:<env>:<app>:<unit>:" and the window's calendar text at the
/// wall-clock time `now`.
pub fn app_window_key(env: &str, app: &str, unit: &RateLimitUnit, now: &chrono::NaiveDateTime) -> (r: String)
    ensures
        r@ == "rate:"@ + env@ + ":"@ + app@ + ":"@ + unit_word(*unit) + ":"@ + formatted_of(*now, window_format(*unit)),
{
    let t = window_text(*unit, now);
    let mut k = String::from_str("rate:");
    k.append(env);
    k.append(":");
    k.append(app);
    k.append(":");
    k.append(unit_text(*unit));
    k.append(":");
    k.append(t.as_str());
    k
}

/// The reserved slot to give back once a client's mail has been handled:
/// the slot taken (if any) whenever the mail was not relayed, because the
/// registry could not be found, offered no SMTP relay, or the relay failed;
/// none when it was relayed.
pub fn slot_to_refund(reserved: Option<String>, relayed: bool) -> (r: Option<String>)
    ensures
        r.deep_view() == (if relayed { None } else { reserved.deep_view() }),
{
    if relayed {
        None
    } else {
        reserved
    }
}

} // verus!
