//! Text helpers over `char` sequences: Unicode white space, trimming,
//! prefix tests.

use vstd::prelude::*;
use vstd::string::*;

verus! {

/// The Unicode `White_Space` property, which `char::is_whitespace` tests.
pub open spec fn is_ws(c: char) -> bool {
    ||| ('\u{9}' <= c && c <= '\u{d}')
    ||| c == ' '
    ||| c == '\u{85}'
    ||| c == '\u{a0}'
    ||| c == '\u{1680}'
    ||| ('\u{2000}' <= c && c <= '\u{200a}')
    ||| c == '\u{2028}'
    ||| c == '\u{2029}'
    ||| c == '\u{202f}'
    ||| c == '\u{205f}'
    ||| c == '\u{3000}'
}

pub fn char_is_ws(c: char) -> (r: bool)
    ensures
        r == is_ws(c),
{
    ('\u{9}' <= c && c <= '\u{d}') || c == ' ' || c == '\u{85}' || c == '\u{a0}' || c == '\u{1680}'
        || ('\u{2000}' <= c && c <= '\u{200a}') || c == '\u{2028}' || c == '\u{2029}'
        || c == '\u{202f}' || c == '\u{205f}' || c == '\u{3000}'
}

/// `s` without its leading white space.
pub open spec fn trim_start(s: Seq<char>) -> Seq<char>
    decreases s.len(),
{
    if s.len() > 0 && is_ws(s[0]) {
        trim_start(s.drop_first())
    } else {
        s
    }
}

/// `s` without its trailing white space.
pub open spec fn trim_end(s: Seq<char>) -> Seq<char>
    decreases s.len(),
{
    if s.len() > 0 && is_ws(s.last()) {
        trim_end(s.drop_last())
    } else {
        s
    }
}

/// `s` without leading and trailing white space, as `str::trim` gives it.
pub open spec fn trim(s: Seq<char>) -> Seq<char> {
    trim_end(trim_start(s))
}

proof fn lemma_trim_start_suffix(s: Seq<char>, i: int)
    requires
        0 <= i <= s.len(),
        forall|j: int| 0 <= j < i ==> is_ws(#[trigger] s[j]),
    ensures
        trim_start(s) == trim_start(s.subrange(i, s.len() as int)),
    decreases i,
{
    if i > 0 {
        assert(s.drop_first().subrange(i - 1, s.drop_first().len() as int) =~= s.subrange(i, s.len() as int));
        lemma_trim_start_suffix(s.drop_first(), i - 1);
    } else {
        assert(s.subrange(0, s.len() as int) =~= s);
    }
}

proof fn lemma_trim_end_prefix(s: Seq<char>, k: int)
    requires
        0 <= k <= s.len(),
        forall|j: int| k <= j < s.len() ==> is_ws(#[trigger] s[j]),
    ensures
        trim_end(s) == trim_end(s.subrange(0, k)),
    decreases s.len() - k,
{
    if k < s.len() {
        assert(s.drop_last().subrange(0, k) =~= s.subrange(0, k));
        lemma_trim_end_prefix(s.drop_last(), k);
    } else {
        assert(s.subrange(0, k) =~= s);
    }
}

proof fn lemma_trim_start_shape(s: Seq<char>)
    ensures
        trim_start(s).len() > 0 ==> !is_ws(trim_start(s)[0]),
    decreases s.len(),
{
    if s.len() > 0 && is_ws(s[0]) {
        lemma_trim_start_shape(s.drop_first());
    }
}

proof fn lemma_trim_end_shape(s: Seq<char>)
    ensures
        trim_end(s).is_prefix_of(s),
        trim_end(s).len() > 0 ==> !is_ws(trim_end(s).last()),
    decreases s.len(),
{
    if s.len() > 0 && is_ws(s.last()) {
        lemma_trim_end_shape(s.drop_last());
    }
}

/// Trimming twice is trimming once.
pub proof fn lemma_trim_idempotent(s: Seq<char>)
    ensures
        trim(trim(s)) == trim(s),
{
    let a = trim_start(s);
    let t = trim_end(a);
    lemma_trim_start_shape(s);
    lemma_trim_end_shape(a);
    if t.len() > 0 {
        assert(t[0] == a[0]);
        assert(trim_start(t) == t);
        assert(trim_end(t) == t);
    } else {
        assert(trim_start(t) == t);
        assert(trim_end(t) == t);
    }
}

/// The part of `s` without leading and trailing white space.
pub fn trim_str(s: &str) -> (r: &str)
    ensures
        r@ == trim(s@),
{
    let n = s.unicode_len();
    let mut i: usize = 0;
    while i < n && char_is_ws(s.get_char(i))
        invariant
            n == s@.len(),
            i <= n,
            forall|j: int| 0 <= j < i ==> is_ws(#[trigger] s@[j]),
        decreases n - i,
    {
        i = i + 1;
    }
    proof {
        lemma_trim_start_suffix(s@, i as int);
    }
    let ghost rest = s@.subrange(i as int, n as int);
    assert(trim_start(rest) == rest);
    let mut k: usize = n;
    while k > i && char_is_ws(s.get_char(k - 1))
        invariant
            n == s@.len(),
            i <= k <= n,
            rest == s@.subrange(i as int, n as int),
            forall|j: int| k <= j < n ==> is_ws(#[trigger] s@[j]),
        decreases k,
    {
        k = k - 1;
    }
    proof {
        assert forall|j: int| k - i <= j < rest.len() implies is_ws(#[trigger] rest[j]) by {
            assert(rest[j] == s@[j + i]);
        }
        lemma_trim_end_prefix(rest, k - i);
        assert(rest.subrange(0, k - i) =~= s@.subrange(i as int, k as int));
    }
    s.substring_char(i, k)
}


/// Number of leading elements of `s` that satisfy `p`.
pub open spec fn count_while(s: Seq<char>, p: spec_fn(char) -> bool) -> nat
    decreases s.len(),
{
    if s.len() > 0 && p(s[0]) {
        1 + count_while(s.drop_first(), p)
    } else {
        0
    }
}

pub proof fn lemma_count_while_skip(s: Seq<char>, p: spec_fn(char) -> bool, i: int)
    requires
        0 <= i <= s.len(),
        forall|j: int| 0 <= j < i ==> p(#[trigger] s[j]),
    ensures
        count_while(s, p) == i + count_while(s.subrange(i, s.len() as int), p),
    decreases i,
{
    if i > 0 {
        assert(s.drop_first().subrange(i - 1, s.drop_first().len() as int) =~= s.subrange(i, s.len() as int));
        lemma_count_while_skip(s.drop_first(), p, i - 1);
    } else {
        assert(s.subrange(0, s.len() as int) =~= s);
    }
}

pub proof fn lemma_count_while_bounds(s: Seq<char>, p: spec_fn(char) -> bool)
    ensures
        count_while(s, p) <= s.len(),
        forall|j: int| 0 <= j < count_while(s, p) ==> p(#[trigger] s[j]),
        count_while(s, p) < s.len() ==> !p(s[count_while(s, p) as int]),
    decreases s.len(),
{
    if s.len() > 0 && p(s[0]) {
        lemma_count_while_bounds(s.drop_first(), p);
        assert forall|j: int| 0 <= j < count_while(s, p) implies p(#[trigger] s[j]) by {
            if j > 0 {
                assert(s[j] == s.drop_first()[j - 1]);
            }
        }
    }
}

/// `count_while` is `i` when the first `i` elements satisfy `p` and the
/// next one, if any, does not.
pub proof fn lemma_count_while_exact(s: Seq<char>, p: spec_fn(char) -> bool, i: int)
    requires
        0 <= i <= s.len(),
        forall|j: int| 0 <= j < i ==> p(#[trigger] s[j]),
        i < s.len() ==> !p(s[i]),
    ensures
        count_while(s, p) == i,
{
    lemma_count_while_skip(s, p, i);
    let rest = s.subrange(i, s.len() as int);
    if i < s.len() {
        assert(rest[0] == s[i]);
    }
}

/// The characters that are not `c`.
pub open spec fn not_char(c: char) -> spec_fn(char) -> bool {
    |x: char| x != c
}

pub open spec fn is_ascii_digit(c: char) -> bool {
    '0' <= c && c <= '9'
}

/// Number of characters of `s` before the first `c` (the length of `s` if
/// there is none).
pub open spec fn index_of_char(s: Seq<char>, c: char) -> nat {
    count_while(s, not_char(c))
}

/// Number of leading ASCII digits of `s`.
pub open spec fn leading_digits(s: Seq<char>) -> nat {
    count_while(s, |x: char| is_ascii_digit(x))
}

/// Position of the first `c` in `s`, or the length of `s` when `c` does not occur.
pub fn find_char(s: &str, c: char) -> (r: usize)
    ensures
        r == index_of_char(s@, c),
{
    let n = s.unicode_len();
    let mut i: usize = 0;
    while i < n && s.get_char(i) != c
        invariant
            n == s@.len(),
            i <= n,
            forall|j: int| 0 <= j < i ==> (not_char(c))(#[trigger] s@[j]),
        decreases n - i,
    {
        i = i + 1;
    }
    proof {
        lemma_count_while_skip(s@, not_char(c), i as int);
        let rest = s@.subrange(i as int, n as int);
        if i < n {
            assert(rest[0] == c);
        }
        assert(count_while(rest, not_char(c)) == 0);
    }
    i
}

/// Number of leading ASCII digits of `s`.
pub fn count_leading_digits(s: &str) -> (r: usize)
    ensures
        r == leading_digits(s@),
{
    let n = s.unicode_len();
    let mut i: usize = 0;
    while i < n && ('0' <= s.get_char(i) && s.get_char(i) <= '9')
        invariant
            n == s@.len(),
            i <= n,
            forall|j: int| 0 <= j < i ==> (|x: char| is_ascii_digit(x))(#[trigger] s@[j]),
        decreases n - i,
    {
        i = i + 1;
    }
    proof {
        lemma_count_while_skip(s@, |x: char| is_ascii_digit(x), i as int);
        let rest = s@.subrange(i as int, n as int);
        if i < n {
            assert(rest[0] == s@[i as int]);
        }
        assert(count_while(rest, |x: char| is_ascii_digit(x)) == 0);
    }
    i
}

/// Character-wise equality of two string slices.
pub fn str_eq(a: &str, b: &str) -> (r: bool)
    ensures
        r == (a@ == b@),
{
    let n = a.unicode_len();
    if n != b.unicode_len() {
        return false;
    }
    let mut i: usize = 0;
    while i < n
        invariant
            n == a@.len(),
            n == b@.len(),
            i <= n,
            forall|j: int| 0 <= j < i ==> a@[j] == b@[j],
        decreases n - i,
    {
        if a.get_char(i) != b.get_char(i) {
            return false;
        }
        i = i + 1;
    }
    assert(a@ =~= b@);
    true
}

/// Whether `s` begins with `prefix`.
pub fn str_starts_with(s: &str, prefix: &str) -> (r: bool)
    ensures
        r == prefix@.is_prefix_of(s@),
{
    let n = prefix.unicode_len();
    if n > s.unicode_len() {
        return false;
    }
    let mut i: usize = 0;
    while i < n
        invariant
            n == prefix@.len(),
            n <= s@.len(),
            i <= n,
            forall|j: int| 0 <= j < i ==> prefix@[j] == s@[j],
        decreases n - i,
    {
        if prefix.get_char(i) != s.get_char(i) {
            return false;
        }
        i = i + 1;
    }
    true
}

/// ASCII lower-casing of a single character.
pub open spec fn ascii_lower_char(c: char) -> char {
    if 'A' <= c && c <= 'Z' {
        ((c as u32) + 32) as char
    } else {
        c
    }
}

/// ASCII upper-casing of a single character.
pub open spec fn ascii_upper_char(c: char) -> char {
    if 'a' <= c && c <= 'z' {
        ((c as u32) - 32) as char
    } else {
        c
    }
}

pub open spec fn is_ascii_seq(s: Seq<char>) -> bool {
    forall|i: int| 0 <= i < s.len() ==> (#[trigger] s[i] as u32) < 128
}

/// ASCII lower-casing of a text.
pub open spec fn ascii_lower_seq(s: Seq<char>) -> Seq<char> {
    s.map_values(|c: char| ascii_lower_char(c))
}

/// ASCII upper-casing of a text.
pub open spec fn ascii_upper_seq(s: Seq<char>) -> Seq<char> {
    s.map_values(|c: char| ascii_upper_char(c))
}

/// Whether every character of `s` is white space.
pub open spec fn all_ws(s: Seq<char>) -> bool {
    forall|i: int| 0 <= i < s.len() ==> is_ws(#[trigger] s[i])
}

proof fn lemma_trim_start_append(y: Seq<char>, w: Seq<char>)
    requires
        all_ws(w),
    ensures
        trim_start(y + w) == (if trim_start(y).len() > 0 { trim_start(y) + w } else { Seq::<char>::empty() }),
    decreases y.len(),
{
    if y.len() == 0 {
        assert(y + w =~= w);
        lemma_trim_start_suffix(w, w.len() as int);
        assert(w.subrange(w.len() as int, w.len() as int) =~= Seq::<char>::empty());
    } else if is_ws(y[0]) {
        assert((y + w).drop_first() =~= y.drop_first() + w);
        lemma_trim_start_append(y.drop_first(), w);
    } else {
        assert((y + w)[0] == y[0]);
    }
}

/// Trimming ignores white space added before and after a text.
pub proof fn lemma_trim_surrounded(before: Seq<char>, x: Seq<char>, after: Seq<char>)
    requires
        all_ws(before),
        all_ws(after),
    ensures
        trim(before + x + after) == trim(x),
{
    let s = before + x + after;
    assert forall|j: int| 0 <= j < before.len() implies is_ws(#[trigger] s[j]) by {
        assert(s[j] == before[j]);
    }
    lemma_trim_start_suffix(s, before.len() as int);
    assert(s.subrange(before.len() as int, s.len() as int) =~= x + after);
    lemma_trim_start_append(x, after);
    let t = trim_start(x);
    if t.len() > 0 {
        let ta = t + after;
        assert forall|j: int| t.len() <= j < ta.len() implies is_ws(#[trigger] ta[j]) by {
            assert(ta[j] == after[j - t.len()]);
        }
        lemma_trim_end_prefix(ta, t.len() as int);
        assert(ta.subrange(0, t.len() as int) =~= t);
    }
}

proof fn lemma_upper_keeps_ws(c: char)
    ensures
        is_ws(ascii_upper_char(c)) == is_ws(c),
{
    if 'a' <= c && c <= 'z' {
        assert(('a' as u32) <= (c as u32) <= ('z' as u32));
        assert(97 <= (c as u32) <= 122);
        assert((((c as u32) - 32) as char) as u32 == (c as u32) - 32);
    }
}

/// Upper-casing ASCII letters commutes with trimming.
pub proof fn lemma_trim_ascii_upper(s: Seq<char>)
    ensures
        trim(ascii_upper_seq(s)) == ascii_upper_seq(trim(s)),
{
    lemma_trim_start_upper(s);
    lemma_trim_end_upper(trim_start(s));
}

proof fn lemma_trim_start_upper(s: Seq<char>)
    ensures
        trim_start(ascii_upper_seq(s)) == ascii_upper_seq(trim_start(s)),
    decreases s.len(),
{
    if s.len() > 0 {
        lemma_upper_keeps_ws(s[0]);
        assert(ascii_upper_seq(s)[0] == ascii_upper_char(s[0]));
        if is_ws(s[0]) {
            assert(ascii_upper_seq(s).drop_first() =~= ascii_upper_seq(s.drop_first()));
            lemma_trim_start_upper(s.drop_first());
        }
    } else {
        assert(ascii_upper_seq(s) =~= s);
    }
}

proof fn lemma_trim_end_upper(s: Seq<char>)
    ensures
        trim_end(ascii_upper_seq(s)) == ascii_upper_seq(trim_end(s)),
    decreases s.len(),
{
    if s.len() > 0 {
        lemma_upper_keeps_ws(s.last());
        assert(ascii_upper_seq(s).last() == ascii_upper_char(s.last()));
        if is_ws(s.last()) {
            assert(ascii_upper_seq(s).drop_last() =~= ascii_upper_seq(s.drop_last()));
            lemma_trim_end_upper(s.drop_last());
        }
    } else {
        assert(ascii_upper_seq(s) =~= s);
    }
}

/// Lower-casing an upper-cased ASCII text gives its lower-cased form.
pub proof fn lemma_lower_of_upper(s: Seq<char>)
    ensures
        ascii_lower_seq(ascii_upper_seq(s)) == ascii_lower_seq(s),
{
    assert forall|i: int| 0 <= i < s.len() implies ascii_lower_char(ascii_upper_char(#[trigger] s[i]))
        == ascii_lower_char(s[i]) by {
        let c = s[i];
        if 'a' <= c && c <= 'z' {
            assert(97 <= (c as u32) <= 122);
            let u = ((c as u32) - 32) as char;
            assert(u as u32 == (c as u32) - 32);
            assert('A' <= u && u <= 'Z');
            assert((((u as u32) + 32) as char) == c);
        }
    }
    assert(ascii_lower_seq(ascii_upper_seq(s)) =~= ascii_lower_seq(s));
}

/// Trimming keeps a text ASCII.
pub proof fn lemma_trim_ascii(s: Seq<char>)
    requires
        is_ascii_seq(s),
    ensures
        is_ascii_seq(trim(s)),
{
    lemma_trim_start_sub(s);
    lemma_trim_end_shape(trim_start(s));
    let a = trim_start(s);
    let t = trim_end(a);
    assert forall|i: int| 0 <= i < a.len() implies (#[trigger] a[i] as u32) < 128 by {
        assert(a[i] == s[i + s.len() - a.len()]);
    }
    assert forall|i: int| 0 <= i < t.len() implies (#[trigger] t[i] as u32) < 128 by {
        assert(t[i] == a[i]);
    }
}

proof fn lemma_trim_start_sub(s: Seq<char>)
    ensures
        trim_start(s).len() <= s.len(),
        trim_start(s) =~= s.subrange(s.len() - trim_start(s).len(), s.len() as int),
    decreases s.len(),
{
    if s.len() > 0 && is_ws(s[0]) {
        lemma_trim_start_sub(s.drop_first());
    }
}

/// What `str::to_lowercase` returns for `s`.
pub uninterp spec fn lowercase_of(s: Seq<char>) -> Seq<char>;

/// What `str::to_uppercase` returns for `s`.
pub uninterp spec fn uppercase_of(s: Seq<char>) -> Seq<char>;

/// Calls `str::to_lowercase`. The contract names its result and states
/// the documented effect on ASCII text: each letter `A`..`Z` becomes
/// `a`..`z`, every other ASCII character is kept. What it does to other
/// characters (the Unicode `Lowercase` mapping) is left unsaid.
#[verifier::external_body]
pub(crate) fn to_lowercase(s: &str) -> (r: String)
    ensures
        r@ == lowercase_of(s@),
        is_ascii_seq(s@) ==> r@ == ascii_lower_seq(s@),
{
    s.to_lowercase()
}

/// Calls `str::to_uppercase`. The contract names its result and states
/// the documented effect on ASCII text: each letter `a`..`z` becomes
/// `A`..`Z`, every other ASCII character is kept. What it does to other
/// characters (the Unicode `Uppercase` mapping) is left unsaid.
#[verifier::external_body]
pub(crate) fn to_uppercase(s: &str) -> (r: String)
    ensures
        r@ == uppercase_of(s@),
        is_ascii_seq(s@) ==> r@ == ascii_upper_seq(s@),
{
    s.to_uppercase()
}


/// The views of a list of strings.
pub open spec fn views(v: Seq<String>) -> Seq<Seq<char>> {
    v.map_values(|x: String| x@)
}

/// The parts of `s` between occurrences of `c`, each trimmed, without the
/// parts that are empty after trimming.
pub open spec fn split_trimmed(s: Seq<char>, c: char) -> Seq<Seq<char>>
    decreases s.len(),
{
    let i = index_of_char(s, c);
    let head = trim(s.subrange(0, i as int));
    let rest = if i < s.len() {
        split_trimmed(s.subrange(i + 1int, s.len() as int), c)
    } else {
        Seq::<Seq<char>>::empty()
    };
    if head.len() > 0 {
        seq![head] + rest
    } else {
        rest
    }
}

/// Splits `s` at every `c`, trims each part and drops the empty ones.
pub fn split_trimmed_parts(s: &str, c: char) -> (r: Vec<String>)
    ensures
        views(r@) == split_trimmed(s@, c),
    decreases s@.len(),
{
    let n = s.unicode_len();
    proof {
        lemma_count_while_bounds(s@, not_char(c));
    }
    let i = find_char(s, c);
    let head = trim_str(s.substring_char(0, i));
    let mut out: Vec<String> = Vec::new();
    if head.unicode_len() > 0 {
        out.push(String::from_str(head));
    }
    let ghost first = views(out@);
    if i < n {
        let rest = split_trimmed_parts(s.substring_char(i + 1, n), c);
        let ghost rest_views = views(rest@);
        let mut k: usize = 0;
        while k < rest.len()
            invariant
                k <= rest@.len(),
                views(out@) == first + views(rest@).subrange(0, k as int),
            decreases rest@.len() - k,
        {
            let ghost before = out@;
            out.push(rest[k].clone());
            proof {
                assert(views(out@) =~= views(before).push(rest@[k as int]@));
                assert(views(rest@).subrange(0, k + 1) =~= views(rest@).subrange(0, k as int).push(rest@[k as int]@));
                assert(views(out@) =~= first + views(rest@).subrange(0, k + 1));
            }
            k = k + 1;
        }
        proof {
            assert(views(rest@).subrange(0, rest@.len() as int) =~= views(rest@));
            if head@.len() > 0 {
                assert(first =~= seq![head@]);
            } else {
                assert(first =~= Seq::<Seq<char>>::empty());
            }
            assert(views(out@) =~= split_trimmed(s@, c));
        }
    } else {
        proof {
            if head@.len() > 0 {
                assert(views(out@) =~= seq![head@]);
            } else {
                assert(views(out@) =~= Seq::<Seq<char>>::empty());
            }
            assert(views(out@) =~= split_trimmed(s@, c));
        }
    }
    out
}


/// Trimmed, then lower-cased (`s.trim().to_lowercase()`).
pub open spec fn trim_lower(s: Seq<char>) -> Seq<char> {
    lowercase_of(trim(s))
}

pub open spec fn opt_trim(o: Option<Seq<char>>) -> Option<Seq<char>> {
    match o {
        Some(s) => Some(trim(s)),
        None => None,
    }
}

pub open spec fn opt_trim_lower(o: Option<Seq<char>>) -> Option<Seq<char>> {
    match o {
        Some(s) => Some(trim_lower(s)),
        None => None,
    }
}

/// Whether an optional text is absent or empty.
pub open spec fn absent_or_empty(o: Option<Seq<char>>) -> bool {
    match o {
        Some(s) => s.len() == 0,
        None => true,
    }
}

/// `s.trim().to_lowercase()`.
pub fn trim_lowercase(s: &str) -> (r: String)
    ensures
        r@ == trim_lower(s@),
{
    to_lowercase(trim_str(s))
}

/// `s.trim().to_string()`.
pub fn trimmed(s: &str) -> (r: String)
    ensures
        r@ == trim(s@),
{
    String::from_str(trim_str(s))
}

pub fn map_trim(o: &Option<String>) -> (r: Option<String>)
    ensures
        r.deep_view() == opt_trim(o.deep_view()),
{
    match o {
        Some(s) => Some(trimmed(s.as_str())),
        None => None,
    }
}

pub fn map_trim_lower(o: &Option<String>) -> (r: Option<String>)
    ensures
        r.deep_view() == opt_trim_lower(o.deep_view()),
{
    match o {
        Some(s) => Some(trim_lowercase(s.as_str())),
        None => None,
    }
}

/// Each text trimmed and lower-cased.
pub fn all_trim_lower(v: &Vec<String>) -> (r: Vec<String>)
    ensures
        views(r@) == views(v@).map_values(|s: Seq<char>| trim_lower(s)),
{
    let mut out: Vec<String> = Vec::new();
    let mut i: usize = 0;
    while i < v.len()
        invariant
            i <= v@.len(),
            out@.len() == i,
            forall|j: int| 0 <= j < i ==> (#[trigger] out@[j])@ == trim_lower(v@[j]@),
        decreases v@.len() - i,
    {
        out.push(trim_lowercase(v[i].as_str()));
        i = i + 1;
    }
    assert(views(out@) =~= views(v@).map_values(|s: Seq<char>| trim_lower(s)));
    out
}

pub open spec fn opt_all_trim_lower(o: Option<Seq<Seq<char>>>) -> Option<Seq<Seq<char>>> {
    match o {
        Some(v) => Some(v.map_values(|s: Seq<char>| trim_lower(s))),
        None => None,
    }
}

pub fn map_all_trim_lower(o: &Option<Vec<String>>) -> (r: Option<Vec<String>>)
    ensures
        r.deep_view() == opt_all_trim_lower(o.deep_view()),
{
    match o {
        Some(v) => {
            let w = all_trim_lower(v);
            assert(w.deep_view() =~= views(w@));
            assert(v.deep_view() =~= views(v@));
            Some(w)
        },
        None => None,
    }
}

/// Whether an optional text is absent or empty.
pub fn is_absent_or_empty(o: &Option<String>) -> (r: bool)
    ensures
        r == absent_or_empty(o.deep_view()),
{
    match o {
        Some(s) => s.as_str().unicode_len() == 0,
        None => true,
    }
}


/// Whether `needle` occurs in `hay` starting at position `i`.
pub open spec fn occurs_at(hay: Seq<char>, needle: Seq<char>, i: int) -> bool {
    0 <= i && i + needle.len() <= hay.len() && hay.subrange(i, i + needle.len()) == needle
}

/// Whether `needle` occurs somewhere in `hay`.
pub open spec fn contains_text(hay: Seq<char>, needle: Seq<char>) -> bool {
    exists|i: int| occurs_at(hay, needle, i)
}

fn occurs_at_exec(hay: &str, needle: &str, i: usize) -> (r: bool)
    requires
        i + needle@.len() <= hay@.len(),
    ensures
        r == occurs_at(hay@, needle@, i as int),
{
    let n = needle.unicode_len();
    let h = hay.unicode_len();
    let mut k: usize = 0;
    while k < n
        invariant
            n == needle@.len(),
            h == hay@.len(),
            i + n <= hay@.len(),
            k <= n,
            forall|j: int| 0 <= j < k ==> hay@[i + j] == needle@[j],
        decreases n - k,
    {
        if hay.get_char(i + k) != needle.get_char(k) {
            assert(hay@.subrange(i as int, i + n)[k as int] != needle@[k as int]);
            return false;
        }
        k = k + 1;
    }
    assert(hay@.subrange(i as int, i + n) =~= needle@);
    true
}

/// Whether `needle` occurs in `hay` (`str::contains`).
pub fn text_contains(hay: &str, needle: &str) -> (r: bool)
    ensures
        r == contains_text(hay@, needle@),
{
    let h = hay.unicode_len();
    let n = needle.unicode_len();
    if n > h {
        return false;
    }
    let mut i: usize = 0;
    loop
        invariant
            h == hay@.len(),
            n == needle@.len(),
            n <= h,
            i <= h - n,
            forall|j: int| 0 <= j < i ==> !occurs_at(hay@, needle@, j),
        ensures
            forall|j: int| 0 <= j <= h - n ==> !occurs_at(hay@, needle@, j),
        decreases h - n - i,
    {
        if occurs_at_exec(hay, needle, i) {
            return true;
        }
        if i == h - n {
            break;
        }
        i = i + 1;
    }
    assert forall|j: int| !occurs_at(hay@, needle@, j) by {
        if 0 <= j <= h - n {
        }
    }
    false
}

/// The parts joined with `sep` between them.
pub open spec fn join(parts: Seq<Seq<char>>, sep: Seq<char>) -> Seq<char>
    decreases parts.len(),
{
    if parts.len() == 0 {
        Seq::empty()
    } else if parts.len() == 1 {
        parts[0]
    } else {
        join(parts.drop_last(), sep) + sep + parts.last()
    }
}

/// Joins the texts with `sep` between them (`[String]::join`).
pub fn join_texts(parts: &Vec<String>, sep: &str) -> (r: String)
    ensures
        r@ == join(views(parts@), sep@),
{
    let mut out = String::new();
    let mut i: usize = 0;
    while i < parts.len()
        invariant
            i <= parts@.len(),
            out@ == join(views(parts@).subrange(0, i as int), sep@),
        decreases parts@.len() - i,
    {
        let ghost before = out@;
        if i > 0 {
            out.append(sep);
        }
        out.append(parts[i].as_str());
        proof {
            let pre = views(parts@).subrange(0, i + 1);
            assert(pre.drop_last() =~= views(parts@).subrange(0, i as int));
            assert(pre.last() == parts@[i as int]@);
            if i == 0 {
                assert(join(views(parts@).subrange(0, 0), sep@) =~= Seq::<char>::empty());
                assert(out@ =~= pre[0]);
            }
        }
        i = i + 1;
    }
    assert(views(parts@).subrange(0, parts@.len() as int) =~= views(parts@));
    out
}

} // verus!
