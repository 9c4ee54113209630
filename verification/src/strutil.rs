//! Verified string helpers: substring search, ASCII trimming, decimal
//! parsing and formatting, and character replacement. The contracts speak
//! over `Seq<char>` views.

use vstd::prelude::*;

verus! {

/// Relies on `String::push` of std, which vstd leaves unspecified: it appends
/// exactly the given character.
pub assume_specification[ String::push ](s: &mut String, c: char)
    ensures
        final (s)@ == old(s)@.push(c),
;

/// ASCII whitespace, the characters that trimming removes.
pub open spec fn is_space(c: char) -> bool {
    c == ' ' || c == '\t' || c == '\n' || c == '\r'
}

/// The number of whitespace characters at the front.
pub open spec fn leading_spaces(s: Seq<char>) -> int
    decreases s.len(),
{
    if s.len() == 0 || !is_space(s[0]) {
        0
    } else {
        1 + leading_spaces(s.drop_first())
    }
}

/// The number of whitespace characters at the back.
pub open spec fn trailing_spaces(s: Seq<char>) -> int
    decreases s.len(),
{
    if s.len() == 0 || !is_space(s[s.len() - 1]) {
        0
    } else {
        1 + trailing_spaces(s.drop_last())
    }
}

/// The sequence with leading and trailing whitespace removed.
pub open spec fn spec_trim(s: Seq<char>) -> Seq<char> {
    if leading_spaces(s) == s.len() {
        Seq::empty()
    } else {
        s.subrange(leading_spaces(s), s.len() - trailing_spaces(s))
    }
}

proof fn lemma_leading_spaces(s: Seq<char>, a: int)
    requires
        0 <= a <= s.len(),
        forall|j: int| 0 <= j < a ==> is_space(s[j]),
        a < s.len() ==> !is_space(s[a]),
    ensures
        leading_spaces(s) == a,
    decreases a,
{
    if a == 0 {
    } else {
        lemma_leading_spaces(s.drop_first(), a - 1);
    }
}

proof fn lemma_trailing_spaces(s: Seq<char>, b: int)
    requires
        0 <= b <= s.len(),
        forall|j: int| s.len() - b <= j < s.len() ==> is_space(s[j]),
        b < s.len() ==> !is_space(s[s.len() - 1 - b]),
    ensures
        trailing_spaces(s) == b,
    decreases b,
{
    if b == 0 {
    } else {
        lemma_trailing_spaces(s.drop_last(), b - 1);
    }
}

/// Removes leading and trailing ASCII whitespace.
pub fn trim_str<'a>(s: &'a str) -> (r: &'a str)
    ensures
        r@ == spec_trim(s@),
{
    let n = s.unicode_len();
    let mut a: usize = 0;
    while a < n && is_space_exec(s.get_char(a))
        invariant
            n == s@.len(),
            0 <= a <= n,
            forall|j: int| 0 <= j < a ==> is_space(s@[j]),
        decreases n - a,
    {
        a = a + 1;
    }
    proof {
        lemma_leading_spaces(s@, a as int);
    }
    if a == n {
        let r = s.substring_char(0, 0);
        proof {
            assert(r@ =~= spec_trim(s@));
        }
        return r;
    }
    let mut b: usize = 0;
    while b < n - a && is_space_exec(s.get_char(n - 1 - b))
        invariant
            n == s@.len(),
            a < n,
            !is_space(s@[a as int]),
            0 <= b <= n - a,
            forall|j: int| n - b <= j < n ==> is_space(s@[j]),
        decreases n - a - b,
    {
        b = b + 1;
    }
    proof {
        if b < n {
            assert(!is_space(s@[n - 1 - b]));
        }
        lemma_trailing_spaces(s@, b as int);
    }
    let r = s.substring_char(a, n - b);
    proof {
        assert(r@ =~= spec_trim(s@));
    }
    r
}

/// Whether the character is ASCII whitespace.
fn is_space_exec(c: char) -> (r: bool)
    ensures
        r == is_space(c),
{
    c == ' ' || c == '\t' || c == '\n' || c == '\r'
}

/// A decimal digit.
pub open spec fn is_digit(c: char) -> bool {
    48 <= c as int && c as int <= 57
}

/// Tests whether the character is a decimal digit.
pub fn is_digit_exec(c: char) -> (r: bool)
    ensures
        r == is_digit(c),
{
    let code = c as u32;
    48 <= code && code <= 57
}

/// The numeric value of a decimal digit character.
pub open spec fn digit_val(c: char) -> int {
    c as int - 48
}

/// Every character is a decimal digit.
pub open spec fn all_digits(s: Seq<char>) -> bool {
    forall|i: int| 0 <= i < s.len() ==> is_digit(#[trigger] s[i])
}

/// The value of a most-significant-first decimal digit string.
pub open spec fn digits_value(s: Seq<char>) -> int
    decreases s.len(),
{
    if s.len() == 0 {
        0
    } else {
        10 * digits_value(s.drop_last()) + digit_val(s[s.len() - 1])
    }
}

/// A non-empty digit string whose value fits in a `u64`.
pub open spec fn is_u64_digits(s: Seq<char>) -> bool {
    s.len() > 0 && all_digits(s) && digits_value(s) <= u64::MAX
}

proof fn lemma_digits_value_step(s: Seq<char>, i: int)
    requires
        0 <= i < s.len(),
    ensures
        digits_value(s.subrange(0, i + 1)) == 10 * digits_value(s.subrange(0, i)) + digit_val(
            s[i],
        ),
{
    assert(s.subrange(0, i + 1).drop_last() =~= s.subrange(0, i));
}

proof fn lemma_digits_value_nonneg(s: Seq<char>)
    requires
        all_digits(s),
    ensures
        digits_value(s) >= 0,
    decreases s.len(),
{
    if s.len() > 0 {
        assert(all_digits(s.drop_last()));
        lemma_digits_value_nonneg(s.drop_last());
    }
}

proof fn lemma_digits_value_monotone(s: Seq<char>, k: int)
    requires
        all_digits(s),
        0 <= k <= s.len(),
    ensures
        digits_value(s) >= digits_value(s.subrange(0, k)),
    decreases s.len() - k,
{
    if k == s.len() {
        assert(s.subrange(0, k) =~= s);
    } else {
        lemma_digits_value_step(s, k);
        assert(all_digits(s.subrange(0, k)));
        lemma_digits_value_nonneg(s.subrange(0, k));
        lemma_digits_value_monotone(s, k + 1);
    }
}

/// Parses a non-empty decimal digit string into a `u64`; anything else, a
/// non-digit character or a value too large, is rejected.
pub fn parse_u64(s: &str) -> (r: Option<u64>)
    ensures
        match r {
            Option::Some(v) => is_u64_digits(s@) && v == digits_value(s@),
            Option::None => !is_u64_digits(s@),
        },
{
    let n = s.unicode_len();
    if n == 0 {
        return Option::None;
    }
    let mut acc: u64 = 0;
    for i in 0..n
        invariant
            n == s@.len(),
            n > 0,
            forall|j: int| 0 <= j < i ==> is_digit(#[trigger] s@[j]),
            acc == digits_value(s@.subrange(0, i as int)),
    {
        let code = s.get_char(i) as u32;
        if code < 48 || code > 57 {
            return Option::None;
        }
        let d = (code - 48) as u64;
        proof {
            lemma_digits_value_step(s@, i as int);
        }
        if acc > (u64::MAX - d) / 10 {
            proof {
                if all_digits(s@) {
                    lemma_digits_value_monotone(s@, i + 1);
                }
            }
            return Option::None;
        }
        acc = acc * 10 + d;
    }
    proof {
        assert(s@.subrange(0, n as int) =~= s@);
    }
    Option::Some(acc)
}

/// The character of a decimal digit value.
pub open spec fn digit_char(d: int) -> char {
    if d == 0 {
        '0'
    } else if d == 1 {
        '1'
    } else if d == 2 {
        '2'
    } else if d == 3 {
        '3'
    } else if d == 4 {
        '4'
    } else if d == 5 {
        '5'
    } else if d == 6 {
        '6'
    } else if d == 7 {
        '7'
    } else if d == 8 {
        '8'
    } else {
        '9'
    }
}

/// The most-significant-first decimal representation of a number.
pub open spec fn spec_dec(n: int) -> Seq<char>
    decreases n,
{
    if n < 10 {
        seq![digit_char(n)]
    } else {
        spec_dec(n / 10).push(digit_char(n % 10))
    }
}

fn digit_char_exec(d: u64) -> (c: char)
    requires
        d < 10,
    ensures
        c == digit_char(d as int),
{
    match d {
        0 => '0',
        1 => '1',
        2 => '2',
        3 => '3',
        4 => '4',
        5 => '5',
        6 => '6',
        7 => '7',
        8 => '8',
        _ => '9',
    }
}

/// Formats a number in decimal.
pub fn u64_to_string(n: u64) -> (r: String)
    ensures
        r@ == spec_dec(n as int),
    decreases n,
{
    if n < 10 {
        let mut r = String::new();
        r.push(digit_char_exec(n));
        proof {
            assert(r@ =~= spec_dec(n as int));
        }
        r
    } else {
        let mut r = u64_to_string(n / 10);
        r.push(digit_char_exec(n % 10));
        r
    }
}

/// The pattern occurs in `s` at position `i`.
pub open spec fn matches_at(s: Seq<char>, pat: Seq<char>, i: int) -> bool {
    &&& 0 <= i
    &&& i + pat.len() <= s.len()
    &&& forall|k: int| 0 <= k < pat.len() ==> s[i + k] == #[trigger] pat[k]
}

/// Tests whether the pattern occurs in `s` at position `i`.
pub fn match_at(s: &str, pat: &str, i: usize) -> (r: bool)
    ensures
        r == matches_at(s@, pat@, i as int),
{
    let n = s.unicode_len();
    let m = pat.unicode_len();
    if m > n || i > n - m {
        return false;
    }
    for k in 0..m
        invariant
            n == s@.len(),
            m == pat@.len(),
            m <= n,
            i <= n - m,
            forall|j: int| 0 <= j < k ==> s@[i + j] == #[trigger] pat@[j],
    {
        if s.get_char(i + k) != pat.get_char(k) {
            return false;
        }
    }
    true
}

/// Finds the first occurrence of the pattern, if any.
pub fn find_sub(s: &str, pat: &str) -> (r: Option<usize>)
    ensures
        match r {
            Option::Some(i) => matches_at(s@, pat@, i as int) && forall|j: int|
                0 <= j < i ==> !matches_at(s@, pat@, j),
            Option::None => forall|j: int| !matches_at(s@, pat@, j),
        },
{
    let n = s.unicode_len();
    let m = pat.unicode_len();
    if m > n {
        return Option::None;
    }
    if m == 0 {
        return Option::Some(0);
    }
    for i in 0..n - m + 1
        invariant
            n == s@.len(),
            m == pat@.len(),
            m <= n,
            forall|j: int| 0 <= j < i ==> !matches_at(s@, pat@, j),
    {
        if match_at(s, pat, i) {
            return Option::Some(i);
        }
    }
    Option::None
}

/// Finds the first occurrence of the character, if any.
pub fn find_char(s: &str, c: char) -> (r: Option<usize>)
    ensures
        match r {
            Option::Some(i) => i < s@.len() && s@[i as int] == c && forall|j: int|
                0 <= j < i ==> s@[j] != c,
            Option::None => forall|j: int| 0 <= j < s@.len() ==> s@[j] != c,
        },
{
    let n = s.unicode_len();
    for i in 0..n
        invariant
            n == s@.len(),
            forall|j: int| 0 <= j < i ==> s@[j] != c,
    {
        if s.get_char(i) == c {
            return Option::Some(i);
        }
    }
    Option::None
}

/// The index of the first occurrence of `c`, or the length if `c` is absent.
pub open spec fn first_idx(s: Seq<char>, c: char) -> int
    decreases s.len(),
{
    if s.len() == 0 {
        0
    } else if s[0] == c {
        0
    } else {
        1 + first_idx(s.drop_first(), c)
    }
}

/// Ties a scan for a character, its first occurrence or the absence of any,
/// to `first_idx`.
pub proof fn lemma_first_idx(s: Seq<char>, c: char, i: int)
    requires
        0 <= i <= s.len(),
        forall|j: int| 0 <= j < i ==> s[j] != c,
        i < s.len() ==> s[i] == c,
    ensures
        first_idx(s, c) == i,
    decreases i,
{
    if i > 0 {
        lemma_first_idx(s.drop_first(), c, i - 1);
    }
}

/// The index of the first occurrence of `pat`, or the length if absent.
pub open spec fn first_match_idx(s: Seq<char>, pat: Seq<char>) -> int
    decreases s.len(),
{
    if matches_at(s, pat, 0) {
        0
    } else if s.len() == 0 {
        0
    } else {
        1 + first_match_idx(s.drop_first(), pat)
    }
}

proof fn lemma_matches_at_shift(s: Seq<char>, pat: Seq<char>, j: int)
    requires
        0 <= j,
        s.len() > 0,
    ensures
        matches_at(s, pat, j + 1) == matches_at(s.drop_first(), pat, j),
{
    let t = s.drop_first();
    assert(t.len() == s.len() - 1);
    assert(forall|m: int| 0 <= m < t.len() ==> #[trigger] t[m] == s[m + 1]);
    if matches_at(s, pat, j + 1) {
        assert forall|k: int| 0 <= k < pat.len() implies t[j + k] == #[trigger] pat[k] by {
            assert(s[j + 1 + k] == pat[k]);
        }
        assert(matches_at(t, pat, j));
    }
    if matches_at(t, pat, j) {
        assert forall|k: int| 0 <= k < pat.len() implies s[j + 1 + k] == #[trigger] pat[k] by {
            assert(t[j + k] == pat[k]);
        }
        assert(matches_at(s, pat, j + 1));
    }
}

/// Ties the search result shape, a first occurrence or the absence of any,
/// to `first_match_idx`.
pub proof fn lemma_first_match_idx(s: Seq<char>, pat: Seq<char>, i: int)
    requires
        0 <= i <= s.len(),
        forall|j: int| 0 <= j < i ==> !matches_at(s, pat, j),
        i < s.len() ==> matches_at(s, pat, i),
        i == s.len() ==> forall|j: int| !matches_at(s, pat, j),
    ensures
        first_match_idx(s, pat) == i,
    decreases i,
{
    if i == 0 {
        if s.len() > 0 && !matches_at(s, pat, 0) {
            assert(false);
        }
    } else {
        assert(!matches_at(s, pat, 0));
        assert forall|j: int| 0 <= j < i - 1 implies !matches_at(s.drop_first(), pat, j) by {
            lemma_matches_at_shift(s, pat, j);
        }
        if i - 1 < s.drop_first().len() {
            lemma_matches_at_shift(s, pat, i - 1);
        }
        lemma_first_match_idx(s.drop_first(), pat, i - 1);
    }
}

/// The end of the run of digits starting at `from`.
pub open spec fn digit_run_end(s: Seq<char>, from: int) -> int
    decreases s.len() - from,
{
    if from < 0 || from >= s.len() || !is_digit(s[from]) {
        from
    } else {
        digit_run_end(s, from + 1)
    }
}

/// Ties a scanned digit run to `digit_run_end`.
pub proof fn lemma_digit_run_end(s: Seq<char>, from: int, e: int)
    requires
        0 <= from <= e <= s.len(),
        forall|j: int| from <= j < e ==> is_digit(#[trigger] s[j]),
        e < s.len() ==> !is_digit(s[e]),
    ensures
        digit_run_end(s, from) == e,
    decreases e - from,
{
    if from < e {
        lemma_digit_run_end(s, from + 1, e);
    }
}

/// The largest index below `end` holding `c`, or -1 if there is none.
pub open spec fn last_idx_below(s: Seq<char>, c: char, end: int) -> int
    decreases end,
{
    if end <= 0 {
        -1
    } else if s[end - 1] == c {
        end - 1
    } else {
        last_idx_below(s, c, end - 1)
    }
}

/// Ties a backwards scan for a character to `last_idx_below`.
pub proof fn lemma_last_idx_below(s: Seq<char>, c: char, end: int, i: int)
    requires
        -1 <= i < end,
        forall|j: int| i < j < end ==> s[j] != c,
        i >= 0 ==> s[i] == c,
    ensures
        last_idx_below(s, c, end) == i,
    decreases end,
{
    if end > 0 && i < end - 1 {
        lemma_last_idx_below(s, c, end - 1, i);
    }
}

/// The pattern occurs at or after `from`.
pub open spec fn has_sub_from(s: Seq<char>, pat: Seq<char>, from: int) -> bool {
    exists|j: int| from <= j && matches_at(s, pat, j)
}

/// Tests whether the pattern occurs at or after position `from`.
pub fn contains_sub_from(s: &str, pat: &str, from: usize) -> (r: bool)
    ensures
        r == has_sub_from(s@, pat@, from as int),
{
    let n = s.unicode_len();
    let m = pat.unicode_len();
    if m > n || from > n - m {
        proof {
            assert(forall|j: int| from <= j ==> !matches_at(s@, pat@, j));
        }
        return false;
    }
    if m == 0 {
        proof {
            assert(matches_at(s@, pat@, from as int));
        }
        return true;
    }
    for i in from..n - m + 1
        invariant
            n == s@.len(),
            m == pat@.len(),
            m <= n,
            from <= i,
            forall|j: int| from <= j < i ==> !matches_at(s@, pat@, j),
    {
        if match_at(s, pat, i) {
            return true;
        }
    }
    proof {
        assert(forall|j: int| from <= j ==> !matches_at(s@, pat@, j));
    }
    false
}

/// The sequence with every occurrence of `c` replaced by `repl`.
pub open spec fn spec_replace_char(s: Seq<char>, c: char, repl: Seq<char>) -> Seq<char>
    decreases s.len(),
{
    if s.len() == 0 {
        Seq::empty()
    } else if s[0] == c {
        repl + spec_replace_char(s.drop_first(), c, repl)
    } else {
        seq![s[0]] + spec_replace_char(s.drop_first(), c, repl)
    }
}

proof fn lemma_replace_char_step(s: Seq<char>, c: char, repl: Seq<char>, i: int)
    requires
        0 <= i < s.len(),
    ensures
        spec_replace_char(s.skip(i), c, repl) == if s[i] == c {
            repl + spec_replace_char(s.skip(i + 1), c, repl)
        } else {
            seq![s[i]] + spec_replace_char(s.skip(i + 1), c, repl)
        },
{
    assert(s.skip(i).drop_first() =~= s.skip(i + 1));
    assert(s.skip(i)[0] == s[i]);
}

/// Replaces every occurrence of the character `c` by the string `repl`.
pub fn replace_char(s: &str, c: char, repl: &str) -> (r: String)
    ensures
        r@ == spec_replace_char(s@, c, repl@),
{
    let n = s.unicode_len();
    let mut out = String::new();
    proof {
        assert(s@.skip(0) =~= s@);
        assert(Seq::<char>::empty() + spec_replace_char(s@, c, repl@) =~= spec_replace_char(
            s@,
            c,
            repl@,
        ));
    }
    for i in 0..n
        invariant
            n == s@.len(),
            out@ + spec_replace_char(s@.skip(i as int), c, repl@) == spec_replace_char(
                s@,
                c,
                repl@,
            ),
    {
        let ch = s.get_char(i);
        let ghost prev = out@;
        proof {
            lemma_replace_char_step(s@, c, repl@, i as int);
        }
        if ch == c {
            out.append(repl);
        } else {
            out.push(ch);
            proof {
                assert(out@ =~= prev + seq![ch]);
            }
        }
        proof {
            assert(out@ + spec_replace_char(s@.skip(i + 1), c, repl@) =~= spec_replace_char(
                s@,
                c,
                repl@,
            ));
        }
    }
    proof {
        assert(s@.skip(n as int) =~= Seq::<char>::empty());
        assert(out@ =~= spec_replace_char(s@, c, repl@));
    }
    out
}

} // verus!
