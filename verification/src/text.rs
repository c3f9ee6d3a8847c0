//! Character-level text utilities shared by the parsers: whitespace
//! scanning, substring search, line splitting, and decimal numerals.

use vstd::prelude::*;

verus! {

/// True when `c` is horizontal whitespace (space or tab).
pub open spec fn is_ws(c: char) -> bool {
    c == ' ' || c == '\t'
}

/// Executable check matching `is_ws`.
pub fn is_ws_char(c: char) -> (r: bool)
    ensures
        r == is_ws(c),
{
    c == ' ' || c == '\t'
}

/// The characters of a string, as a vector.
pub fn to_chars(s: &str) -> (r: Vec<char>)
    ensures
        r@ == s@,
{
    let n = s.unicode_len();
    let mut out: Vec<char> = Vec::new();
    let mut i: usize = 0;
    while i < n
        invariant
            n == s@.len(),
            i <= n,
            out@ == s@.subrange(0, i as int),
        decreases n - i,
    {
        out.push(s.get_char(i));
        i = i + 1;
        proof {
            assert(out@ =~= s@.subrange(0, i as int));
        }
    }
    proof {
        assert(out@ =~= s@);
    }
    out
}

/// Builds the string whose characters are exactly `v`.
///
/// Relies on `String: FromIterator<char>` of std: collecting an iterator
/// of characters yields the string of those characters in order. A
/// verified loop cannot replace this call, as vstd specifies no way to
/// push a single character onto a `String`.
#[verifier::external_body]
pub fn string_from_chars(v: &Vec<char>) -> (s: String)
    ensures
        s@ == v@,
{
    v.iter().collect()
}

/// The first index at or after `i` holding a character that is not
/// horizontal whitespace, or the length of `s` if there is none.
pub open spec fn spec_skip_ws(s: Seq<char>, i: int) -> int
    recommends
        0 <= i <= s.len(),
    decreases s.len() - i when 0 <= i <= s.len()
{
    if i < s.len() && is_ws(s[i]) {
        spec_skip_ws(s, i + 1)
    } else {
        i
    }
}

pub proof fn lemma_skip_ws(s: Seq<char>, i: int)
    requires
        0 <= i <= s.len(),
    ensures
        i <= spec_skip_ws(s, i) <= s.len(),
        forall|k: int| i <= k < spec_skip_ws(s, i) ==> is_ws(s[k]),
        spec_skip_ws(s, i) < s.len() ==> !is_ws(s[spec_skip_ws(s, i)]),
    decreases s.len() - i,
{
    if i < s.len() && is_ws(s[i]) {
        lemma_skip_ws(s, i + 1);
    }
}

/// Executable whitespace skip matching `spec_skip_ws`.
pub fn skip_ws(v: &Vec<char>, i: usize) -> (r: usize)
    requires
        i <= v@.len(),
    ensures
        r == spec_skip_ws(v@, i as int),
        i <= r <= v@.len(),
{
    proof {
        lemma_skip_ws(v@, i as int);
    }
    let n = v.len();
    let mut j: usize = i;
    while j < n && is_ws_char(v[j])
        invariant
            i <= j <= n,
            n == v@.len(),
            spec_skip_ws(v@, i as int) == spec_skip_ws(v@, j as int),
        decreases n - j,
    {
        j = j + 1;
    }
    j
}

/// True when `pat` occurs in `s` starting at index `i`.
pub open spec fn spec_match_at(s: Seq<char>, i: int, pat: Seq<char>) -> bool {
    &&& 0 <= i
    &&& i + pat.len() <= s.len()
    &&& forall|k: int| 0 <= k < pat.len() ==> s[i + k] == pat[k]
}

/// Executable check matching `spec_match_at`.
pub fn match_at(v: &Vec<char>, i: usize, pat: &str) -> (r: bool)
    ensures
        r == spec_match_at(v@, i as int, pat@),
{
    let m = pat.unicode_len();
    let n = v.len();
    if i > n || m > n - i {
        return false;
    }
    let mut k: usize = 0;
    while k < m
        invariant
            k <= m,
            m == pat@.len(),
            n == v@.len(),
            i + m <= n,
            forall|t: int| 0 <= t < k ==> v@[i + t] == pat@[t],
        decreases m - k,
    {
        if v[i + k] != pat.get_char(k) {
            return false;
        }
        k = k + 1;
    }
    true
}

/// The first index at or after `i` where `pat` occurs in `s`, if any.
pub open spec fn spec_find_at(s: Seq<char>, pat: Seq<char>, i: int) -> Option<int>
    recommends
        0 <= i,
    decreases s.len() - i when 0 <= i
{
    if i + pat.len() > s.len() {
        None
    } else if spec_match_at(s, i, pat) {
        Some(i)
    } else {
        spec_find_at(s, pat, i + 1)
    }
}

pub proof fn lemma_find_at(s: Seq<char>, pat: Seq<char>, i: int)
    requires
        0 <= i,
    ensures
        match spec_find_at(s, pat, i) {
            Some(j) => i <= j && spec_match_at(s, j, pat) && forall|t: int|
                i <= t < j ==> !spec_match_at(s, t, pat),
            None => forall|t: int| i <= t ==> !spec_match_at(s, t, pat),
        },
    decreases s.len() - i,
{
    if i + pat.len() > s.len() {
        assert forall|t: int| i <= t implies !spec_match_at(s, t, pat) by {}
    } else if spec_match_at(s, i, pat) {
    } else {
        lemma_find_at(s, pat, i + 1);
    }
}

/// Executable substring search matching `spec_find_at`.
pub fn find_at(v: &Vec<char>, pat: &str, i: usize) -> (r: Option<usize>)
    ensures
        match r {
            Some(j) => Some(j as int) == spec_find_at(v@, pat@, i as int),
            None => spec_find_at(v@, pat@, i as int) is None,
        },
{
    let m = pat.unicode_len();
    let n = v.len();
    if i > n {
        return None;
    }
    let mut j: usize = i;
    loop
        invariant
            i <= j <= n,
            m == pat@.len(),
            n == v@.len(),
            spec_find_at(v@, pat@, i as int) == spec_find_at(v@, pat@, j as int),
        decreases n - j,
    {
        if m > n - j {
            return None;
        }
        if match_at(v, j, pat) {
            return Some(j);
        }
        j = j + 1;
    }
}

/// `s` with one trailing carriage return removed, if present.
pub open spec fn strip_cr(s: Seq<char>) -> Seq<char> {
    if s.len() > 0 && s[s.len() - 1] == '\r' {
        s.drop_last()
    } else {
        s
    }
}

/// The lines of `s`: pieces split at newlines, each newline-terminated
/// piece with one trailing carriage return removed, and no final empty
/// piece when `s` ends with a newline.
pub open spec fn spec_lines(s: Seq<char>) -> Seq<Seq<char>>
    decreases s.len(),
{
    if s.len() == 0 {
        Seq::empty()
    } else {
        match spec_find_at(s, seq!['\n'], 0) {
            None => seq![s],
            Some(i) => if 0 <= i < s.len() {
                seq![strip_cr(s.subrange(0, i))] + spec_lines(s.subrange(i + 1, s.len() as int))
            } else {
                seq![s]
            },
        }
    }
}

/// Splits a document into its lines, matching `spec_lines`.
pub fn split_lines(s: &str) -> (r: Vec<String>)
    ensures
        r.deep_view() == spec_lines(s@),
{
    let v = to_chars(s);
    let n = v.len();
    let mut out: Vec<String> = Vec::new();
    let mut start: usize = 0;
    proof {
        assert(out.deep_view() + spec_lines(v@.subrange(0, n as int)) == spec_lines(v@)) by {
            assert(v@.subrange(0, n as int) =~= v@);
            assert(out.deep_view() =~= Seq::<Seq<char>>::empty());
        }
    }
    while start < n
        invariant
            start <= n,
            n == v@.len(),
            v@ == s@,
            out.deep_view() + spec_lines(v@.subrange(start as int, n as int)) == spec_lines(s@),
        decreases n - start,
    {
        let ghost rest = v@.subrange(start as int, n as int);
        let nl = find_at(&v, "\n", start);
        proof {
            reveal_strlit("\n");
            assert("\n"@ =~= seq!['\n']);
            lemma_find_at(v@, seq!['\n'], start as int);
        }
        proof {
            // relate the find on the whole vector to the find on `rest`
            assert forall|t: int| 0 <= t < rest.len() implies (spec_match_at(
                rest,
                t,
                seq!['\n'],
            ) == spec_match_at(v@, start + t, seq!['\n'])) by {
                assert(rest[t] == v@[start + t]);
            }
            lemma_find_rel(v@, rest, start as int);
        }
        let (end, line_end): (usize, usize) = match nl {
            Some(j) => if j > start && v[j - 1] == '\r' {
                (j, j - 1)
            } else {
                (j, j)
            },
            None => (n, n),
        };
        let piece = s.substring_char(start, line_end);
        out.push(String::from_str(piece));
        proof {
            let fr = spec_find_at(rest, seq!['\n'], 0);
            if end < n {
                // newline found at end == start + fr.unwrap()
                assert(fr == Some(end - start as int));
                assert(spec_lines(rest) == seq![strip_cr(rest.subrange(0, end - start as int))]
                    + spec_lines(rest.subrange(end - start + 1, rest.len() as int)));
                assert(rest.subrange(0, end - start as int) =~= v@.subrange(
                    start as int,
                    end as int,
                ));
                assert(strip_cr(v@.subrange(start as int, end as int)) =~= v@.subrange(
                    start as int,
                    line_end as int,
                ));
                assert(rest.subrange(end - start + 1, rest.len() as int) =~= v@.subrange(
                    end + 1,
                    n as int,
                ));
            } else {
                assert(fr is None);
                assert(spec_lines(rest) == seq![rest]);
                assert(line_end == end);
                assert(rest =~= v@.subrange(start as int, line_end as int));
            }
            assert(out.deep_view().last() == v@.subrange(start as int, line_end as int));
            assert(out.deep_view() + spec_lines(
                v@.subrange(if end < n { end + 1 } else { n as int }, n as int),
            ) =~= spec_lines(s@));
        }
        start = if end < n {
            end + 1
        } else {
            n
        };
    }
    proof {
        assert(v@.subrange(n as int, n as int) =~= Seq::<char>::empty());
        assert(out.deep_view() =~= spec_lines(s@));
    }
    out
}

/// The characters of `v` between `from` and `to`, as a fresh vector.
pub fn subvec(v: &Vec<char>, from: usize, to: usize) -> (r: Vec<char>)
    requires
        from <= to <= v@.len(),
    ensures
        r@ == v@.subrange(from as int, to as int),
{
    let mut out: Vec<char> = Vec::new();
    let mut i: usize = from;
    while i < to
        invariant
            from <= i <= to <= v@.len(),
            out@ == v@.subrange(from as int, i as int),
        decreases to - i,
    {
        out.push(v[i]);
        i = i + 1;
        proof {
            assert(out@ =~= v@.subrange(from as int, i as int));
        }
    }
    out
}

/// The largest prefix end `j <= i` such that everything in `[j, i)`
/// is horizontal whitespace.
pub open spec fn spec_rskip_ws(s: Seq<char>, i: int) -> int
    recommends
        0 <= i <= s.len(),
    decreases i when 0 <= i
{
    if i > 0 && is_ws(s[i - 1]) {
        spec_rskip_ws(s, i - 1)
    } else {
        i
    }
}

/// `s` with leading and trailing horizontal whitespace removed.
pub open spec fn spec_trim(s: Seq<char>) -> Seq<char> {
    let a = spec_skip_ws(s, 0);
    let b = spec_rskip_ws(s, s.len() as int);
    if a <= b {
        s.subrange(a, b)
    } else {
        Seq::empty()
    }
}

/// The bounds of the trimmed middle of `v`: leading and trailing
/// horizontal whitespace fall outside `[r.0, r.1)`.
pub fn trim_of(v: &Vec<char>) -> (r: (usize, usize))
    ensures
        r.0 <= r.1 <= v@.len(),
        v@.subrange(r.0 as int, r.1 as int) == spec_trim(v@),
{
    let n = v.len();
    let a = skip_ws(v, 0);
    let mut b: usize = n;
    while b > 0 && is_ws_char(v[b - 1])
        invariant
            b <= n,
            n == v@.len(),
            spec_rskip_ws(v@, n as int) == spec_rskip_ws(v@, b as int),
        decreases b,
    {
        b = b - 1;
    }
    proof {
        assert(spec_rskip_ws(v@, b as int) == b);
    }
    if b < a {
        proof {
            assert(v@.subrange(a as int, a as int) =~= spec_trim(v@));
        }
        (a, a)
    } else {
        (a, b)
    }
}

/// The trimmed text of `v`, as a string.
pub fn trimmed_string(v: &Vec<char>) -> (s: String)
    ensures
        s@ == spec_trim(v@),
{
    let (a, b) = trim_of(v);
    let sub = subvec(v, a, b);
    string_from_chars(&sub)
}

/// Case-blind comparison of a character against its lower-case form:
/// equal outright, or an ASCII capital folded onto `l`.
pub open spec fn lower_eq(c: char, l: char) -> bool {
    c == l || (65 <= c as u32 <= 90 && c as u32 + 32 == l as u32)
}

/// Whether `s` spells `pat` up to ASCII case, where `pat` is lower-case.
pub open spec fn spec_ci_matches(s: Seq<char>, pat: Seq<char>) -> bool {
    s.len() == pat.len() && forall|k: int| 0 <= k < pat.len() ==> lower_eq(s[k], pat[k])
}

/// Executable check matching `spec_ci_matches` on `v[from..to]`.
pub fn ci_matches(v: &Vec<char>, from: usize, to: usize, pat: &str) -> (r: bool)
    requires
        from <= to <= v@.len(),
    ensures
        r == spec_ci_matches(v@.subrange(from as int, to as int), pat@),
{
    let m = pat.unicode_len();
    if to - from != m {
        return false;
    }
    let mut k: usize = 0;
    while k < m
        invariant
            k <= m,
            m == pat@.len(),
            from + m <= to <= v@.len(),
            to - from == m,
            forall|t: int| 0 <= t < k ==> lower_eq(v@.subrange(from as int, to as int)[t], pat@[t]),
        decreases m - k,
    {
        let c = v[from + k];
        let l = pat.get_char(k);
        let cu = c as u32;
        let lu = l as u32;
        proof {
            assert(c == v@[from + k]);
            assert(v@.subrange(from as int, to as int)[k as int] == v@[from + k]);
            assert(l == pat@[k as int]);
        }
        if c == l || (65 <= cu && cu <= 90 && cu + 32 == lu) {
            proof {
                assert(lower_eq(c, l));
            }
        } else {
            proof {
                assert(!lower_eq(c, l));
            }
            return false;
        }
        k = k + 1;
    }
    true
}

/// True when `c` is an ASCII decimal digit.
pub open spec fn is_digit(c: char) -> bool {
    48 <= c as int <= 57
}

/// Executable check matching `is_digit`.
pub fn is_digit_char(c: char) -> (r: bool)
    ensures
        r == is_digit(c),
{
    let cu = c as u32;
    48 <= cu && cu <= 57
}

/// The numeric value of a digit character.
pub open spec fn digit_val(c: char) -> int {
    c as int - 48
}

/// The digit character for a value below ten.
pub open spec fn digit_char(d: int) -> char
    recommends
        0 <= d < 10,
{
    if d == 0 { '0' }
    else if d == 1 { '1' }
    else if d == 2 { '2' }
    else if d == 3 { '3' }
    else if d == 4 { '4' }
    else if d == 5 { '5' }
    else if d == 6 { '6' }
    else if d == 7 { '7' }
    else if d == 8 { '8' }
    else { '9' }
}

pub proof fn lemma_digit_char(d: int)
    requires
        0 <= d < 10,
    ensures
        is_digit(digit_char(d)),
        digit_val(digit_char(d)) == d,
{
}

/// Executable digit character matching `digit_char`.
pub fn digit_char_of(d: u64) -> (c: char)
    requires
        d < 10,
    ensures
        c == digit_char(d as int),
{
    if d == 0 { '0' }
    else if d == 1 { '1' }
    else if d == 2 { '2' }
    else if d == 3 { '3' }
    else if d == 4 { '4' }
    else if d == 5 { '5' }
    else if d == 6 { '6' }
    else if d == 7 { '7' }
    else if d == 8 { '8' }
    else { '9' }
}

/// The first index at or after `i` holding a non-digit, or the length.
pub open spec fn spec_skip_digits(s: Seq<char>, i: int) -> int
    recommends
        0 <= i <= s.len(),
    decreases s.len() - i when 0 <= i <= s.len()
{
    if i < s.len() && is_digit(s[i]) {
        spec_skip_digits(s, i + 1)
    } else {
        i
    }
}

pub proof fn lemma_skip_digits(s: Seq<char>, i: int)
    requires
        0 <= i <= s.len(),
    ensures
        i <= spec_skip_digits(s, i) <= s.len(),
        forall|k: int| i <= k < spec_skip_digits(s, i) ==> is_digit(s[k]),
        spec_skip_digits(s, i) < s.len() ==> !is_digit(s[spec_skip_digits(s, i)]),
    decreases s.len() - i,
{
    if i < s.len() && is_digit(s[i]) {
        lemma_skip_digits(s, i + 1);
    }
}

/// Executable digit scan matching `spec_skip_digits`.
pub fn skip_digits(v: &Vec<char>, i: usize) -> (r: usize)
    requires
        i <= v@.len(),
    ensures
        r == spec_skip_digits(v@, i as int),
        i <= r <= v@.len(),
{
    proof {
        lemma_skip_digits(v@, i as int);
    }
    let n = v.len();
    let mut j: usize = i;
    while j < n && is_digit_char(v[j])
        invariant
            i <= j <= n,
            n == v@.len(),
            spec_skip_digits(v@, i as int) == spec_skip_digits(v@, j as int),
        decreases n - j,
    {
        j = j + 1;
    }
    j
}

/// The decimal numeral of a non-negative number.
pub open spec fn spec_dec(n: int) -> Seq<char>
    recommends
        n >= 0,
    decreases n when n >= 0
{
    if n < 10 {
        seq![digit_char(n)]
    } else {
        spec_dec(n / 10).push(digit_char(n % 10))
    }
}

/// The numeric value of a digit string, most significant first.
pub open spec fn spec_dec_val(s: Seq<char>) -> int
    decreases s.len(),
{
    if s.len() == 0 {
        0
    } else {
        spec_dec_val(s.drop_last()) * 10 + digit_val(s.last())
    }
}

/// Whether `s` is a non-empty string of decimal digits.
pub open spec fn all_digits(s: Seq<char>) -> bool {
    s.len() > 0 && forall|i: int| 0 <= i < s.len() ==> is_digit(s[i])
}

pub proof fn lemma_dec_digits(n: int)
    requires
        n >= 0,
    ensures
        all_digits(spec_dec(n)),
        spec_dec_val(spec_dec(n)) == n,
    decreases n,
{
    if n < 10 {
        lemma_digit_char(n);
        let s = spec_dec(n);
        assert(s == seq![digit_char(n)]);
        assert(s.drop_last() =~= Seq::<char>::empty());
        assert(spec_dec_val(Seq::<char>::empty()) == 0);
        assert(spec_dec_val(s) == spec_dec_val(s.drop_last()) * 10 + digit_val(s.last()));
    } else {
        lemma_dec_digits(n / 10);
        lemma_digit_char(n % 10);
        let s = spec_dec(n);
        assert(s == spec_dec(n / 10).push(digit_char(n % 10)));
        assert(s.len() == spec_dec(n / 10).len() + 1);
        assert(s.drop_last() =~= spec_dec(n / 10));
        assert(s.last() == digit_char(n % 10));
        assert(n / 10 * 10 + n % 10 == n) by {
            vstd::arithmetic::div_mod::lemma_fundamental_div_mod(n, 10);
        }
        assert forall|i: int| 0 <= i < s.len() implies is_digit(s[i]) by {
            if i < s.len() - 1 {
                assert(s[i] == spec_dec(n / 10)[i]);
            }
        }
    }
}

/// Non-negative value of any digit string.
pub proof fn lemma_dec_val_nonneg(s: Seq<char>)
    requires
        forall|i: int| 0 <= i < s.len() ==> is_digit(s[i]),
    ensures
        spec_dec_val(s) >= 0,
    decreases s.len(),
{
    if s.len() > 0 {
        lemma_dec_val_nonneg(s.drop_last());
    }
}

/// A digit string is worth at least any of its prefixes.
pub proof fn lemma_dec_val_prefix(s: Seq<char>, j: int)
    requires
        forall|i: int| 0 <= i < s.len() ==> is_digit(s[i]),
        0 <= j <= s.len(),
    ensures
        spec_dec_val(s.subrange(0, j)) <= spec_dec_val(s),
    decreases s.len() - j,
{
    if j < s.len() {
        lemma_dec_val_prefix(s, j + 1);
        let p = s.subrange(0, j);
        let q = s.subrange(0, j + 1);
        assert(q.drop_last() =~= p);
        lemma_dec_val_nonneg(p);
        assert(spec_dec_val(q) == spec_dec_val(p) * 10 + digit_val(q.last()));
        assert(spec_dec_val(p) * 10 >= spec_dec_val(p));
    } else {
        assert(s.subrange(0, j) =~= s);
    }
}

/// The parsed value of a digit string, when it is one and fits in `u64`.
pub open spec fn spec_parse_u64(s: Seq<char>) -> Option<u64> {
    if all_digits(s) && spec_dec_val(s) <= u64::MAX {
        Some(spec_dec_val(s) as u64)
    } else {
        None
    }
}

/// Parses `v[from..to]` as a decimal `u64`, matching `spec_parse_u64`.
pub fn parse_u64_range(v: &Vec<char>, from: usize, to: usize) -> (r: Option<u64>)
    requires
        from <= to <= v@.len(),
    ensures
        r == spec_parse_u64(v@.subrange(from as int, to as int)),
{
    let ghost s = v@.subrange(from as int, to as int);
    if from == to {
        return None;
    }
    let mut acc: u128 = 0;
    let mut k: usize = from;
    while k < to
        invariant
            from <= k <= to <= v@.len(),
            s == v@.subrange(from as int, to as int),
            to > from,
            forall|i: int| 0 <= i < k - from ==> is_digit(s[i]),
            acc == spec_dec_val(s.subrange(0, k - from)),
            acc <= u64::MAX,
        decreases to - k,
    {
        let c = v[k];
        if !is_digit_char(c) {
            proof {
                assert(s[k - from] == v@[k as int]);
            }
            return None;
        }
        let d: u128 = (c as u32) as u128 - 48;
        let next: u128 = acc * 10 + d;
        proof {
            let p = s.subrange(0, k - from);
            let q = s.subrange(0, k - from + 1);
            assert(q.drop_last() =~= p);
            assert(q.last() == s[k - from]);
            assert(s[k - from] == v@[k as int]);
            assert(next == spec_dec_val(q));
        }
        if next > u64::MAX as u128 {
            proof {
                // the prefix already exceeds u64::MAX, so the whole does
                if all_digits(s) {
                    lemma_dec_val_prefix(s, k - from + 1);
                }
            }
            return None;
        }
        acc = next;
        k = k + 1;
    }
    proof {
        assert(s.subrange(0, to - from) =~= s);
        assert(all_digits(s));
    }
    Some(acc as u64)
}

/// The decimal rendering of `n`, as characters.
pub fn u64_dec_chars(n: u64) -> (r: Vec<char>)
    ensures
        r@ == spec_dec(n as int),
    decreases n,
{
    if n < 10 {
        let mut out: Vec<char> = Vec::new();
        out.push(digit_char_of(n));
        proof {
            assert(out@ =~= seq![digit_char(n as int)]);
        }
        out
    } else {
        let mut out = u64_dec_chars(n / 10);
        out.push(digit_char_of(n % 10));
        out
    }
}

/// The decimal rendering of `n`, as a string.
pub fn u64_to_dec(n: u64) -> (s: String)
    ensures
        s@ == spec_dec(n as int),
{
    let chars = u64_dec_chars(n);
    string_from_chars(&chars)
}

/// Round trip: rendering then parsing a `u64` yields it back.
pub proof fn lemma_u64_dec_roundtrip(n: u64)
    ensures
        spec_parse_u64(spec_dec(n as int)) == Some(n),
{
    lemma_dec_digits(n as int);
}

/// The decimal numeral of an `i64`, a minus sign ahead of negatives.
pub open spec fn spec_dec_i64(n: int) -> Seq<char>
    recommends
        i64::MIN <= n <= i64::MAX,
{
    if n >= 0 {
        spec_dec(n)
    } else {
        seq!['-'] + spec_dec(-n)
    }
}

/// The parsed value of an optionally signed decimal `i64` string.
pub open spec fn spec_parse_i64(s: Seq<char>) -> Option<i64> {
    if s.len() > 0 && s[0] == '-' {
        match spec_parse_u64(s.subrange(1, s.len() as int)) {
            Some(m) => if m <= 0x8000_0000_0000_0000u64 {
                Some((-(m as int)) as i64)
            } else {
                None
            },
            None => None,
        }
    } else {
        match spec_parse_u64(s) {
            Some(m) => if m <= i64::MAX as u64 {
                Some(m as i64)
            } else {
                None
            },
            None => None,
        }
    }
}

/// Parses `v[from..to]` as a signed decimal, matching `spec_parse_i64`.
pub fn parse_i64_range(v: &Vec<char>, from: usize, to: usize) -> (r: Option<i64>)
    requires
        from <= to <= v@.len(),
    ensures
        r == spec_parse_i64(v@.subrange(from as int, to as int)),
{
    let ghost s = v@.subrange(from as int, to as int);
    if from < to && v[from] == '-' {
        proof {
            assert(s.subrange(1, s.len() as int) =~= v@.subrange(from + 1, to as int));
        }
        match parse_u64_range(v, from + 1, to) {
            Some(m) => {
                if m == 0x8000_0000_0000_0000u64 {
                    Some(i64::MIN)
                } else if m <= i64::MAX as u64 {
                    Some(-(m as i64))
                } else {
                    None
                }
            },
            None => None,
        }
    } else {
        proof {
            if s.len() > 0 {
                assert(s[0] == v@[from as int]);
            }
        }
        match parse_u64_range(v, from, to) {
            Some(m) => {
                if m <= i64::MAX as u64 {
                    Some(m as i64)
                } else {
                    None
                }
            },
            None => None,
        }
    }
}

/// The decimal rendering of an `i64`, as characters.
pub fn i64_dec_chars(n: i64) -> (r: Vec<char>)
    ensures
        r@ == spec_dec_i64(n as int),
{
    if n >= 0 {
        u64_dec_chars(n as u64)
    } else {
        let m: u64 = if n == i64::MIN {
            0x8000_0000_0000_0000u64
        } else {
            (-n) as u64
        };
        let mut out: Vec<char> = Vec::new();
        out.push('-');
        let mut digits = u64_dec_chars(m);
        out.append(&mut digits);
        proof {
            assert(out@ =~= seq!['-'] + spec_dec(m as int));
        }
        out
    }
}

/// The decimal rendering of an `i64`, as a string.
pub fn i64_to_dec(n: i64) -> (s: String)
    ensures
        s@ == spec_dec_i64(n as int),
{
    let chars = i64_dec_chars(n);
    string_from_chars(&chars)
}

/// Round trip: rendering then parsing an `i64` yields it back.
pub proof fn lemma_i64_dec_roundtrip(n: i64)
    ensures
        spec_parse_i64(spec_dec_i64(n as int)) == Some(n),
{
    if n >= 0 {
        lemma_dec_digits(n as int);
        let s = spec_dec_i64(n as int);
        assert(is_digit(s[0]));
        assert(s[0] != '-');
    } else {
        let m = -(n as int);
        lemma_dec_digits(m);
        let s = spec_dec_i64(n as int);
        assert(s[0] == '-');
        assert(s.subrange(1, s.len() as int) =~= spec_dec(m));
    }
}

proof fn lemma_find_rel(s: Seq<char>, rest: Seq<char>, start: int)
    requires
        0 <= start <= s.len(),
        rest == s.subrange(start, s.len() as int),
        forall|t: int| 0 <= t < rest.len() ==> (spec_match_at(rest, t, seq!['\n'])
            == spec_match_at(s, start + t, seq!['\n'])),
    ensures
        match spec_find_at(s, seq!['\n'], start) {
            Some(j) => spec_find_at(rest, seq!['\n'], 0) == Some(j - start),
            None => spec_find_at(rest, seq!['\n'], 0) is None,
        },
{
    lemma_find_at(s, seq!['\n'], start);
    lemma_find_at(rest, seq!['\n'], 0);
    match spec_find_at(s, seq!['\n'], start) {
        Some(j) => {
            assert(spec_match_at(rest, j - start, seq!['\n']));
            match spec_find_at(rest, seq!['\n'], 0) {
                Some(t) => {
                    assert(spec_match_at(s, start + t, seq!['\n']));
                    assert(t == j - start);
                },
                None => {
                    assert(!spec_match_at(rest, j - start, seq!['\n']));
                },
            }
        },
        None => {
            match spec_find_at(rest, seq!['\n'], 0) {
                Some(t) => {
                    assert(spec_match_at(s, start + t, seq!['\n']));
                },
                None => {},
            }
        },
    }
}

} // verus!

verus! {

/// Lexicographic order on character sequences, by code point.
pub open spec fn lex_le(a: Seq<char>, b: Seq<char>) -> bool
    decreases a.len(),
{
    if a.len() == 0 {
        true
    } else if b.len() == 0 {
        false
    } else if a[0] as u32 != b[0] as u32 {
        (a[0] as u32) < (b[0] as u32)
    } else {
        lex_le(a.drop_first(), b.drop_first())
    }
}

/// `lex_le` relates every pair, one way or the other.
pub proof fn lemma_lex_total(a: Seq<char>, b: Seq<char>)
    ensures
        lex_le(a, b) || lex_le(b, a),
    decreases a.len(),
{
    if a.len() > 0 && b.len() > 0 && a[0] as u32 == b[0] as u32 {
        lemma_lex_total(a.drop_first(), b.drop_first());
    }
}

/// `lex_le` chains.
pub proof fn lemma_lex_trans(a: Seq<char>, b: Seq<char>, c: Seq<char>)
    requires
        lex_le(a, b),
        lex_le(b, c),
    ensures
        lex_le(a, c),
    decreases a.len(),
{
    if a.len() > 0 && b.len() > 0 && c.len() > 0 && a[0] as u32 == b[0] as u32 && b[0] as u32
        == c[0] as u32 {
        lemma_lex_trans(a.drop_first(), b.drop_first(), c.drop_first());
    }
}

/// Executable comparison matching `lex_le`.
pub fn str_le(a: &str, b: &str) -> (r: bool)
    ensures
        r == lex_le(a@, b@),
{
    let an = a.unicode_len();
    let bn = b.unicode_len();
    let mut i: usize = 0;
    proof {
        assert(a@.skip(0) =~= a@);
        assert(b@.skip(0) =~= b@);
    }
    loop
        invariant
            i <= an,
            i <= bn,
            an == a@.len(),
            bn == b@.len(),
            lex_le(a@, b@) == lex_le(a@.skip(i as int), b@.skip(i as int)),
        decreases an - i,
    {
        if i == an {
            proof {
                assert(a@.skip(i as int).len() == 0);
            }
            return true;
        }
        if i == bn {
            proof {
                assert(b@.skip(i as int).len() == 0);
                assert(a@.skip(i as int).len() > 0);
            }
            return false;
        }
        let ca = a.get_char(i) as u32;
        let cb = b.get_char(i) as u32;
        proof {
            assert(a@.skip(i as int)[0] == a@[i as int]);
            assert(b@.skip(i as int)[0] == b@[i as int]);
        }
        if ca != cb {
            return ca < cb;
        }
        proof {
            assert(a@.skip(i as int).drop_first() =~= a@.skip(i + 1));
            assert(b@.skip(i as int).drop_first() =~= b@.skip(i + 1));
        }
        i = i + 1;
    }
}

/// Inserting into a sequence adds one occurrence to its multiset.
pub proof fn lemma_insert_to_multiset<A>(s: Seq<A>, i: int, x: A)
    requires
        0 <= i <= s.len(),
    ensures
        s.insert(i, x).to_multiset() =~= s.to_multiset().insert(x),
{
    broadcast use vstd::seq_lib::group_to_multiset_ensures;

    let left = s.subrange(0, i);
    let right = s.subrange(i, s.len() as int);
    assert(s.insert(i, x) =~= left.push(x) + right);
    assert(s =~= left + right);
    vstd::seq_lib::lemma_multiset_commutative(left.push(x), right);
    vstd::seq_lib::lemma_multiset_commutative(left, right);
    assert(left.push(x).to_multiset() =~= left.to_multiset().insert(x));
}

} // verus!

verus! {

/// The first occurrence is `j` when `pat` matches at `j` and nowhere
/// earlier at or after `i`.
pub proof fn lemma_find_exact(s: Seq<char>, pat: Seq<char>, i: int, j: int)
    requires
        0 <= i <= j,
        spec_match_at(s, j, pat),
        forall|t: int| i <= t < j ==> !spec_match_at(s, t, pat),
    ensures
        spec_find_at(s, pat, i) == Some(j),
    decreases j - i,
{
    if i < j {
        lemma_find_exact(s, pat, i + 1, j);
    }
}

/// Splitting off one newline-terminated piece: with no newline and no
/// trailing carriage return inside the piece, the lines of
/// `piece + '\n' + rest` are the piece followed by the lines of `rest`.
pub proof fn lemma_lines_cons(piece: Seq<char>, rest: Seq<char>)
    requires
        forall|i: int| 0 <= i < piece.len() ==> piece[i] != '\n',
        piece.len() == 0 || piece[piece.len() - 1] != '\r',
    ensures
        spec_lines(piece + seq!['\n'] + rest) == seq![piece] + spec_lines(rest),
{
    let s = piece + seq!['\n'] + rest;
    let n = piece.len() as int;
    let nl = seq!['\n'];
    assert(nl.len() == 1 && nl[0] == '\n');
    assert(s[n] == '\n') by {
        assert((piece + nl)[n] == nl[0]);
        assert(s[n] == (piece + nl)[n]);
    }
    assert(spec_match_at(s, n, nl)) by {
        assert forall|k: int| 0 <= k < nl.len() implies s[n + k] == nl[k] by {
            assert(k == 0);
        }
    }
    assert forall|t: int| 0 <= t < n implies !spec_match_at(s, t, nl) by {
        assert(s[t] == (piece + nl)[t]);
        assert((piece + nl)[t] == piece[t]);
        if spec_match_at(s, t, nl) {
            assert(s[t + 0] == nl[0]);
        }
    }
    lemma_find_exact(s, nl, 0, n);
    assert(s.len() > 0);
    assert(s.subrange(0, n) =~= piece);
    assert(strip_cr(piece) == piece);
    assert(s.subrange(n + 1, s.len() as int) =~= rest);
}

} // verus!

verus! {

/// Whether two strings spell the same characters.
pub fn str_eq(a: &str, b: &str) -> (r: bool)
    ensures
        r == (a@ == b@),
{
    let an = a.unicode_len();
    let bn = b.unicode_len();
    if an != bn {
        return false;
    }
    let va = to_chars(a);
    if match_at(&va, 0, b) {
        proof {
            assert(a@ =~= b@);
        }
        true
    } else {
        proof {
            if a@ == b@ {
                assert(spec_match_at(va@, 0, b@));
            }
        }
        false
    }
}

} // verus!
