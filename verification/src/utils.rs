//! Shared helpers: verified text handling used by the inventory parsers
//! and the configuration rendering, plus host-facing type aliases.

use vstd::prelude::*;

pub mod cli;
pub mod os;
pub mod platform;

verus! {

/// Relies on the standard library's equality for `str`: two string slices
/// compare equal exactly when their character sequences are equal.
#[verifier::external_body]
pub fn str_eq(a: &str, b: &str) -> (r: bool)
    ensures
        r == (a@ == b@),
{
    a == b
}

/// The whitespace characters that surrounding-blank trimming removes.
pub open spec fn is_space(c: char) -> bool {
    c == ' ' || c == '\t' || c == '\n' || c == '\r'
}

/// Executable test for [`is_space`].
pub fn is_space_char(c: char) -> (r: bool)
    ensures
        r == is_space(c),
{
    c == ' ' || c == '\t' || c == '\n' || c == '\r'
}

/// `s` without its leading whitespace.
pub open spec fn trim_leading(s: Seq<char>) -> Seq<char>
    decreases s.len(),
{
    if s.len() > 0 && is_space(s[0]) {
        trim_leading(s.skip(1))
    } else {
        s
    }
}

/// `s` without its trailing whitespace.
pub open spec fn trim_trailing(s: Seq<char>) -> Seq<char>
    decreases s.len(),
{
    if s.len() > 0 && is_space(s[s.len() - 1]) {
        trim_trailing(s.take(s.len() - 1))
    } else {
        s
    }
}

/// `s` without leading and trailing whitespace.
pub open spec fn spec_trim(s: Seq<char>) -> Seq<char> {
    trim_trailing(trim_leading(s))
}

proof fn lemma_trim_leading_subrange(s: Seq<char>, i: int)
    requires
        0 <= i <= s.len(),
        forall|k: int| 0 <= k < i ==> is_space(s[k]),
        i == s.len() || !is_space(s[i]),
    ensures
        trim_leading(s) =~= s.subrange(i, s.len() as int),
    decreases i,
{
    if i == 0 {
        assert(trim_leading(s) =~= s.subrange(0, s.len() as int)) by {
            if s.len() > 0 && is_space(s[0]) {
                assert(false);
            }
        }
    } else {
        let t = s.skip(1);
        assert(is_space(s[0]));
        lemma_trim_leading_subrange(t, i - 1);
        assert(t.subrange(i - 1, t.len() as int) =~= s.subrange(i, s.len() as int));
    }
}

proof fn lemma_trim_trailing_subrange(s: Seq<char>, j: int)
    requires
        0 <= j <= s.len(),
        forall|k: int| j <= k < s.len() ==> is_space(s[k]),
        j == 0 || !is_space(s[j - 1]),
    ensures
        trim_trailing(s) =~= s.subrange(0, j),
    decreases s.len() - j,
{
    if j == s.len() {
        if s.len() > 0 && is_space(s[s.len() - 1]) {
            assert(false);
        }
        assert(trim_trailing(s) =~= s.subrange(0, j));
    } else {
        let t = s.take(s.len() - 1);
        assert(is_space(s[s.len() - 1]));
        lemma_trim_trailing_subrange(t, j);
        assert(t.subrange(0, j) =~= s.subrange(0, j));
    }
}

/// Removes leading and trailing whitespace from `s`.
pub fn trim_str<'a>(s: &'a str) -> (r: &'a str)
    ensures
        r@ == spec_trim(s@),
{
    let len = s.unicode_len();
    let mut i: usize = 0;
    while i < len && is_space_char(s.get_char(i))
        invariant
            i <= len,
            len == s@.len(),
            forall|k: int| 0 <= k < i ==> is_space(s@[k]),
        decreases len - i,
    {
        i = i + 1;
    }
    let mut j: usize = len;
    while j > i && is_space_char(s.get_char(j - 1))
        invariant
            i <= j <= len,
            len == s@.len(),
            forall|k: int| 0 <= k < i ==> is_space(s@[k]),
            i == len || !is_space(s@[i as int]),
            forall|k: int| j <= k < len ==> is_space(s@[k]),
        decreases j,
    {
        j = j - 1;
    }
    let r = s.substring_char(i, j);
    proof {
        lemma_trim_leading_subrange(s@, i as int);
        let t = s@.subrange(i as int, s@.len() as int);
        if j == i {
            lemma_trim_trailing_subrange(t, 0);
        } else {
            lemma_trim_trailing_subrange(t, j - i);
        }
        assert(t.subrange(0, j - i) =~= s@.subrange(i as int, j as int));
    }
    r
}

/// Whether `c` is a decimal digit.
pub open spec fn is_digit(c: char) -> bool {
    48 <= c as u32 <= 57
}

/// Numeric value of the digit `c`.
pub open spec fn digit_val(c: char) -> int {
    c as u32 - 48
}

/// Whether every character of `s` is a decimal digit.
pub open spec fn all_digits(s: Seq<char>) -> bool {
    forall|k: int| 0 <= k < s.len() ==> is_digit(#[trigger] s[k])
}

/// The value of a digit string, most significant digit first.
pub open spec fn digits_val(s: Seq<char>) -> int
    decreases s.len(),
{
    if s.len() == 0 {
        0
    } else {
        digits_val(s.take(s.len() - 1)) * 10 + digit_val(s[s.len() - 1])
    }
}


/// Parses a decimal string into a `u64`; yields a value exactly when the
/// whole string is a nonempty run of digits whose value fits.
pub fn parse_u64(s: &str) -> (r: Option<u64>)
    ensures
        r == (if s@.len() > 0 && all_digits(s@) && digits_val(s@) <= u64::MAX {
            Some(digits_val(s@) as u64)
        } else {
            None::<u64>
        }),
{
    let len = s.unicode_len();
    if len == 0 {
        return None;
    }
    let mut acc: u64 = 0;
    let mut i: usize = 0;
    while i < len
        invariant
            i <= len,
            len == s@.len(),
            all_digits(s@.take(i as int)),
            acc == digits_val(s@.take(i as int)),
        decreases len - i,
    {
        let c = s.get_char(i);
        let v32 = c as u32;
        if v32 < 48 || v32 > 57 {
            assert(!is_digit(s@[i as int]));
            return None;
        }
        let v: u64 = (v32 - 48) as u64;
        if acc > (u64::MAX - v) / 10 {
            proof {
                let pre = s@.take(i as int + 1);
                assert(pre.take(pre.len() - 1) =~= s@.take(i as int));
                assert(digits_val(pre) == acc * 10 + v);
                assert(acc * 10 >= ((u64::MAX - v) / 10 + 1) * 10) by (nonlinear_arith)
                    requires
                        acc >= (u64::MAX - v) / 10 + 1,
                ;
                assert(((u64::MAX - v) / 10) * 10 + (u64::MAX - v) % 10 == u64::MAX - v);
                assert(digits_val(pre) > u64::MAX);
                lemma_digits_exceed(s@, i as int + 1);
            }
            return None;
        }
        proof {
            let pre = s@.take(i as int + 1);
            assert(pre.take(pre.len() - 1) =~= s@.take(i as int));
            assert(acc * 10 <= ((u64::MAX - v) / 10) * 10) by (nonlinear_arith)
                requires
                    acc <= (u64::MAX - v) / 10,
            ;
            assert(((u64::MAX - v) / 10) * 10 <= u64::MAX - v);
        }
        acc = acc * 10 + v;
        i = i + 1;
    }
    proof {
        assert(s@.take(len as int) =~= s@);
    }
    Some(acc)
}

/// Once a digit prefix exceeds `u64::MAX`, every longer digit run does too.
proof fn lemma_digits_exceed(s: Seq<char>, i: int)
    requires
        0 < i <= s.len(),
        all_digits(s.take(i)),
        digits_val(s.take(i)) > u64::MAX,
    ensures
        !(s.len() > 0 && all_digits(s) && digits_val(s) <= u64::MAX),
    decreases s.len() - i,
{
    if i == s.len() {
        assert(s.take(i) =~= s);
    } else {
        if all_digits(s.take(i + 1)) {
            let pre = s.take(i + 1);
            assert(pre.take(pre.len() - 1) =~= s.take(i));
            assert(digit_val(pre[pre.len() - 1]) >= 0);
            assert(digits_val(pre) >= digits_val(s.take(i)) * 10) by (nonlinear_arith)
                requires
                    digits_val(pre) == digits_val(s.take(i)) * 10 + digit_val(pre[pre.len() - 1]),
                    digit_val(pre[pre.len() - 1]) >= 0,
                    digits_val(s.take(i)) > 0,
            ;
            lemma_digits_exceed(s, i + 1);
        } else {
            let k = choose|k: int| 0 <= k < s.len() && !is_digit(s[k]);
            assert(!all_digits(s));
        }
    }
}

/// Index of the first occurrence of `sep` in `s`, or `s.len()` if absent.
pub open spec fn first_sep(s: Seq<char>, sep: char) -> nat
    decreases s.len(),
{
    if s.len() == 0 {
        0
    } else if s[0] == sep {
        0
    } else {
        1 + first_sep(s.skip(1), sep)
    }
}

proof fn lemma_first_sep_bounds(s: Seq<char>, sep: char)
    ensures
        0 <= first_sep(s, sep) <= s.len(),
        forall|k: int| 0 <= k < first_sep(s, sep) ==> s[k] != sep,
        first_sep(s, sep) < s.len() ==> s[first_sep(s, sep) as int] == sep,
    decreases s.len(),
{
    if s.len() > 0 && s[0] != sep {
        let t = s.skip(1);
        lemma_first_sep_bounds(t, sep);
        assert forall|k: int| 0 <= k < first_sep(s, sep) implies s[k] != sep by {
            if k > 0 {
                assert(s[k] == t[k - 1]);
            }
        }
    }
}

proof fn lemma_first_sep_is(s: Seq<char>, sep: char, f: int)
    requires
        0 <= f <= s.len(),
        forall|k: int| 0 <= k < f ==> s[k] != sep,
        f == s.len() || s[f] == sep,
    ensures
        first_sep(s, sep) == f,
    decreases f,
{
    if s.len() == 0 {
    } else if f == 0 {
        if s[0] != sep {
            assert(f == s.len());
        }
    } else {
        assert(s[0] != sep);
        lemma_first_sep_is(s.skip(1), sep, f - 1);
    }
}

/// The pieces of `s` between occurrences of `sep`, in order; separators are
/// not part of any piece, and `n` separators yield `n + 1` pieces.
pub open spec fn spec_split(s: Seq<char>, sep: char) -> Seq<Seq<char>>
    decreases s.len(),
{
    let f = first_sep(s, sep);
    if f >= s.len() {
        seq![s]
    } else {
        seq![s.subrange(0, f as int)]
            + spec_split(s.subrange(f as int + 1, s.len() as int), sep)
    }
}


/// The character sequences of a vector of strings.
pub open spec fn views_of(v: Seq<String>) -> Seq<Seq<char>> {
    v.map_values(|t: String| t@)
}

/// Splits `s` at every occurrence of `sep`.
pub fn split_char(s: &str, sep: char) -> (r: Vec<String>)
    ensures
        views_of(r@) == spec_split(s@, sep),
    decreases s@.len(),
{
    let len = s.unicode_len();
    let mut f: usize = 0;
    while f < len && s.get_char(f) != sep
        invariant
            f <= len,
            len == s@.len(),
            forall|k: int| 0 <= k < f ==> s@[k] != sep,
        decreases len - f,
    {
        f = f + 1;
    }
    proof {
        lemma_first_sep_is(s@, sep, f as int);
    }
    if f == len {
        let mut r: Vec<String> = Vec::new();
        r.push(s.to_owned());
        proof {
            assert(views_of(r@) =~= spec_split(s@, sep));
        }
        r
    } else {
        let head = s.substring_char(0, f);
        let rest = s.substring_char(f + 1, len);
        let mut r: Vec<String> = Vec::new();
        r.push(head.to_owned());
        let mut tail = split_char(rest, sep);
        r.append(&mut tail);
        proof {
            assert(views_of(r@) =~= spec_split(s@, sep));
        }
        r
    }
}

/// Whether `pat` occurs contiguously inside `s`.
pub open spec fn spec_contains_sub(s: Seq<char>, pat: Seq<char>) -> bool {
    exists|i: int|
        0 <= i <= s.len() - pat.len() && #[trigger] s.subrange(i, i + pat.len()) =~= pat
}

/// Searches `s` for the substring `pat`.
pub fn contains_sub(s: &str, pat: &str) -> (r: bool)
    ensures
        r == spec_contains_sub(s@, pat@),
{
    let n = s.unicode_len();
    let m = pat.unicode_len();
    if m > n {
        return false;
    }
    let mut i: usize = 0;
    while i <= n - m
        invariant
            m <= n,
            n == s@.len(),
            m == pat@.len(),
            i <= n - m + 1,
            forall|k: int| 0 <= k < i ==> !(#[trigger] s@.subrange(k, k + pat@.len()) =~= pat@),
        decreases n + 1 - i,
    {
        let mut j: usize = 0;
        while j < m && s.get_char(i + j) == pat.get_char(j)
            invariant
                m <= n,
                n == s@.len(),
                m == pat@.len(),
                i <= n - m,
                j <= m,
                forall|k: int| 0 <= k < j ==> s@[i + k] == pat@[k],
            decreases m - j,
        {
            j = j + 1;
        }
        if j == m {
            proof {
                assert(s@.subrange(i as int, i + pat@.len()) =~= pat@);
            }
            return true;
        }
        proof {
            assert(s@[i + j] != pat@[j as int]);
            assert(!(s@.subrange(i as int, i + pat@.len()) =~= pat@));
        }
        i = i + 1;
    }
    proof {
        assert(forall|k: int| 0 <= k <= s@.len() - pat@.len()
            ==> !(#[trigger] s@.subrange(k, k + pat@.len()) =~= pat@));
    }
    false
}

/// `s` with every trailing `.0` removed.
pub open spec fn strip_dot_zero(s: Seq<char>) -> Seq<char>
    decreases s.len(),
{
    if s.len() >= 2 && s[s.len() - 2] == '.' && s[s.len() - 1] == '0' {
        strip_dot_zero(s.take(s.len() - 2))
    } else {
        s
    }
}

/// Removes every trailing `.0` from `s`.
pub fn strip_dot_zero_str<'a>(s: &'a str) -> (r: &'a str)
    ensures
        r@ == strip_dot_zero(s@),
{
    let len = s.unicode_len();
    let mut j: usize = len;
    proof {
        assert(s@.take(len as int) =~= s@);
    }
    while j >= 2 && s.get_char(j - 2) == '.' && s.get_char(j - 1) == '0'
        invariant
            j <= len,
            len == s@.len(),
            strip_dot_zero(s@) == strip_dot_zero(s@.take(j as int)),
        decreases j,
    {
        proof {
            let t = s@.take(j as int);
            assert(t[t.len() - 2] == '.' && t[t.len() - 1] == '0');
            assert(t.take(t.len() - 2) =~= s@.take(j - 2));
        }
        j = j - 2;
    }
    proof {
        let t = s@.take(j as int);
        assert(!(t.len() >= 2 && t[t.len() - 2] == '.' && t[t.len() - 1] == '0'));
    }
    s.substring_char(0, j)
}

/// The character for the digit `d`.
pub open spec fn spec_digit_char(d: int) -> char {
    if d == 0 { '0' }
    else if d == 1 { '1' }
    else if d == 2 { '2' }
    else if d == 3 { '3' }
    else if d == 4 { '4' }
    else if d == 5 { '5' }
    else if d == 6 { '6' }
    else if d == 7 { '7' }
    else if d == 8 { '8' }
    else { '9' }
}

/// Decimal rendering of a nonnegative number, most significant digit first.
pub open spec fn spec_u64_string(x: int) -> Seq<char>
    decreases x,
{
    if x < 10 {
        seq![spec_digit_char(x)]
    } else {
        spec_u64_string(x / 10).push(spec_digit_char(x % 10))
    }
}

/// The single-character string for the digit `d`.
pub fn digit_str(d: u64) -> (r: &'static str)
    requires
        d < 10,
    ensures
        r@ =~= seq![spec_digit_char(d as int)],
{
    proof {
        reveal_strlit("0");
        reveal_strlit("1");
        reveal_strlit("2");
        reveal_strlit("3");
        reveal_strlit("4");
        reveal_strlit("5");
        reveal_strlit("6");
        reveal_strlit("7");
        reveal_strlit("8");
        reveal_strlit("9");
    }
    match d {
        0 => "0",
        1 => "1",
        2 => "2",
        3 => "3",
        4 => "4",
        5 => "5",
        6 => "6",
        7 => "7",
        8 => "8",
        _ => "9",
    }
}

/// Renders `x` in decimal.
pub fn u64_to_string(x: u64) -> (r: String)
    ensures
        r@ == spec_u64_string(x as int),
    decreases x,
{
    if x < 10 {
        let r = digit_str(x).to_owned();
        proof {
            assert(r@ =~= spec_u64_string(x as int));
        }
        r
    } else {
        let mut head = u64_to_string(x / 10);
        head.append(digit_str(x % 10));
        proof {
            assert(head@ =~= spec_u64_string(x as int));
        }
        head
    }
}

} // verus!
