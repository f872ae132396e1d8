//! Text measurement and formatting helpers: terminal display width,
//! decimal rendering of row numbers, case folding and prefix tests.

use vstd::prelude::*;
use vstd::string::StrSliceExecFns;
use vstd::string::StringExecFns;

verus! {

/// Display width of a string in terminal columns: wide glyphs count as
/// two columns, most others as one. A function of the characters alone.
pub uninterp spec fn display_width(s: Seq<char>) -> nat;

/// Relies on unicode_width::UnicodeWidthStr::width: the displayed
/// column width of a string, determined by its characters alone.
#[verifier::external_body]
pub(crate) fn str_width(s: &str) -> (w: usize)
    ensures
        w == display_width(s@),
{
    unicode_width::UnicodeWidthStr::width(s)
}

/// The lowercase form of a string, as Unicode defines it.
pub uninterp spec fn lower_of(s: Seq<char>) -> Seq<char>;

/// The uppercase form of a string, as Unicode defines it.
pub uninterp spec fn upper_of(s: Seq<char>) -> Seq<char>;

/// Relies on str::to_lowercase: the lowercase form depends on the
/// characters alone.
#[verifier::external_body]
pub(crate) fn str_to_lowercase(s: &str) -> (r: String)
    ensures
        r@ == lower_of(s@),
{
    s.to_lowercase()
}

/// Relies on str::to_uppercase: the uppercase form depends on the
/// characters alone.
#[verifier::external_body]
pub(crate) fn str_to_uppercase(s: &str) -> (r: String)
    ensures
        r@ == upper_of(s@),
{
    s.to_uppercase()
}

/// Whether `p` is a prefix of `s`.
pub open spec fn spec_is_prefix(p: Seq<char>, s: Seq<char>) -> bool {
    p.len() <= s.len() && s.subrange(0, p.len() as int) == p
}

/// Character-by-character prefix test.
pub fn is_char_prefix(p: &str, s: &str) -> (r: bool)
    ensures
        r == spec_is_prefix(p@, s@),
{
    let pn = p.unicode_len();
    let sn = s.unicode_len();
    if pn > sn {
        return false;
    }
    let mut i: usize = 0;
    while i < pn
        invariant
            i <= pn,
            pn == p@.len(),
            sn == s@.len(),
            pn <= sn,
            forall|j: int| 0 <= j < i ==> p@[j] == s@[j],
        decreases pn - i,
    {
        if p.get_char(i) != s.get_char(i) {
            proof {
                assert(s@.subrange(0, pn as int)[i as int] == s@[i as int]);
            }
            return false;
        }
        i += 1;
    }
    proof {
        assert(s@.subrange(0, pn as int) =~= p@);
    }
    true
}

/// How many line breaks a string embeds.
pub open spec fn spec_newline_count(s: Seq<char>) -> nat {
    s.filter(|c: char| c == '\n').len()
}

/// Count the newline characters of a string.
pub fn newline_count(s: &str) -> (n: usize)
    ensures
        n == spec_newline_count(s@),
{
    let len = s.unicode_len();
    let mut n: usize = 0;
    let mut i: usize = 0;
    while i < len
        invariant
            i <= len,
            len == s@.len(),
            n == spec_newline_count(s@.subrange(0, i as int)),
            n <= i,
        decreases len - i,
    {
        let c = s.get_char(i);
        proof {
            s@.subrange(0, i as int).lemma_filter_push(s@[i as int], |c: char| c == '\n');
            assert(s@.subrange(0, i as int).push(s@[i as int]) =~= s@.subrange(0, i + 1));
        }
        if c == '\n' {
            n = n + 1;
        }
        i = i + 1;
    }
    proof {
        assert(s@.subrange(0, len as int) =~= s@);
    }
    n
}

/// The decimal digit character for `d` in `0..=9`.
pub open spec fn spec_digit_char(d: int) -> char {
    if d == 0 {
        '0'
    } else if d == 1 {
        '1'
    } else if d == 2 {
        '2'
    } else if d == 3 {
        '3'
    } else if d == 4 {
        '4'
    } else if d == 5 {
        '5'
    } else if d == 6 {
        '6'
    } else if d == 7 {
        '7'
    } else if d == 8 {
        '8'
    } else {
        '9'
    }
}

/// The decimal rendering of a non-negative integer, most significant
/// digit first, without leading zeros (`0` renders as "0").
pub open spec fn spec_decimal(n: int) -> Seq<char>
    decreases n,
{
    if n < 10 {
        seq![spec_digit_char(n)]
    } else {
        spec_decimal(n / 10).push(spec_digit_char(n % 10))
    }
}

/// Powers of ten, used to bound digit counts.
pub open spec fn pow10(d: int) -> int
    decreases d,
{
    if d <= 0 {
        1
    } else {
        10 * pow10(d - 1)
    }
}

/// A number below `pow10(d)` has at most `d` decimal digits.
proof fn lemma_decimal_len_bound(n: int, d: int)
    requires
        0 <= n < pow10(d),
        1 <= d,
    ensures
        spec_decimal(n).len() <= d,
    decreases d,
{
    if n < 10 {
    } else {
        assert(pow10(d) == 10 * pow10(d - 1));
        assert(n / 10 < pow10(d - 1)) by (nonlinear_arith)
            requires
                n < 10 * pow10(d - 1),
                10 <= n,
        ;
        assert(d >= 2) by {
            if d == 1 {
                assert(pow10(1) == 10);
            }
        }
        lemma_decimal_len_bound(n / 10, d - 1);
    }
}

/// Any value a `usize` can hold has at most 20 decimal digits.
pub proof fn lemma_usize_decimal_len(n: int)
    requires
        0 <= n <= usize::MAX,
    ensures
        1 <= spec_decimal(n).len() <= 20,
{
    reveal_with_fuel(pow10, 21);
    assert(pow10(20) == 100_000_000_000_000_000_000);
    assert(n < pow10(20));
    lemma_decimal_len_bound(n, 20);
}

/// How many decimal digits `n` renders as.
pub fn decimal_digit_count(n: usize) -> (d: usize)
    ensures
        d == spec_decimal(n as int).len(),
        1 <= d <= 20,
{
    proof {
        lemma_usize_decimal_len(n as int);
    }
    let mut m: usize = n;
    let mut d: usize = 1;
    while m >= 10
        invariant
            1 <= d,
            spec_decimal(n as int).len() == spec_decimal(m as int).len() + d - 1,
            spec_decimal(m as int).len() + d - 1 <= 20,
        decreases m,
    {
        m = m / 10;
        d = d + 1;
    }
    d
}

/// How many decimal digits `n + 1` renders as, computed without
/// forming `n + 1`, which a `usize` cannot always hold.
pub fn decimal_digit_count_succ(n: usize) -> (d: usize)
    ensures
        d == spec_decimal(n as int + 1).len(),
        1 <= d <= 21,
{
    if n < 9 {
        1
    } else {
        let q = n / 10;
        let r = n % 10;
        let first: usize = if r == 9 {
            q + 1
        } else {
            q
        };
        proof {
            vstd::arithmetic::div_mod::lemma_fundamental_div_mod(n as int, 10);
            if r == 9 {
                vstd::arithmetic::div_mod::lemma_fundamental_div_mod_converse(
                    n as int + 1,
                    10,
                    q as int + 1,
                    0,
                );
            } else {
                vstd::arithmetic::div_mod::lemma_fundamental_div_mod_converse(
                    n as int + 1,
                    10,
                    q as int,
                    r as int + 1,
                );
            }
            assert(first == (n as int + 1) / 10);
            assert(spec_decimal(n as int + 1).len() == spec_decimal((n as int + 1) / 10).len()
                + 1);
        }
        let d0 = decimal_digit_count(first);
        d0 + 1
    }
}

/// The decimal digit characters of `ds`, read back to front: `ds`
/// holds the digits least significant first.
pub open spec fn rev_digit_chars(ds: Seq<usize>) -> Seq<char> {
    Seq::new(ds.len(), |k: int| spec_digit_char(ds[ds.len() - 1 - k] as int))
}

/// The one-character string for a decimal digit.
fn digit_str(d: usize) -> (s: &'static str)
    requires
        d < 10,
    ensures
        s@ == seq![spec_digit_char(d as int)],
{
    if d == 0 {
        proof {
            reveal_strlit("0");
            assert("0"@ =~= seq![spec_digit_char(0)]);
        }
        "0"
    } else if d == 1 {
        proof {
            reveal_strlit("1");
            assert("1"@ =~= seq![spec_digit_char(1)]);
        }
        "1"
    } else if d == 2 {
        proof {
            reveal_strlit("2");
            assert("2"@ =~= seq![spec_digit_char(2)]);
        }
        "2"
    } else if d == 3 {
        proof {
            reveal_strlit("3");
            assert("3"@ =~= seq![spec_digit_char(3)]);
        }
        "3"
    } else if d == 4 {
        proof {
            reveal_strlit("4");
            assert("4"@ =~= seq![spec_digit_char(4)]);
        }
        "4"
    } else if d == 5 {
        proof {
            reveal_strlit("5");
            assert("5"@ =~= seq![spec_digit_char(5)]);
        }
        "5"
    } else if d == 6 {
        proof {
            reveal_strlit("6");
            assert("6"@ =~= seq![spec_digit_char(6)]);
        }
        "6"
    } else if d == 7 {
        proof {
            reveal_strlit("7");
            assert("7"@ =~= seq![spec_digit_char(7)]);
        }
        "7"
    } else if d == 8 {
        proof {
            reveal_strlit("8");
            assert("8"@ =~= seq![spec_digit_char(8)]);
        }
        "8"
    } else {
        proof {
            reveal_strlit("9");
            assert("9"@ =~= seq![spec_digit_char(9)]);
        }
        "9"
    }
}

/// Render `n` in decimal.
pub fn usize_to_decimal(n: usize) -> (s: String)
    ensures
        s@ == spec_decimal(n as int),
{
    let mut digits: Vec<usize> = Vec::new();
    let mut m: usize = n;
    loop
        invariant_except_break
            digits@.len() == 0 ==> m == n,
            digits@.len() > 0 ==> m != 0,
            digits@.len() > 0 ==> spec_decimal(n as int) == (if m == 0 {
                rev_digit_chars(digits@)
            } else {
                spec_decimal(m as int) + rev_digit_chars(digits@)
            }),
            forall|k: int| 0 <= k < digits@.len() ==> digits@[k] < 10,
        ensures
            m == 0,
            digits@.len() > 0,
            spec_decimal(n as int) == rev_digit_chars(digits@),
            forall|k: int| 0 <= k < digits@.len() ==> digits@[k] < 10,
        decreases m, (if digits@.len() == 0 { 1int } else { 0int }),
    {
        let ghost old_m = m;
        let ghost old_digits = digits@;
        let d: usize = m % 10;
        digits.push(d);
        m = m / 10;
        proof {
            assert(rev_digit_chars(old_digits.push(d)) =~= seq![spec_digit_char(d as int)]
                + rev_digit_chars(old_digits));
            if old_m < 10 {
                assert(spec_decimal(old_m as int) == seq![spec_digit_char(old_m as int)]);
            }
            if m == 0 {
                assert(spec_decimal(n as int) =~= rev_digit_chars(digits@));
            } else {
                assert(spec_decimal(n as int) =~= spec_decimal(m as int) + rev_digit_chars(
                    digits@,
                ));
            }
        }
        if m == 0 {
            break;
        }
    }
    let mut s = String::new();
    let total = digits.len();
    let mut i: usize = total;
    while i > 0
        invariant
            i <= total,
            total == digits@.len(),
            forall|k: int| 0 <= k < digits@.len() ==> digits@[k] < 10,
            s@ == rev_digit_chars(digits@).subrange(0, total - i),
        decreases i,
    {
        i = i - 1;
        s.append(digit_str(digits[i]));
        proof {
            assert(s@ =~= rev_digit_chars(digits@).subrange(0, total - i));
        }
    }
    proof {
        assert(rev_digit_chars(digits@).subrange(0, total as int) =~= rev_digit_chars(digits@));
    }
    s
}

} // verus!
