//! Verified plain-text rendering of the numbers that the query builders
//! splice into SQL statements: decimal integers, signed integers, and
//! fixed-point values carrying seven decimal places.
use vstd::prelude::*;
use vstd::string::StringExecFns;

verus! {

/// The character for a single decimal digit.
pub open spec fn digit_char(d: nat) -> char {
    if d == 0 {
        '0'
    } else if d == 1 {
        '1'
    } else if d == 2 {
        '2'
    } else if d == 3 {
        '3'
    } else if d == 4 {
        '4'
    } else if d == 5 {
        '5'
    } else if d == 6 {
        '6'
    } else if d == 7 {
        '7'
    } else if d == 8 {
        '8'
    } else {
        '9'
    }
}

/// Decimal digits of `n`, most significant first, without leading zeros
/// (zero itself is the single digit `0`).
pub open spec fn dec_digits(n: nat) -> Seq<char>
    decreases n,
{
    if n < 10 {
        seq![digit_char(n)]
    } else {
        dec_digits(n / 10).push(digit_char(n % 10))
    }
}

fn digit_str(d: u64) -> (r: &'static str)
    requires
        d < 10,
    ensures
        r@ == seq![digit_char(d as nat)],
{
    proof {
        reveal_strlit("0");
        reveal_strlit("1");
        reveal_strlit("2");
        reveal_strlit("3");
        reveal_strlit("4");
        reveal_strlit("5");
        reveal_strlit("6");
        reveal_strlit("7");
        reveal_strlit("8");
        reveal_strlit("9");
    }
    let r = if d == 0 {
        "0"
    } else if d == 1 {
        "1"
    } else if d == 2 {
        "2"
    } else if d == 3 {
        "3"
    } else if d == 4 {
        "4"
    } else if d == 5 {
        "5"
    } else if d == 6 {
        "6"
    } else if d == 7 {
        "7"
    } else if d == 8 {
        "8"
    } else {
        "9"
    };
    proof {
        assert(r@ =~= seq![digit_char(d as nat)]);
    }
    r
}

/// Renders `n` in decimal.
pub fn u64_to_string(n: u64) -> (s: String)
    ensures
        s@ == dec_digits(n as nat),
    decreases n,
{
    if n < 10 {
        digit_str(n).to_owned()
    } else {
        let mut s = u64_to_string(n / 10);
        s.append(digit_str(n % 10));
        proof {
            assert(s@ =~= dec_digits(n as nat));
        }
        s
    }
}

/// Decimal rendering of a signed integer: a leading minus sign for
/// negative values, then the digits of the magnitude.
pub open spec fn int_digits(v: int) -> Seq<char> {
    if v < 0 {
        seq!['-'] + dec_digits((-v) as nat)
    } else {
        dec_digits(v as nat)
    }
}

/// Renders `v` in decimal, with a minus sign when negative.
pub fn i64_to_string(v: i64) -> (s: String)
    ensures
        s@ == int_digits(v as int),
{
    if v >= 0 {
        u64_to_string(v as u64)
    } else {
        let mag: u64 = if v == i64::MIN {
            9223372036854775808u64
        } else {
            (-v) as u64
        };
        let mut s = "-".to_owned();
        s.append(u64_to_string(mag).as_str());
        proof {
            reveal_strlit("-");
            assert(s@ =~= int_digits(v as int));
        }
        s
    }
}

/// The low `width` decimal digits of `n`, zero padded to exactly `width`
/// characters, most significant first.
pub open spec fn padded_digits(n: nat, width: nat) -> Seq<char>
    decreases width,
{
    if width == 0 {
        Seq::empty()
    } else {
        padded_digits(n / 10, (width - 1) as nat).push(digit_char(n % 10))
    }
}

/// `s` with every trailing `'0'` removed.
pub open spec fn trim_zeros(s: Seq<char>) -> Seq<char>
    decreases s.len(),
{
    if s.len() == 0 {
        s
    } else if s.last() == '0' {
        trim_zeros(s.drop_last())
    } else {
        s
    }
}

pub open spec fn pow10(k: nat) -> nat
    decreases k,
{
    if k == 0 {
        1
    } else {
        10 * pow10((k - 1) as nat)
    }
}

/// Decimal rendering of the fixed-point value `v / 10^7`: optional sign,
/// the whole part without leading zeros, and, when the fractional part is
/// not zero, a point followed by the fractional digits with trailing
/// zeros removed.
pub open spec fn decimal_e7(v: int) -> Seq<char> {
    let sign = if v < 0 {
        seq!['-']
    } else {
        Seq::<char>::empty()
    };
    let mag = if v < 0 {
        -v
    } else {
        v
    };
    let whole = dec_digits((mag / 10000000) as nat);
    let frac = (mag % 10000000) as nat;
    if frac == 0 {
        sign + whole
    } else {
        sign + whole + seq!['.'] + trim_zeros(padded_digits(frac, 7))
    }
}

fn padded_to_string(n: u64, width: u64) -> (s: String)
    ensures
        s@ == padded_digits(n as nat, width as nat),
    decreases width,
{
    if width == 0 {
        String::new()
    } else {
        let mut s = padded_to_string(n / 10, width - 1);
        s.append(digit_str(n % 10));
        proof {
            assert(s@ =~= padded_digits(n as nat, width as nat));
        }
        s
    }
}

proof fn lemma_trim_pad_step(n: nat, width: nat)
    requires
        width > 0,
        n % 10 == 0,
    ensures
        trim_zeros(padded_digits(n, width)) == trim_zeros(
            padded_digits(n / 10, (width - 1) as nat),
        ),
{
    let p = padded_digits(n, width);
    assert(p.last() == digit_char(0));
    assert(p.drop_last() =~= padded_digits(n / 10, (width - 1) as nat));
}

proof fn lemma_trim_pad_done(n: nat, width: nat)
    requires
        width > 0,
        n % 10 != 0,
    ensures
        trim_zeros(padded_digits(n, width)) == padded_digits(n, width),
{
    let p = padded_digits(n, width);
    assert(p.last() == digit_char(n % 10));
    assert(digit_char(n % 10) != '0');
}

fn frac7_to_string(frac: u64) -> (s: String)
    requires
        0 < frac < 10000000,
    ensures
        s@ == trim_zeros(padded_digits(frac as nat, 7)),
{
    let mut f = frac;
    let mut width: u64 = 7;
    proof {
        reveal_with_fuel(pow10, 8);
        assert(pow10(7) == 10000000);
    }
    while f % 10 == 0
        invariant
            0 < f,
            1 <= width <= 7,
            (f as nat) < pow10(width as nat),
            trim_zeros(padded_digits(frac as nat, 7)) == trim_zeros(
                padded_digits(f as nat, width as nat),
            ),
        decreases width,
    {
        proof {
            lemma_trim_pad_step(f as nat, width as nat);
            assert(pow10(width as nat) == 10 * pow10((width - 1) as nat));
        }
        f = f / 10;
        width = width - 1;
        proof {
            if width == 0 {
                assert(pow10(0) == 1);
                assert(false);
            }
        }
    }
    proof {
        lemma_trim_pad_done(f as nat, width as nat);
    }
    padded_to_string(f, width)
}

/// Renders the fixed-point value `v / 10^7` in decimal.
pub fn i64_e7_to_string(v: i64) -> (s: String)
    ensures
        s@ == decimal_e7(v as int),
{
    let mag: u64 = if v >= 0 {
        v as u64
    } else if v == i64::MIN {
        9223372036854775808u64
    } else {
        (-v) as u64
    };
    let whole = mag / 10000000;
    let frac = mag % 10000000;
    let mut s = if v < 0 {
        "-".to_owned()
    } else {
        String::new()
    };
    proof {
        reveal_strlit("-");
    }
    s.append(u64_to_string(whole).as_str());
    if frac != 0 {
        s.append(".");
        s.append(frac7_to_string(frac).as_str());
        proof {
            reveal_strlit(".");
            assert(s@ =~= decimal_e7(v as int));
        }
    } else {
        proof {
            assert(s@ =~= decimal_e7(v as int));
        }
    }
    s
}

/// `parts` joined with `sep` between consecutive parts.
pub open spec fn joined(parts: Seq<Seq<char>>, sep: Seq<char>) -> Seq<char>
    decreases parts.len(),
{
    if parts.len() == 0 {
        Seq::empty()
    } else if parts.len() == 1 {
        parts[0]
    } else {
        joined(parts.drop_last(), sep) + sep + parts.last()
    }
}

/// Joins the strings with the separator between consecutive entries, as
/// slice joining does.
pub fn join_strings(parts: &Vec<String>, sep: &str) -> (s: String)
    ensures
        s@ == joined(parts@.map_values(|p: String| p@), sep@),
{
    let ghost views = parts@.map_values(|p: String| p@);
    let mut s = String::new();
    let mut i: usize = 0;
    while i < parts.len()
        invariant
            i <= parts.len(),
            views == parts@.map_values(|p: String| p@),
            s@ == joined(views.take(i as int), sep@),
        decreases parts.len() - i,
    {
        if i > 0 {
            s.append(sep);
        }
        s.append(parts[i].as_str());
        proof {
            let prev = views.take(i as int);
            let cur = views.take(i as int + 1);
            assert(cur.drop_last() =~= prev);
            assert(cur.last() == views[i as int]);
            if i == 0 {
                assert(joined(cur, sep@) == views[0]);
                assert(s@ =~= joined(cur, sep@));
            } else {
                assert(joined(cur, sep@) == joined(prev, sep@) + sep@ + views[i as int]);
                assert(s@ =~= joined(cur, sep@));
            }
        }
        i = i + 1;
    }
    proof {
        assert(views.take(parts.len() as int) =~= views);
    }
    s
}

/// `c` is a decimal digit.
pub open spec fn is_digit(c: char) -> bool {
    48 <= c as int <= 57
}

/// The numeric value of a decimal digit character.
pub open spec fn digit_val(c: char) -> nat {
    (c as int - 48) as nat
}

/// Every character of `s` is a decimal digit.
pub open spec fn all_digits(s: Seq<char>) -> bool {
    forall|i: int| 0 <= i < s.len() ==> is_digit(#[trigger] s[i])
}

/// The number the digit string `s` denotes.
pub open spec fn digits_value(s: Seq<char>) -> nat
    decreases s.len(),
{
    if s.len() == 0 {
        0
    } else {
        digits_value(s.drop_last()) * 10 + digit_val(s.last())
    }
}

/// A digit string denotes at least what any of its prefixes denotes.
pub proof fn lemma_digits_value_take(s: Seq<char>, k: int)
    requires
        0 <= k <= s.len(),
    ensures
        digits_value(s.take(k)) <= digits_value(s),
    decreases s.len(),
{
    if k < s.len() {
        assert(s.drop_last().take(k) =~= s.take(k));
        lemma_digits_value_take(s.drop_last(), k);
    } else {
        assert(s.take(k) =~= s);
    }
}

/// How often `c` occurs in `s`.
pub open spec fn count_char(s: Seq<char>, c: char) -> nat
    decreases s.len(),
{
    if s.len() == 0 {
        0
    } else {
        count_char(s.drop_last(), c) + (if s.last() == c {
            1nat
        } else {
            0nat
        })
    }
}

/// A character occurring somewhere counts at least once.
pub proof fn lemma_count_char_occurrence(s: Seq<char>, c: char, p: int)
    requires
        0 <= p < s.len(),
        s[p] == c,
    ensures
        count_char(s, c) >= 1,
    decreases s.len(),
{
    if p < s.len() - 1 {
        lemma_count_char_occurrence(s.drop_last(), c, p);
    }
}

/// In a string holding `c` exactly once, two occurrences coincide.
pub proof fn lemma_count_char_unique(s: Seq<char>, c: char, p: int, q: int)
    requires
        count_char(s, c) == 1,
        0 <= p < s.len(),
        0 <= q < s.len(),
        s[p] == c,
        s[q] == c,
    ensures
        p == q,
{
    if p != q {
        let lo = if p < q {
            p
        } else {
            q
        };
        let hi = if p < q {
            q
        } else {
            p
        };
        lemma_count_char_drop_both(s, c, lo, hi);
    }
}

proof fn lemma_count_char_drop_both(s: Seq<char>, c: char, p: int, q: int)
    requires
        0 <= p < q < s.len(),
        s[p] == c,
        s[q] == c,
    ensures
        count_char(s, c) >= 2,
    decreases s.len(),
{
    if q == s.len() - 1 {
        lemma_count_char_occurrence(s.drop_last(), c, p);
    } else {
        lemma_count_char_drop_both(s.drop_last(), c, p, q);
    }
}

/// `sub` occurs somewhere in `s`.
pub open spec fn contains_seq(s: Seq<char>, sub: Seq<char>) -> bool {
    exists|i: int|
        0 <= i && i + sub.len() <= s.len() && #[trigger] s.subrange(i, i + sub.len()) == sub
}

/// An occurrence in the left part of a concatenation is an occurrence in
/// the whole.
pub broadcast proof fn lemma_contains_seq_append_left(a: Seq<char>, b: Seq<char>, sub: Seq<char>)
    ensures
        contains_seq(a, sub) ==> #[trigger] contains_seq(a + b, sub),
{
    if contains_seq(a, sub) {
        let i = choose|i: int|
            0 <= i && i + sub.len() <= a.len() && #[trigger] a.subrange(i, i + sub.len()) == sub;
        assert((a + b).subrange(i, i + sub.len()) =~= sub);
    }
}

/// An occurrence in the right part of a concatenation is an occurrence in
/// the whole.
pub broadcast proof fn lemma_contains_seq_append_right(a: Seq<char>, b: Seq<char>, sub: Seq<char>)
    ensures
        contains_seq(b, sub) ==> #[trigger] contains_seq(a + b, sub),
{
    if contains_seq(b, sub) {
        let i = choose|i: int|
            0 <= i && i + sub.len() <= b.len() && #[trigger] b.subrange(i, i + sub.len()) == sub;
        assert((a + b).subrange(a.len() + i, (a.len() + i) + sub.len()) =~= sub);
    }
}

} // verus!
