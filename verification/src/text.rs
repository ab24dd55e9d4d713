//! Decimal rendering of the numbers that the HUD shows: the kill counter and
//! the `MM:SS` clock of the time survived.
use vstd::prelude::*;

verus! {

/// The character that stands for the decimal digit `d`.
pub open spec fn digit_char(d: nat) -> char {
    if d == 0 {
        '0'
    } else if d == 1 {
        '1'
    } else if d == 2 {
        '2'
    } else if d == 3 {
        '3'
    } else if d == 4 {
        '4'
    } else if d == 5 {
        '5'
    } else if d == 6 {
        '6'
    } else if d == 7 {
        '7'
    } else if d == 8 {
        '8'
    } else {
        '9'
    }
}

/// The shortest decimal numeral of `n`, most significant digit first
/// (what `n.to_string()` and `format!("{}", n)` print for an unsigned `n`).
pub open spec fn decimal(n: nat) -> Seq<char>
    decreases n,
{
    if n < 10 {
        seq![digit_char(n)]
    } else {
        decimal(n / 10).push(digit_char(n % 10))
    }
}

/// A numeral padded on the left with `'0'` to at least two characters
/// (the `{:02}` of a format string).
pub open spec fn pad2(s: Seq<char>) -> Seq<char> {
    if s.len() < 2 {
        seq!['0'] + s
    } else {
        s
    }
}

/// The clock text for a whole number of seconds: minutes and seconds, each
/// padded to two digits, joined by a colon (`format!("{:02}:{:02}", t / 60, t % 60)`).
pub open spec fn clock(total_seconds: nat) -> Seq<char> {
    pad2(decimal(total_seconds / 60)) + seq![':'] + pad2(decimal(total_seconds % 60))
}

/// Whether `c` is one of the ten decimal digit characters.
pub open spec fn is_digit(c: char) -> bool {
    '0' as int <= c as int <= '9' as int
}

/// Whether every character of `s` is a decimal digit.
pub open spec fn all_digits(s: Seq<char>) -> bool {
    forall|i: int| 0 <= i < s.len() ==> is_digit(#[trigger] s[i])
}

/// The number that a digit character stands for.
pub open spec fn digit_value(c: char) -> int {
    c as int - '0' as int
}

/// The number that a string of decimal digits denotes (0 for the empty string).
pub open spec fn numeral_value(s: Seq<char>) -> int
    decreases s.len(),
{
    if s.len() == 0 {
        0
    } else {
        numeral_value(s.drop_last()) * 10 + digit_value(s.last())
    }
}

/// Returns the one-character string of the digit `d`.
fn digit_str(d: u32) -> (s: &'static str)
    requires
        d < 10,
    ensures
        s@ == seq![digit_char(d as nat)],
{
    proof {
        reveal_strlit("0");
        reveal_strlit("1");
        reveal_strlit("2");
        reveal_strlit("3");
        reveal_strlit("4");
        reveal_strlit("5");
        reveal_strlit("6");
        reveal_strlit("7");
        reveal_strlit("8");
        reveal_strlit("9");
    }
    if d == 0 {
        "0"
    } else if d == 1 {
        "1"
    } else if d == 2 {
        "2"
    } else if d == 3 {
        "3"
    } else if d == 4 {
        "4"
    } else if d == 5 {
        "5"
    } else if d == 6 {
        "6"
    } else if d == 7 {
        "7"
    } else if d == 8 {
        "8"
    } else {
        "9"
    }
}

/// The decimal text of `n`, as the kill counter shows it.
pub fn decimal_string(n: u32) -> (s: String)
    ensures
        s@ == decimal(n as nat),
    decreases n,
{
    if n < 10 {
        String::from_str(digit_str(n))
    } else {
        let mut s = decimal_string(n / 10);
        s.append(digit_str(n % 10));
        assert(s@ =~= decimal(n as nat));
        s
    }
}

/// The decimal text of `n` padded with a leading zero to two characters.
pub fn two_digit_string(n: u32) -> (s: String)
    ensures
        s@ == pad2(decimal(n as nat)),
{
    let digits = decimal_string(n);
    if n < 10 {
        proof {
            reveal_strlit("0");
        }
        let s = String::from_str("0").concat(digits.as_str());
        assert(s@ =~= pad2(decimal(n as nat)));
        s
    } else {
        proof {
            lemma_decimal_len_at_least_two(n as nat);
        }
        digits
    }
}

/// The `MM:SS` text of the clock for `total_seconds` whole seconds survived.
pub fn clock_string(total_seconds: u32) -> (s: String)
    ensures
        s@ == clock(total_seconds as nat),
{
    let minutes = total_seconds / 60;
    let seconds = total_seconds % 60;
    let m = two_digit_string(minutes);
    let sec = two_digit_string(seconds);
    proof {
        reveal_strlit(":");
    }
    let s = m.concat(":").concat(sec.as_str());
    assert(s@ =~= clock(total_seconds as nat));
    s
}

/// The decimal text of `n` is a string of digits without a superfluous
/// leading zero that reads back as `n`: the counter shows exactly the count.
pub proof fn lemma_decimal_reads_back(n: nat)
    ensures
        decimal(n).len() >= 1,
        all_digits(decimal(n)),
        numeral_value(decimal(n)) == n,
        decimal(n)[0] == '0' ==> n == 0,
    decreases n,
{
    if n >= 10 {
        lemma_decimal_reads_back(n / 10);
        let s = decimal(n);
        assert(s.drop_last() =~= decimal(n / 10));
        assert(s[0] == decimal(n / 10)[0]);
        lemma_digit_char_value(n % 10);
        assert(s.last() == digit_char(n % 10));
        assert(numeral_value(s) == numeral_value(decimal(n / 10)) * 10 + digit_value(s.last()));
        assert((n / 10) * 10 + n % 10 == n) by (nonlinear_arith);
    } else {
        lemma_digit_char_value(n);
        let s = decimal(n);
        assert(s.drop_last() =~= Seq::<char>::empty());
        assert(numeral_value(s) == numeral_value(s.drop_last()) * 10 + digit_value(s.last()));
    }
}

proof fn lemma_digit_char_value(d: nat)
    requires
        d < 10,
    ensures
        is_digit(digit_char(d)),
        digit_value(digit_char(d)) == d,
        digit_char(d) == '0' ==> d == 0,
{
}

/// Two numbers with the same decimal text are equal.
pub proof fn lemma_decimal_injective(a: nat, b: nat)
    requires
        decimal(a) == decimal(b),
    ensures
        a == b,
{
    lemma_decimal_reads_back(a);
    lemma_decimal_reads_back(b);
}

proof fn lemma_leading_zero(s: Seq<char>)
    ensures
        numeral_value(seq!['0'] + s) == numeral_value(s),
    decreases s.len(),
{
    let z = seq!['0'] + s;
    if s.len() > 0 {
        assert(z.drop_last() =~= seq!['0'] + s.drop_last());
        lemma_leading_zero(s.drop_last());
        assert(z.last() == s.last());
        assert(numeral_value(z) == numeral_value(z.drop_last()) * 10 + digit_value(z.last()));
        assert(numeral_value(s) == numeral_value(s.drop_last()) * 10 + digit_value(s.last()));
    } else {
        assert(z.drop_last() =~= Seq::<char>::empty());
        assert(numeral_value(z) == numeral_value(z.drop_last()) * 10 + digit_value(z.last()));
    }
}

/// The two-digit text of `n` is a string of at least two digits that reads
/// back as `n`; it is exactly two characters long when `n < 100`, and a longer
/// one has no leading zero: it is zero-padded only up to two characters.
pub proof fn lemma_pad2_reads_back(n: nat)
    ensures
        pad2(decimal(n)).len() >= 2,
        all_digits(pad2(decimal(n))),
        numeral_value(pad2(decimal(n))) == n,
        n < 100 ==> pad2(decimal(n)).len() == 2,
        pad2(decimal(n)).len() > 2 ==> pad2(decimal(n))[0] != '0',
        pad2(decimal(n)).len() > 2 ==> n >= 100,
{
    lemma_decimal_reads_back(n);
    if decimal(n).len() < 2 {
        lemma_leading_zero(decimal(n));
    }
    if n < 100 && n >= 10 {
        assert(decimal(n) == decimal(n / 10).push(digit_char(n % 10)));
    }
    if n >= 100 {
        assert(decimal(n) == decimal(n / 10).push(digit_char(n % 10)));
        lemma_decimal_len_at_least_two(n / 10);
    }
}

/// The clock text is a minutes field of at least two digits, a colon, and a
/// seconds field of exactly two digits below 60, and the two fields read back
/// as the number of seconds survived: `60 * minutes + seconds == total_seconds`.
/// The minutes field is zero-padded to two digits and no further: it is exactly
/// two characters below 100 minutes, and a longer field has no leading zero,
/// so below 6000 seconds the whole text is five characters long.
pub proof fn lemma_clock_reads_back(total_seconds: nat)
    ensures
        ({
            let c = clock(total_seconds);
            let k = c.len() - 3;
            &&& k >= 2
            &&& c[k] == ':'
            &&& all_digits(c.take(k))
            &&& all_digits(c.skip(k + 1))
            &&& c.skip(k + 1).len() == 2
            &&& numeral_value(c.take(k)) == total_seconds / 60
            &&& numeral_value(c.skip(k + 1)) == total_seconds % 60
            &&& numeral_value(c.skip(k + 1)) < 60
            &&& numeral_value(c.take(k)) * 60 + numeral_value(c.skip(k + 1)) == total_seconds
            &&& (total_seconds / 60 < 100 ==> k == 2)
            &&& (k > 2 ==> c[0] != '0')
            &&& (total_seconds < 6000 ==> c.len() == 5)
        }),
{
    let m = pad2(decimal(total_seconds / 60));
    let s = pad2(decimal(total_seconds % 60));
    lemma_pad2_reads_back(total_seconds / 60);
    lemma_pad2_reads_back(total_seconds % 60);
    let c = clock(total_seconds);
    let k = c.len() - 3;
    assert(k == m.len());
    assert(c.take(k) =~= m);
    assert(c.skip(k + 1) =~= s);
    assert(c[0] == m[0]);
    assert(total_seconds < 6000 ==> total_seconds / 60 < 100);
}

/// Two numbers of seconds with the same clock text are equal.
pub proof fn lemma_clock_injective(a: nat, b: nat)
    requires
        clock(a) == clock(b),
    ensures
        a == b,
{
    lemma_clock_reads_back(a);
    lemma_clock_reads_back(b);
}

proof fn lemma_decimal_len_at_least_two(n: nat)
    requires
        n >= 10,
    ensures
        decimal(n).len() >= 2,
{
    assert(decimal(n) == decimal(n / 10).push(digit_char(n % 10)));
    lemma_decimal_nonempty(n / 10);
}

proof fn lemma_decimal_nonempty(n: nat)
    ensures
        decimal(n).len() >= 1,
    decreases n,
{
    if n >= 10 {
        lemma_decimal_nonempty(n / 10);
    }
}

} // verus!
