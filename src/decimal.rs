use vstd::prelude::*;
use vstd::string::StringExecFns;

verus! {

/// The character of a decimal digit.
pub open spec fn digit_char(d: nat) -> char {
    if d == 0 { '0' }
    else if d == 1 { '1' }
    else if d == 2 { '2' }
    else if d == 3 { '3' }
    else if d == 4 { '4' }
    else if d == 5 { '5' }
    else if d == 6 { '6' }
    else if d == 7 { '7' }
    else if d == 8 { '8' }
    else { '9' }
}

/// The decimal digits of `n`, most significant first, without leading zeros.
pub open spec fn decimal(n: nat) -> Seq<char>
    decreases n,
{
    if n < 10 {
        seq![digit_char(n)]
    } else {
        decimal(n / 10).push(digit_char(n % 10))
    }
}

/// `i` in decimal, with a leading `-` when it is negative.
pub open spec fn signed_decimal(i: int) -> Seq<char> {
    if i < 0 {
        seq!['-'] + decimal((-i) as nat)
    } else {
        decimal(i as nat)
    }
}

/// Whether `c` can occur in [`signed_decimal`]: a digit or a minus sign.
pub open spec fn numeric(c: char) -> bool {
    c == '-' || c == '0' || c == '1' || c == '2' || c == '3' || c == '4' || c == '5' || c == '6'
        || c == '7' || c == '8' || c == '9'
}

/// Whether `c` is a digit.
pub open spec fn is_digit(c: char) -> bool {
    numeric(c) && c != '-'
}

/// The decimal digits of `n` are digits, and there is at least one; a number
/// of two digits or more has two or more.
pub proof fn lemma_decimal_digits(n: nat)
    ensures
        decimal(n).len() >= 1,
        n >= 10 ==> decimal(n).len() >= 2,
        forall|i: int| 0 <= i < decimal(n).len() ==> #[trigger] is_digit(decimal(n)[i]),
        forall|i: int| 0 <= i < decimal(n).len() ==> #[trigger] numeric(decimal(n)[i]),
    decreases n,
{
    if n >= 10 {
        lemma_decimal_digits(n / 10);
    }
    assert forall|i: int| 0 <= i < decimal(n).len() implies #[trigger] numeric(decimal(n)[i]) by {
        assert(is_digit(decimal(n)[i]));
    }
}

proof fn lemma_digit_char_injective(d: nat, e: nat)
    requires
        d < 10,
        e < 10,
        digit_char(d) == digit_char(e),
    ensures
        d == e,
{
}

/// Distinct numbers have distinct decimal digits.
pub proof fn lemma_decimal_injective(n: nat, m: nat)
    requires
        decimal(n) == decimal(m),
    ensures
        n == m,
    decreases n,
{
    lemma_decimal_digits(n);
    lemma_decimal_digits(m);
    let (a, b) = (decimal(n), decimal(m));
    if n >= 10 && m >= 10 {
        assert(a.last() == b.last());
        lemma_digit_char_injective(n % 10, m % 10);
        assert(a.drop_last() =~= decimal(n / 10));
        assert(b.drop_last() =~= decimal(m / 10));
        lemma_decimal_injective(n / 10, m / 10);
    } else if n < 10 && m < 10 {
        assert(a[0] == b[0]);
        lemma_digit_char_injective(n, m);
    }
}

/// The characters of a signed decimal are numeric, and there is at least one.
pub proof fn lemma_signed_decimal_numeric(i: int)
    ensures
        signed_decimal(i).len() >= 1,
        forall|k: int| 0 <= k < signed_decimal(i).len() ==> #[trigger] numeric(signed_decimal(i)[k]),
{
    if i < 0 {
        lemma_decimal_digits((-i) as nat);
        let s = signed_decimal(i);
        assert forall|k: int| 0 <= k < s.len() implies #[trigger] numeric(s[k]) by {
            if k > 0 {
                assert(s[k] == decimal((-i) as nat)[k - 1]);
                assert(is_digit(decimal((-i) as nat)[k - 1]));
            }
        }
    } else {
        lemma_decimal_digits(i as nat);
        let s = signed_decimal(i);
        assert forall|k: int| 0 <= k < s.len() implies #[trigger] numeric(s[k]) by {
            assert(is_digit(s[k]));
        }
    }
}

/// Distinct integers have distinct signed decimals.
pub proof fn lemma_signed_decimal_injective(i: int, j: int)
    requires
        signed_decimal(i) == signed_decimal(j),
    ensures
        i == j,
{
    lemma_decimal_digits((-i) as nat);
    lemma_decimal_digits((-j) as nat);
    lemma_decimal_digits(i as nat);
    lemma_decimal_digits(j as nat);
    let (s, t) = (signed_decimal(i), signed_decimal(j));
    if i < 0 && j < 0 {
        assert(s.drop_first() =~= decimal((-i) as nat));
        assert(t.drop_first() =~= decimal((-j) as nat));
        lemma_decimal_injective((-i) as nat, (-j) as nat);
    } else if i < 0 {
        assert(s[0] == '-');
        assert(is_digit(t[0]));
    } else if j < 0 {
        assert(t[0] == '-');
        assert(is_digit(s[0]));
    } else {
        lemma_decimal_injective(i as nat, j as nat);
    }
}

fn digit_str(d: u64) -> (r: &'static str)
    requires
        d < 10,
    ensures
        r@ == seq![digit_char(d as nat)],
{
    proof {
        reveal_strlit("0");
        reveal_strlit("1");
        reveal_strlit("2");
        reveal_strlit("3");
        reveal_strlit("4");
        reveal_strlit("5");
        reveal_strlit("6");
        reveal_strlit("7");
        reveal_strlit("8");
        reveal_strlit("9");
    }
    if d == 0 { "0" }
    else if d == 1 { "1" }
    else if d == 2 { "2" }
    else if d == 3 { "3" }
    else if d == 4 { "4" }
    else if d == 5 { "5" }
    else if d == 6 { "6" }
    else if d == 7 { "7" }
    else if d == 8 { "8" }
    else { "9" }
}

/// Appends the decimal digits of `n` to `s`.
pub fn push_decimal(s: &mut String, n: u64)
    ensures
        final(s)@ == old(s)@ + decimal(n as nat),
    decreases n,
{
    if n >= 10 {
        push_decimal(s, n / 10);
    }
    s.append(digit_str(n % 10));
    assert(s@ =~= old(s)@ + decimal(n as nat));
}

/// Appends `i` in decimal to `s`, with a leading `-` when it is negative.
pub fn push_signed_decimal(s: &mut String, i: i64)
    ensures
        final(s)@ == old(s)@ + signed_decimal(i as int),
{
    if i < 0 {
        proof {
            reveal_strlit("-");
        }
        s.append("-");
        let magnitude: u64 = if i == i64::MIN { 9223372036854775808u64 } else { (-i) as u64 };
        push_decimal(s, magnitude);
        assert(s@ =~= old(s)@ + signed_decimal(i as int));
    } else {
        push_decimal(s, i as u64);
    }
}

} // verus!
