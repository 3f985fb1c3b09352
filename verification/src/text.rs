//! Decimal and boolean text, as the standard library's `Display` writes it.

use vstd::prelude::*;

verus! {

/// The ASCII digit for `d`, where `0 <= d < 10`.
pub open spec fn digit_char(d: int) -> char {
    if d == 0 { '0' }
    else if d == 1 { '1' }
    else if d == 2 { '2' }
    else if d == 3 { '3' }
    else if d == 4 { '4' }
    else if d == 5 { '5' }
    else if d == 6 { '6' }
    else if d == 7 { '7' }
    else if d == 8 { '8' }
    else { '9' }
}

/// Decimal digits of a natural number, most significant first, no leading zeros.
pub open spec fn nat_text(n: nat) -> Seq<char>
    decreases n,
{
    if n < 10 {
        seq![digit_char(n as int)]
    } else {
        nat_text(n / 10).push(digit_char((n % 10) as int))
    }
}

/// Decimal text of an integer: a leading `-` for negative values.
pub open spec fn int_text(n: int) -> Seq<char> {
    if n < 0 {
        seq!['-'] + nat_text((-n) as nat)
    } else {
        nat_text(n as nat)
    }
}

/// `true` or `false`.
pub open spec fn bool_text(b: bool) -> Seq<char> {
    if b { "true"@ } else { "false"@ }
}

/// Whether `c` is an ASCII decimal digit.
pub open spec fn is_digit(c: char) -> bool {
    '0' as int <= c as int <= '9' as int
}

/// The number an ASCII digit stands for.
pub open spec fn digit_value(c: char) -> int {
    c as int - '0' as int
}

/// The number a string of decimal digits stands for, most significant first.
pub open spec fn digits_value(s: Seq<char>) -> int
    decreases s.len(),
{
    if s.len() == 0 {
        0
    } else {
        digits_value(s.drop_last()) * 10 + digit_value(s.last())
    }
}

proof fn lemma_digit_char(d: int)
    requires
        0 <= d < 10,
    ensures
        is_digit(digit_char(d)),
        digit_value(digit_char(d)) == d,
{
}

/// The decimal text of a natural number is a non-empty string of digits that
/// stands for that number, with no leading zero.
pub proof fn lemma_nat_text(n: nat)
    ensures
        nat_text(n).len() > 0,
        forall|i: int| 0 <= i < nat_text(n).len() ==> is_digit(#[trigger] nat_text(n)[i]),
        digits_value(nat_text(n)) == n,
        nat_text(n)[0] == '0' ==> n == 0 && nat_text(n).len() == 1,
    decreases n,
{
    if n < 10 {
        lemma_digit_char(n as int);
        let t = nat_text(n);
        assert(t.drop_last() =~= Seq::<char>::empty());
        assert(t.last() == t[0]);
        assert(digits_value(t.drop_last()) == 0);
        assert(digits_value(t) == digits_value(t.drop_last()) * 10 + digit_value(t.last()));
    } else {
        let q = (n / 10) as nat;
        let r = (n % 10) as int;
        lemma_nat_text(q);
        lemma_digit_char(r);
        let t = nat_text(n);
        assert(t == nat_text(q).push(digit_char(r)));
        assert(t.drop_last() =~= nat_text(q));
        assert(q * 10 + r == n);
        assert(t.last() == digit_char(r));
        assert(digits_value(t) == digits_value(nat_text(q)) * 10 + digit_value(digit_char(r)));
        assert(t[0] == nat_text(q)[0]);
        assert(q != 0);
    }
}

/// The decimal text of an integer: a negative number is `-` followed by the
/// digits of its magnitude; any other is its digits alone.
pub proof fn lemma_int_text(n: int)
    ensures
        n < 0 ==> int_text(n)[0] == '-' && int_text(n).drop_first() == nat_text((-n) as nat),
        n >= 0 ==> int_text(n) == nat_text(n as nat),
        n < 0 ==> digits_value(int_text(n).drop_first()) == -n,
        n >= 0 ==> digits_value(int_text(n)) == n && is_digit(int_text(n)[0]),
{
    if n < 0 {
        lemma_nat_text((-n) as nat);
        assert(int_text(n).drop_first() =~= nat_text((-n) as nat));
    } else {
        lemma_nat_text(n as nat);
    }
}

/// `t` is the canonical decimal text of `n`: an optional `-` exactly when `n`
/// is negative, then digits that stand for the magnitude of `n`, without a
/// leading zero.
pub open spec fn is_decimal_text_of(t: Seq<char>, n: int) -> bool {
    let digits = if n < 0 { t.drop_first() } else { t };
    &&& n < 0 ==> t.len() > 0 && t[0] == '-'
    &&& digits.len() > 0
    &&& forall|i: int| 0 <= i < digits.len() ==> is_digit(#[trigger] digits[i])
    &&& digits_value(digits) == if n < 0 { -n } else { n }
    &&& digits[0] == '0' ==> digits.len() == 1
}

/// `int_text` writes every integer as its canonical decimal text.
pub proof fn lemma_int_text_is_decimal(n: int)
    ensures
        is_decimal_text_of(int_text(n), n),
{
    lemma_int_text(n);
    if n < 0 {
        lemma_nat_text((-n) as nat);
    } else {
        lemma_nat_text(n as nat);
    }
}

/// A value written after a name: the name comes first, then the decimal
/// text of the value.
pub proof fn lemma_named_decimal(name: Seq<char>, n: int)
    ensures
        (name + int_text(n)).subrange(0, name.len() as int) == name,
        is_decimal_text_of((name + int_text(n)).skip(name.len() as int), n),
{
    lemma_int_text_is_decimal(n);
    assert((name + int_text(n)).subrange(0, name.len() as int) =~= name);
    assert((name + int_text(n)).skip(name.len() as int) =~= int_text(n));
}

fn push_digit(s: &mut String, d: u64)
    requires
        d < 10,
    ensures
        final(s)@ == old(s)@.push(digit_char(d as int)),
{
    let lit = match d {
        0 => "0",
        1 => "1",
        2 => "2",
        3 => "3",
        4 => "4",
        5 => "5",
        6 => "6",
        7 => "7",
        8 => "8",
        _ => "9",
    };
    proof {
        reveal_strlit("0");
        reveal_strlit("1");
        reveal_strlit("2");
        reveal_strlit("3");
        reveal_strlit("4");
        reveal_strlit("5");
        reveal_strlit("6");
        reveal_strlit("7");
        reveal_strlit("8");
        reveal_strlit("9");
    }
    s.append(lit);
}

/// Appends the decimal digits of `n`.
pub fn push_nat_text(s: &mut String, n: u64)
    ensures
        final(s)@ == old(s)@ + nat_text(n as nat),
    decreases n,
{
    if n >= 10 {
        push_nat_text(s, n / 10);
    }
    push_digit(s, n % 10);
    assert(final(s)@ =~= old(s)@ + nat_text(n as nat));
}

/// Appends the decimal text of `n`, with a leading `-` when it is negative.
pub fn push_int_text(s: &mut String, n: i64)
    ensures
        final(s)@ == old(s)@ + int_text(n as int),
{
    if n < 0 {
        proof {
            reveal_strlit("-");
        }
        s.append("-");
        let m: u64 = (0i128 - n as i128) as u64;
        push_nat_text(s, m);
        assert(final(s)@ =~= old(s)@ + int_text(n as int));
    } else {
        push_nat_text(s, n as u64);
    }
}

/// Appends `true` or `false`.
pub fn push_bool_text(s: &mut String, b: bool)
    ensures
        final(s)@ == old(s)@ + bool_text(b),
{
    if b {
        s.append("true");
    } else {
        s.append("false");
    }
}

} // verus!
