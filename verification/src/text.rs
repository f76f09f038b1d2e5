use vstd::prelude::*;

verus! {

/// The character of the decimal digit `d`.
pub open spec fn digit(d: nat) -> char {
    if d == 0 { '0' }
    else if d == 1 { '1' }
    else if d == 2 { '2' }
    else if d == 3 { '3' }
    else if d == 4 { '4' }
    else if d == 5 { '5' }
    else if d == 6 { '6' }
    else if d == 7 { '7' }
    else if d == 8 { '8' }
    else { '9' }
}

/// The decimal digits of `n`, without leading zeros.
pub open spec fn decimal(n: nat) -> Seq<char>
    decreases n,
{
    if n < 10 {
        seq![digit(n)]
    } else {
        decimal(n / 10).push(digit(n % 10))
    }
}

/// `s` with `c` put before it as many times as it takes to make it `width` long.
pub open spec fn pad_left(s: Seq<char>, c: char, width: nat) -> Seq<char> {
    if s.len() >= width {
        s
    } else {
        Seq::new((width - s.len()) as nat, |i: int| c) + s
    }
}

/// `s` with spaces put after it as many times as it takes to make it `width` long.
pub open spec fn pad_right(s: Seq<char>, width: nat) -> Seq<char> {
    if s.len() >= width {
        s
    } else {
        s + Seq::new((width - s.len()) as nat, |i: int| ' ')
    }
}

/// The decimal digits of `n`, with zeros before them to make at least `width` digits.
pub open spec fn zero_padded(n: nat, width: nat) -> Seq<char> {
    pad_left(decimal(n), '0', width)
}

/// The number that a text of decimal digits stands for, read from the left.
pub open spec fn decimal_value(s: Seq<char>) -> int
    decreases s.len(),
{
    if s.len() == 0 {
        0
    } else {
        decimal_value(s.drop_last()) * 10 + ((s.last() as int) - ('0' as int))
    }
}

/// A digit character stands for its digit.
proof fn lemma_digit_value(d: nat)
    requires
        d < 10,
    ensures
        (digit(d) as int) - ('0' as int) == d,
        '0' <= digit(d) <= '9',
{
    assert(('0' as int) == 48);
    if d == 0 {}
    else if d == 1 { assert(('1' as int) == 49); }
    else if d == 2 { assert(('2' as int) == 50); }
    else if d == 3 { assert(('3' as int) == 51); }
    else if d == 4 { assert(('4' as int) == 52); }
    else if d == 5 { assert(('5' as int) == 53); }
    else if d == 6 { assert(('6' as int) == 54); }
    else if d == 7 { assert(('7' as int) == 55); }
    else if d == 8 { assert(('8' as int) == 56); }
    else { assert(('9' as int) == 57); }
}

/// Reading back the decimal digits of `n` gives `n`: every character is a digit, and their
/// value is `n`.
pub proof fn law_decimal_reads_back(n: nat)
    ensures
        decimal_value(decimal(n)) == n,
        forall|i: int| 0 <= i < decimal(n).len() ==> '0' <= #[trigger] decimal(n)[i] <= '9',
    decreases n,
{
    if n < 10 {
        assert(decimal(n).drop_last().len() == 0);
        assert(decimal(n).last() == digit(n));
        lemma_digit_value(n);
        assert(decimal_value(decimal(n).drop_last()) == 0);
    } else {
        law_decimal_reads_back(n / 10);
        let d = decimal(n);
        assert(d.drop_last() =~= decimal(n / 10));
        assert(d.last() == digit(n % 10));
        lemma_digit_value(n % 10);
        assert((n / 10) * 10 + n % 10 == n);
    }
}

/// `String::push`: puts `c` at the end of `s`.
#[verifier::external_body]
pub(crate) fn push_char(s: &mut String, c: char)
    ensures
        final(s)@ == old(s)@.push(c),
{
    s.push(c)
}

} // verus!
