use vstd::prelude::*;

verus! {

/// The ASCII digit character for `d` (which is below ten).
pub open spec fn digit_char(d: nat) -> char {
    (d + 48) as char
}

/// The decimal representation of `n`, most significant digit first,
/// without leading zeros (zero itself is `"0"`).
pub open spec fn decimal(n: nat) -> Seq<char>
    decreases n,
{
    if n < 10 {
        seq![digit_char(n)]
    } else {
        decimal(n / 10).push(digit_char(n % 10))
    }
}

/// The value of a decimal digit character.
pub open spec fn digit_value(c: char) -> int {
    c as int - 48
}

/// `c` is one of `0` to `9`.
pub open spec fn is_decimal_digit(c: char) -> bool {
    48 <= c as int <= 57
}

/// The number that a string of decimal digits denotes, most significant
/// digit first.
pub open spec fn numeral_value(s: Seq<char>) -> int
    decreases s.len(),
{
    if s.len() == 0 {
        0
    } else {
        numeral_value(s.drop_last()) * 10 + digit_value(s.last())
    }
}

/// `decimal(n)` is the base-ten numeral of `n`: a non-empty string of
/// decimal digits that reads back as `n`, with no leading zero unless `n`
/// is zero itself, which is written `0`.
pub proof fn lemma_decimal_is_numeral(n: nat)
    ensures
        decimal(n).len() > 0,
        forall|i: int| 0 <= i < decimal(n).len() ==> is_decimal_digit(#[trigger] decimal(n)[i]),
        numeral_value(decimal(n)) == n,
        n > 0 ==> decimal(n)[0] != '0',
        n == 0 ==> decimal(n) == seq!['0'],
    decreases n,
{
    if n < 10 {
        assert(((n + 48) as char) as int == n + 48);
        assert(numeral_value(decimal(n)) == numeral_value(decimal(n).drop_last()) * 10 + digit_value(
            decimal(n).last(),
        ));
        assert(decimal(n).drop_last() =~= Seq::<char>::empty());
    } else {
        let q = n / 10;
        let d = n % 10;
        lemma_decimal_is_numeral(q);
        assert(((d + 48) as char) as int == d + 48);
        assert(decimal(n).drop_last() =~= decimal(q));
        assert(q * 10 + d == n);
        assert forall|i: int| 0 <= i < decimal(n).len() implies is_decimal_digit(#[trigger] decimal(n)[i]) by {
            if i < decimal(q).len() {
                assert(decimal(n)[i] == decimal(q)[i]);
            }
        }
        assert(decimal(n)[0] == decimal(q)[0]);
    }
}

/// Appending a digit to a positive number's numeral gives the numeral of
/// ten times that number plus the digit.
pub proof fn lemma_decimal_append_digit(q: nat, d: nat)
    requires
        q > 0,
        d < 10,
    ensures
        decimal(10 * q + d) == decimal(q).push(digit_char(d)),
{
    let n = 10 * q + d;
    assert(n / 10 == q && n % 10 == d) by (nonlinear_arith)
        requires
            n == 10 * q + d,
            d < 10,
    ;
}

/// `String::push`: appends one character.
#[verifier::external_body]
pub(crate) fn push_char(s: &mut String, c: char)
    ensures
        final(s)@ == old(s)@.push(c),
{
    s.push(c);
}

/// Appends the decimal representation of `n` to `out`.
pub fn push_decimal(out: &mut String, n: u128)
    ensures
        final(out)@ == old(out)@ + decimal(n as nat),
    decreases n,
{
    if n >= 10 {
        push_decimal(out, n / 10);
    }
    let d: u8 = (n % 10) as u8;
    let c: char = (d + 48u8) as char;
    push_char(out, c);
    assert(old(out)@ + decimal(n as nat) =~= out@);
}

/// What `str::to_lowercase` returns for a string with these characters.
pub uninterp spec fn lowercase(s: Seq<char>) -> Seq<char>;

/// `str::to_lowercase`: the Unicode lowercase mapping of every character.
/// Nothing is claimed of the mapping itself beyond its being a function
/// of the characters, which is named by `lowercase`.
#[verifier::external_body]
pub(crate) fn to_lowercase(s: &str) -> (lower: String)
    ensures
        lower@ == lowercase(s@),
{
    s.to_lowercase()
}

} // verus!
