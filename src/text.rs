use vstd::prelude::*;

verus! {

/// The character of a decimal digit.
pub open spec fn digit_char(d: int) -> char {
    if d == 0 {
        '0'
    } else if d == 1 {
        '1'
    } else if d == 2 {
        '2'
    } else if d == 3 {
        '3'
    } else if d == 4 {
        '4'
    } else if d == 5 {
        '5'
    } else if d == 6 {
        '6'
    } else if d == 7 {
        '7'
    } else if d == 8 {
        '8'
    } else {
        '9'
    }
}

/// The decimal notation of a natural number, without leading zeros.
pub open spec fn decimal(v: nat) -> Seq<char>
    decreases v,
{
    if v < 10 {
        seq![digit_char(v as int)]
    } else {
        decimal(v / 10).push(digit_char((v % 10) as int))
    }
}

/// A number of hundredths written with two decimal places: `12345` is
/// `123.45`.
pub open spec fn fixed2(v: nat) -> Seq<char> {
    decimal(v / 100) + seq!['.', digit_char(((v / 10) % 10) as int), digit_char((v % 10) as int)]
}

/// Relies on std's `String::push`: appends one character.
#[verifier::external_body]
fn push_char(out: &mut String, c: char)
    ensures
        final(out)@ == old(out)@.push(c),
{
    out.push(c)
}

fn digit(d: u128) -> (c: char)
    requires
        d < 10,
    ensures
        c == digit_char(d as int),
{
    if d == 0 {
        '0'
    } else if d == 1 {
        '1'
    } else if d == 2 {
        '2'
    } else if d == 3 {
        '3'
    } else if d == 4 {
        '4'
    } else if d == 5 {
        '5'
    } else if d == 6 {
        '6'
    } else if d == 7 {
        '7'
    } else if d == 8 {
        '8'
    } else {
        '9'
    }
}

/// Appends the decimal notation of `v`.
pub fn push_decimal(out: &mut String, v: u128)
    ensures
        final(out)@ == old(out)@ + decimal(v as nat),
    decreases v,
{
    if v >= 10 {
        push_decimal(out, v / 10);
    }
    push_char(out, digit(v % 10));
    proof {
        if v < 10 {
            assert(v % 10 == v);
        }
        assert(final(out)@ == old(out)@ + decimal(v as nat));
    }
}

/// Appends `v` hundredths written with two decimal places.
pub fn push_fixed2(out: &mut String, v: u128)
    ensures
        final(out)@ == old(out)@ + fixed2(v as nat),
{
    push_decimal(out, v / 100);
    push_char(out, '.');
    push_char(out, digit((v / 10) % 10));
    push_char(out, digit(v % 10));
    assert(final(out)@ == old(out)@ + fixed2(v as nat));
}

} // verus!
