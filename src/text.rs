use vstd::prelude::*;

verus! {

/// The decimal digit character for `d`, where `0 <= d < 10`.
pub open spec fn digit_char(d: nat) -> char {
    if d == 0 { '0' }
    else if d == 1 { '1' }
    else if d == 2 { '2' }
    else if d == 3 { '3' }
    else if d == 4 { '4' }
    else if d == 5 { '5' }
    else if d == 6 { '6' }
    else if d == 7 { '7' }
    else if d == 8 { '8' }
    else { '9' }
}

/// The decimal digits of `n`, most significant first, without leading zeros.
pub open spec fn nat_text(n: nat) -> Seq<char>
    decreases n,
{
    if n < 10 {
        seq![digit_char(n)]
    } else {
        nat_text(n / 10) + seq![digit_char(n % 10)]
    }
}

/// The decimal text of `n`, with a leading `-` when it is negative.
pub open spec fn int_text(n: int) -> Seq<char> {
    if n < 0 {
        seq!['-'] + nat_text((-n) as nat)
    } else {
        nat_text(n as nat)
    }
}

/// Relies on std's `format!` with `Display` for `i64`: the prefix followed by the
/// number in decimal, with a `-` sign when negative.
#[verifier::external_body]
pub(crate) fn with_number(prefix: &str, n: i64) -> (r: String)
    ensures
        r@ == prefix@ + int_text(n as int),
{
    format!("{}{}", prefix, n)
}

} // verus!
