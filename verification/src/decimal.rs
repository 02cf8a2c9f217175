//! Decimal renderings of unsigned integers, as `to_string`/`format!` write
//! them: no sign, no leading zeros, at least one digit.

use vstd::prelude::*;
use vstd::string::StringExecFns;

verus! {

/// The ASCII digit for `d` (`0 <= d < 10`).
pub open spec fn digit_byte(d: nat) -> u8 {
    (48 + d) as u8
}

/// The decimal digits of `n`, most significant first, as ASCII bytes.
pub open spec fn decimal_bytes(n: nat) -> Seq<u8>
    decreases n,
{
    if n < 10 {
        seq![digit_byte(n)]
    } else {
        decimal_bytes(n / 10) + seq![digit_byte(n % 10)]
    }
}

/// The decimal digits of `n` as text.
pub open spec fn decimal_chars(n: nat) -> Seq<char> {
    decimal_bytes(n).map_values(|b: u8| b as char)
}

/// The one-character string for digit `d`.
fn digit_str(d: u64) -> (r: &'static str)
    requires
        d < 10,
    ensures
        r@ == seq![digit_byte(d as nat) as char],
{
    proof {
        reveal_strlit("0");
        reveal_strlit("1");
        reveal_strlit("2");
        reveal_strlit("3");
        reveal_strlit("4");
        reveal_strlit("5");
        reveal_strlit("6");
        reveal_strlit("7");
        reveal_strlit("8");
        reveal_strlit("9");
    }
    match d {
        0 => "0",
        1 => "1",
        2 => "2",
        3 => "3",
        4 => "4",
        5 => "5",
        6 => "6",
        7 => "7",
        8 => "8",
        _ => "9",
    }
}

/// `n` written out in decimal, as `n.to_string()` does.
pub fn decimal_string(n: u64) -> (r: String)
    ensures
        r@ == decimal_chars(n as nat),
    decreases n,
{
    if n < 10 {
        let mut s = String::new();
        s.append(digit_str(n));
        assert(s@ =~= decimal_chars(n as nat));
        s
    } else {
        let mut s = decimal_string(n / 10);
        s.append(digit_str(n % 10));
        assert(s@ =~= decimal_chars(n as nat));
        s
    }
}

/// Appends `n` written out in decimal to `out`, as ASCII digits.
pub fn push_decimal(out: &mut Vec<u8>, n: u64)
    ensures
        final(out)@ == old(out)@ + decimal_bytes(n as nat),
    decreases n,
{
    if n >= 10 {
        push_decimal(out, n / 10);
    }
    out.push((48 + n % 10) as u8);
    assert(out@ =~= old(out)@ + decimal_bytes(n as nat));
}

} // verus!

verus! {

proof fn lemma_decimal_bytes_len(n: nat)
    ensures
        decimal_bytes(n).len() >= 1,
        n >= 10 ==> decimal_bytes(n).len() >= 2,
    decreases n,
{
    if n >= 10 {
        lemma_decimal_bytes_len(n / 10);
    }
}

proof fn lemma_decimal_bytes_injective(a: nat, b: nat)
    requires
        decimal_bytes(a) == decimal_bytes(b),
    ensures
        a == b,
    decreases a,
{
    lemma_decimal_bytes_len(a);
    lemma_decimal_bytes_len(b);
    if a >= 10 && b >= 10 {
        let (da, db) = (decimal_bytes(a), decimal_bytes(b));
        assert(da.drop_last() =~= decimal_bytes(a / 10));
        assert(db.drop_last() =~= decimal_bytes(b / 10));
        lemma_decimal_bytes_injective(a / 10, b / 10);
        assert(da.last() == digit_byte(a % 10));
        assert(db.last() == digit_byte(b % 10));
        assert(digit_byte(a % 10) == 48 + a % 10);
        assert(digit_byte(b % 10) == 48 + b % 10);
        assert(a == (a / 10) * 10 + a % 10);
        assert(b == (b / 10) * 10 + b % 10);
    } else if a < 10 && b < 10 {
        assert(decimal_bytes(a)[0] == digit_byte(a));
        assert(decimal_bytes(b)[0] == digit_byte(b));
        assert(digit_byte(a) == 48 + a);
        assert(digit_byte(b) == 48 + b);
    }
}

/// Different numbers are written differently.
pub proof fn lemma_decimal_chars_injective(a: nat, b: nat)
    requires
        decimal_chars(a) == decimal_chars(b),
    ensures
        a == b,
{
    let (da, db) = (decimal_bytes(a), decimal_bytes(b));
    assert(da.len() == decimal_chars(a).len());
    assert forall|i: int| 0 <= i < da.len() implies da[i] == db[i] by {
        assert(decimal_chars(a)[i] == da[i] as char);
        assert(decimal_chars(b)[i] == db[i] as char);
        assert((da[i] as char) as u8 == da[i]);
        assert((db[i] as char) as u8 == db[i]);
    }
    assert(da =~= db);
    lemma_decimal_bytes_injective(a, b);
}

proof fn lemma_decimal_bytes_first_digit(n: nat)
    ensures
        decimal_bytes(n).len() >= 1,
        48 <= decimal_bytes(n)[0] <= 57,
    decreases n,
{
    if n >= 10 {
        lemma_decimal_bytes_first_digit(n / 10);
        assert(decimal_bytes(n)[0] == decimal_bytes(n / 10)[0]);
    }
}

/// A number is written starting with a digit, never with a sign or dash,
/// so it can't be mistaken for an option.
pub proof fn lemma_decimal_chars_start_with_digit(n: nat)
    ensures
        decimal_chars(n).len() >= 1,
        decimal_chars(n)[0] != '-',
{
    lemma_decimal_bytes_first_digit(n);
    let b = decimal_bytes(n)[0];
    assert(decimal_chars(n)[0] == b as char);
    assert((b as char) as u8 == b);
    assert(('-' as u8) == 45u8);
}

} // verus!
