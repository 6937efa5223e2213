//! Plain decimal rendering of the numeric protocol fields, with a proof
//! that rendering and re-parsing a count are inverses.

use vstd::prelude::*;
use vstd::string::StringExecFns;

verus! {

/// The character for one decimal digit.
pub open spec fn digit_char(d: nat) -> char {
    if d == 0 {
        '0'
    } else if d == 1 {
        '1'
    } else if d == 2 {
        '2'
    } else if d == 3 {
        '3'
    } else if d == 4 {
        '4'
    } else if d == 5 {
        '5'
    } else if d == 6 {
        '6'
    } else if d == 7 {
        '7'
    } else if d == 8 {
        '8'
    } else {
        '9'
    }
}

/// Whether a character is a decimal digit.
pub open spec fn is_digit_char(c: char) -> bool {
    c == '0' || c == '1' || c == '2' || c == '3' || c == '4' || c == '5' || c == '6' || c == '7'
        || c == '8' || c == '9'
}

/// The numeric value of one decimal digit character.
pub open spec fn digit_val(c: char) -> nat {
    if c == '0' {
        0
    } else if c == '1' {
        1
    } else if c == '2' {
        2
    } else if c == '3' {
        3
    } else if c == '4' {
        4
    } else if c == '5' {
        5
    } else if c == '6' {
        6
    } else if c == '7' {
        7
    } else if c == '8' {
        8
    } else {
        9
    }
}

/// The plain decimal rendering of a natural number: no sign, no leading
/// zeros (except for zero itself), no separators.
pub open spec fn dec_of_nat(n: nat) -> Seq<char>
    decreases n,
{
    if n < 10 {
        seq![digit_char(n)]
    } else {
        dec_of_nat(n / 10).push(digit_char(n % 10))
    }
}

/// The plain decimal rendering of a signed integer: a leading `-` for
/// negative values, then the digits of the absolute value.
pub open spec fn dec_of_int(i: int) -> Seq<char> {
    if i < 0 {
        seq!['-'] + dec_of_nat((-i) as nat)
    } else {
        dec_of_nat(i as nat)
    }
}

/// The number a sequence of decimal digit characters denotes.
pub open spec fn parse_dec(s: Seq<char>) -> nat
    decreases s.len(),
{
    if s.len() == 0 {
        0
    } else {
        parse_dec(s.drop_last()) * 10 + digit_val(s.last())
    }
}

/// Every character of a decimal rendering is a digit.
pub proof fn lemma_dec_all_digits(n: nat)
    ensures
        forall|i: int|
            0 <= i < dec_of_nat(n).len() ==> is_digit_char(#[trigger] dec_of_nat(n)[i]),
    decreases n,
{
    if n < 10 {
        assert(dec_of_nat(n) == seq![digit_char(n)]);
    } else {
        lemma_dec_all_digits(n / 10);
        let s = dec_of_nat(n / 10);
        assert(dec_of_nat(n) == s.push(digit_char(n % 10)));
        assert forall|i: int| 0 <= i < dec_of_nat(n).len() implies is_digit_char(
            #[trigger] dec_of_nat(n)[i],
        ) by {
            if i < s.len() {
                assert(dec_of_nat(n)[i] == s[i]);
            } else {
                assert(dec_of_nat(n)[i] == digit_char(n % 10));
            }
        }
    }
}

/// Rendering a natural number in decimal and parsing the digits back
/// returns the same number.
pub proof fn lemma_dec_round_trip(n: nat)
    ensures
        parse_dec(dec_of_nat(n)) == n,
    decreases n,
{
    if n < 10 {
        let s = dec_of_nat(n);
        assert(s == seq![digit_char(n)]);
        assert(s.last() == digit_char(n));
        assert(s.drop_last() =~= Seq::<char>::empty());
        assert(parse_dec(Seq::<char>::empty()) == 0);
        assert(digit_val(digit_char(n)) == n);
    } else {
        lemma_dec_round_trip(n / 10);
        let s = dec_of_nat(n / 10);
        let d = digit_char(n % 10);
        assert(dec_of_nat(n) == s.push(d));
        assert(s.push(d).drop_last() =~= s);
        assert(s.push(d).last() == d);
        assert(parse_dec(s.push(d)) == parse_dec(s) * 10 + digit_val(d));
        assert(digit_val(d) == n % 10);
        vstd::arithmetic::div_mod::lemma_fundamental_div_mod(n as int, 10);
    }
}

/// The character for one digit value.
fn digit_str(d: u64) -> (r: &'static str)
    requires
        d < 10,
    ensures
        r@ == seq![digit_char(d as nat)],
{
    let r: &'static str = if d == 0 {
        "0"
    } else if d == 1 {
        "1"
    } else if d == 2 {
        "2"
    } else if d == 3 {
        "3"
    } else if d == 4 {
        "4"
    } else if d == 5 {
        "5"
    } else if d == 6 {
        "6"
    } else if d == 7 {
        "7"
    } else if d == 8 {
        "8"
    } else {
        "9"
    };
    proof {
        reveal_strlit("0");
        reveal_strlit("1");
        reveal_strlit("2");
        reveal_strlit("3");
        reveal_strlit("4");
        reveal_strlit("5");
        reveal_strlit("6");
        reveal_strlit("7");
        reveal_strlit("8");
        reveal_strlit("9");
        assert(r@ =~= seq![digit_char(d as nat)]);
    }
    r
}

/// Renders an unsigned number as plain decimal digits.
pub fn dec_string_u64(n: u64) -> (r: String)
    ensures
        r@ == dec_of_nat(n as nat),
    decreases n,
{
    if n < 10 {
        digit_str(n).to_owned()
    } else {
        let mut r = dec_string_u64(n / 10);
        r.append(digit_str(n % 10));
        proof {
            assert(r@ =~= dec_of_nat(n as nat));
        }
        r
    }
}

/// Renders a signed number as plain decimal, with a leading `-` when
/// negative.
pub fn dec_string_i32(n: i32) -> (r: String)
    ensures
        r@ == dec_of_int(n as int),
{
    if n < 0 {
        let m: u64 = (-(n as i64)) as u64;
        let mut r = String::from_str("-");
        let digits = dec_string_u64(m);
        r.append(digits.as_str());
        proof {
            reveal_strlit("-");
            assert(r@ =~= dec_of_int(n as int));
        }
        r
    } else {
        dec_string_u64(n as u64)
    }
}

} // verus!
