//! Decimal numerals and string building.

use vstd::prelude::*;
use vstd::string::StringExecFns;

verus! {

/// The character of the decimal digit `d`.
pub open spec fn digit_char(d: int) -> char {
    (d + 48) as char
}

/// The decimal numeral of `n`, without leading zeros.
pub open spec fn nat_text(n: nat) -> Seq<char>
    decreases n,
{
    if n < 10 {
        seq![digit_char(n as int)]
    } else {
        nat_text(n / 10).push(digit_char((n % 10) as int))
    }
}

/// The decimal numeral of `i`, with a leading minus sign if it is negative.
pub open spec fn int_text(i: int) -> Seq<char> {
    if i < 0 {
        seq!['-'] + nat_text((-i) as nat)
    } else {
        nat_text(i as nat)
    }
}

fn digit_str(d: u64) -> (r: &'static str)
    requires
        d < 10,
    ensures
        r@ == seq![digit_char(d as int)],
{
    proof {
        reveal_strlit("0");
        reveal_strlit("1");
        reveal_strlit("2");
        reveal_strlit("3");
        reveal_strlit("4");
        reveal_strlit("5");
        reveal_strlit("6");
        reveal_strlit("7");
        reveal_strlit("8");
        reveal_strlit("9");
    }
    match d {
        0 => "0",
        1 => "1",
        2 => "2",
        3 => "3",
        4 => "4",
        5 => "5",
        6 => "6",
        7 => "7",
        8 => "8",
        _ => "9",
    }
}

fn push_u64(out: &mut String, n: u64)
    ensures
        final(out)@ == old(out)@ + nat_text(n as nat),
    decreases n,
{
    if n >= 10 {
        push_u64(out, n / 10);
    }
    out.append(digit_str(n % 10));
}

/// Appends the decimal numeral of `n` to `out`.
pub fn push_i64(out: &mut String, n: i64)
    ensures
        final(out)@ == old(out)@ + int_text(n as int),
{
    if n < 0 {
        proof {
            reveal_strlit("-");
        }
        out.append("-");
        let magnitude: u64 = (-(n as i128)) as u64;
        push_u64(out, magnitude);
    } else {
        push_u64(out, n as u64);
    }
}

/// The number that a sequence of decimal digits is the numeral of.
pub open spec fn numeral_value(text: Seq<char>) -> int
    decreases text.len(),
{
    if text.len() == 0 {
        0
    } else {
        10 * numeral_value(text.drop_last()) + (text.last() as int - '0' as int)
    }
}

/// A numeral reads back as the number that it is of. It is made of decimal
/// digits, and does not start with a zero unless it is zero.
pub proof fn law_numerals_read_back(n: nat)
    ensures
        numeral_value(nat_text(n)) == n,
        nat_text(n).len() > 0,
        forall|i: int| 0 <= i < nat_text(n).len() ==> '0' <= #[trigger] nat_text(n)[i] <= '9',
        n > 0 ==> nat_text(n)[0] != '0',
        n == 0 ==> nat_text(n).len() == 1,
    decreases n,
{
    reveal_with_fuel(numeral_value, 2);
    let text = nat_text(n);
    if n >= 10 {
        law_numerals_read_back(n / 10);
        assert(text.drop_last() =~= nat_text(n / 10));
        assert(text.last() == digit_char((n % 10) as int));
        assert forall|i: int| 0 <= i < text.len() implies '0' <= #[trigger] text[i] <= '9' by {
            if i < text.len() - 1 {
                assert(text[i] == nat_text(n / 10)[i]);
            }
        }
    } else {
        assert(text.drop_last() =~= seq![]);
    }
}

/// A numeral starts with a minus sign exactly if the number is negative, and
/// goes on with the numeral of the number without its sign.
pub proof fn law_signed_numerals_read_back(i: int)
    ensures
        i >= 0 ==> numeral_value(int_text(i)) == i && '0' <= int_text(i)[0] <= '9',
        i < 0 ==> int_text(i)[0] == '-' && numeral_value(int_text(i).skip(1)) == -i
            && int_text(i)[1] != '0',
        forall|k: int| 1 <= k < int_text(i).len() ==> '0' <= #[trigger] int_text(i)[k] <= '9',
{
    if i < 0 {
        law_numerals_read_back((-i) as nat);
        assert(int_text(i).skip(1) =~= nat_text((-i) as nat));
        assert(int_text(i)[1] == nat_text((-i) as nat)[0]);
    } else {
        law_numerals_read_back(i as nat);
    }
}

/// Different numbers have different numerals.
pub proof fn law_numerals_are_distinct(a: int, b: int)
    requires
        int_text(a) == int_text(b),
    ensures
        a == b,
{
    law_signed_numerals_read_back(a);
    law_signed_numerals_read_back(b);
}

} // verus!
