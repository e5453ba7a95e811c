//! Decimal numerals.

use vstd::prelude::*;
use vstd::string::*;

verus! {

/// The numeral of one digit.
pub open spec fn digit(d: nat) -> char
    recommends
        d < 10,
{
    (0x30 + d) as char
}

/// The decimal numeral of a natural number.
pub open spec fn decimal(n: nat) -> Seq<char>
    decreases n,
{
    if n < 10 {
        seq![digit(n)]
    } else {
        decimal(n / 10).push(digit(n % 10))
    }
}

/// The decimal numeral of an integer, with a minus sign where it is negative.
pub open spec fn signed_decimal(i: int) -> Seq<char> {
    if i < 0 {
        seq!['-'] + decimal((-i) as nat)
    } else {
        decimal(i as nat)
    }
}

/// Appends the decimal numeral of `n`.
pub fn push_decimal(out: &mut String, n: u64)
    ensures
        final(out)@ == old(out)@ + decimal(n as nat),
    decreases n,
{
    if n >= 10 {
        push_decimal(out, n / 10);
    }
    let d: u8 = (n % 10) as u8;
    out.push((0x30 + d) as char);
    assert(out@ =~= old(out)@ + decimal(n as nat));
}

/// Appends the decimal numeral of `i`.
pub fn push_signed_decimal(out: &mut String, i: i32)
    ensures
        final(out)@ == old(out)@ + signed_decimal(i as int),
{
    if i < 0 {
        out.push('-');
        let size: u64 = (-(i as i64)) as u64;
        push_decimal(out, size);
        assert(out@ =~= old(out)@ + signed_decimal(i as int));
    } else {
        push_decimal(out, i as u64);
    }
}

/// The number that digits spell, the first one being the highest.
pub open spec fn value(digits: Seq<char>) -> int
    decreases digits.len(),
{
    if digits.len() == 0 {
        0
    } else {
        10 * value(digits.drop_last()) + (digits.last() as int - 0x30)
    }
}

/// Whether a numeral has nothing but digits in it, and at least one.
pub open spec fn is_numeral(s: Seq<char>) -> bool {
    s.len() > 0 && forall|i: int| 0 <= i < s.len() ==> '0' <= #[trigger] s[i] <= '9'
}

/// A decimal numeral has nothing but digits in it, which spell the number, and
/// no zero before another digit.
pub proof fn law_numerals_spell_their_number(n: nat)
    ensures
        is_numeral(decimal(n)),
        value(decimal(n)) == n,
        decimal(n).len() > 1 ==> decimal(n)[0] != '0',
    decreases n,
{
    let last = digit(n % 10);
    assert(last as int == 0x30 + n % 10);
    if n < 10 {
        assert(decimal(n).drop_last() =~= Seq::empty());
        assert(value(Seq::<char>::empty()) == 0);
        assert(decimal(n).last() == last);
    } else {
        let front = decimal(n / 10);
        law_numerals_spell_their_number(n / 10);
        assert(decimal(n).drop_last() =~= front);
        assert(decimal(n).last() == last);
        assert(decimal(n)[0] == front[0]);
        if front.len() == 1 {
            assert(front.drop_last() =~= Seq::empty());
            assert(value(Seq::<char>::empty()) == 0);
            assert(front.last() == front[0]);
        }
        assert forall|i: int| 0 <= i < decimal(n).len() implies '0' <= #[trigger] decimal(n)[i]
            <= '9' by {
            if i < front.len() {
                assert(decimal(n)[i] == front[i]);
            }
        }
    }
}

/// The numeral of a negative integer is a minus sign and the numeral of its
/// size; that of any other has no sign.
pub proof fn law_signs_stand_before_negative_numerals(i: int)
    ensures
        i >= 0 ==> is_numeral(signed_decimal(i)) && value(signed_decimal(i)) == i && (
        signed_decimal(i).len() > 1 ==> signed_decimal(i)[0] != '0'),
        i < 0 ==> {
            let size = signed_decimal(i).skip(1);
            &&& signed_decimal(i).len() > 1
            &&& signed_decimal(i)[0] == '-'
            &&& is_numeral(size)
            &&& value(size) == -i
            &&& size[0] != '0'
        },
{
    if i >= 0 {
        law_numerals_spell_their_number(i as nat);
    } else {
        let size = decimal((-i) as nat);
        law_numerals_spell_their_number((-i) as nat);
        assert(signed_decimal(i).skip(1) =~= size);
        if size.len() == 1 {
            assert(size.drop_last() =~= Seq::empty());
            assert(value(Seq::<char>::empty()) == 0);
            assert(size.last() == size[0]);
        }
    }
}

} // verus!
