use vstd::prelude::*;
use vstd::string::*;

verus! {

/// The character of a decimal digit.
pub open spec fn digit_char(d: nat) -> char {
    if d == 0 { '0' }
    else if d == 1 { '1' }
    else if d == 2 { '2' }
    else if d == 3 { '3' }
    else if d == 4 { '4' }
    else if d == 5 { '5' }
    else if d == 6 { '6' }
    else if d == 7 { '7' }
    else if d == 8 { '8' }
    else { '9' }
}

/// The decimal digits of `n`, most significant first, without leading zeros.
pub open spec fn decimal(n: nat) -> Seq<char>
    decreases n,
{
    if n < 10 {
        seq![digit_char(n)]
    } else {
        decimal(n / 10).push(digit_char(n % 10))
    }
}

/// An integer as `Debug` and `Display` write it: a minus sign before the
/// digits of a negative one.
pub open spec fn int_text(x: int) -> Seq<char> {
    if x < 0 {
        seq!['-'] + decimal((-x) as nat)
    } else {
        decimal(x as nat)
    }
}

/// The items of a list as `Debug` writes them, between its brackets:
/// separated by a comma and a space.
pub open spec fn items_text(s: Seq<i64>) -> Seq<char>
    decreases s.len(),
{
    if s.len() == 0 {
        Seq::empty()
    } else if s.len() == 1 {
        int_text(s[0] as int)
    } else {
        items_text(s.drop_last()) + seq![',', ' '] + int_text(s.last() as int)
    }
}

/// A list of integers as `Debug` writes it.
pub open spec fn list_text(s: Seq<i64>) -> Seq<char> {
    seq!['['] + items_text(s) + seq![']']
}

/// The number that decimal digits stand for, the first most significant.
pub open spec fn digits_value(s: Seq<char>) -> int
    decreases s.len(),
{
    if s.len() == 0 {
        0
    } else {
        digits_value(s.drop_last()) * 10 + (s.last() as int - '0' as int)
    }
}

/// A digit's character stands for the digit.
proof fn lemma_digit_char_value(d: nat)
    requires
        d < 10,
    ensures
        digit_char(d) as int - '0' as int == d,
        '0' <= digit_char(d) <= '9',
{
}

/// The decimal digits of a number are digits, stand for that number, and
/// start with a zero only for zero itself.
pub proof fn law_decimal_reads_back(n: nat)
    ensures
        decimal(n).len() > 0,
        forall|i: int| 0 <= i < decimal(n).len() ==> '0' <= #[trigger] decimal(n)[i] <= '9',
        digits_value(decimal(n)) == n,
        decimal(n)[0] == '0' ==> n == 0,
    decreases n,
{
    lemma_digit_char_value(n % 10);
    if n < 10 {
        assert(decimal(n).drop_last() =~= Seq::<char>::empty());
        assert(digits_value(Seq::<char>::empty()) == 0);
        assert(digits_value(decimal(n)) == digits_value(decimal(n).drop_last()) * 10 + (
        decimal(n).last() as int - '0' as int));
    } else {
        law_decimal_reads_back(n / 10);
        let d = decimal(n);
        assert(d.drop_last() =~= decimal(n / 10));
        assert forall|i: int| 0 <= i < d.len() implies '0' <= #[trigger] d[i] <= '9' by {
            if i < d.len() - 1 {
                assert(d[i] == decimal(n / 10)[i]);
            }
        }
        assert(d[0] == decimal(n / 10)[0]);
        assert(d.last() == digit_char(n % 10));
        assert(digits_value(d) == digits_value(decimal(n / 10)) * 10 + (n % 10) as int);
        assert((n / 10) * 10 + n % 10 == n) by (nonlinear_arith);
    }
}

fn digit_str(d: u64) -> (r: &'static str)
    requires
        d < 10,
    ensures
        r@ == seq![digit_char(d as nat)],
{
    proof {
        reveal_strlit("0");
        reveal_strlit("1");
        reveal_strlit("2");
        reveal_strlit("3");
        reveal_strlit("4");
        reveal_strlit("5");
        reveal_strlit("6");
        reveal_strlit("7");
        reveal_strlit("8");
        reveal_strlit("9");
    }
    if d == 0 { "0" }
    else if d == 1 { "1" }
    else if d == 2 { "2" }
    else if d == 3 { "3" }
    else if d == 4 { "4" }
    else if d == 5 { "5" }
    else if d == 6 { "6" }
    else if d == 7 { "7" }
    else if d == 8 { "8" }
    else { "9" }
}

/// Appends the decimal digits of `n`.
pub fn push_decimal(out: &mut String, n: u64)
    ensures
        final(out)@ == old(out)@ + decimal(n as nat),
    decreases n,
{
    if n >= 10 {
        push_decimal(out, n / 10);
    }
    out.append(digit_str(n % 10));
}

/// Appends an integer as `Debug` writes it.
pub fn push_int(out: &mut String, x: i64)
    ensures
        final(out)@ == old(out)@ + int_text(x as int),
{
    if x < 0 {
        proof {
            reveal_strlit("-");
        }
        out.append("-");
        let magnitude: u64 = if x == i64::MIN {
            9223372036854775808u64
        } else {
            (-x) as u64
        };
        push_decimal(out, magnitude);
    } else {
        push_decimal(out, x as u64);
    }
}


/// Appends a list of integers as `Debug` writes it.
pub fn push_list(out: &mut String, items: &Vec<i64>)
    ensures
        final(out)@ == old(out)@ + list_text(items@),
{
    proof {
        reveal_strlit("[");
        reveal_strlit("]");
        reveal_strlit(", ");
    }
    let ghost start = out@;
    out.append("[");
    let mut i: usize = 0;
    while i < items.len()
        invariant
            i <= items@.len(),
            out@ == start + seq!['['] + items_text(items@.take(i as int)),
        decreases items@.len() - i,
    {
        proof {
            reveal_strlit(", ");
            assert(items@.take(i + 1).drop_last() =~= items@.take(i as int));
        }
        if i > 0 {
            out.append(", ");
        }
        push_int(out, items[i]);
        proof {
            let t = items@.take(i + 1);
            assert(t.last() == items@[i as int]);
            if i == 0 {
                assert(items_text(t) == int_text(items@[0] as int));
                assert(items@.take(0) =~= Seq::<i64>::empty());
            } else {
                assert(items_text(t) == items_text(items@.take(i as int)) + seq![',', ' '] + int_text(
                    items@[i as int] as int,
                ));
            }
            assert(out@ =~= start + seq!['['] + items_text(t));
        }
        i += 1;
    }
    proof {
        assert(items@.take(i as int) =~= items@);
    }
    out.append("]");
    proof {
        assert(out@ =~= start + list_text(items@));
    }
}

} // verus!
