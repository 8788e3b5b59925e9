//! Numbers as text, for the keys and names that are built from them.

use vstd::prelude::*;
use vstd::string::*;

verus! {

/// The character of one decimal digit.
pub open spec fn digit(d: nat) -> char {
    if d == 0 {
        '0'
    } else if d == 1 {
        '1'
    } else if d == 2 {
        '2'
    } else if d == 3 {
        '3'
    } else if d == 4 {
        '4'
    } else if d == 5 {
        '5'
    } else if d == 6 {
        '6'
    } else if d == 7 {
        '7'
    } else if d == 8 {
        '8'
    } else {
        '9'
    }
}

/// The digits of a number, without leading zeros.
pub open spec fn digits(n: nat) -> Seq<char>
    decreases n,
{
    if n < 10 {
        seq![digit(n)]
    } else {
        digits(n / 10).push(digit(n % 10))
    }
}

/// A whole number in decimal notation.
pub open spec fn decimal(n: int) -> Seq<char> {
    if n < 0 {
        seq!['-'] + digits((-n) as nat)
    } else {
        digits(n as nat)
    }
}

fn digit_text(d: u64) -> (text: &'static str)
    requires
        d < 10,
    ensures
        text@ == seq![digit(d as nat)],
{
    proof {
        reveal_strlit("0");
        reveal_strlit("1");
        reveal_strlit("2");
        reveal_strlit("3");
        reveal_strlit("4");
        reveal_strlit("5");
        reveal_strlit("6");
        reveal_strlit("7");
        reveal_strlit("8");
        reveal_strlit("9");
    }
    if d == 0 {
        "0"
    } else if d == 1 {
        "1"
    } else if d == 2 {
        "2"
    } else if d == 3 {
        "3"
    } else if d == 4 {
        "4"
    } else if d == 5 {
        "5"
    } else if d == 6 {
        "6"
    } else if d == 7 {
        "7"
    } else if d == 8 {
        "8"
    } else {
        "9"
    }
}

fn append_digits(out: &mut String, n: u64)
    ensures
        final(out)@ == old(out)@ + digits(n as nat),
    decreases n,
{
    if n >= 10 {
        append_digits(out, n / 10);
    }
    out.append(digit_text(n % 10));
}

/// Appends a number in decimal notation.
pub fn append_decimal(out: &mut String, n: i64)
    requires
        n != i64::MIN,
    ensures
        final(out)@ == old(out)@ + decimal(n as int),
{
    if n < 0 {
        proof {
            reveal_strlit("-");
        }
        assert("-"@ =~= seq!['-']);
        out.append("-");
        append_digits(out, (-n) as u64);
    } else {
        append_digits(out, n as u64);
    }
}

pub fn append_u32(out: &mut String, n: u32)
    ensures
        final(out)@ == old(out)@ + decimal(n as int),
{
    append_decimal(out, n as i64);
}

pub fn append_i32(out: &mut String, n: i32)
    ensures
        final(out)@ == old(out)@ + decimal(n as int),
{
    append_decimal(out, n as i64);
}

pub fn append_usize(out: &mut String, n: usize)
    ensures
        final(out)@ == old(out)@ + decimal(n as int),
{
    append_digits(out, n as u64);
}

/// A number in decimal notation.
pub fn decimal_text(n: u32) -> (text: String)
    ensures
        text@ == decimal(n as int),
{
    let mut text: String = String::new();
    append_u32(&mut text, n);
    text
}

pub open spec fn is_digit(c: char) -> bool {
    '0' <= c <= '9'
}

proof fn lemma_digits_shape(n: nat)
    ensures
        digits(n).len() > 0,
        forall|i: int| 0 <= i < digits(n).len() ==> is_digit(#[trigger] digits(n)[i]),
    decreases n,
{
    if n >= 10 {
        lemma_digits_shape(n / 10);
    }
}

proof fn lemma_digits_injective(a: nat, b: nat)
    requires
        digits(a) == digits(b),
    ensures
        a == b,
    decreases a,
{
    lemma_digits_shape(a / 10);
    lemma_digits_shape(b / 10);
    assert(digits(a).last() == digit(a % 10));
    assert(digits(b).last() == digit(b % 10));
    assert(a % 10 == b % 10);
    if a < 10 {
        if b >= 10 {
            assert(digits(a).len() == 1);
            assert(digits(b).len() == digits(b / 10).len() + 1);
        }
    } else if b < 10 {
        assert(digits(a).len() == digits(a / 10).len() + 1);
    } else {
        assert(digits(a / 10) =~= digits(a).drop_last());
        assert(digits(b / 10) =~= digits(b).drop_last());
        lemma_digits_injective(a / 10, b / 10);
    }
}

/// A number in decimal notation consists of digits, with a minus sign in front of a
/// negative one, and different numbers are written differently.
pub proof fn law_decimal_is_injective(a: int, b: int)
    requires
        decimal(a) == decimal(b),
    ensures
        a == b,
{
    if a < 0 {
        lemma_digits_shape((-a) as nat);
        assert(decimal(a)[0] == '-');
    } else {
        lemma_digits_shape(a as nat);
        assert(is_digit(digits(a as nat)[0]));
    }
    if b < 0 {
        lemma_digits_shape((-b) as nat);
        assert(decimal(b)[0] == '-');
    } else {
        lemma_digits_shape(b as nat);
        assert(is_digit(digits(b as nat)[0]));
    }
    if a < 0 {
        assert(digits((-a) as nat) =~= decimal(a).subrange(1, decimal(a).len() as int));
        assert(digits((-b) as nat) =~= decimal(b).subrange(1, decimal(b).len() as int));
        lemma_digits_injective((-a) as nat, (-b) as nat);
    } else {
        lemma_digits_injective(a as nat, b as nat);
    }
}

/// A number in decimal notation holds no character that is neither a digit nor a minus
/// sign.
pub proof fn law_decimal_characters(n: int, c: char)
    requires
        !is_digit(c),
        c != '-',
    ensures
        !decimal(n).contains(c),
{
    let magnitude: nat = if n < 0 {
        (-n) as nat
    } else {
        n as nat
    };
    lemma_digits_shape(magnitude);
    assert forall|i: int| 0 <= i < decimal(n).len() implies decimal(n)[i] != c by {
        if n < 0 {
            if i > 0 {
                assert(decimal(n)[i] == digits(magnitude)[i - 1]);
                assert(is_digit(digits(magnitude)[i - 1]));
            }
        } else {
            assert(is_digit(digits(magnitude)[i]));
        }
    }
}

/// Numbers are written in decimal: single digits as they are, and the last digit of a larger
/// number after the rest of it; a minus sign goes before a negative one.
pub proof fn law_decimal_notation(n: int, d: int)
    requires
        0 <= n,
        0 <= d < 10,
    ensures
        decimal(d).len() == 1,
        decimal(d)[0] as int == '0' as int + d,
        n > 0 ==> decimal(10 * n + d) == decimal(n) + decimal(d),
        n > 0 ==> decimal(-n) == seq!['-'] + decimal(n),
{
    if n > 0 {
        assert((10 * n + d) / 10 == n);
        assert((10 * n + d) % 10 == d);
        assert(decimal(10 * n + d) =~= decimal(n) + decimal(d));
    }
}

/// Writing a number adds it to the text.
pub proof fn law_numbers_are_appended(
    out: &mut String,
    other: &mut String,
    third: &mut String,
    n: u32,
    i: i32,
    u: usize,
    text: String,
)
    requires
        call_ensures(append_u32, (out, n), ()),
        call_ensures(append_i32, (other, i), ()),
        call_ensures(append_usize, (third, u), ()),
        call_ensures(decimal_text, (n,), text),
    ensures
        final(out)@ == old(out)@ + text@,
        text@ == decimal(n as int),
        final(other)@ == old(other)@ + decimal(i as int),
        final(third)@ == old(third)@ + decimal(u as int),
{
}

/// A number ends where a character follows that is neither a digit nor a minus sign.
pub proof fn law_numbers_end(a: int, b: int, c: char, x: Seq<char>, y: Seq<char>)
    requires
        !is_digit(c),
        c != '-',
        decimal(a) + seq![c] + x == decimal(b) + seq![c] + y,
    ensures
        a == b,
        x == y,
{
    let p = decimal(a) + seq![c] + x;
    let q = decimal(b) + seq![c] + y;
    let n = decimal(a).len() as int;
    let m = decimal(b).len() as int;
    law_decimal_characters(a, c);
    law_decimal_characters(b, c);
    assert(p[n] == c && q[m] == c);
    if n < m {
        assert(q[n] == decimal(b)[n]);
        assert(decimal(b).contains(c));
    }
    if m < n {
        assert(p[m] == decimal(a)[m]);
        assert(decimal(a).contains(c));
    }
    assert(decimal(a) =~= p.take(n));
    assert(decimal(b) =~= q.take(n));
    law_decimal_is_injective(a, b);
    assert(x =~= p.skip(n + 1));
    assert(y =~= q.skip(n + 1));
}

/// What follows the same text is the same.
pub proof fn law_same_beginnings(head: Seq<char>, a: Seq<char>, b: Seq<char>)
    ensures
        head + a == head + b <==> a == b,
{
    if head + a == head + b {
        let n = head.len() as int;
        assert(a =~= (head + a).skip(n));
        assert(b =~= (head + b).skip(n));
    }
}

/// What goes before the same text is the same.
pub proof fn law_same_endings(tail: Seq<char>, a: Seq<char>, b: Seq<char>)
    ensures
        a + tail == b + tail <==> a == b,
{
    if a + tail == b + tail {
        assert((a + tail).len() == (b + tail).len());
        let n = a.len() as int;
        assert(a =~= (a + tail).take(n));
        assert(b =~= (b + tail).take(n));
    }
}

/// Numbers of either sign are added to the text.
pub proof fn law_signed_numbers_are_appended(out: &mut String, n: i64)
    requires
        n != i64::MIN,
        call_ensures(append_decimal, (out, n), ()),
    ensures
        final(out)@ == old(out)@ + decimal(n as int),
        n < 0 ==> final(out)@[old(out)@.len() as int] == '-',
{
}

} // verus!
