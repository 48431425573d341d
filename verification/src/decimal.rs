//! Decimal notation of unsigned integers, as text and as bytes.

use vstd::prelude::*;

verus! {

/// The character that writes a single decimal digit.
pub open spec fn digit_char(d: nat) -> char {
    if d == 0 {
        '0'
    } else if d == 1 {
        '1'
    } else if d == 2 {
        '2'
    } else if d == 3 {
        '3'
    } else if d == 4 {
        '4'
    } else if d == 5 {
        '5'
    } else if d == 6 {
        '6'
    } else if d == 7 {
        '7'
    } else if d == 8 {
        '8'
    } else {
        '9'
    }
}

/// The decimal text of `n`: most significant digit first, without leading zeros.
pub open spec fn decimal_chars(n: nat) -> Seq<char>
    decreases n,
{
    if n < 10 {
        seq![digit_char(n)]
    } else {
        decimal_chars(n / 10).push(digit_char(n % 10))
    }
}

/// An ASCII decimal digit.
pub open spec fn is_digit(b: u8) -> bool {
    48 <= b <= 57
}

/// Every byte of `s` is an ASCII decimal digit.
pub open spec fn all_digits(s: Seq<u8>) -> bool {
    forall|i: int| 0 <= i < s.len() ==> is_digit(#[trigger] s[i])
}

/// The number that a string of ASCII digits denotes (leading zeros allowed).
pub open spec fn digits_value(s: Seq<u8>) -> nat
    decreases s.len(),
{
    if s.len() == 0 {
        0
    } else {
        digits_value(s.drop_last()) * 10 + (s.last() - 48) as nat
    }
}

/// The canonical decimal bytes of `n`: ASCII digits without leading zeros.
pub open spec fn decimal_bytes(n: nat) -> Seq<u8>
    decreases n,
{
    if n < 10 {
        seq![(48 + n) as u8]
    } else {
        decimal_bytes(n / 10).push((48 + n % 10) as u8)
    }
}

/// The canonical decimal bytes of `n` are ASCII digits, at least one, that
/// denote `n`, and they start with `0` only when `n` is zero.
pub proof fn lemma_decimal_bytes(n: nat)
    ensures
        decimal_bytes(n).len() >= 1,
        all_digits(decimal_bytes(n)),
        digits_value(decimal_bytes(n)) == n,
        decimal_bytes(n)[0] == 48 ==> n == 0,
        n == 0 ==> decimal_bytes(n) =~= seq![48u8],
        n < 10 ==> decimal_bytes(n).len() == 1,
        n < 100 ==> decimal_bytes(n).len() <= 2,
        n < 1000 ==> decimal_bytes(n).len() <= 3,
    decreases n,
{
    let d = decimal_bytes(n);
    if n < 10 {
        assert(d.drop_last() =~= Seq::<u8>::empty());
        assert(digits_value(d.drop_last()) == 0);
    } else {
        lemma_decimal_bytes(n / 10);
        let p = decimal_bytes(n / 10);
        assert(d.drop_last() =~= p);
        assert(d[0] == p[0]);
        assert(n == (n / 10) * 10 + n % 10);
    }
}

/// A run of ASCII digits without a leading zero (other than a lone `0`) is
/// the canonical decimal bytes of the number it denotes.
pub proof fn lemma_canonical_digits(t: Seq<u8>)
    requires
        t.len() >= 1,
        all_digits(t),
        t[0] != 48 || t.len() == 1,
    ensures
        t =~= decimal_bytes(digits_value(t)),
    decreases t.len(),
{
    let v = digits_value(t);
    let c = (t.last() - 48) as nat;
    if t.len() == 1 {
        assert(t.drop_last() =~= Seq::<u8>::empty());
        assert(digits_value(t.drop_last()) == 0);
        assert(v == c);
        assert(decimal_bytes(v) =~= seq![(48 + v) as u8]);
    } else {
        let u = t.drop_last();
        assert(u[0] == t[0]);
        assert(all_digits(u)) by {
            assert forall|i: int| 0 <= i < u.len() implies is_digit(#[trigger] u[i]) by {
                assert(u[i] == t[i]);
            }
        }
        lemma_canonical_digits(u);
        let w = digits_value(u);
        if w == 0 {
            assert(decimal_bytes(0) =~= seq![48u8]);
            assert(u[0] == 48);
        }
        assert(v == w * 10 + c);
        assert(v / 10 == w && v % 10 == c) by (nonlinear_arith)
            requires
                v == w * 10 + c,
                c < 10,
        ;
        assert(decimal_bytes(v) =~= decimal_bytes(w).push((48 + c) as u8));
        assert(t =~= u.push(t.last()));
    }
}

/// A character that is an ASCII decimal digit.
pub open spec fn is_digit_char(c: char) -> bool {
    48 <= c as int <= 57
}

/// The number that a text of ASCII digits denotes, read most significant first.
pub open spec fn chars_value(s: Seq<char>) -> int
    decreases s.len(),
{
    if s.len() == 0 {
        0
    } else {
        chars_value(s.drop_last()) * 10 + (s.last() as int - 48)
    }
}

/// The character of a digit is the ASCII code `48 + d`.
proof fn lemma_digit_char_code(d: nat)
    requires
        d < 10,
    ensures
        digit_char(d) as int == 48 + d,
{
    assert('0' as int == 48);
    assert('1' as int == 49);
    assert('2' as int == 50);
    assert('3' as int == 51);
    assert('4' as int == 52);
    assert('5' as int == 53);
    assert('6' as int == 54);
    assert('7' as int == 55);
    assert('8' as int == 56);
    assert('9' as int == 57);
}

/// The decimal text of every number is its canonical decimal notation: ASCII
/// digits that, read back, give the number, with no leading zero unless the
/// number is zero; character for character it is the canonical decimal bytes.
/// So no digit of the number is dropped, doubled or changed.
pub proof fn lemma_decimal_chars_meaning(n: nat)
    ensures
        decimal_chars(n).len() >= 1,
        forall|i: int| 0 <= i < decimal_chars(n).len() ==> is_digit_char(#[trigger] decimal_chars(n)[i]),
        chars_value(decimal_chars(n)) == n,
        decimal_chars(n)[0] as int == 48 ==> n == 0 && decimal_chars(n).len() == 1,
        decimal_chars(n).len() == decimal_bytes(n).len(),
        forall|i: int|
            0 <= i < decimal_chars(n).len() ==> (#[trigger] decimal_chars(n)[i]) as int
                == decimal_bytes(n)[i] as int,
    decreases n,
{
    let c = decimal_chars(n);
    lemma_decimal_bytes(n);
    if n < 10 {
        lemma_digit_char_code(n);
        assert(c.drop_last() =~= Seq::<char>::empty());
        assert(chars_value(c.drop_last()) == 0);
    } else {
        lemma_decimal_chars_meaning(n / 10);
        lemma_digit_char_code(n % 10);
        let p = decimal_chars(n / 10);
        assert(c.drop_last() =~= p);
        assert(c[0] == p[0]);
        assert(n == (n / 10) * 10 + n % 10);
        lemma_decimal_bytes(n / 10);
        assert forall|i: int| 0 <= i < c.len() implies is_digit_char(#[trigger] c[i]) by {
            if i < p.len() {
                assert(c[i] == p[i]);
            }
        }
        assert forall|i: int| 0 <= i < c.len() implies (#[trigger] c[i]) as int
            == decimal_bytes(n)[i] as int by {
            if i < p.len() {
                assert(c[i] == p[i]);
                assert(decimal_bytes(n)[i] == decimal_bytes(n / 10)[i]);
            }
        }
    }
}

/// Different numbers have different decimal texts.
pub proof fn lemma_decimal_chars_injective(m: nat, n: nat)
    requires
        decimal_chars(m) == decimal_chars(n),
    ensures
        m == n,
{
    lemma_decimal_chars_meaning(m);
    lemma_decimal_chars_meaning(n);
}

/// The text of one decimal digit.
fn digit_text(d: u64) -> (r: &'static str)
    requires
        d < 10,
    ensures
        r@ == seq![digit_char(d as nat)],
{
    proof {
        reveal_strlit("0");
        reveal_strlit("1");
        reveal_strlit("2");
        reveal_strlit("3");
        reveal_strlit("4");
        reveal_strlit("5");
        reveal_strlit("6");
        reveal_strlit("7");
        reveal_strlit("8");
        reveal_strlit("9");
    }
    if d == 0 {
        "0"
    } else if d == 1 {
        "1"
    } else if d == 2 {
        "2"
    } else if d == 3 {
        "3"
    } else if d == 4 {
        "4"
    } else if d == 5 {
        "5"
    } else if d == 6 {
        "6"
    } else if d == 7 {
        "7"
    } else if d == 8 {
        "8"
    } else {
        "9"
    }
}

/// Appends the decimal text of `n` to `out`, as `write!(out, "{n}")` does.
pub fn push_decimal(out: &mut String, n: u64)
    ensures
        final(out)@ == old(out)@ + decimal_chars(n as nat),
    decreases n,
{
    if n >= 10 {
        push_decimal(out, n / 10);
    }
    out.append(digit_text(n % 10));
    proof {
        assert(decimal_chars(n as nat) =~= if n < 10 {
            seq![digit_char(n as nat)]
        } else {
            decimal_chars((n / 10) as nat).push(digit_char((n % 10) as nat))
        });
    }
}

/// The decimal text of `n`.
pub fn decimal_string(n: u64) -> (r: String)
    ensures
        r@ == decimal_chars(n as nat),
{
    let mut out = String::new();
    push_decimal(&mut out, n);
    out
}

} // verus!
