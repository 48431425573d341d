//! The public address of the host, as reported by an address echo service.
//!
//! The service answers with a JSON object whose `ip` field holds the address
//! in dotted-decimal text. The text is read with the grammar of the standard
//! library's `Ipv4Addr` parser: four decimal numbers of at most three digits,
//! each at most 255 and without a leading zero, separated by single dots,
//! with nothing before or after.

use vstd::prelude::*;
use vstd::string::StringSliceAdditionalSpecFns;

use crate::decimal::{
    all_digits, decimal_bytes, digits_value, is_digit, lemma_canonical_digits, lemma_decimal_bytes,
};

verus! {

/// An IPv4 address, by its four octets, most significant first.
#[derive(Debug, Clone, Copy, PartialEq, Eq, Structural)]
pub struct Ipv4Address(pub u8, pub u8, pub u8, pub u8);

/// The octets of an address, most significant first.
pub open spec fn octet_seq(a: Ipv4Address) -> Seq<u8> {
    seq![a.0, a.1, a.2, a.3]
}

/// The canonical decimal texts of `octets`, separated by dots.
pub open spec fn dotted(octets: Seq<u8>) -> Seq<u8>
    decreases octets.len(),
{
    if octets.len() == 0 {
        Seq::empty()
    } else if octets.len() == 1 {
        decimal_bytes(octets[0] as nat)
    } else {
        decimal_bytes(octets[0] as nat) + seq![46u8] + dotted(octets.drop_first())
    }
}

/// The dotted-decimal text of an address, such as `192.168.0.1`.
pub open spec fn ipv4_text(a: Ipv4Address) -> Seq<u8> {
    dotted(octet_seq(a))
}

/// The number of ASCII digits at the start of `s`.
pub open spec fn leading_digits(s: Seq<u8>) -> nat
    decreases s.len(),
{
    if s.len() > 0 && is_digit(s[0]) {
        1 + leading_digits(s.drop_first())
    } else {
        0
    }
}

/// The octet at the start of `s` and the number of bytes it takes, as the
/// standard parser reads it: one to three digits, no leading zero, at most 255.
pub open spec fn octet_prefix(s: Seq<u8>) -> Option<(u8, nat)> {
    let k = leading_digits(s);
    if k == 0 || k > 3 || (s[0] == 48 && k > 1) || digits_value(s.take(k as int)) > 255 {
        None
    } else {
        Some((digits_value(s.take(k as int)) as u8, k))
    }
}

/// Reads exactly `n` dot-separated octets that make up all of `s`.
pub open spec fn parse_octets(s: Seq<u8>, n: nat) -> Option<Seq<u8>>
    decreases n,
{
    if n == 0 {
        None
    } else {
        match octet_prefix(s) {
            None => None,
            Some((v, k)) => {
                let rest = s.skip(k as int);
                if n == 1 {
                    if rest.len() == 0 {
                        Some(seq![v])
                    } else {
                        None
                    }
                } else if rest.len() > 0 && rest[0] == 46 {
                    match parse_octets(rest.skip(1), (n - 1) as nat) {
                        Some(tail) => Some(seq![v] + tail),
                        None => None,
                    }
                } else {
                    None
                }
            },
        }
    }
}

/// `k` digits that are followed by a non-digit or by the end are the leading digits.
proof fn lemma_leading_digits_exact(s: Seq<u8>, k: nat)
    requires
        k <= s.len(),
        forall|j: int| 0 <= j < k ==> is_digit(#[trigger] s[j]),
        k == s.len() || !is_digit(s[k as int]),
    ensures
        leading_digits(s) == k,
    decreases k,
{
    if k > 0 {
        let t = s.drop_first();
        assert forall|j: int| 0 <= j < k - 1 implies is_digit(#[trigger] t[j]) by {
            assert(t[j] == s[j + 1]);
        }
        if k < s.len() {
            assert(t[k - 1] == s[k as int]);
        }
        lemma_leading_digits_exact(t, (k - 1) as nat);
    }
}

/// At least `k` leading digits when the first `k` bytes are digits.
proof fn lemma_leading_digits_at_least(s: Seq<u8>, k: nat)
    requires
        k <= s.len(),
        forall|j: int| 0 <= j < k ==> is_digit(#[trigger] s[j]),
    ensures
        leading_digits(s) >= k,
    decreases k,
{
    if k > 0 {
        let t = s.drop_first();
        assert forall|j: int| 0 <= j < k - 1 implies is_digit(#[trigger] t[j]) by {
            assert(t[j] == s[j + 1]);
        }
        lemma_leading_digits_at_least(t, (k - 1) as nat);
    }
}

/// The leading digits are digits and lie within `s`.
proof fn lemma_leading_digits_bounds(s: Seq<u8>)
    ensures
        leading_digits(s) <= s.len(),
        forall|j: int| 0 <= j < leading_digits(s) ==> is_digit(#[trigger] s[j]),
    decreases s.len(),
{
    if s.len() > 0 && is_digit(s[0]) {
        let t = s.drop_first();
        lemma_leading_digits_bounds(t);
        assert forall|j: int| 0 <= j < leading_digits(s) implies is_digit(#[trigger] s[j]) by {
            if j > 0 {
                assert(s[j] == t[j - 1]);
            }
        }
    }
}

/// The canonical text of an octet, followed by nothing or by a dot, is read back as that octet.
proof fn lemma_octet_prefix_of_decimal(v: u8, rest: Seq<u8>)
    requires
        rest.len() == 0 || rest[0] == 46,
    ensures
        octet_prefix(decimal_bytes(v as nat) + rest) == Some((v, decimal_bytes(v as nat).len())),
{
    let d = decimal_bytes(v as nat);
    let s = d + rest;
    lemma_decimal_bytes(v as nat);
    assert forall|j: int| 0 <= j < d.len() implies is_digit(#[trigger] s[j]) by {
        assert(s[j] == d[j]);
    }
    if rest.len() > 0 {
        assert(s[d.len() as int] == rest[0]);
    }
    lemma_leading_digits_exact(s, d.len());
    assert(s.take(d.len() as int) =~= d);
    assert(s[0] == d[0]);
}

/// Whatever `n` octets are read from `s`, `s` is exactly their dotted text.
proof fn lemma_parse_octets_sound(s: Seq<u8>, n: nat)
    requires
        parse_octets(s, n) is Some,
    ensures
        parse_octets(s, n)->0.len() == n,
        s =~= dotted(parse_octets(s, n)->0),
    decreases n,
{
    let (v, k) = octet_prefix(s)->0;
    let t = s.take(k as int);
    let rest = s.skip(k as int);
    lemma_leading_digits_bounds(s);
    assert(all_digits(t)) by {
        assert forall|i: int| 0 <= i < t.len() implies is_digit(#[trigger] t[i]) by {
            assert(t[i] == s[i]);
        }
    }
    assert(t[0] == s[0]);
    lemma_canonical_digits(t);
    assert(t =~= decimal_bytes(v as nat));
    assert(s =~= t + rest);
    if n > 1 {
        let tail = parse_octets(rest.skip(1), (n - 1) as nat)->0;
        lemma_parse_octets_sound(rest.skip(1), (n - 1) as nat);
        assert(rest =~= seq![46u8] + rest.skip(1));
        let octs = seq![v] + tail;
        assert(octs.drop_first() =~= tail);
        assert(octs[0] == v);
    }
}

/// The dotted text of one or more octets is read back as those octets.
proof fn lemma_parse_octets_complete(octs: Seq<u8>)
    requires
        octs.len() >= 1,
    ensures
        parse_octets(dotted(octs), octs.len()) == Some(octs),
    decreases octs.len(),
{
    let v = octs[0];
    let d = decimal_bytes(v as nat);
    if octs.len() == 1 {
        lemma_octet_prefix_of_decimal(v, Seq::empty());
        assert(dotted(octs) =~= d + Seq::<u8>::empty());
        assert((d + Seq::<u8>::empty()).skip(d.len() as int) =~= Seq::<u8>::empty());
        assert(seq![v] =~= octs);
    } else {
        let tail = octs.drop_first();
        let rest = seq![46u8] + dotted(tail);
        lemma_octet_prefix_of_decimal(v, rest);
        assert(dotted(octs) =~= d + rest);
        assert((d + rest).skip(d.len() as int) =~= rest);
        assert(rest.skip(1) =~= dotted(tail));
        lemma_parse_octets_complete(tail);
        assert(seq![v] + tail =~= octs);
    }
}

/// The text of an address is read back as that address, and whatever address
/// is read from a text, that text is the address's text: reading is the exact
/// inverse of writing.
pub proof fn lemma_ipv4_text_round_trip(a: Ipv4Address, s: Seq<u8>)
    ensures
        parse_octets(ipv4_text(a), 4) == Some(octet_seq(a)),
        parse_octets(s, 4) is Some ==> s =~= dotted(parse_octets(s, 4)->0),
{
    lemma_parse_octets_complete(octet_seq(a));
    if parse_octets(s, 4) is Some {
        lemma_parse_octets_sound(s, 4);
    }
}

/// A text from which no four octets can be read is the text of no address.
proof fn lemma_unreadable_has_no_address(s: Seq<u8>)
    requires
        parse_octets(s, 4) is None,
    ensures
        forall|a: Ipv4Address| s != #[trigger] ipv4_text(a),
{
    assert forall|a: Ipv4Address| s != #[trigger] ipv4_text(a) by {
        lemma_ipv4_text_round_trip(a, s);
    }
}

/// Reads the octet that starts at byte `pos` of `b`, and where it ends.
fn read_octet(b: &[u8], pos: usize) -> (r: Option<(u8, usize)>)
    requires
        pos <= b@.len(),
    ensures
        match octet_prefix(b@.skip(pos as int)) {
            Some((v, k)) => r matches Some((rv, e)) && rv == v && e == pos + k && e <= b@.len(),
            None => r is None,
        },
{
    let ghost s = b@.skip(pos as int);
    let mut k: usize = 0;
    let mut value: u32 = 0;
    while k < b.len() - pos && k < 4 && 48 <= b[pos + k] && b[pos + k] <= 57
        invariant
            pos + k <= b@.len(),
            k <= 4,
            s == b@.skip(pos as int),
            forall|j: int| 0 <= j < k ==> is_digit(#[trigger] s[j]),
            value as nat == digits_value(s.take(k as int)),
            k == 0 ==> value == 0,
            k == 1 ==> value <= 9,
            k == 2 ==> value <= 99,
            k == 3 ==> value <= 999,
            k == 4 ==> value <= 9999,
        decreases 4 - k,
    {
        let digit = b[pos + k];
        proof {
            assert(s[k as int] == digit);
            let t = s.take(k + 1);
            assert(t.drop_last() =~= s.take(k as int));
            assert(t.last() == digit);
        }
        value = value * 10 + (digit - 48) as u32;
        k = k + 1;
    }
    proof {
        if k == 4 {
            lemma_leading_digits_at_least(s, 4);
        } else {
            lemma_leading_digits_exact(s, k as nat);
        }
    }
    if k == 0 || k == 4 {
        return None;
    }
    if b[pos] == 48 && k > 1 {
        return None;
    }
    if value > 255 {
        return None;
    }
    Some((value as u8, pos + k))
}

/// Reads an IPv4 address in dotted-decimal text, as `str::parse::<Ipv4Addr>` does:
/// the result is the address whose text is exactly `text`, if there is one.
pub fn parse_ipv4(text: &str) -> (r: Option<Ipv4Address>)
    ensures
        match r {
            Some(a) => text.spec_bytes() =~= ipv4_text(a),
            None => forall|a: Ipv4Address| text.spec_bytes() != #[trigger] ipv4_text(a),
        },
{
    let b = text.as_bytes();
    let ghost s = b@;
    let mut pos: usize = 0;
    let mut octs: Vec<u8> = Vec::new();
    proof {
        assert(s.skip(0) =~= s);
        assert forall|t: Seq<u8>| #![trigger octs@ + t] octs@ + t =~= t by {}
    }
    while octs.len() < 4
        invariant
            s == b@,
            b@ == text.spec_bytes(),
            pos <= b@.len(),
            octs.len() <= 4,
            octs.len() == 4 ==> pos == b@.len(),
            parse_octets(s, 4) == if octs.len() == 4 {
                Some(octs@)
            } else {
                match parse_octets(s.skip(pos as int), (4 - octs.len()) as nat) {
                    Some(t) => Some(octs@ + t),
                    None => None,
                }
            },
        decreases 4 - octs.len(),
    {
        let ghost n = (4 - octs.len()) as nat;
        let ghost before = octs@;
        let ghost here = s.skip(pos as int);
        match read_octet(b, pos) {
            None => {
                proof {
                    lemma_unreadable_has_no_address(s);
                }
                return None;
            },
            Some((v, end)) => {
                proof {
                    let (w, k) = octet_prefix(here)->0;
                    assert(w == v);
                    assert(end == pos + k);
                    assert(here.skip(k as int) =~= s.skip(end as int));
                }
                octs.push(v);
                pos = end;
            },
        }
        if octs.len() < 4 {
            if pos < b.len() && b[pos] == 46 {
                proof {
                    let rest = s.skip(pos as int);
                    assert(rest[0] == 46);
                    assert(rest.skip(1) =~= s.skip(pos + 1));
                    assert(octs@ =~= before.push(octs@.last()));
                    assert forall|t: Seq<u8>| #![trigger before + (seq![octs@.last()] + t)]
                        before + (seq![octs@.last()] + t) =~= octs@ + t by {}
                }
                pos = pos + 1;
            } else {
                proof {
                    let rest = s.skip(pos as int);
                    assert(pos < b@.len() ==> rest[0] == b@[pos as int]);
                    lemma_unreadable_has_no_address(s);
                }
                return None;
            }
        } else {
            if pos != b.len() {
                proof {
                    lemma_unreadable_has_no_address(s);
                }
                return None;
            }
            proof {
                assert(s.skip(pos as int).len() == 0);
                assert(octs@ =~= before + seq![octs@.last()]);
            }
        }
    }
    proof {
        lemma_parse_octets_sound(s, 4);
    }
    let a = Ipv4Address(octs[0], octs[1], octs[2], octs[3]);
    proof {
        assert(octet_seq(a) =~= octs@);
        assert forall|x: Ipv4Address| s != #[trigger] ipv4_text(x) || x == a by {
            lemma_ipv4_text_round_trip(x, s);
            if s == ipv4_text(x) {
                assert(octet_seq(x) =~= octs@);
                assert(x.0 == octet_seq(x)[0]);
                assert(x.1 == octet_seq(x)[1]);
                assert(x.2 == octet_seq(x)[2]);
                assert(x.3 == octet_seq(x)[3]);
            }
        }
    }
    Some(a)
}

} // verus!
