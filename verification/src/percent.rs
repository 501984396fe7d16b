//! Percent-encoding of channel names for path and query segments.
//!
//! The service requires every byte of a channel name that is not an ASCII
//! letter or digit to be escaped as `%` followed by two uppercase hex digits.
//! The encoding itself is delegated to the `percent_encoding` crate; this
//! module pins down exactly what that encoding produces, implements the
//! service-defined reverse (percent-decoding), and proves that decoding an
//! encoded name always gives the name back.

use vstd::prelude::*;

verus! {

/// `b` is an ASCII letter or digit — the bytes the encoding passes through.
pub open spec fn spec_is_alnum(b: u8) -> bool {
    (0x30 <= b && b <= 0x39) || (0x41 <= b && b <= 0x5A) || (0x61 <= b && b <= 0x7A)
}

/// The uppercase ASCII hex digit for a value below 16.
pub open spec fn spec_hex_digit(n: int) -> u8 {
    if n < 10 {
        (0x30 + n) as u8
    } else {
        (0x41 + (n - 10)) as u8
    }
}

/// How one byte is written: itself if a letter or digit, else `%` and two
/// uppercase hex digits.
pub open spec fn spec_encode_byte(b: u8) -> Seq<u8> {
    if spec_is_alnum(b) {
        seq![b]
    } else {
        seq![0x25u8, spec_hex_digit(b as int / 16), spec_hex_digit(b as int % 16)]
    }
}

/// The percent-encoding of a byte string: each byte written in order.
pub open spec fn spec_percent_encode(s: Seq<u8>) -> Seq<u8>
    decreases s.len(),
{
    if s.len() == 0 {
        Seq::empty()
    } else {
        spec_encode_byte(s[0]) + spec_percent_encode(s.drop_first())
    }
}

/// `b` is an ASCII hex digit, either case.
pub open spec fn spec_is_hex(b: u8) -> bool {
    (0x30 <= b && b <= 0x39) || (0x41 <= b && b <= 0x46) || (0x61 <= b && b <= 0x66)
}

/// The value of an ASCII hex digit.
pub open spec fn spec_hex_val(b: u8) -> int {
    if 0x30 <= b && b <= 0x39 {
        b - 0x30
    } else if 0x41 <= b && b <= 0x46 {
        b - 0x41 + 10
    } else {
        b - 0x61 + 10
    }
}

/// The service-defined reverse of the encoding: `%` followed by two hex
/// digits becomes one byte, any other byte stands for itself, and a `%` not
/// followed by two hex digits fails.
pub open spec fn spec_percent_decode(s: Seq<u8>) -> Option<Seq<u8>>
    decreases s.len(),
{
    if s.len() == 0 {
        Some(Seq::empty())
    } else if s[0] == 0x25 {
        if s.len() >= 3 && spec_is_hex(s[1]) && spec_is_hex(s[2]) {
            match spec_percent_decode(s.skip(3)) {
                Some(t) => Some(seq![(spec_hex_val(s[1]) * 16 + spec_hex_val(s[2])) as u8] + t),
                None => None,
            }
        } else {
            None
        }
    } else {
        match spec_percent_decode(s.drop_first()) {
            Some(t) => Some(seq![s[0]] + t),
            None => None,
        }
    }
}

/// Relies on `percent_encoding::percent_encode` with the `NON_ALPHANUMERIC`
/// set: every byte that is not an ASCII letter or digit (controls, ASCII
/// punctuation and space, and all non-ASCII bytes) is written as `%` and two
/// uppercase hex digits, and every other byte passes through, in input order.
#[verifier::external_body]
pub(crate) fn percent_encode_bytes(b: &Vec<u8>) -> (r: Vec<u8>)
    ensures
        r@ == spec_percent_encode(b@),
{
    percent_encoding::percent_encode(b.as_slice(), percent_encoding::NON_ALPHANUMERIC)
        .to_string()
        .into_bytes()
}

/// The value of an ASCII hex digit byte, or `None` for any other byte.
fn hex_val(b: u8) -> (r: Option<u8>)
    ensures
        spec_is_hex(b) ==> (r matches Some(v) && v as int == spec_hex_val(b)),
        !spec_is_hex(b) ==> r is None,
{
    if 0x30 <= b && b <= 0x39 {
        Some(b - 0x30)
    } else if 0x41 <= b && b <= 0x46 {
        Some(b - 0x41 + 10)
    } else if 0x61 <= b && b <= 0x66 {
        Some(b - 0x61 + 10)
    } else {
        None
    }
}

/// Decodes `s` from position `i` on, appending the decoded bytes to `out`.
fn decode_from(s: &Vec<u8>, i: usize, out: &mut Vec<u8>) -> (ok: bool)
    requires
        i <= s@.len(),
    ensures
        match spec_percent_decode(s@.skip(i as int)) {
            Some(t) => ok && final(out)@ == old(out)@ + t,
            None => !ok,
        },
    decreases s@.len() - i,
{
    let ghost tail = s@.skip(i as int);
    if i == s.len() {
        assert(tail =~= Seq::<u8>::empty());
        assert(out@ =~= out@ + Seq::<u8>::empty());
        return true;
    }
    assert(tail[0] == s@[i as int]);
    let b = s[i];
    if b == 0x25 {
        if s.len() - i < 3 {
            return false;
        }
        assert(tail[1] == s@[i as int + 1] && tail[2] == s@[i as int + 2]);
        let v1 = hex_val(s[i + 1]);
        let v2 = hex_val(s[i + 2]);
        match (v1, v2) {
            (Some(a), Some(c)) => {
                let ghost pre = out@;
                out.push(a * 16 + c);
                proof {
                    assert(tail.skip(3) =~= s@.skip(i as int + 3));
                }
                let ok = decode_from(s, i + 3, out);
                proof {
                    if let Some(t) = spec_percent_decode(tail.skip(3)) {
                        let x = (spec_hex_val(tail[1]) * 16 + spec_hex_val(tail[2])) as u8;
                        assert(pre + (seq![x] + t) =~= (pre + seq![x]) + t);
                    }
                }
                ok
            },
            _ => false,
        }
    } else {
        let ghost pre = out@;
        out.push(b);
        proof {
            assert(tail.drop_first() =~= s@.skip(i as int + 1));
        }
        let ok = decode_from(s, i + 1, out);
        proof {
            if let Some(t) = spec_percent_decode(tail.drop_first()) {
                assert(pre + (seq![b] + t) =~= (pre + seq![b]) + t);
            }
        }
        ok
    }
}

/// Percent-decodes a byte string, exactly as [`spec_percent_decode`] says:
/// `None` when some `%` is not followed by two hex digits.
pub fn percent_decode(s: &Vec<u8>) -> (r: Option<Vec<u8>>)
    ensures
        match spec_percent_decode(s@) {
            Some(t) => r matches Some(v) && v@ == t,
            None => r is None,
        },
{
    let mut out: Vec<u8> = Vec::new();
    assert(s@.skip(0) =~= s@);
    if decode_from(s, 0, &mut out) {
        Some(out)
    } else {
        None
    }
}

/// The uppercase hex digit of a value below 16 is a hex digit with that value.
proof fn lemma_hex_digit(n: int)
    requires
        0 <= n < 16,
    ensures
        spec_is_hex(spec_hex_digit(n)),
        spec_hex_val(spec_hex_digit(n)) == n,
        spec_hex_digit(n) != 0x2C,
{
}

/// Percent-encoding round-trips: decoding the encoding of any byte string
/// yields the original string. This holds for every byte string, so in
/// particular for every valid UTF-8 channel name.
pub proof fn lemma_percent_round_trip(s: Seq<u8>)
    ensures
        spec_percent_decode(spec_percent_encode(s)) == Some(s),
    decreases s.len(),
{
    if s.len() == 0 {
        assert(s =~= Seq::<u8>::empty());
    } else {
        lemma_percent_round_trip(s.drop_first());
        let b = s[0];
        let e = spec_percent_encode(s);
        let rest = spec_percent_encode(s.drop_first());
        if spec_is_alnum(b) {
            assert(e =~= seq![b] + rest);
            assert(e[0] == b && b != 0x25);
            assert(e.drop_first() =~= rest);
            assert(seq![b] + s.drop_first() =~= s);
        } else {
            let h1 = spec_hex_digit(b as int / 16);
            let h2 = spec_hex_digit(b as int % 16);
            assert(e =~= seq![0x25u8, h1, h2] + rest);
            assert(e[0] == 0x25 && e[1] == h1 && e[2] == h2);
            assert(0 <= b as int / 16 < 16 && 0 <= b as int % 16 < 16);
            lemma_hex_digit(b as int / 16);
            lemma_hex_digit(b as int % 16);
            assert(e.skip(3) =~= rest);
            vstd::arithmetic::div_mod::lemma_fundamental_div_mod(b as int, 16);
            assert((spec_hex_val(h1) * 16 + spec_hex_val(h2)) as u8 == b);
            assert(seq![b] + s.drop_first() =~= s);
        }
    }
}

/// No byte of a percent-encoded string is a comma: the comma itself is
/// escaped, and escapes are made of `%` and hex digits.
pub proof fn lemma_encode_no_comma(s: Seq<u8>)
    ensures
        forall|j: int|
            0 <= j < spec_percent_encode(s).len() ==> #[trigger] spec_percent_encode(s)[j]
                != 0x2C,
    decreases s.len(),
{
    if s.len() > 0 {
        lemma_encode_no_comma(s.drop_first());
        let b = s[0];
        let e = spec_percent_encode(s);
        let rest = spec_percent_encode(s.drop_first());
        assert(e =~= spec_encode_byte(b) + rest);
        if !spec_is_alnum(b) {
            lemma_hex_digit(b as int / 16);
            lemma_hex_digit(b as int % 16);
        }
        assert forall|j: int| 0 <= j < e.len() implies #[trigger] e[j] != 0x2C by {
            if j >= spec_encode_byte(b).len() {
                assert(e[j] == rest[j - spec_encode_byte(b).len()]);
            }
        }
    }
}

} // verus!
