//! The resumable position cursor ("timetoken") shared by both operations.
//!
//! A cursor is an opaque pair: a timestamp-like position `t`, carried on the
//! wire as a decimal string, and a small region id `r`. This layer never does
//! arithmetic on cursors — it only serializes `t` and `r` into request
//! queries and parses them back out of responses, so the module's substance
//! is a verified decimal codec for unsigned integers.

use vstd::prelude::*;

verus! {

/// Resumable position in the message stream.
///
/// `{t: 0, r: 0}` means "no prior position": subscribing with it asks only
/// for messages that arrive after the call.
#[derive(Clone, Copy, Debug, PartialEq, Eq, Structural)]
pub struct Cursor {
    /// Timestamp-like position, a decimal string on the wire.
    pub t: u64,
    /// Region id; the service omits it in some places, where it defaults to 0.
    pub r: u32,
}

impl Cursor {
    /// The cursor that requests "latest only": no prior position.
    pub fn latest() -> (c: Cursor)
        ensures
            c.t == 0 && c.r == 0,
    {
        Cursor { t: 0, r: 0 }
    }
}

/// The decimal digit string of `n`, most significant digit first, as the
/// service writes unsigned integers: no sign, no leading zeros (except for
/// `n == 0`, which is written "0").
pub open spec fn spec_dec_digits(n: nat) -> Seq<u8>
    decreases n,
{
    if n < 10 {
        seq![(n + 0x30) as u8]
    } else {
        spec_dec_digits(n / 10).push((n % 10 + 0x30) as u8)
    }
}

/// Every byte of `s` is an ASCII decimal digit.
pub open spec fn spec_all_digits(s: Seq<u8>) -> bool {
    forall|i: int| 0 <= i < s.len() ==> 0x30 <= #[trigger] s[i] <= 0x39
}

/// The value of a digit string, most significant digit first.
pub open spec fn spec_dec_val(s: Seq<u8>) -> int
    decreases s.len(),
{
    if s.len() == 0 {
        0
    } else {
        spec_dec_val(s.drop_last()) * 10 + (s.last() - 0x30)
    }
}

/// What parsing an unsigned decimal field of the wire format yields: the
/// value, if `s` is a non-empty all-digit string whose value fits in `u64`;
/// nothing otherwise.
pub open spec fn spec_parse_u64(s: Seq<u8>) -> Option<u64> {
    if s.len() > 0 && spec_all_digits(s) && 0 <= spec_dec_val(s) <= u64::MAX {
        Some(spec_dec_val(s) as u64)
    } else {
        None
    }
}

/// Appends the decimal digits of `n` to `out`.
fn push_dec_digits(n: u64, out: &mut Vec<u8>)
    ensures
        final(out)@ == old(out)@ + spec_dec_digits(n as nat),
    decreases n,
{
    if n < 10 {
        out.push((n as u8) + 0x30);
        assert(out@ =~= old(out)@ + spec_dec_digits(n as nat));
    } else {
        push_dec_digits(n / 10, out);
        out.push(((n % 10) as u8) + 0x30);
        assert(out@ =~= old(out)@ + spec_dec_digits(n as nat));
    }
}

/// The decimal digit string of `n`, as it appears on the wire.
pub fn u64_to_dec(n: u64) -> (r: Vec<u8>)
    ensures
        r@ == spec_dec_digits(n as nat),
{
    let mut out: Vec<u8> = Vec::new();
    push_dec_digits(n, &mut out);
    assert(out@ =~= spec_dec_digits(n as nat));
    out
}

/// An all-digit string has a non-negative value.
proof fn lemma_dec_val_nonneg(s: Seq<u8>)
    requires
        spec_all_digits(s),
    ensures
        spec_dec_val(s) >= 0,
    decreases s.len(),
{
    if s.len() > 0 {
        assert(spec_all_digits(s.drop_last()));
        lemma_dec_val_nonneg(s.drop_last());
        assert(spec_dec_val(s.drop_last()) * 10 >= 0) by (nonlinear_arith)
            requires
                spec_dec_val(s.drop_last()) >= 0,
        ;
    }
}

/// Extending an all-digit string on the right can only increase its value.
proof fn lemma_dec_val_prefix_le(s: Seq<u8>, i: int)
    requires
        0 <= i <= s.len(),
        spec_all_digits(s),
    ensures
        spec_dec_val(s.subrange(0, i)) <= spec_dec_val(s),
    decreases s.len() - i,
{
    if i < s.len() {
        lemma_dec_val_prefix_le(s, i + 1);
        let p = s.subrange(0, i);
        let q = s.subrange(0, i + 1);
        assert(q.drop_last() =~= p);
        assert(spec_all_digits(p));
        lemma_dec_val_nonneg(p);
        assert(spec_dec_val(q) == spec_dec_val(p) * 10 + (q.last() - 0x30));
        assert(spec_dec_val(p) * 10 >= spec_dec_val(p)) by (nonlinear_arith)
            requires
                spec_dec_val(p) >= 0,
        ;
    } else {
        assert(s.subrange(0, i) =~= s);
    }
}

/// Parses a non-empty decimal digit string into a `u64`, exactly as
/// [`spec_parse_u64`] says: `None` on an empty string, a non-digit byte, or
/// a value that does not fit.
pub fn parse_u64_dec(s: &Vec<u8>) -> (r: Option<u64>)
    ensures
        r == spec_parse_u64(s@),
{
    if s.len() == 0 {
        return None;
    }
    let mut acc: u64 = 0;
    let mut i: usize = 0;
    while i < s.len()
        invariant
            0 <= i <= s@.len(),
            spec_all_digits(s@.subrange(0, i as int)),
            acc as int == spec_dec_val(s@.subrange(0, i as int)),
        decreases s@.len() - i,
    {
        let b = s[i];
        if b < 0x30 || b > 0x39 {
            assert(!spec_all_digits(s@));
            return None;
        }
        let d: u64 = (b - 0x30) as u64;
        let ghost p = s@.subrange(0, i as int);
        let ghost q = s@.subrange(0, i as int + 1);
        proof {
            assert(q.drop_last() =~= p);
            assert(q.last() == s@[i as int]);
        }
        if acc > (u64::MAX - d) / 10 {
            proof {
                assert(spec_dec_val(q) == spec_dec_val(p) * 10 + d);
                assert(spec_dec_val(p) * 10 + d > u64::MAX as int) by (nonlinear_arith)
                    requires
                        spec_dec_val(p) == acc as int,
                        acc > (u64::MAX - d) / 10,
                        d <= 9,
                ;
                if spec_all_digits(s@) {
                    lemma_dec_val_prefix_le(s@, i as int + 1);
                }
            }
            return None;
        }
        acc = acc * 10 + d;
        i = i + 1;
        assert(acc as int == spec_dec_val(q));
    }
    proof {
        assert(s@.subrange(0, s@.len() as int) =~= s@);
    }
    Some(acc)
}

/// The decimal codec round-trips: printing any `u64` and parsing the digits
/// back yields the same value. This is what lets a cursor be carried through
/// a URL and a response body without drift.
pub proof fn lemma_dec_round_trip(n: u64)
    ensures
        spec_parse_u64(spec_dec_digits(n as nat)) == Some(n),
{
    lemma_dec_digits_are_digits(n as nat);
    lemma_dec_val_of_digits(n as nat);
}

/// Every byte that `spec_dec_digits` emits is an ASCII digit.
proof fn lemma_dec_digits_are_digits(n: nat)
    ensures
        spec_dec_digits(n).len() > 0,
        spec_all_digits(spec_dec_digits(n)),
    decreases n,
{
    if n >= 10 {
        lemma_dec_digits_are_digits(n / 10);
    }
}

/// The value of the digit string of `n` is `n` itself.
proof fn lemma_dec_val_of_digits(n: nat)
    ensures
        spec_dec_val(spec_dec_digits(n)) == n,
    decreases n,
{
    if n < 10 {
        assert(spec_dec_val(Seq::<u8>::empty()) == 0);
        assert(spec_dec_digits(n).drop_last() =~= Seq::<u8>::empty());
        assert(spec_dec_digits(n).last() == (n + 0x30) as u8);
    } else {
        lemma_dec_val_of_digits(n / 10);
        assert(spec_dec_digits(n).drop_last() =~= spec_dec_digits(n / 10));
        assert(spec_dec_digits(n).last() == (n % 10 + 0x30) as u8);
        assert(spec_dec_val(spec_dec_digits(n)) == (n / 10) * 10 + n % 10);
        vstd::arithmetic::div_mod::lemma_fundamental_div_mod(n as int, 10);
        assert((n / 10) * 10 + n % 10 == n);
    }
}

} // verus!
