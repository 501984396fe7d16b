//! The multi-value channel list of a subscribe request.
//!
//! The service takes the set of channels (and of channel groups) as one
//! path or query segment: each name percent-encoded, the encoded names
//! joined with commas. Since the encoding escapes the comma itself, the
//! commas of the joined list are unambiguous separators, and this module
//! proves it: splitting the list on commas and decoding each piece gives
//! back exactly the names that went in.

use vstd::prelude::*;

use crate::percent::{
    lemma_encode_no_comma, lemma_percent_round_trip, percent_encode_bytes, spec_percent_decode,
    spec_percent_encode,
};

verus! {

/// The encoded comma-joined list of `cs`: an empty list encodes to the
/// empty string, which is valid protocol syntax ("channel groups only").
pub open spec fn spec_encode_list(cs: Seq<Seq<u8>>) -> Seq<u8>
    decreases cs.len(),
{
    if cs.len() == 0 {
        Seq::empty()
    } else if cs.len() == 1 {
        spec_percent_encode(cs[0])
    } else {
        spec_percent_encode(cs[0]) + seq![0x2Cu8] + spec_encode_list(cs.drop_first())
    }
}

/// Appends the encoded list of `channels[i..]` to `out`.
fn push_channels(channels: &Vec<Vec<u8>>, i: usize, out: &mut Vec<u8>)
    requires
        i <= channels@.len(),
    ensures
        final(out)@ == old(out)@ + spec_encode_list(channels.deep_view().skip(i as int)),
    decreases channels@.len() - i,
{
    let ghost cs = channels.deep_view().skip(i as int);
    if i == channels.len() {
        assert(cs =~= Seq::<Seq<u8>>::empty());
        assert(out@ =~= out@ + spec_encode_list(cs));
        return;
    }
    assert(cs[0] == channels@[i as int]@);
    let ghost pre = out@;
    let mut e = percent_encode_bytes(&channels[i]);
    out.append(&mut e);
    if i + 1 < channels.len() {
        out.push(0x2C);
        proof {
            assert(cs.drop_first() =~= channels.deep_view().skip(i as int + 1));
        }
        push_channels(channels, i + 1, out);
        proof {
            let rest = spec_encode_list(cs.drop_first());
            assert(cs.len() >= 2);
            assert(out@ =~= pre + (spec_percent_encode(cs[0]) + seq![0x2Cu8] + rest));
        }
    } else {
        proof {
            assert(cs.len() == 1);
            assert(out@ =~= pre + spec_encode_list(cs));
        }
    }
}

/// Encodes a set of channel (or channel-group) names into the single
/// comma-joined, percent-encoded segment the service expects.
pub fn encode_channels_list(channels: &Vec<Vec<u8>>) -> (r: Vec<u8>)
    ensures
        r@ == spec_encode_list(channels.deep_view()),
{
    let mut out: Vec<u8> = Vec::new();
    push_channels(channels, 0, &mut out);
    proof {
        assert(channels.deep_view().skip(0) =~= channels.deep_view());
        assert(out@ =~= spec_encode_list(channels.deep_view()));
    }
    out
}

/// The canonical split of a byte string on commas. Splitting the empty
/// string gives one empty piece, as a split of "a,b" gives two pieces.
pub open spec fn spec_split_commas(s: Seq<u8>) -> Seq<Seq<u8>>
    decreases s.len(),
{
    if s.len() == 0 {
        seq![Seq::<u8>::empty()]
    } else if s[0] == 0x2C {
        seq![Seq::<u8>::empty()] + spec_split_commas(s.drop_first())
    } else {
        let rest = spec_split_commas(s.drop_first());
        seq![seq![s[0]] + rest[0]] + rest.drop_first()
    }
}

/// A split always has at least one piece.
proof fn lemma_split_nonempty(s: Seq<u8>)
    ensures
        spec_split_commas(s).len() >= 1,
    decreases s.len(),
{
    if s.len() > 0 {
        lemma_split_nonempty(s.drop_first());
    }
}

/// Splitting a comma-free string gives that string as the one piece.
proof fn lemma_split_no_comma(s: Seq<u8>)
    requires
        forall|j: int| 0 <= j < s.len() ==> #[trigger] s[j] != 0x2C,
    ensures
        spec_split_commas(s) == seq![s],
    decreases s.len(),
{
    if s.len() == 0 {
        assert(spec_split_commas(s) =~~= seq![s]);
    } else {
        assert(forall|j: int|
            0 <= j < s.drop_first().len() ==> #[trigger] s.drop_first()[j] != 0x2C);
        lemma_split_no_comma(s.drop_first());
        let rest = spec_split_commas(s.drop_first());
        assert(rest == seq![s.drop_first()]);
        assert(seq![s[0]] + rest[0] =~= s);
        assert(rest.drop_first() =~= Seq::<Seq<u8>>::empty());
        assert(spec_split_commas(s) =~~= seq![s]);
    }
}

/// Splitting `s1 + "," + s2`, with `s1` comma-free, yields `s1` as the first
/// piece and then the pieces of `s2`.
proof fn lemma_split_concat(s1: Seq<u8>, s2: Seq<u8>)
    requires
        forall|j: int| 0 <= j < s1.len() ==> #[trigger] s1[j] != 0x2C,
    ensures
        spec_split_commas(s1 + seq![0x2Cu8] + s2) == seq![s1] + spec_split_commas(s2),
    decreases s1.len(),
{
    let w = s1 + seq![0x2Cu8] + s2;
    if s1.len() == 0 {
        assert(w =~= seq![0x2Cu8] + s2);
        assert(w[0] == 0x2C);
        assert(w.drop_first() =~= s2);
        assert(spec_split_commas(w) =~~= seq![s1] + spec_split_commas(s2));
    } else {
        assert(forall|j: int|
            0 <= j < s1.drop_first().len() ==> #[trigger] s1.drop_first()[j] != 0x2C);
        lemma_split_concat(s1.drop_first(), s2);
        assert(w[0] == s1[0] && s1[0] != 0x2C);
        assert(w.drop_first() =~= s1.drop_first() + seq![0x2Cu8] + s2);
        let rest = spec_split_commas(w.drop_first());
        assert(rest == seq![s1.drop_first()] + spec_split_commas(s2));
        lemma_split_nonempty(s2);
        assert(rest[0] == s1.drop_first());
        assert(seq![w[0]] + rest[0] =~= s1);
        assert(rest.drop_first() =~= spec_split_commas(s2));
        assert(spec_split_commas(w) =~~= seq![s1] + spec_split_commas(s2));
    }
}

/// The encoded list round-trips: splitting the encoded list of any
/// non-empty set of names on commas gives as many pieces as there were
/// names, and each piece percent-decodes to the name at its position — so
/// membership is preserved exactly.
pub proof fn lemma_channels_list_round_trip(cs: Seq<Seq<u8>>)
    requires
        cs.len() > 0,
    ensures
        spec_split_commas(spec_encode_list(cs)).len() == cs.len(),
        forall|i: int|
            0 <= i < cs.len() ==> spec_percent_decode(
                #[trigger] spec_split_commas(spec_encode_list(cs))[i],
            ) == Some(cs[i]),
    decreases cs.len(),
{
    lemma_encode_no_comma(cs[0]);
    lemma_percent_round_trip(cs[0]);
    if cs.len() == 1 {
        lemma_split_no_comma(spec_percent_encode(cs[0]));
        assert(spec_split_commas(spec_encode_list(cs))[0] == spec_percent_encode(cs[0]));
    } else {
        lemma_channels_list_round_trip(cs.drop_first());
        lemma_split_concat(spec_percent_encode(cs[0]), spec_encode_list(cs.drop_first()));
        let parts = spec_split_commas(spec_encode_list(cs));
        let parts_rest = spec_split_commas(spec_encode_list(cs.drop_first()));
        assert(parts == seq![spec_percent_encode(cs[0])] + parts_rest);
        assert forall|i: int| 0 <= i < cs.len() implies spec_percent_decode(#[trigger] parts[i])
            == Some(cs[i]) by {
            if i == 0 {
                assert(parts[0] == spec_percent_encode(cs[0]));
            } else {
                assert(parts[i] == parts_rest[i - 1]);
                assert(cs[i] == cs.drop_first()[i - 1]);
            }
        }
    }
}

} // verus!
