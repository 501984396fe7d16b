//! Request encoders: the path-and-query of a publish or subscribe call.
//!
//! Both encoders are pure: they take the already-validated keys and the
//! typed request values and produce the full request target as bytes (the
//! scheme and host are the HTTP client's business). Every byte of the output
//! is pinned down by the `spec_*_path` functions.

use vstd::prelude::*;

use crate::channels::{encode_channels_list, spec_encode_list};
use crate::cursor::{spec_dec_digits, u64_to_dec, Cursor};
use crate::json::{clone_bytes, json_to_bytes, spec_json_bytes, Json, JsonVal};

verus! {

/// An outbound publish operation: one channel, one JSON payload.
pub struct PublishRequest {
    /// The channel to publish on; percent-encoded into the path.
    pub channel: Vec<u8>,
    /// The payload; serialized to compact JSON and embedded literally.
    pub payload: Json,
}

/// An outbound subscribe operation.
pub struct SubscribeRequest {
    /// Channels to subscribe to; an empty set is valid ("channel groups
    /// only").
    pub channels: Vec<Vec<u8>>,
    /// Channel groups to subscribe to, sent as a query parameter.
    pub channel_groups: Vec<Vec<u8>>,
    /// The cursor to resume from; `{t:0, r:0}` asks for "latest".
    pub timetoken: Cursor,
}

/// The fixed prefix of a publish path: "/publish/".
pub open spec fn spec_lit_publish() -> Seq<u8> {
    seq![0x2Fu8, 0x70u8, 0x75u8, 0x62u8, 0x6Cu8, 0x69u8, 0x73u8, 0x68u8, 0x2Fu8]
}

/// The placeholder segment "/0/" between keys, channel and payload. The
/// literal `0` segments are protocol placeholders for the unused store and
/// metadata flags and are emitted exactly as literals.
pub open spec fn spec_lit_flag_segment() -> Seq<u8> {
    seq![0x2Fu8, 0x30u8, 0x2Fu8]
}

/// The fixed prefix of a subscribe path: "/v2/subscribe/".
pub open spec fn spec_lit_subscribe() -> Seq<u8> {
    seq![
        0x2Fu8,
        0x76u8,
        0x32u8,
        0x2Fu8,
        0x73u8,
        0x75u8,
        0x62u8,
        0x73u8,
        0x63u8,
        0x72u8,
        0x69u8,
        0x62u8,
        0x65u8,
        0x2Fu8,
    ]
}

/// The placeholder end of the subscribe path and the start of its query:
/// "/0?channel-group=". The `0` segment is the same kind of protocol
/// placeholder as in the publish path.
pub open spec fn spec_lit_group_query() -> Seq<u8> {
    seq![
        0x2Fu8,
        0x30u8,
        0x3Fu8,
        0x63u8,
        0x68u8,
        0x61u8,
        0x6Eu8,
        0x6Eu8,
        0x65u8,
        0x6Cu8,
        0x2Du8,
        0x67u8,
        0x72u8,
        0x6Fu8,
        0x75u8,
        0x70u8,
        0x3Du8,
    ]
}

/// The query separator "&tt=" before the cursor position.
pub open spec fn spec_lit_tt() -> Seq<u8> {
    seq![0x26u8, 0x74u8, 0x74u8, 0x3Du8]
}

/// The query separator "&tr=" before the cursor region.
pub open spec fn spec_lit_tr() -> Seq<u8> {
    seq![0x26u8, 0x74u8, 0x72u8, 0x3Du8]
}

/// The request target of a publish:
/// `/publish/{pub_key}/{sub_key}/0/{encoded channel}/0/{compact payload}`.
pub open spec fn spec_publish_path(
    publish_key: Seq<u8>,
    subscribe_key: Seq<u8>,
    channel: Seq<u8>,
    payload: JsonVal,
) -> Seq<u8> {
    spec_lit_publish() + publish_key + seq![0x2Fu8] + subscribe_key + spec_lit_flag_segment()
        + crate::percent::spec_percent_encode(channel) + spec_lit_flag_segment() + spec_json_bytes(
        payload,
    )
}

/// The request target of a subscribe:
/// `/v2/subscribe/{sub_key}/{encoded channels}/0?channel-group={encoded
/// groups}&tt={t}&tr={r}`.
pub open spec fn spec_subscribe_path(
    subscribe_key: Seq<u8>,
    channels: Seq<Seq<u8>>,
    channel_groups: Seq<Seq<u8>>,
    timetoken: Cursor,
) -> Seq<u8> {
    spec_lit_subscribe() + subscribe_key + seq![0x2Fu8] + spec_encode_list(channels)
        + spec_lit_group_query() + spec_encode_list(channel_groups) + spec_lit_tt()
        + spec_dec_digits(timetoken.t as nat) + spec_lit_tr() + spec_dec_digits(
        timetoken.r as nat,
    )
}

/// Appends "/publish/" to `out`.
fn push_lit_publish(out: &mut Vec<u8>)
    ensures
        final(out)@ == old(out)@ + spec_lit_publish(),
{
    out.push(0x2F);
    out.push(0x70);
    out.push(0x75);
    out.push(0x62);
    out.push(0x6C);
    out.push(0x69);
    out.push(0x73);
    out.push(0x68);
    out.push(0x2F);
    assert(out@ =~= old(out)@ + spec_lit_publish());
}

/// Appends the placeholder segment "/0/" to `out`.
fn push_lit_flag_segment(out: &mut Vec<u8>)
    ensures
        final(out)@ == old(out)@ + spec_lit_flag_segment(),
{
    out.push(0x2F);
    out.push(0x30);
    out.push(0x2F);
    assert(out@ =~= old(out)@ + spec_lit_flag_segment());
}

/// Appends "/v2/subscribe/" to `out`.
fn push_lit_subscribe(out: &mut Vec<u8>)
    ensures
        final(out)@ == old(out)@ + spec_lit_subscribe(),
{
    out.push(0x2F);
    out.push(0x76);
    out.push(0x32);
    out.push(0x2F);
    out.push(0x73);
    out.push(0x75);
    out.push(0x62);
    out.push(0x73);
    out.push(0x63);
    out.push(0x72);
    out.push(0x69);
    out.push(0x62);
    out.push(0x65);
    out.push(0x2F);
    assert(out@ =~= old(out)@ + spec_lit_subscribe());
}

/// Appends "/0?channel-group=" to `out`.
fn push_lit_group_query(out: &mut Vec<u8>)
    ensures
        final(out)@ == old(out)@ + spec_lit_group_query(),
{
    out.push(0x2F);
    out.push(0x30);
    out.push(0x3F);
    out.push(0x63);
    out.push(0x68);
    out.push(0x61);
    out.push(0x6E);
    out.push(0x6E);
    out.push(0x65);
    out.push(0x6C);
    out.push(0x2D);
    out.push(0x67);
    out.push(0x72);
    out.push(0x6F);
    out.push(0x75);
    out.push(0x70);
    out.push(0x3D);
    assert(out@ =~= old(out)@ + spec_lit_group_query());
}

/// Builds the request target of a publish operation. Any channel bytes are
/// acceptable — the percent-encoding handles every byte — and the payload is
/// always serializable, since it is already a JSON tree.
pub fn encode_publish(publish_key: &Vec<u8>, subscribe_key: &Vec<u8>, request: &PublishRequest) -> (r:
    Vec<u8>)
    ensures
        r@ == spec_publish_path(publish_key@, subscribe_key@, request.channel@, request.payload@),
{
    let mut out: Vec<u8> = Vec::new();
    push_lit_publish(&mut out);
    let mut k = clone_bytes(publish_key);
    out.append(&mut k);
    out.push(0x2F);
    let mut s = clone_bytes(subscribe_key);
    out.append(&mut s);
    push_lit_flag_segment(&mut out);
    let mut c = crate::percent::percent_encode_bytes(&request.channel);
    out.append(&mut c);
    push_lit_flag_segment(&mut out);
    let mut p = json_to_bytes(&request.payload);
    out.append(&mut p);
    assert(out@ =~= spec_publish_path(
        publish_key@,
        subscribe_key@,
        request.channel@,
        request.payload@,
    ));
    out
}

/// Builds the request target of a subscribe operation. Empty channel or
/// group sets encode to empty lists, which is valid protocol syntax.
pub fn encode_subscribe(subscribe_key: &Vec<u8>, request: &SubscribeRequest) -> (r: Vec<u8>)
    ensures
        r@ == spec_subscribe_path(
            subscribe_key@,
            request.channels.deep_view(),
            request.channel_groups.deep_view(),
            request.timetoken,
        ),
{
    let mut out: Vec<u8> = Vec::new();
    push_lit_subscribe(&mut out);
    let mut s = clone_bytes(subscribe_key);
    out.append(&mut s);
    out.push(0x2F);
    let mut c = encode_channels_list(&request.channels);
    out.append(&mut c);
    push_lit_group_query(&mut out);
    let mut g = encode_channels_list(&request.channel_groups);
    out.append(&mut g);
    out.push(0x26);
    out.push(0x74);
    out.push(0x74);
    out.push(0x3D);
    let mut tt = u64_to_dec(request.timetoken.t);
    out.append(&mut tt);
    out.push(0x26);
    out.push(0x74);
    out.push(0x72);
    out.push(0x3D);
    let mut tr = u64_to_dec(request.timetoken.r as u64);
    out.append(&mut tr);
    assert(out@ =~= spec_subscribe_path(
        subscribe_key@,
        request.channels.deep_view(),
        request.channel_groups.deep_view(),
        request.timetoken,
    ));
    out
}

} // verus!
