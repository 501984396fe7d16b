//! Response decoders: from a parsed JSON body to typed results.
//!
//! A publish acknowledgement is a tuple-like array whose third element is
//! the new cursor position; a subscribe response is an object with a cursor
//! (`t`) and an array of messages (`m`). Every projection is explicit and
//! fallible: a documented-optional field that is absent or mistyped takes
//! its default, a required field that is absent or mistyped fails the whole
//! call — one malformed message invalidates the batch, there is no partial
//! success.

use vstd::prelude::*;

use crate::cursor::{spec_parse_u64, parse_u64_dec, Cursor};
use crate::json::{
    clone_bytes, clone_json, lemma_arr_view, spec_arr_view, spec_lookup, Json, JsonVal,
};
use crate::ErrorKind;

verus! {

/// The category of a delivered message, decoded from the numeric tag `e`.
/// Unknown tags never fail decoding: they map to [`MessageType::Unknown`],
/// so new server-side tags cannot break this layer.
#[derive(Clone, Copy, Debug, PartialEq, Eq, Structural)]
pub enum MessageType {
    /// A regular published message (tag 0).
    Publish,
    /// A signal (tag 1).
    Signal,
    /// An objects-API event (tag 2).
    Objects,
    /// A message-action event (tag 3).
    Action,
    /// Any other tag: a protocol extension this layer does not know.
    Unknown,
}

/// One delivered message of a subscribe batch.
#[derive(Debug, PartialEq, Eq)]
pub struct Message {
    /// Category of the event, from the tag field `e`.
    pub message_type: MessageType,
    /// Optional wildcard or channel-group match that produced this delivery
    /// (`b`).
    pub route: Option<Vec<u8>>,
    /// The concrete channel the message was delivered on (`c`, required).
    pub channel: Vec<u8>,
    /// The payload (`d`), passed through unmodified; `null` when absent.
    pub json: Json,
    /// Publisher-supplied metadata (`u`), passed through unmodified; `null`
    /// when absent.
    pub metadata: Json,
    /// The per-message cursor (`p`, required; its region defaults to 0).
    pub timetoken: Cursor,
    /// Optional sender identifier (`i`).
    pub client: Option<Vec<u8>>,
    /// The key scope the message was published under (`k`, required).
    pub subscribe_key: Vec<u8>,
    /// Service-defined bitfield (`f`), opaque here; 0 when absent.
    pub flags: u32,
}

/// The mathematical model of a [`Message`].
#[verifier::ext_equal]
pub struct SpecMessage {
    pub message_type: MessageType,
    pub route: Option<Seq<u8>>,
    pub channel: Seq<u8>,
    pub json: JsonVal,
    pub metadata: JsonVal,
    pub timetoken: Cursor,
    pub client: Option<Seq<u8>>,
    pub subscribe_key: Seq<u8>,
    pub flags: u32,
}

impl View for Message {
    type V = SpecMessage;

    open spec fn view(&self) -> SpecMessage {
        SpecMessage {
            message_type: self.message_type,
            route: match self.route {
                Some(v) => Some(v@),
                None => None,
            },
            channel: self.channel@,
            json: self.json@,
            metadata: self.metadata@,
            timetoken: self.timetoken,
            client: match self.client {
                Some(v) => Some(v@),
                None => None,
            },
            subscribe_key: self.subscribe_key@,
            flags: self.flags,
        }
    }
}

/// The model of an optional borrowed JSON value.
pub open spec fn spec_opt_view(o: Option<&Json>) -> Option<JsonVal> {
    match o {
        Some(j) => Some(j@),
        None => None,
    }
}

/// An optional string field: its bytes if present and a string, nothing
/// otherwise.
pub open spec fn spec_as_str(o: Option<JsonVal>) -> Option<Seq<u8>> {
    match o {
        Some(JsonVal::Str(s)) => Some(s),
        _ => None,
    }
}

/// An optional unsigned field: its value if present, a number literal, and
/// within `u32` range; the documented default 0 otherwise.
pub open spec fn spec_u32_or_zero(o: Option<JsonVal>) -> u32 {
    match o {
        Some(JsonVal::Num(t)) => match spec_parse_u64(t) {
            Some(v) => if v <= u32::MAX {
                v as u32
            } else {
                0
            },
            None => 0,
        },
        _ => 0,
    }
}

/// The category for a tag field: the four known tags, and `Unknown` for any
/// other value or shape — never a failure.
pub open spec fn spec_message_type(o: Option<JsonVal>) -> MessageType {
    match o {
        Some(JsonVal::Num(t)) => match spec_parse_u64(t) {
            Some(v) => if v == 0 {
                MessageType::Publish
            } else if v == 1 {
                MessageType::Signal
            } else if v == 2 {
                MessageType::Objects
            } else if v == 3 {
                MessageType::Action
            } else {
                MessageType::Unknown
            },
            None => MessageType::Unknown,
        },
        _ => MessageType::Unknown,
    }
}

/// A payload-like field: the value if present, `null` if absent.
pub open spec fn spec_or_null(o: Option<JsonVal>) -> JsonVal {
    match o {
        Some(v) => v,
        None => JsonVal::Null,
    }
}

/// A `{t, r}` cursor object: `t` is a required decimal string, `r` an
/// optional unsigned defaulting to 0. Anything else fails.
pub open spec fn spec_decode_cursor(v: JsonVal) -> Option<Cursor> {
    match v {
        JsonVal::Obj(fields) => match spec_as_str(spec_lookup(fields, 0x74)) {
            Some(ts) => match spec_parse_u64(ts) {
                Some(t) => Some(Cursor { t, r: spec_u32_or_zero(spec_lookup(fields, 0x72)) }),
                None => None,
            },
            None => None,
        },
        _ => None,
    }
}

/// One message of the `m` array, per the field table: `c`, `k` and a
/// decodable `p` are required, everything else has a documented default.
pub open spec fn spec_decode_message(v: JsonVal) -> Option<SpecMessage> {
    match v {
        JsonVal::Obj(fields) => match (
            spec_as_str(spec_lookup(fields, 0x63)),
            spec_as_str(spec_lookup(fields, 0x6B)),
            spec_lookup(fields, 0x70),
        ) {
            (Some(channel), Some(subscribe_key), Some(pv)) => match spec_decode_cursor(pv) {
                Some(tk) => Some(
                    SpecMessage {
                        message_type: spec_message_type(spec_lookup(fields, 0x65)),
                        route: spec_as_str(spec_lookup(fields, 0x62)),
                        channel,
                        json: spec_or_null(spec_lookup(fields, 0x64)),
                        metadata: spec_or_null(spec_lookup(fields, 0x75)),
                        timetoken: tk,
                        client: spec_as_str(spec_lookup(fields, 0x69)),
                        subscribe_key,
                        flags: spec_u32_or_zero(spec_lookup(fields, 0x66)),
                    },
                ),
                None => None,
            },
            _ => None,
        },
        _ => None,
    }
}

/// The whole batch, in array order; one undecodable message fails the batch.
pub open spec fn spec_decode_messages(items: Seq<JsonVal>) -> Option<Seq<SpecMessage>>
    decreases items.len(),
{
    if items.len() == 0 {
        Some(Seq::empty())
    } else {
        match (spec_decode_message(items[0]), spec_decode_messages(items.drop_first())) {
            (Some(m), Some(rest)) => Some(seq![m] + rest),
            _ => None,
        }
    }
}

/// The elements of the `m` field: its items when it is an array, and an
/// empty batch when it is absent or not an array.
pub open spec fn spec_m_items(o: Option<JsonVal>) -> Seq<JsonVal> {
    match o {
        Some(JsonVal::Arr(items)) => items,
        _ => Seq::empty(),
    }
}

/// A subscribe response: the required cursor under `t`, and the decoded
/// batch of `m`, or nothing if either fails.
pub open spec fn spec_decode_subscribe(v: JsonVal) -> Option<(Seq<SpecMessage>, Cursor)> {
    match v {
        JsonVal::Obj(fields) => match spec_lookup(fields, 0x74) {
            Some(tv) => match spec_decode_cursor(tv) {
                Some(c) => match spec_decode_messages(spec_m_items(spec_lookup(fields, 0x6D))) {
                    Some(ms) => Some((ms, c)),
                    None => None,
                },
                None => None,
            },
            None => None,
        },
        _ => None,
    }
}

/// A publish acknowledgement: an array of three or more elements whose
/// third is the new position as a decimal string. The acknowledgement
/// carries no region: `r` is 0.
pub open spec fn spec_decode_publish(v: JsonVal) -> Option<Cursor> {
    match v {
        JsonVal::Arr(items) => if items.len() >= 3 {
            match items[2] {
                JsonVal::Str(ts) => match spec_parse_u64(ts) {
                    Some(t) => Some(Cursor { t, r: 0 }),
                    None => None,
                },
                _ => None,
            }
        } else {
            None
        },
        _ => None,
    }
}

/// An optional string field, as owned bytes.
fn as_str_clone(o: Option<&Json>) -> (r: Option<Vec<u8>>)
    ensures
        match spec_as_str(spec_opt_view(o)) {
            Some(s) => r matches Some(v) && v@ == s,
            None => r is None,
        },
{
    match o {
        Some(j) => match j {
            Json::Str(s) => Some(clone_bytes(s)),
            _ => None,
        },
        None => None,
    }
}

/// An optional unsigned field, defaulting to 0.
fn u32_or_zero(o: Option<&Json>) -> (r: u32)
    ensures
        r == spec_u32_or_zero(spec_opt_view(o)),
{
    match o {
        Some(j) => match j {
            Json::Num(t) => match parse_u64_dec(t) {
                Some(v) => if v <= 0xFFFF_FFFFu64 {
                    v as u32
                } else {
                    0
                },
                None => 0,
            },
            _ => 0,
        },
        None => 0,
    }
}

/// The category for a tag field.
fn message_type_of(o: Option<&Json>) -> (r: MessageType)
    ensures
        r == spec_message_type(spec_opt_view(o)),
{
    match o {
        Some(j) => match j {
            Json::Num(t) => match parse_u64_dec(t) {
                Some(v) => if v == 0 {
                    MessageType::Publish
                } else if v == 1 {
                    MessageType::Signal
                } else if v == 2 {
                    MessageType::Objects
                } else if v == 3 {
                    MessageType::Action
                } else {
                    MessageType::Unknown
                },
                None => MessageType::Unknown,
            },
            _ => MessageType::Unknown,
        },
        None => MessageType::Unknown,
    }
}

/// Decodes a `{t, r}` cursor object, exactly as [`spec_decode_cursor`].
fn decode_cursor(j: &Json) -> (r: Option<Cursor>)
    ensures
        r == spec_decode_cursor(j@),
{
    match as_str_clone(j.get(0x74)) {
        Some(ts) => match parse_u64_dec(&ts) {
            Some(t) => Some(Cursor { t, r: u32_or_zero(j.get(0x72)) }),
            None => None,
        },
        None => None,
    }
}

/// Decodes one message of the `m` array: `Ok` exactly when
/// [`spec_decode_message`] yields a message, and `MalformedResponse` when a
/// required field is absent or mistyped.
pub fn decode_message(j: &Json) -> (r: Result<Message, ErrorKind>)
    ensures
        match spec_decode_message(j@) {
            Some(m) => r matches Ok(msg) && msg@ == m,
            None => r matches Err(e) && e == ErrorKind::MalformedResponse,
        },
{
    let channel = match as_str_clone(j.get(0x63)) {
        Some(c) => c,
        None => {
            return Err(ErrorKind::MalformedResponse);
        },
    };
    let subscribe_key = match as_str_clone(j.get(0x6B)) {
        Some(k) => k,
        None => {
            return Err(ErrorKind::MalformedResponse);
        },
    };
    let timetoken = match j.get(0x70) {
        Some(p) => match decode_cursor(p) {
            Some(c) => c,
            None => {
                return Err(ErrorKind::MalformedResponse);
            },
        },
        None => {
            return Err(ErrorKind::MalformedResponse);
        },
    };
    let json = match j.get(0x64) {
        Some(d) => clone_json(d),
        None => Json::Null,
    };
    let metadata = match j.get(0x75) {
        Some(u) => clone_json(u),
        None => Json::Null,
    };
    let msg = Message {
        message_type: message_type_of(j.get(0x65)),
        route: as_str_clone(j.get(0x62)),
        channel,
        json,
        metadata,
        timetoken,
        client: as_str_clone(j.get(0x69)),
        subscribe_key,
        flags: u32_or_zero(j.get(0x66)),
    };
    proof {
        assert(msg@ =~= spec_decode_message(j@)->Some_0);
    }
    Ok(msg)
}

/// Decodes the messages `items[i..]`, appending them to `out` in array
/// order.
fn decode_messages_from(items: &Vec<Json>, i: usize, out: &mut Vec<Message>) -> (r: Result<
    (),
    ErrorKind,
>)
    requires
        i <= items@.len(),
    ensures
        match spec_decode_messages(spec_arr_view(items@).skip(i as int)) {
            Some(ms) => r is Ok && final(out)@.len() == old(out)@.len() + ms.len() && (forall|k: int|
                0 <= k < old(out)@.len() ==> final(out)@[k] == old(out)@[k]) && (forall|k: int|
                0 <= k < ms.len() ==> (#[trigger] final(out)@[old(out)@.len() + k])@ == ms[k]),
            None => r matches Err(e) && e == ErrorKind::MalformedResponse,
        },
    decreases items@.len() - i,
{
    proof {
        lemma_arr_view(items@);
    }
    let ghost vs = spec_arr_view(items@).skip(i as int);
    if i == items.len() {
        assert(vs =~= Seq::<JsonVal>::empty());
        return Ok(());
    }
    assert(vs[0] == spec_arr_view(items@)[i as int]);
    match decode_message(&items[i]) {
        Ok(m) => {
            let ghost pre = out@;
            let ghost mv = m@;
            out.push(m);
            proof {
                assert(vs.drop_first() =~= spec_arr_view(items@).skip(i as int + 1));
            }
            let res = decode_messages_from(items, i + 1, out);
            proof {
                if let Some(rest) = spec_decode_messages(vs.drop_first()) {
                    let ms = spec_decode_messages(vs)->Some_0;
                    assert(ms == seq![mv] + rest);
                    assert(out@.len() == pre.len() + ms.len());
                    assert forall|k: int| 0 <= k < ms.len() implies (#[trigger] out@[pre.len()
                        + k])@ == ms[k] by {
                        if k == 0 {
                            assert(out@[pre.len() as int] == (pre + seq![m])[pre.len() as int]);
                        } else {
                            assert(out@[pre.len() + 1 + (k - 1)]@ == rest[k - 1]);
                            assert(ms[k] == rest[k - 1]);
                        }
                    }
                }
            }
            res
        },
        Err(e) => Err(e),
    }
}

/// Decodes a subscribe response: `Ok` with the new cursor and the batch, in
/// array order, exactly when [`spec_decode_subscribe`] yields one;
/// `MalformedResponse` otherwise.
pub fn decode_subscribe(j: &Json) -> (r: Result<(Vec<Message>, Cursor), ErrorKind>)
    ensures
        match spec_decode_subscribe(j@) {
            Some((ms, c)) => r matches Ok(p) && p.1 == c && p.0@.len() == ms.len() && (forall|
                i: int,
            | 0 <= i < ms.len() ==> (#[trigger] p.0@[i])@ == ms[i]),
            None => r matches Err(e) && e == ErrorKind::MalformedResponse,
        },
{
    let tv = match j.get(0x74) {
        Some(t) => t,
        None => {
            return Err(ErrorKind::MalformedResponse);
        },
    };
    let cursor = match decode_cursor(tv) {
        Some(c) => c,
        None => {
            return Err(ErrorKind::MalformedResponse);
        },
    };
    let mut messages: Vec<Message> = Vec::new();
    match j.get(0x6D) {
        Some(mj) => match mj {
            Json::Arr(items) => {
                proof {
                    assert(spec_arr_view(items@).skip(0) =~= spec_arr_view(items@));
                }
                let ghost pre = messages@;
                match decode_messages_from(items, 0, &mut messages) {
                    Ok(()) => {
                        proof {
                            let msv = spec_decode_messages(spec_arr_view(items@))->Some_0;
                            assert forall|i: int|
                                0 <= i < msv.len() implies (#[trigger] messages@[i])@ == msv[i] by {
                                assert(messages@[pre.len() + i]@ == msv[i]);
                            }
                        }
                    },
                    Err(e) => {
                        return Err(e);
                    },
                }
            },
            _ => {},
        },
        None => {},
    }
    Ok((messages, cursor))
}

/// Decodes a publish acknowledgement, exactly as [`spec_decode_publish`].
pub fn decode_publish(j: &Json) -> (r: Result<Cursor, ErrorKind>)
    ensures
        match spec_decode_publish(j@) {
            Some(c) => r matches Ok(x) && x == c,
            None => r matches Err(e) && e == ErrorKind::MalformedResponse,
        },
{
    match j {
        Json::Arr(items) => {
            proof {
                lemma_arr_view(items@);
            }
            if items.len() >= 3 {
                match &items[2] {
                    Json::Str(ts) => match parse_u64_dec(ts) {
                        Some(t) => Ok(Cursor { t, r: 0 }),
                        None => Err(ErrorKind::MalformedResponse),
                    },
                    _ => Err(ErrorKind::MalformedResponse),
                }
            } else {
                Err(ErrorKind::MalformedResponse)
            }
        },
        _ => Err(ErrorKind::MalformedResponse),
    }
}

/// One undecodable element fails the whole batch: if any message of the
/// array is malformed, the batch decodes to nothing — there is no partial
/// message list.
pub proof fn lemma_batch_all_or_nothing(items: Seq<JsonVal>, i: int)
    requires
        0 <= i < items.len(),
        spec_decode_message(items[i]) is None,
    ensures
        spec_decode_messages(items) is None,
    decreases items.len(),
{
    if i > 0 {
        assert(items.drop_first()[i - 1] == items[i]);
        lemma_batch_all_or_nothing(items.drop_first(), i - 1);
    }
}

/// One malformed message fails the entire subscribe call: if any element of
/// the response's `m` array is undecodable, the whole response decodes to
/// nothing, whatever the rest of it holds.
pub proof fn lemma_one_bad_message_fails_subscribe(fields: Seq<(Seq<u8>, JsonVal)>, i: int)
    requires
        0 <= i < spec_m_items(spec_lookup(fields, 0x6D)).len(),
        spec_decode_message(spec_m_items(spec_lookup(fields, 0x6D))[i]) is None,
    ensures
        spec_decode_subscribe(JsonVal::Obj(fields)) is None,
{
    lemma_batch_all_or_nothing(spec_m_items(spec_lookup(fields, 0x6D)), i);
}

/// A decoded batch preserves array order exactly: it has one message per
/// array element, and the message at each position is the decoding of the
/// element at that position.
pub proof fn lemma_messages_in_order(items: Seq<JsonVal>)
    requires
        spec_decode_messages(items) is Some,
    ensures
        spec_decode_messages(items)->Some_0.len() == items.len(),
        forall|i: int|
            0 <= i < items.len() ==> Some(#[trigger] spec_decode_messages(items)->Some_0[i])
                == spec_decode_message(items[i]),
    decreases items.len(),
{
    if items.len() > 0 {
        lemma_messages_in_order(items.drop_first());
        let ms = spec_decode_messages(items)->Some_0;
        let rest = spec_decode_messages(items.drop_first())->Some_0;
        assert forall|i: int| 0 <= i < items.len() implies Some(#[trigger] ms[i])
            == spec_decode_message(items[i]) by {
            if i > 0 {
                assert(ms[i] == rest[i - 1]);
                assert(items.drop_first()[i - 1] == items[i]);
            }
        }
    }
}

} // verus!
