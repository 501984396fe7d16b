//! Response-side tests: publish acknowledgements and subscribe batches.

use pubnub_proto::cursor::Cursor;
use pubnub_proto::decode::{decode_message, decode_publish, decode_subscribe, MessageType};
use pubnub_proto::json::{clone_json, Json};
use pubnub_proto::ErrorKind;

fn obj(fields: Vec<(&[u8], Json)>) -> Json {
    Json::Obj(fields.into_iter().map(|(k, v)| (k.to_vec(), v)).collect())
}

fn s(bytes: &[u8]) -> Json {
    Json::Str(bytes.to_vec())
}

fn n(literal: &[u8]) -> Json {
    Json::Num(literal.to_vec())
}

/// The cursor object `{"t": "<t>", "r": <r>}`.
fn cursor_json(t: &[u8], r: Option<&[u8]>) -> Json {
    let mut fields = vec![(b"t" as &[u8], s(t))];
    if let Some(r) = r {
        fields.push((b"r", n(r)));
    }
    obj(fields)
}

#[test]
fn publish_ack_yields_cursor() {
    // [1,"Sent","14607577960932487"] acknowledges with the new position.
    let ack = Json::Arr(vec![n(b"1"), s(b"Sent"), s(b"14607577960932487")]);
    assert_eq!(decode_publish(&ack), Ok(Cursor { t: 14607577960932487, r: 0 }));
}

#[test]
fn publish_ack_malformed_shapes_fail() {
    let short = Json::Arr(vec![n(b"1"), s(b"Sent")]);
    assert_eq!(decode_publish(&short), Err(ErrorKind::MalformedResponse));
    let not_a_string = Json::Arr(vec![n(b"1"), s(b"Sent"), n(b"7")]);
    assert_eq!(decode_publish(&not_a_string), Err(ErrorKind::MalformedResponse));
    let not_a_number = Json::Arr(vec![n(b"1"), s(b"Sent"), s(b"soon")]);
    assert_eq!(decode_publish(&not_a_number), Err(ErrorKind::MalformedResponse));
    let not_an_array = s(b"Sent");
    assert_eq!(decode_publish(&not_an_array), Err(ErrorKind::MalformedResponse));
}

#[test]
fn subscribe_empty_batch_yields_cursor_and_no_messages() {
    // {"t":{"t":"15","r":0},"m":[]}
    let body = obj(vec![
        (b"t", cursor_json(b"15", Some(b"0"))),
        (b"m", Json::Arr(vec![])),
    ]);
    let (messages, cursor) = decode_subscribe(&body).expect("well-formed response");
    assert_eq!(cursor, Cursor { t: 15, r: 0 });
    assert!(messages.is_empty());
}

#[test]
fn subscribe_one_message_with_defaults() {
    // {"t":{"t":"100","r":2},"m":[{"e":0,"c":"ch1","d":"hello",
    //  "p":{"t":"99","r":1},"k":"sub-a"}]}
    let message = obj(vec![
        (b"e", n(b"0")),
        (b"c", s(b"ch1")),
        (b"d", s(b"hello")),
        (b"p", cursor_json(b"99", Some(b"1"))),
        (b"k", s(b"sub-a")),
    ]);
    let body = obj(vec![
        (b"t", cursor_json(b"100", Some(b"2"))),
        (b"m", Json::Arr(vec![message])),
    ]);
    let (messages, cursor) = decode_subscribe(&body).expect("well-formed response");
    assert_eq!(cursor, Cursor { t: 100, r: 2 });
    assert_eq!(messages.len(), 1);
    let m = &messages[0];
    assert_eq!(m.message_type, MessageType::Publish);
    assert_eq!(m.channel, b"ch1".to_vec());
    assert_eq!(m.json, s(b"hello"));
    assert_eq!(m.timetoken, Cursor { t: 99, r: 1 });
    assert_eq!(m.route, None);
    assert_eq!(m.metadata, Json::Null);
    assert_eq!(m.client, None);
    assert_eq!(m.subscribe_key, b"sub-a".to_vec());
    assert_eq!(m.flags, 0);
}

#[test]
fn subscribe_message_missing_channel_fails_whole_call() {
    // One element lacks the required "c": no partial message list comes back.
    let good = obj(vec![
        (b"c", s(b"ch1")),
        (b"p", cursor_json(b"99", None)),
        (b"k", s(b"sub-a")),
    ]);
    let bad = obj(vec![
        (b"p", cursor_json(b"99", None)),
        (b"k", s(b"sub-a")),
    ]);
    let body = obj(vec![
        (b"t", cursor_json(b"100", Some(b"0"))),
        (b"m", Json::Arr(vec![good, bad])),
    ]);
    assert_eq!(decode_subscribe(&body), Err(ErrorKind::MalformedResponse));
}

#[test]
fn subscribe_preserves_message_order() {
    let make = |channel: &[u8], t: &[u8]| {
        obj(vec![
            (b"c", s(channel)),
            (b"p", cursor_json(t, None)),
            (b"k", s(b"sub-a")),
        ])
    };
    let body = obj(vec![
        (b"t", cursor_json(b"200", Some(b"0"))),
        (
            b"m",
            Json::Arr(vec![make(b"ch1", b"101"), make(b"ch2", b"102"), make(b"ch3", b"103")]),
        ),
    ]);
    let (messages, _) = decode_subscribe(&body).expect("well-formed response");
    let channels: Vec<Vec<u8>> = messages.iter().map(|m| m.channel.clone()).collect();
    assert_eq!(channels, vec![b"ch1".to_vec(), b"ch2".to_vec(), b"ch3".to_vec()]);
    assert_eq!(messages[0].timetoken.t, 101);
    assert_eq!(messages[1].timetoken.t, 102);
    assert_eq!(messages[2].timetoken.t, 103);
}

#[test]
fn subscribe_without_message_array_is_empty_batch() {
    let body = obj(vec![(b"t", cursor_json(b"15", None))]);
    let (messages, cursor) = decode_subscribe(&body).expect("cursor alone is enough");
    assert_eq!(cursor, Cursor { t: 15, r: 0 });
    assert!(messages.is_empty());
}

#[test]
fn subscribe_missing_or_bad_cursor_fails() {
    let no_t = obj(vec![(b"m", Json::Arr(vec![]))]);
    assert_eq!(decode_subscribe(&no_t), Err(ErrorKind::MalformedResponse));
    let t_not_string = obj(vec![(b"t", obj(vec![(b"t", n(b"15"))]))]);
    assert_eq!(decode_subscribe(&t_not_string), Err(ErrorKind::MalformedResponse));
    let t_overflow = obj(vec![(b"t", cursor_json(b"18446744073709551616", None))]);
    assert_eq!(decode_subscribe(&t_overflow), Err(ErrorKind::MalformedResponse));
}

#[test]
fn optional_fields_tolerate_wrong_shapes() {
    // A mistyped optional field takes its default instead of failing.
    let message = obj(vec![
        (b"e", s(b"seven")),
        (b"b", n(b"1")),
        (b"c", s(b"ch1")),
        (b"p", cursor_json(b"99", None)),
        (b"k", s(b"sub-a")),
        (b"f", s(b"not-a-number")),
    ]);
    let m = decode_message(&message).expect("optional fields have defaults");
    assert_eq!(m.message_type, MessageType::Unknown);
    assert_eq!(m.route, None);
    assert_eq!(m.flags, 0);
    assert_eq!(m.timetoken, Cursor { t: 99, r: 0 });
}

#[test]
fn known_and_unknown_tags_map_to_variants() {
    let with_tag = |tag: Json| {
        obj(vec![
            (b"e", tag),
            (b"c", s(b"ch")),
            (b"p", cursor_json(b"1", None)),
            (b"k", s(b"k")),
        ])
    };
    let cases = [
        (n(b"0"), MessageType::Publish),
        (n(b"1"), MessageType::Signal),
        (n(b"2"), MessageType::Objects),
        (n(b"3"), MessageType::Action),
        (n(b"7"), MessageType::Unknown),
        (n(b"99999999999999999999"), MessageType::Unknown),
    ];
    for (tag, expected) in cases {
        let m = decode_message(&with_tag(tag)).expect("tag never fails decoding");
        assert_eq!(m.message_type, expected);
    }
}

#[test]
fn payload_and_metadata_pass_through_unmodified() {
    let payload = Json::Obj(vec![(
        b"deep".to_vec(),
        Json::Arr(vec![Json::Num(b"1.5".to_vec()), Json::Bool(false)]),
    )]);
    let metadata = Json::Arr(vec![Json::Null, Json::Str(b"meta".to_vec())]);
    let message = obj(vec![
        (b"c", s(b"ch1")),
        (b"d", clone_json(&payload)),
        (b"u", clone_json(&metadata)),
        (b"p", cursor_json(b"99", None)),
        (b"k", s(b"sub-a")),
    ]);
    let m = decode_message(&message).expect("well-formed message");
    assert_eq!(m.json, payload);
    assert_eq!(m.metadata, metadata);
}
