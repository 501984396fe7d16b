//! Request-side tests: percent-encoding, channel lists, and the two URL
//! encoders.

use pubnub_proto::channels::encode_channels_list;
use pubnub_proto::cursor::{parse_u64_dec, u64_to_dec, Cursor};
use pubnub_proto::encode::{encode_publish, encode_subscribe, PublishRequest, SubscribeRequest};
use pubnub_proto::json::{json_to_bytes, Json};
use pubnub_proto::percent::percent_decode;

fn names(xs: &[&[u8]]) -> Vec<Vec<u8>> {
    xs.iter().map(|x| x.to_vec()).collect()
}

#[test]
fn encodes_single_channel_with_escapes() {
    // The documented example of the encoding crate, reached through the
    // public list encoder: a space and '?' must be escaped, uppercase hex.
    let encoded = encode_channels_list(&names(&[b"foo bar?"]));
    assert_eq!(encoded, b"foo%20bar%3F".to_vec());
}

#[test]
fn percent_round_trip_restores_utf8_names() {
    let original: Vec<u8> = "canal número uno".as_bytes().to_vec();
    let encoded = encode_channels_list(&names(&[&original]));
    // Everything outside ASCII letters and digits is escaped.
    for &b in &encoded {
        assert!(b == b'%' || b.is_ascii_alphanumeric());
    }
    let decoded = percent_decode(&encoded).expect("encoded list must decode");
    assert_eq!(decoded, original);
}

#[test]
fn channel_list_splits_back_to_original_set() {
    let original: Vec<Vec<u8>> = names(&[b"ch a", b"ch,b", b"ch~c"]);
    let encoded = encode_channels_list(&original);
    let parts: Vec<Vec<u8>> = encoded
        .split(|&b| b == b',')
        .map(|p| percent_decode(&p.to_vec()).expect("piece must decode"))
        .collect();
    assert_eq!(parts, original);
}

#[test]
fn empty_channel_list_encodes_empty() {
    assert_eq!(encode_channels_list(&names(&[])), Vec::<u8>::new());
}

#[test]
fn publish_url_has_fixed_template() {
    let request = PublishRequest {
        channel: b"my channel".to_vec(),
        payload: Json::Str(b"hello".to_vec()),
    };
    let url = encode_publish(&b"demo".to_vec(), &b"demo-sub".to_vec(), &request);
    assert_eq!(
        String::from_utf8(url).unwrap(),
        "/publish/demo/demo-sub/0/my%20channel/0/\"hello\""
    );
}

#[test]
fn subscribe_url_with_latest_cursor() {
    let request = SubscribeRequest {
        channels: names(&[b"ch1"]),
        channel_groups: names(&[]),
        timetoken: Cursor::latest(),
    };
    let url = encode_subscribe(&b"demo".to_vec(), &request);
    assert_eq!(
        String::from_utf8(url).unwrap(),
        "/v2/subscribe/demo/ch1/0?channel-group=&tt=0&tr=0"
    );
}

#[test]
fn subscribe_url_with_channels_groups_and_cursor() {
    let request = SubscribeRequest {
        channels: names(&[b"a", b"b c"]),
        channel_groups: names(&[b"g1"]),
        timetoken: Cursor { t: 14607577960932487, r: 2 },
    };
    let url = encode_subscribe(&b"sub-key".to_vec(), &request);
    assert_eq!(
        String::from_utf8(url).unwrap(),
        "/v2/subscribe/sub-key/a,b%20c/0?channel-group=g1&tt=14607577960932487&tr=2"
    );
}

#[test]
fn subscribe_url_with_no_channels_at_all() {
    // An empty set on both sides is still valid protocol syntax.
    let request = SubscribeRequest {
        channels: names(&[]),
        channel_groups: names(&[]),
        timetoken: Cursor::latest(),
    };
    let url = encode_subscribe(&b"demo".to_vec(), &request);
    assert_eq!(
        String::from_utf8(url).unwrap(),
        "/v2/subscribe/demo//0?channel-group=&tt=0&tr=0"
    );
}

#[test]
fn payload_serializes_to_compact_json() {
    let payload = Json::Obj(vec![
        (
            b"a".to_vec(),
            Json::Arr(vec![Json::Num(b"1".to_vec()), Json::Bool(true), Json::Null]),
        ),
        (b"b".to_vec(), Json::Str(b"x\"y\\z".to_vec())),
        (b"c".to_vec(), Json::Str(vec![0x01])),
    ]);
    let text = json_to_bytes(&payload);
    assert_eq!(
        String::from_utf8(text).unwrap(),
        "{\"a\":[1,true,null],\"b\":\"x\\\"y\\\\z\",\"c\":\"\\u0001\"}"
    );
}

#[test]
fn decimal_codec_round_trips_extremes() {
    for n in [0u64, 7, 10, 14607577960932487, u64::MAX] {
        let digits = u64_to_dec(n);
        assert_eq!(digits, n.to_string().into_bytes());
        assert_eq!(parse_u64_dec(&digits), Some(n));
    }
}

#[test]
fn decimal_parser_rejects_bad_strings() {
    assert_eq!(parse_u64_dec(&Vec::new()), None);
    assert_eq!(parse_u64_dec(&b"12a".to_vec()), None);
    assert_eq!(parse_u64_dec(&b"-5".to_vec()), None);
    // One past u64::MAX.
    assert_eq!(parse_u64_dec(&b"18446744073709551616".to_vec()), None);
    // u64::MAX itself still parses.
    assert_eq!(parse_u64_dec(&b"18446744073709551615".to_vec()), Some(u64::MAX));
}
