use repan_stream::envelope::{decode, encode, envelope_from_json, envelope_to_json, ClientMessage, CodecError, Envelope, SdpKind};
use repan_stream::json::Json;

fn offer(id: &str, sdp: &str) -> Envelope {
    Envelope {
        id: id.to_string(),
        message: ClientMessage::Sdp { kind: SdpKind::Offer, sdp: sdp.to_string() },
    }
}

#[test]
fn decodes_client_offer() {
    let got = decode(br#"{"id":"u1","sdp":{"type":"offer","sdp":"v=0..."}}"#);
    assert_eq!(got, Ok(offer("u1", "v=0...")));
}

#[test]
fn decodes_answer_ice_and_changejam() {
    let answer = decode(br#"{"id":"a","sdp":{"sdp":"x","type":"answer"}}"#).unwrap();
    assert_eq!(answer.message, ClientMessage::Sdp { kind: SdpKind::Answer, sdp: "x".to_string() });
    let ice = decode(br#"{"ice":{"candidate":"c1","sdpMLineIndex":3},"id":"b"}"#).unwrap();
    assert_eq!(ice.id, "b");
    assert_eq!(ice.message, ClientMessage::Ice { candidate: "c1".to_string(), mline: 3 });
    let jam = decode(br#"{"id":"c","changejam":{"path":"/j/","date":"240101_1200","tracks":["kick","snare"]}}"#).unwrap();
    assert_eq!(
        jam.message,
        ClientMessage::ChangeJam {
            path: "/j/".to_string(),
            date: "240101_1200".to_string(),
            tracks: vec!["kick".to_string(), "snare".to_string()],
        }
    );
}

#[test]
fn ignores_unknown_members() {
    let got = decode(br#"{"extra":[1,2,{"x":null}],"id":"u1","sdp":{"type":"offer","sdp":"s","more":true}}"#);
    assert_eq!(got, Ok(offer("u1", "s")));
}

#[test]
fn rejects_missing_id() {
    assert_eq!(decode(br#"{"sdp":{"type":"offer","sdp":"s"}}"#), Err(CodecError::MissingId));
    assert_eq!(decode(br#"{"id":7,"sdp":{"type":"offer","sdp":"s"}}"#), Err(CodecError::MissingId));
}

#[test]
fn rejects_unknown_sdp_type() {
    assert_eq!(decode(br#"{"id":"u1","sdp":{"type":"pranswer","sdp":"s"}}"#), Err(CodecError::UnknownSdpType));
}

#[test]
fn rejects_unmatched_payload() {
    assert_eq!(decode(br#"{"id":"u1","hello":{}}"#), Err(CodecError::InvalidPayload));
    assert_eq!(decode(br#"{"id":"u1","sdp":{"type":"offer"}}"#), Err(CodecError::InvalidPayload));
    assert_eq!(
        decode(br#"{"id":"u1","ice":{"candidate":"c","sdpMLineIndex":4294967296}}"#),
        Err(CodecError::InvalidPayload)
    );
    assert_eq!(
        decode(br#"{"id":"u1","ice":{"candidate":"c","sdpMLineIndex":-1}}"#),
        Err(CodecError::InvalidPayload)
    );
    assert_eq!(
        decode(br#"{"id":"u1","changejam":{"path":"p","date":"d","tracks":["a",2]}}"#),
        Err(CodecError::InvalidPayload)
    );
}

#[test]
fn rejects_non_json_and_non_object() {
    assert_eq!(decode(b"{\"id\":"), Err(CodecError::NotJson));
    assert_eq!(decode(b"[1,2]"), Err(CodecError::NotAnObject));
}

#[test]
fn sdp_shape_wins_over_ice_shape() {
    let got = decode(br#"{"id":"u1","ice":{"candidate":"c","sdpMLineIndex":0},"sdp":{"type":"answer","sdp":"s"}}"#).unwrap();
    assert_eq!(got.message, ClientMessage::Sdp { kind: SdpKind::Answer, sdp: "s".to_string() });
}

#[test]
fn encodes_compact_json_in_member_order() {
    let bytes = encode(&offer("u1", "v=0"));
    assert_eq!(String::from_utf8(bytes).unwrap(), r#"{"id":"u1","sdp":{"type":"offer","sdp":"v=0"}}"#);
    let ice = Envelope { id: "u2".to_string(), message: ClientMessage::Ice { candidate: "c".to_string(), mline: 1 } };
    assert_eq!(String::from_utf8(encode(&ice)).unwrap(), r#"{"id":"u2","ice":{"candidate":"c","sdpMLineIndex":1}}"#);
}

#[test]
fn round_trips_every_payload() {
    let cases = vec![
        offer("u1", "v=0\r\no=- 1 2 IN IP4 0.0.0.0\r\n"),
        Envelope { id: "é\"q".to_string(), message: ClientMessage::Sdp { kind: SdpKind::Answer, sdp: String::new() } },
        Envelope { id: "x".to_string(), message: ClientMessage::Ice { candidate: "candidate:1 1 UDP".to_string(), mline: u32::MAX } },
        Envelope {
            id: "".to_string(),
            message: ClientMessage::ChangeJam { path: "/a/".to_string(), date: "d".to_string(), tracks: vec![] },
        },
        Envelope {
            id: "j".to_string(),
            message: ClientMessage::ChangeJam {
                path: "p".to_string(),
                date: "d".to_string(),
                tracks: vec!["kick".to_string(), "kick".to_string(), "\u{1F3B8}".to_string()],
            },
        },
    ];
    for e in cases {
        assert_eq!(decode(&encode(&e)), Ok(e.clone()));
    }
}

#[test]
fn numbers_outside_u32_do_not_match_ice() {
    assert_eq!(decode(br#"{"id":"u1","ice":{"candidate":"c","sdpMLineIndex":1.5}}"#), Err(CodecError::InvalidPayload));
    assert_eq!(
        decode(br#"{"id":"u1","ice":{"candidate":"c","sdpMLineIndex":4294967295}}"#).unwrap().message,
        ClientMessage::Ice { candidate: "c".to_string(), mline: u32::MAX }
    );
}

#[test]
fn tree_level_codec() {
    let e = offer("u9", "s");
    let j = envelope_to_json(&e);
    assert_eq!(envelope_from_json(&j), Ok(e));
    assert_eq!(envelope_from_json(&Json::Null), Err(CodecError::NotAnObject));
}
