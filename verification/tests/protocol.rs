use gremlin_client::codec::{decode_value, encode_value, uuid_to_string};
use gremlin_client::conversion::{FromGValue, ToGValue};
use gremlin_client::{GDate, GKind, GMap, GUuid, GValue, GremlinClient, GremlinError, Json, GID, Vertex, VertexProperty};

#[test]
fn scalar_round_trips() {
    assert_eq!(i32::from_gvalue(5i32.to_gvalue()).unwrap(), 5i32);
    assert_eq!(i64::from_gvalue(7i64.to_gvalue()).unwrap(), 7i64);
    assert_eq!(String::from_gvalue("hi".to_gvalue()).unwrap(), "hi".to_string());
    assert_eq!(GDate::from_gvalue(GDate(123).to_gvalue()).unwrap(), GDate(123));
    assert_eq!(GUuid::from_gvalue(GUuid(9).to_gvalue()).unwrap(), GUuid(9));
}

#[test]
fn cast_error_names_both_kinds() {
    match i32::from_gvalue(GValue::Int64(1)) {
        Err(GremlinError::Cast(actual, target)) => {
            assert_eq!(actual, GKind::Int64);
            assert_eq!(target, GKind::Int32);
        }
        other => panic!("expected a cast error, got {:?}", other),
    }
}

#[test]
fn vertex_without_properties_has_none() {
    let v = Vertex::with_label(GID::Int32(1), "person".to_string());
    assert!(v.property("anything").is_none());
}

#[test]
fn vertex_property_returns_first_element() {
    let vp1 = VertexProperty::new(GID::Int32(1), "name".to_string(), GValue::String("a".to_string()));
    let vp2 = VertexProperty::new(GID::Int32(2), "name".to_string(), GValue::String("b".to_string()));
    let v = Vertex::new(
        GID::Int32(9),
        "person".to_string(),
        vec![("name".to_string(), vec![vp1, vp2])],
    );
    let got = v.property("name").expect("property should be present");
    assert_eq!(got.id, GID::Int32(1));
}

#[test]
fn status_204_yields_empty_queue_without_decoding() {
    let frame = Json::Obj(vec![
        ("status".to_string(), Json::Obj(vec![
            ("code".to_string(), Json::Int(204)),
            ("message".to_string(), Json::Str("no content".to_string())),
        ])),
        ("result".to_string(), Json::Obj(vec![
            ("data".to_string(), Json::Str("garbage that would not decode".to_string())),
        ])),
    ]);
    let c = GremlinClient::new();
    let (resp, q) = c.read_response(&frame).unwrap();
    assert_eq!(resp.code, 204);
    assert!(q.is_empty());
}

#[test]
fn status_200_decodes_data_in_order() {
    let data = Json::Obj(vec![
        ("@type".to_string(), Json::Str("g:List".to_string())),
        ("@value".to_string(), Json::Arr(vec![
            Json::Str("x".to_string()),
            Json::Obj(vec![
                ("@type".to_string(), Json::Str("g:Int32".to_string())),
                ("@value".to_string(), Json::Int(42)),
            ]),
        ])),
    ]);
    let frame = Json::Obj(vec![
        ("status".to_string(), Json::Obj(vec![
            ("code".to_string(), Json::Int(200)),
            ("message".to_string(), Json::Str("".to_string())),
        ])),
        ("result".to_string(), Json::Obj(vec![("data".to_string(), data)])),
    ]);
    let c = GremlinClient::new();
    let (resp, q) = c.read_response(&frame).unwrap();
    assert_eq!(resp.code, 200);
    assert_eq!(q.len(), 2);
    match &q[0] {
        GValue::String(s) => assert_eq!(s, "x"),
        other => panic!("expected a string, got {:?}", other),
    }
    match &q[1] {
        GValue::Int32(n) => assert_eq!(*n, 42),
        other => panic!("expected an int, got {:?}", other),
    }
}

#[test]
fn status_500_surfaces_code_and_message() {
    let frame = Json::Obj(vec![
        ("status".to_string(), Json::Obj(vec![
            ("code".to_string(), Json::Int(500)),
            ("message".to_string(), Json::Str("Invalid traversal".to_string())),
        ])),
    ]);
    let c = GremlinClient::new();
    match c.read_response(&frame) {
        Err(GremlinError::Request(code, msg)) => {
            assert_eq!(code, 500);
            assert_eq!(msg, "Invalid traversal");
        }
        other => panic!("expected a request error, got {:?}", other),
    }
}

#[test]
fn framing_prefixes_content_type() {
    let c = GremlinClient::new();
    let bytes = c.prepare_request("g.V()".to_string(), GMap::new(), GUuid(1));
    assert_eq!(bytes[0], 16);
    assert_eq!(&bytes[1..17], b"application/json");
    assert_eq!(bytes[17], b'{');
}

#[test]
fn alias_appears_only_when_set() {
    let c = GremlinClient::new();
    let plain = c.prepare_request("g.V()".to_string(), GMap::new(), GUuid(1));
    let body = String::from_utf8(plain[17..].to_vec()).unwrap();
    assert!(!body.contains("aliases"));
    let aliased = c.alias("g2".to_string());
    let routed = aliased.prepare_request("g.V()".to_string(), GMap::new(), GUuid(1));
    let body2 = String::from_utf8(routed[17..].to_vec()).unwrap();
    assert!(body2.contains("\"aliases\":{\"g\":\"g2\"}"));
}

#[test]
fn uuid_renders_canonically() {
    let u = uuid::Uuid::from_u128(0x00112233445566778899aabbccddeeffu128);
    assert_eq!(uuid_to_string(u.as_u128()), u.to_string());
}

#[test]
fn value_codec_round_trips_a_vertex() {
    let vp = VertexProperty::new(GID::Int64(3), "name".to_string(), GValue::String("ann".to_string()));
    let v = GValue::Vertex(Vertex::new(
        GID::Int32(7),
        "person".to_string(),
        vec![("name".to_string(), vec![vp])],
    ));
    let encoded = encode_value(&v);
    let decoded = decode_value(&encoded).unwrap();
    match decoded {
        GValue::Vertex(x) => {
            assert_eq!(*x.id(), GID::Int32(7));
            assert_eq!(x.label(), "person");
            assert_eq!(x.property("name").unwrap().id, GID::Int64(3));
        }
        other => panic!("expected a vertex, got {:?}", other),
    }
}
