use privileged_ipc::api::{
    decode_recvy, decode_sendy, encode_recvy, encode_sendy, Package, RecvyMessage, SendyMessage,
};
use privileged_ipc::moss::{
    classify_ping_response, decode_request, decode_response, encode_request, encode_response,
    Request, Response,
};
use privileged_ipc::channel::{IoKind, IpcError};
use privileged_ipc::text::chars_to_string;

fn to_string(v: Vec<char>) -> String {
    chars_to_string(&v)
}

fn to_chars(s: &str) -> Vec<char> {
    s.chars().collect()
}

#[test]
fn sendy_encodings_are_canonical() {
    assert_eq!(to_string(encode_sendy(&SendyMessage::DoThings(42))), "{\"DoThings\":42}");
    assert_eq!(to_string(encode_sendy(&SendyMessage::DoThings(-5))), "{\"DoThings\":-5}");
    assert_eq!(to_string(encode_sendy(&SendyMessage::DoThings(-128))), "{\"DoThings\":-128}");
    assert_eq!(to_string(encode_sendy(&SendyMessage::ListThePackages)), "\"ListThePackages\"");
    assert_eq!(to_string(encode_sendy(&SendyMessage::WhatsYourUID)), "\"WhatsYourUID\"");
}

#[test]
fn sendy_round_trip() {
    for m in [
        SendyMessage::DoThings(42),
        SendyMessage::DoThings(-128),
        SendyMessage::DoThings(127),
        SendyMessage::DoThings(0),
        SendyMessage::ListThePackages,
        SendyMessage::WhatsYourUID,
    ] {
        let encoded = encode_sendy(&m);
        assert_eq!(decode_sendy(&encoded), Some(m));
    }
}

#[test]
fn sendy_decode_rejects_noise() {
    assert_eq!(decode_sendy(&to_chars("\"SomethingElse\"")), None);
    assert_eq!(decode_sendy(&to_chars("{\"DoThings\":999}")), None);
    assert_eq!(decode_sendy(&to_chars("{\"DoThings\":12")), None);
    assert_eq!(decode_sendy(&to_chars("nonsense")), None);
    assert_eq!(decode_sendy(&to_chars("")), None);
}

#[test]
fn sendy_matches_serde_json() {
    let mut map = serde_json::Map::new();
    map.insert("DoThings".to_string(), serde_json::Value::from(42));
    let expected = serde_json::to_string(&serde_json::Value::Object(map)).unwrap();
    assert_eq!(to_string(encode_sendy(&SendyMessage::DoThings(42))), expected);

    let unit = serde_json::to_string(&serde_json::Value::String("WhatsYourUID".into())).unwrap();
    assert_eq!(to_string(encode_sendy(&SendyMessage::WhatsYourUID)), unit);
}

#[test]
fn recvy_string_escapes_match_serde_json() {
    let tricky = "quote:\" backslash:\\ newline:\n tab:\t bell:\u{7} high:\u{1f} ünïcode ok";
    let mine = to_string(encode_recvy(&RecvyMessage::GotThings(tricky.to_string())));
    let mut map = serde_json::Map::new();
    map.insert("GotThings".to_string(), serde_json::Value::String(tricky.to_string()));
    let expected = serde_json::to_string(&serde_json::Value::Object(map)).unwrap();
    assert_eq!(mine, expected);
    // and serde_json can parse what this codec wrote
    let parsed: serde_json::Value = serde_json::from_str(&mine).unwrap();
    assert_eq!(parsed["GotThings"], serde_json::Value::String(tricky.to_string()));
}

#[test]
fn recvy_round_trip_with_escapes() {
    let tricky = "a\"b\\c\nd\u{1}e";
    let m = RecvyMessage::GotThings(tricky.to_string());
    let encoded = encode_recvy(&m);
    match decode_recvy(&encoded) {
        Some(RecvyMessage::GotThings(s)) => assert_eq!(s, tricky),
        other => panic!("unexpected decode: {:?}", other.is_some()),
    }
}

#[test]
fn package_encoding_matches_serde_json() {
    let packages = Package::get_sample_packages();
    let p = &packages[0];
    let mine = to_string(encode_recvy(&RecvyMessage::HereIsOnePackage(Package {
        name: p.name.clone(),
        version: p.version.clone(),
        description: p.description.clone(),
        size: p.size,
        installed_size: p.installed_size,
        arch: p.arch.clone(),
        url: p.url.clone(),
        license: p.license.clone(),
    })));
    let mut inner = serde_json::Map::new();
    inner.insert("name".to_string(), serde_json::Value::String("firefox".into()));
    inner.insert("version".to_string(), serde_json::Value::String("120.0.1".into()));
    inner.insert(
        "description".to_string(),
        serde_json::Value::String("Mozilla Firefox web browser".into()),
    );
    inner.insert("size".to_string(), serde_json::Value::from(50_000_000u64));
    inner.insert("installed_size".to_string(), serde_json::Value::from(200_000_000u64));
    inner.insert("arch".to_string(), serde_json::Value::String("x86_64".into()));
    inner.insert(
        "url".to_string(),
        serde_json::Value::String("https://www.mozilla.org/firefox".into()),
    );
    inner.insert("license".to_string(), serde_json::Value::String("MPL-2.0".into()));
    let mut outer = serde_json::Map::new();
    outer.insert("HereIsOnePackage".to_string(), serde_json::Value::Object(inner));
    let expected = serde_json::Value::Object(outer);
    let parsed: serde_json::Value = serde_json::from_str(&mine).unwrap();
    assert_eq!(parsed, expected);
}

#[test]
fn package_round_trip() {
    let packages = Package::get_sample_packages();
    assert_eq!(packages.len(), 3);
    assert_eq!(packages[0].name, "firefox");
    assert_eq!(packages[1].name, "vlc");
    assert_eq!(packages[2].name, "gimp");
    assert_eq!(packages[2].installed_size, 300_000_000);
    for p in packages {
        let name = p.name.clone();
        let size = p.size;
        let encoded = encode_recvy(&RecvyMessage::HereIsOnePackage(p));
        match decode_recvy(&encoded) {
            Some(RecvyMessage::HereIsOnePackage(q)) => {
                assert_eq!(q.name, name);
                assert_eq!(q.size, size);
            }
            _ => panic!("package did not round trip"),
        }
    }
}

#[test]
fn recvy_uid_round_trip() {
    let m = RecvyMessage::HereIsYourUID(4294967295);
    let encoded = encode_recvy(&m);
    assert_eq!(to_string(encode_recvy(&RecvyMessage::HereIsYourUID(0))), "{\"HereIsYourUID\":0}");
    match decode_recvy(&encoded) {
        Some(RecvyMessage::HereIsYourUID(v)) => assert_eq!(v, 4294967295),
        _ => panic!("uid did not round trip"),
    }
}

#[test]
fn request_response_round_trip() {
    assert_eq!(to_string(encode_request(&Request::Ping)), "{\"type\":\"Ping\"}");
    assert_eq!(decode_request(&to_chars("{\"type\":\"Ping\"}")), Some(Request::Ping));
    assert_eq!(decode_request(&to_chars("{\"type\":\"Pong\"}")), None);
    assert_eq!(to_string(encode_response(&Response::Pong)), "{\"type\":\"Pong\"}");
    let err = Response::Error { message: "boom".to_string() };
    let encoded = encode_response(&err);
    assert_eq!(to_string(encode_response(&err)), "{\"type\":\"Error\",\"message\":\"boom\"}");
    match decode_response(&encoded) {
        Some(Response::Error { message }) => assert_eq!(message, "boom"),
        _ => panic!("error response did not round trip"),
    }
}

#[test]
fn tagged_encoding_matches_serde_json() {
    let mut map = serde_json::Map::new();
    map.insert("type".to_string(), serde_json::Value::String("Error".into()));
    map.insert("message".to_string(), serde_json::Value::String("boom".into()));
    let expected = serde_json::Value::Object(map);
    let err = Response::Error { message: "boom".to_string() };
    let parsed: serde_json::Value =
        serde_json::from_str(&to_string(encode_response(&err))).unwrap();
    assert_eq!(parsed, expected);
}

#[test]
fn ping_classification() {
    assert_eq!(classify_ping_response(&Some(Response::Pong)), Ok(()));
    assert_eq!(
        classify_ping_response(&Some(Response::Error { message: "no".to_string() })),
        Err(IpcError::Io(IoKind::Other))
    );
    assert_eq!(classify_ping_response(&None), Err(IpcError::ConnectionClosed));
}

#[test]
fn numeric_bounds_are_enforced() {
    assert_eq!(decode_sendy(&to_chars("{\"DoThings\":128}")), None);
    assert_eq!(decode_sendy(&to_chars("{\"DoThings\":-129}")), None);
    assert_eq!(decode_sendy(&to_chars("{\"DoThings\":127}")), Some(SendyMessage::DoThings(127)));
    assert_eq!(
        decode_sendy(&to_chars("{\"DoThings\":-128}")),
        Some(SendyMessage::DoThings(-128))
    );
    // a uid beyond 32 bits, and one beyond 64, are both malformed
    assert!(decode_recvy(&to_chars("{\"HereIsYourUID\":4294967296}")).is_none());
    assert!(decode_recvy(&to_chars("{\"HereIsYourUID\":99999999999999999999999999}")).is_none());
    match decode_recvy(&to_chars("{\"HereIsYourUID\":4294967295}")) {
        Some(RecvyMessage::HereIsYourUID(v)) => assert_eq!(v, u32::MAX),
        _ => panic!("the largest uid is still valid"),
    }
}
