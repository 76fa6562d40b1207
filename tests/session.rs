use pi_os::session::{decode, encode, SessionError};

#[test]
fn session_text_round_trip() {
    let text = r#"{"type":"offer","sdp":"v=0"}"#;
    let encoded = encode(text);
    assert_eq!(encoded, "eyJ0eXBlIjoib2ZmZXIiLCJzZHAiOiJ2PTAifQ==");
    assert_eq!(decode(&encoded), Ok(text.to_string()));
}

#[test]
fn session_text_known_values() {
    assert_eq!(encode(""), "");
    assert_eq!(encode("ab"), "YWI=");
    assert_eq!(decode("YWI="), Ok("ab".to_string()));
}

#[test]
fn session_text_errors() {
    assert_eq!(decode("not base64!"), Err(SessionError::Base64));
    // base64 of the bytes ff fe, which are not UTF-8
    assert_eq!(decode("//4="), Err(SessionError::Utf8));
}
