use base64::engine::general_purpose::STANDARD;
use base64::Engine;
use hmac::{Hmac, Mac};
use dsh_desktop::clipboard::{
    constant_time_equal, signed_message, timestamp_is_fresh, timestamp_is_fresh_at,
    ClipboardBridgeState, NONCE_TTL_MILLIS, NONCE_TTL_NANOS, PROOF_BYTES,
};
use dsh_desktop::decimal::{decimal_bytes, decimal_string};
use dsh_desktop::hex::{decode_nonce, hex_value};
use dsh_desktop::image_response::{clipboard_image_response, image_response_from_png};
use dsh_desktop::paste::paste_shim_js;
use std::time::{SystemTime, UNIX_EPOCH};

fn current_timestamp_millis() -> u64 {
    SystemTime::now()
        .duration_since(UNIX_EPOCH)
        .unwrap()
        .as_millis() as u64
}

#[test]
fn nonce_is_single_use() {
    let mut state = ClipboardBridgeState::new().unwrap();
    let nonce = "0123456789abcdef0123456789abcdef";
    let issued_at = current_timestamp_millis();
    let proof = STANDARD.encode(state.expected_proof(nonce, issued_at));

    state.verify_and_consume(nonce, issued_at, &proof).unwrap();
    let error = state
        .verify_and_consume(nonce, issued_at, &proof)
        .unwrap_err();
    assert!(error.starts_with("CLIPBOARD_NONCE_REPLAY:"));
}

#[test]
fn forged_proof_does_not_consume_nonce() {
    let mut state = ClipboardBridgeState::new().unwrap();
    let nonce = "abcdefabcdefabcdefabcdefabcdefab";
    let issued_at = current_timestamp_millis();
    let proof = STANDARD.encode(state.expected_proof(nonce, issued_at));

    assert!(state
        .verify_and_consume(nonce, issued_at, "invalid")
        .is_err());
    state.verify_and_consume(nonce, issued_at, &proof).unwrap();
}

#[test]
fn malformed_nonce_is_rejected() {
    let mut state = ClipboardBridgeState::new().unwrap();
    let proof = STANDARD.encode([0u8; PROOF_BYTES]);

    assert!(state
        .verify_and_consume("not-a-nonce", current_timestamp_millis(), &proof)
        .is_err());
}

#[test]
fn stale_timestamp_is_rejected() {
    let mut state = ClipboardBridgeState::new().unwrap();
    let nonce = "0123456789abcdef0123456789abcdef";
    let issued_at =
        current_timestamp_millis().saturating_sub(NONCE_TTL_MILLIS as u64 + 1);
    let proof = STANDARD.encode(state.expected_proof(nonce, issued_at));

    let error = state
        .verify_and_consume(nonce, issued_at, &proof)
        .unwrap_err();
    assert!(error.starts_with("CLIPBOARD_NONCE_EXPIRED:"));
}

#[test]
fn future_timestamp_is_rejected() {
    let issued_at = current_timestamp_millis().saturating_add(1_000);

    assert!(!timestamp_is_fresh(issued_at));
}

#[test]
fn current_timestamp_is_fresh() {
    assert!(timestamp_is_fresh(current_timestamp_millis()));
}

#[test]
fn freshness_window_edges() {
    assert!(timestamp_is_fresh_at(1_000, Some(1_000)));
    assert!(timestamp_is_fresh_at(1_000, Some(6_000)));
    assert!(!timestamp_is_fresh_at(1_000, Some(6_001)));
    assert!(!timestamp_is_fresh_at(1_001, Some(1_000)));
    assert!(!timestamp_is_fresh_at(1_000, None));
}

#[test]
fn hex_digits_decode() {
    assert_eq!(hex_value(b'0'), Some(0));
    assert_eq!(hex_value(b'9'), Some(9));
    assert_eq!(hex_value(b'a'), Some(10));
    assert_eq!(hex_value(b'F'), Some(15));
    assert_eq!(hex_value(b'g'), None);
    assert_eq!(hex_value(b'-'), None);
}

#[test]
fn nonce_decodes_high_digit_first() {
    let nonce = decode_nonce("00ff10aB0123456789abcdef0123456f").unwrap();
    assert_eq!(
        nonce,
        [
            0x00, 0xff, 0x10, 0xab, 0x01, 0x23, 0x45, 0x67, 0x89, 0xab, 0xcd, 0xef, 0x01, 0x23,
            0x45, 0x6f
        ]
    );
}

#[test]
fn nonce_hex_round_trip() {
    let bytes: [u8; 16] = [
        0, 1, 2, 0x7f, 0x80, 0xfe, 0xff, 0x10, 0x20, 0x30, 0x40, 0x50, 0x60, 0x70, 0x9a, 0xbc,
    ];
    let text: String = bytes.iter().map(|b| format!("{b:02x}")).collect();
    assert_eq!(decode_nonce(&text).unwrap(), bytes);
}

#[test]
fn malformed_nonces_are_refused() {
    let expected = "CLIPBOARD_NONCE_INVALID: malformed nonce";
    assert_eq!(decode_nonce("").unwrap_err(), expected);
    assert_eq!(decode_nonce("0123456789abcdef0123456789abcde").unwrap_err(), expected);
    assert_eq!(decode_nonce("0123456789abcdef0123456789abcdeg").unwrap_err(), expected);
    assert_eq!(decode_nonce("0123456789abcdef0123456789abcdef0").unwrap_err(), expected);
    // 32 bytes but not 32 characters of ASCII
    assert_eq!(decode_nonce("é123456789abcdef0123456789abcde").unwrap_err(), expected);
}

#[test]
fn constant_time_equal_compares_bytes() {
    assert!(constant_time_equal(b"abc", b"abc"));
    assert!(constant_time_equal(b"", b""));
    assert!(!constant_time_equal(b"abc", b"abd"));
    assert!(!constant_time_equal(b"abc", b"ab"));
}

#[test]
fn decimal_rendering() {
    assert_eq!(decimal_bytes(0), b"0".to_vec());
    assert_eq!(decimal_bytes(1700000000), b"1700000000".to_vec());
    assert_eq!(decimal_string(u64::MAX as u128), u64::MAX.to_string());
    assert_eq!(decimal_string(u128::MAX), u128::MAX.to_string());
}

#[test]
fn signed_message_layout() {
    assert_eq!(
        signed_message("0123456789abcdef0123456789abcdef", 1700000000123),
        b"dsh-clipboard-image-v1:0123456789abcdef0123456789abcdef:1700000000123".to_vec()
    );
}

#[test]
fn expected_proof_is_hmac_of_the_message() {
    let state = ClipboardBridgeState::new().unwrap();
    let key = STANDARD.decode(state.script_secret()).unwrap();
    assert_eq!(key.len(), 32);
    let mut mac = Hmac::<sha2::Sha256>::new_from_slice(&key).unwrap();
    mac.update(b"dsh-clipboard-image-v1:0123456789abcdef0123456789abcdef:42");
    let tag = mac.finalize().into_bytes();
    assert_eq!(
        state.expected_proof("0123456789abcdef0123456789abcdef", 42).to_vec(),
        tag.to_vec()
    );
}

#[test]
fn session_keys_differ() {
    let a = ClipboardBridgeState::new().unwrap();
    let b = ClipboardBridgeState::new().unwrap();
    assert_ne!(a.script_secret(), b.script_secret());
}

#[test]
fn every_refusal_has_its_error() {
    let mut state = ClipboardBridgeState::new().unwrap();
    let nonce = "0123456789abcdef0123456789abcdef";
    let now = 1_700_000_000_000u64;
    let proof = STANDARD.encode(state.expected_proof(nonce, now));

    let err = state.verify_and_consume_at("xyz", now, &proof, Some(now as u128), 0);
    assert_eq!(err.unwrap_err(), "CLIPBOARD_NONCE_INVALID: malformed nonce");
    let err = state.verify_and_consume_at(nonce, now, "***", Some(now as u128), 0);
    assert_eq!(err.unwrap_err(), "CLIPBOARD_AUTH_INVALID: malformed proof");
    let short = STANDARD.encode([1u8; 16]);
    let err = state.verify_and_consume_at(nonce, now, &short, Some(now as u128), 0);
    assert_eq!(err.unwrap_err(), "CLIPBOARD_AUTH_INVALID: malformed proof");
    let wrong = STANDARD.encode([1u8; 32]);
    let err = state.verify_and_consume_at(nonce, now, &wrong, Some(now as u128), 0);
    assert_eq!(err.unwrap_err(), "CLIPBOARD_AUTH_INVALID: invalid proof");
    let other = STANDARD.encode(state.expected_proof(nonce, now + 1));
    let err = state.verify_and_consume_at(nonce, now, &other, Some(now as u128), 0);
    assert_eq!(err.unwrap_err(), "CLIPBOARD_AUTH_INVALID: invalid proof");
    let err = state.verify_and_consume_at(nonce, now, &proof, Some(now as u128 + 5_001), 0);
    assert_eq!(err.unwrap_err(), "CLIPBOARD_NONCE_EXPIRED: request timestamp is stale");
    let err = state.verify_and_consume_at(nonce, now, &proof, None, 0);
    assert_eq!(err.unwrap_err(), "CLIPBOARD_NONCE_EXPIRED: request timestamp is stale");

    state
        .verify_and_consume_at(nonce, now, &proof, Some(now as u128), 10)
        .unwrap();
    let err = state.verify_and_consume_at(nonce, now, &proof, Some(now as u128), 10 + NONCE_TTL_NANOS);
    assert_eq!(err.unwrap_err(), "CLIPBOARD_NONCE_REPLAY: request already consumed");
    // Once the replay window has passed the nonce is forgotten.
    state
        .verify_and_consume_at(nonce, now, &proof, Some(now as u128), 11 + NONCE_TTL_NANOS)
        .unwrap();
}

#[test]
fn ledger_capacity_is_enforced() {
    let mut state = ClipboardBridgeState::new().unwrap();
    let now = 1_700_000_000_000u64;
    for i in 0..256u32 {
        let nonce = format!("{:032x}", i);
        let proof = STANDARD.encode(state.expected_proof(&nonce, now));
        state
            .verify_and_consume_at(&nonce, now, &proof, Some(now as u128), 0)
            .unwrap();
    }
    let nonce = format!("{:032x}", 9999);
    let proof = STANDARD.encode(state.expected_proof(&nonce, now));
    let err = state.verify_and_consume_at(&nonce, now, &proof, Some(now as u128), 1);
    assert_eq!(err.unwrap_err(), "CLIPBOARD_RATE_LIMITED: too many pending requests");
    // After the window the old nonces are forgotten and there is room again.
    state
        .verify_and_consume_at(&nonce, now, &proof, Some(now as u128), NONCE_TTL_NANOS + 1)
        .unwrap();
}

#[test]
fn empty_image_is_none() {
    assert!(clipboard_image_response(0, 10, vec![]).unwrap().is_none());
    assert!(clipboard_image_response(10, 0, vec![]).unwrap().is_none());
}

#[test]
fn oversized_image_is_refused() {
    let err = clipboard_image_response(10_000, 5_001, vec![]).err().unwrap();
    assert_eq!(err, "CLIPBOARD_IMAGE_TOO_LARGE: 10000x5001 (50010000 px)");
}

#[test]
fn short_buffer_is_refused() {
    let err = clipboard_image_response(2, 2, vec![0; 15]).err().unwrap();
    assert_eq!(err, "CLIPBOARD_IMAGE_DECODE: invalid rgba buffer");
}

#[test]
fn session_state_from_key() {
    let state = ClipboardBridgeState::from_key([7u8; 32]);
    assert_eq!(STANDARD.decode(state.script_secret()).unwrap(), vec![7u8; 32]);
    assert_eq!(state.script_secret().len(), 44);
}

#[test]
fn image_becomes_png_data_url() {
    let response = clipboard_image_response(1, 1, vec![255, 0, 0, 255])
        .unwrap()
        .unwrap();
    assert!(response.data_url.starts_with("data:image/png;base64,iVBORw0KGgo"));
    assert_eq!(response.mime, "image/png");
    assert_eq!(response.filename, "clipboard-image.png");
    let b64 = &response.data_url["data:image/png;base64,".len()..];
    let png = STANDARD.decode(b64).unwrap();
    assert_eq!(&png[..8], &[0x89, b'P', b'N', b'G', 0x0d, 0x0a, 0x1a, 0x0a]);
}

#[test]
fn png_bytes_are_base64_encoded() {
    let response = image_response_from_png(&[1, 2, 3]);
    assert_eq!(response.data_url, "data:image/png;base64,AQID");
}

#[test]
fn paste_script_embeds_key_as_literal() {
    let script = paste_shim_js("ab+/cd==");
    assert!(script.contains("var BRIDGE_SECRET_B64 = \"ab+/cd==\";"));
    assert!(!script.contains("__DSH_CLIPBOARD_BRIDGE_SECRET__"));
    assert!(script.starts_with("(function () {"));
    assert!(script.ends_with("})();"));
    let quoted = paste_shim_js("a\"b");
    assert!(quoted.contains("var BRIDGE_SECRET_B64 = \"a\\\"b\";"));
}
