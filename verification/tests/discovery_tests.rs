//! The discovery exchange: request layout, the server's timestamp
//! window, and the client's HMAC check, cross-checked against an
//! independent HMAC computation.

use hmac::{Hmac, Mac};
use sha2::Sha256;
use xiao_stream::discovery::{
    build_request, build_response, fresh_request, parse_response, validate_request,
};
use xiao_stream::Endpoint;

fn device_id() -> Vec<u8> {
    b"xiaoai-device-01".to_vec()
}

#[test]
fn request_layout() {
    let req = build_request(&device_id(), 0x0000_0001, 0x1122_3344_5566_7788);
    assert_eq!(req.len(), 28);
    assert_eq!(&req[0..16], b"xiaoai-device-01");
    assert_eq!(&req[16..20], &[0, 0, 0, 1]);
    assert_eq!(&req[20..28], &[0x11, 0x22, 0x33, 0x44, 0x55, 0x66, 0x77, 0x88]);
}

#[test]
fn fresh_request_fields() {
    let req = fresh_request(&device_id(), 1_700_000_000);
    assert_eq!(req.len(), 28);
    assert_eq!(&req[0..16], b"xiaoai-device-01");
    assert_eq!(&req[20..28], &1_700_000_000u64.to_be_bytes());
}

#[test]
fn timestamp_window_boundary() {
    let now: u64 = 1_700_000_000;
    // Exactly 30 seconds old: accepted.  31 seconds old: dropped.
    let at_edge = build_request(&device_id(), 5, now - 30);
    assert!(validate_request(&at_edge, now));
    let too_old = build_request(&device_id(), 5, now - 31);
    assert!(!validate_request(&too_old, now));
    // The window is symmetric.
    let ahead_edge = build_request(&device_id(), 5, now + 30);
    assert!(validate_request(&ahead_edge, now));
    let too_new = build_request(&device_id(), 5, now + 31);
    assert!(!validate_request(&too_new, now));
}

#[test]
fn wrong_length_rejected() {
    let mut req = build_request(&device_id(), 5, 1_700_000_000);
    req.push(0);
    assert!(!validate_request(&req, 1_700_000_000));
    assert!(!validate_request(&vec![0u8; 27], 1_700_000_000));
}

#[test]
fn discovery_happy_path() {
    // Server secret "k", TCP port 8080, local address 192.168.1.10.
    let secret = b"k".to_vec();
    let req = build_request(&device_id(), 0x0000_0001, 1_700_000_000);
    let ep = Endpoint { ip0: 192, ip1: 168, ip2: 1, ip3: 10, port: 8080 };
    let resp = build_response(&secret, &req, ep);
    assert_eq!(resp.len(), 66);
    assert_eq!(&resp[0..28], &req[..]);
    assert_eq!(&resp[28..32], &[192, 168, 1, 10]);
    assert_eq!(&resp[32..34], &[0x1f, 0x90]);

    // The trailing 32 bytes are HMAC-SHA256 of request, address and
    // port under the secret, computed here independently.
    let mut mac = Hmac::<Sha256>::new_from_slice(b"k").unwrap();
    mac.update(&resp[0..34]);
    let expected = mac.finalize().into_bytes();
    assert_eq!(&resp[34..66], &expected[..]);

    // The client accepts and returns the server's endpoint.
    let got = parse_response(&secret, &req, &resp).expect("authentic response must be accepted");
    assert_eq!(got, ep);
}

#[test]
fn tampered_signature_rejected() {
    let secret = b"k".to_vec();
    let req = build_request(&device_id(), 2, 77);
    let ep = Endpoint { ip0: 10, ip1: 0, ip2: 0, ip3: 7, port: 9000 };
    let mut resp = build_response(&secret, &req, ep);
    resp[40] ^= 0x01;
    assert!(parse_response(&secret, &req, &resp).is_none());
}

#[test]
fn tampered_port_rejected() {
    // Changing the advertised port invalidates the signature.
    let secret = b"k".to_vec();
    let req = build_request(&device_id(), 2, 77);
    let ep = Endpoint { ip0: 10, ip1: 0, ip2: 0, ip3: 7, port: 9000 };
    let mut resp = build_response(&secret, &req, ep);
    resp[33] ^= 0x01;
    assert!(parse_response(&secret, &req, &resp).is_none());
}

#[test]
fn unsolicited_response_rejected() {
    // A response echoing someone else's request is dropped.
    let secret = b"k".to_vec();
    let mine = build_request(&device_id(), 3, 77);
    let other = build_request(&device_id(), 4, 77);
    let ep = Endpoint { ip0: 10, ip1: 0, ip2: 0, ip3: 7, port: 9000 };
    let resp = build_response(&secret, &other, ep);
    assert!(parse_response(&secret, &mine, &resp).is_none());
}

#[test]
fn wrong_secret_rejected() {
    let req = build_request(&device_id(), 3, 77);
    let ep = Endpoint { ip0: 10, ip1: 0, ip2: 0, ip3: 7, port: 9000 };
    let resp = build_response(&b"other".to_vec(), &req, ep);
    assert!(parse_response(&b"k".to_vec(), &req, &resp).is_none());
}

#[test]
fn short_response_rejected() {
    let req = build_request(&device_id(), 3, 77);
    assert!(parse_response(&b"k".to_vec(), &req, &vec![0u8; 65]).is_none());
}
