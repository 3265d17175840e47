//! The discovery exchange: a 28-byte broadcast request carrying a device
//! identifier, a nonce and a timestamp, answered by a 66-byte response
//! that echoes the request, names the server's endpoint, and signs both
//! with HMAC-SHA256 under the shared secret.

use vstd::prelude::*;
use hmac::Mac;
use crate::Endpoint;
use crate::encoding::{be_bytes, be_val, lemma_be_val_bound, lemma_pow256_values, enc_be, dec_be};

verus! {

/// The UDP port discovery requests are broadcast to.
pub const DISCOVERY_PORT: u16 = 5354;

/// Length of a discovery request in bytes: identifier, nonce, timestamp.
pub const REQUEST_LEN: usize = 28;

/// Length of a discovery response in bytes: the request echoed, four
/// address bytes, two port bytes, and a 32-byte signature.
pub const RESPONSE_LEN: usize = 66;

/// How far a request's timestamp may lie from the local clock, in
/// seconds, before the request is dropped.
pub const TIME_WINDOW_SECS: u64 = 30;

/// What HMAC-SHA256 returns for a key and a message.  The value is
/// determined by the two arguments alone.
pub uninterp spec fn hmac_sha256_spec(key: Seq<u8>, data: Seq<u8>) -> Seq<u8>;

/// Relies on hmac's Hmac with sha2's Sha256: the tag is a function of
/// key and message alone, 32 bytes long; key initialization accepts any
/// key length.
#[verifier::external_body]
fn hmac_sha256(key: &Vec<u8>, data: &Vec<u8>) -> (r: Vec<u8>)
    ensures
        r@ == hmac_sha256_spec(key@, data@),
        r@.len() == 32,
{
    let mut mac = hmac::Hmac::<sha2::Sha256>::new_from_slice(key.as_slice()).unwrap();
    mac.update(data.as_slice());
    mac.finalize().into_bytes().to_vec()
}

/// Relies on rand::random: a fresh value; nothing is promised of it.
#[verifier::external_body]
fn random_nonce() -> u32 {
    rand::random::<u32>()
}

/// The byte form of a discovery request.
pub open spec fn request_bytes(device_id: Seq<u8>, nonce: u32, timestamp_secs: u64) -> Seq<u8> {
    device_id + be_bytes(nonce as int, 4) + be_bytes(timestamp_secs as int, 8)
}

/// Build the 28-byte request from its parts.
pub fn build_request(device_id: &Vec<u8>, nonce: u32, timestamp_secs: u64) -> (r: Vec<u8>)
    requires
        device_id@.len() == 16,
    ensures
        r@ == request_bytes(device_id@, nonce, timestamp_secs),
        r@.len() == REQUEST_LEN,
{
    proof {
        lemma_pow256_values();
    }
    let mut out: Vec<u8> = Vec::new();
    let mut k: usize = 0;
    while k < device_id.len()
        invariant
            k <= device_id.len(),
            out@ == device_id@.subrange(0, k as int),
        decreases device_id.len() - k,
    {
        out.push(device_id[k]);
        assert(out@ =~= device_id@.subrange(0, (k + 1) as int));
        k = k + 1;
    }
    assert(out@ =~= device_id@);
    enc_be(nonce as u128, 4, &mut out);
    enc_be(timestamp_secs as u128, 8, &mut out);
    proof {
        crate::encoding::lemma_be_bytes_len(nonce as int, 4);
        crate::encoding::lemma_be_bytes_len(timestamp_secs as int, 8);
        assert(out@ =~= request_bytes(device_id@, nonce, timestamp_secs));
    }
    out
}

/// Build a request with a random nonce.  Whatever nonce came back, the
/// identifier and timestamp fields hold the given values.
pub fn fresh_request(device_id: &Vec<u8>, timestamp_secs: u64) -> (r: Vec<u8>)
    requires
        device_id@.len() == 16,
    ensures
        r@.len() == REQUEST_LEN,
        r@.subrange(0, 16) == device_id@,
        r@.subrange(20, 28) == be_bytes(timestamp_secs as int, 8),
{
    let nonce: u32 = random_nonce();
    let r = build_request(device_id, nonce, timestamp_secs);
    proof {
        crate::encoding::lemma_be_bytes_len(nonce as int, 4);
        crate::encoding::lemma_be_bytes_len(timestamp_secs as int, 8);
        assert(r@.subrange(0, 16) =~= device_id@);
        assert(r@.subrange(20, 28) =~= be_bytes(timestamp_secs as int, 8));
    }
    r
}

/// The timestamp field of a request, big-endian seconds.
pub open spec fn spec_request_timestamp(req: Seq<u8>) -> int {
    be_val(req.subrange(20, 28))
}

/// Whether the server accepts a request: exactly 28 bytes, and its
/// timestamp within the window around the local clock.
pub open spec fn request_acceptable(req: Seq<u8>, now_secs: u64) -> bool {
    &&& req.len() == REQUEST_LEN
    &&& {
        let ts = spec_request_timestamp(req);
        (if now_secs >= ts {
            now_secs - ts
        } else {
            ts - now_secs
        }) <= TIME_WINDOW_SECS
    }
}

/// Server-side request filter: exactly 28 bytes, timestamp within 30
/// seconds of the local clock in either direction.
pub fn validate_request(req: &Vec<u8>, now_secs: u64) -> (r: bool)
    ensures
        r == request_acceptable(req@, now_secs),
{
    if req.len() != REQUEST_LEN {
        return false;
    }
    let ts128: u128 = dec_be(req, 20, 8);
    proof {
        lemma_be_val_bound(req@.subrange(20, 28));
        lemma_pow256_values();
    }
    let ts: u64 = ts128 as u64;
    let diff: u64 = if now_secs >= ts {
        now_secs - ts
    } else {
        ts - now_secs
    };
    diff <= TIME_WINDOW_SECS
}

/// The byte form of a discovery response: the request echoed, then the
/// server address and port, then the signature over all of that.
pub open spec fn response_bytes(secret: Seq<u8>, req: Seq<u8>, ep: Endpoint) -> Seq<u8> {
    let body = req + seq![ep.ip0, ep.ip1, ep.ip2, ep.ip3] + be_bytes(ep.port as int, 2);
    body + hmac_sha256_spec(secret, body)
}

/// Build the signed 66-byte response to an accepted request.
pub fn build_response(secret: &Vec<u8>, req: &Vec<u8>, ep: Endpoint) -> (r: Vec<u8>)
    requires
        req@.len() == REQUEST_LEN,
    ensures
        r@ == response_bytes(secret@, req@, ep),
        r@.len() == RESPONSE_LEN,
{
    proof {
        lemma_pow256_values();
    }
    let mut body: Vec<u8> = Vec::new();
    let mut k: usize = 0;
    while k < req.len()
        invariant
            k <= req.len(),
            body@ == req@.subrange(0, k as int),
        decreases req.len() - k,
    {
        body.push(req[k]);
        assert(body@ =~= req@.subrange(0, (k + 1) as int));
        k = k + 1;
    }
    assert(body@ =~= req@);
    body.push(ep.ip0);
    body.push(ep.ip1);
    body.push(ep.ip2);
    body.push(ep.ip3);
    enc_be(ep.port as u128, 2, &mut body);
    proof {
        crate::encoding::lemma_be_bytes_len(ep.port as int, 2);
        assert(body@ =~= req@ + seq![ep.ip0, ep.ip1, ep.ip2, ep.ip3] + be_bytes(
            ep.port as int,
            2,
        ));
    }
    let tag: Vec<u8> = hmac_sha256(secret, &body);
    let mut out: Vec<u8> = body;
    let ghost body_view = out@;
    let mut j: usize = 0;
    while j < tag.len()
        invariant
            j <= tag.len(),
            out@ == body_view + tag@.subrange(0, j as int),
        decreases tag.len() - j,
    {
        out.push(tag[j]);
        assert(out@ =~= body_view + tag@.subrange(0, (j + 1) as int));
        j = j + 1;
    }
    proof {
        assert(tag@.subrange(0, tag@.len() as int) =~= tag@);
        assert(out@ =~= response_bytes(secret@, req@, ep));
    }
    out
}

/// Whether a client accepts a response to the request it sent: at least
/// 66 bytes, the request echoed bit for bit, and the trailing 32 bytes
/// equal to HMAC-SHA256 of the echoed request, address and port under
/// the shared secret.
pub open spec fn response_authentic(secret: Seq<u8>, req: Seq<u8>, resp: Seq<u8>) -> bool {
    &&& resp.len() >= RESPONSE_LEN
    &&& resp.subrange(0, REQUEST_LEN as int) == req
    &&& resp.subrange(34, 66) == hmac_sha256_spec(secret, resp.subrange(0, 34))
}

/// The endpoint named in a response.
pub open spec fn response_endpoint(resp: Seq<u8>) -> Endpoint {
    Endpoint {
        ip0: resp[28],
        ip1: resp[29],
        ip2: resp[30],
        ip3: resp[31],
        port: be_val(resp.subrange(32, 34)) as u16,
    }
}

/// Client-side response check: `Some` exactly when the response echoes
/// the request and its signature verifies; the returned endpoint is the
/// one the response names.
pub fn parse_response(secret: &Vec<u8>, req: &Vec<u8>, resp: &Vec<u8>) -> (r: Option<Endpoint>)
    requires
        req@.len() == REQUEST_LEN,
    ensures
        r is Some <==> response_authentic(secret@, req@, resp@),
        r matches Some(ep) ==> ep == response_endpoint(resp@),
{
    if resp.len() < RESPONSE_LEN {
        return None;
    }
    // The echoed request must match ours.
    let mut k: usize = 0;
    #[verifier::loop_isolation(false)]
    while k < REQUEST_LEN
        invariant
            k <= REQUEST_LEN,
            forall|i: int| 0 <= i < k ==> resp@[i] == req@[i],
        decreases REQUEST_LEN - k,
    {
        if resp[k] != req[k] {
            proof {
                assert(resp@.subrange(0, REQUEST_LEN as int)[k as int] != req@[k as int]);
            }
            return None;
        }
        k = k + 1;
    }
    proof {
        assert(resp@.subrange(0, REQUEST_LEN as int) =~= req@);
    }
    // Recompute the signature over the echoed request, address and port.
    let mut signed: Vec<u8> = Vec::new();
    let mut j: usize = 0;
    #[verifier::loop_isolation(false)]
    while j < 34
        invariant
            j <= 34,
            signed@ == resp@.subrange(0, j as int),
        decreases 34 - j,
    {
        signed.push(resp[j]);
        assert(signed@ =~= resp@.subrange(0, (j + 1) as int));
        j = j + 1;
    }
    let tag: Vec<u8> = hmac_sha256(secret, &signed);
    let mut m: usize = 0;
    #[verifier::loop_isolation(false)]
    while m < 32
        invariant
            m <= 32,
            tag@.len() == 32,
            forall|i: int| 0 <= i < m ==> resp@[34 + i] == tag@[i],
        decreases 32 - m,
    {
        if resp[34 + m] != tag[m] {
            proof {
                assert(resp@.subrange(34, 66)[m as int] != tag@[m as int]);
            }
            return None;
        }
        m = m + 1;
    }
    proof {
        assert(resp@.subrange(34, 66) =~= tag@);
    }
    let port128: u128 = dec_be(resp, 32, 2);
    proof {
        lemma_be_val_bound(resp@.subrange(32, 34));
        lemma_pow256_values();
    }
    Some(
        Endpoint {
            ip0: resp[28],
            ip1: resp[29],
            ip2: resp[30],
            ip3: resp[31],
            port: port128 as u16,
        },
    )
}

} // verus!
