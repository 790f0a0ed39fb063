use digidoc::pki::der::{
    decode_unsigned_int, encode_length, encode_tlv, read_length, read_tlv, read_tlv_with_remainder,
    total_tlv_length,
};
use digidoc::pki::ocsp::{
    extract_basic_ocsp_response, ocsp_request_for, ocsp_response_from_reply, OCSP_BASIC_OID_DER,
};
use digidoc::pki::tsa::{
    build_timestamp_request, extract_timestamp_token, signature_value_request,
    timestamp_token_from_reply, timestamp_token_is_complete, SHA256_OID_DER,
};
use digidoc::pki::HttpReply;
use digidoc::SignatureError;

fn general(e: SignatureError) -> String {
    match e {
        SignatureError::GeneralError(message) => message,
        other => panic!("unexpected error: {}", other.to_string()),
    }
}

fn joined(parts: &[&[u8]]) -> Vec<u8> {
    let mut all = Vec::new();
    for part in parts {
        all.extend_from_slice(part);
    }
    all
}

#[test]
fn timestamp_request_is_well_formed_der() {
    let imprint = [0u8; 32];
    let req = build_timestamp_request(&imprint);

    // Outer SEQUENCE
    assert_eq!(req[0], 0x30);

    // Round-trip: parse it back as nested TLVs and check the
    // imprint OCTET STRING is preserved.
    let outer = read_tlv(&req, 0x30).expect("outer SEQUENCE");
    let (version, after_version) = read_tlv_with_remainder(outer, 0x02).expect("version INTEGER");
    assert_eq!(version, &[0x01]);
    let (mi, after_mi) =
        read_tlv_with_remainder(after_version, 0x30).expect("MessageImprint SEQUENCE");
    let (alg_id, after_alg) = read_tlv_with_remainder(mi, 0x30).expect("AlgorithmIdentifier");
    let (oid, _) = read_tlv_with_remainder(alg_id, 0x06).expect("OID");
    assert_eq!(oid, SHA256_OID_DER);
    let (hashed, _) = read_tlv_with_remainder(after_alg, 0x04).expect("hashedMessage");
    assert_eq!(hashed, &imprint[..]);
    let (cert_req, _) = read_tlv_with_remainder(after_mi, 0x01).expect("certReq BOOLEAN");
    assert_eq!(cert_req, &[0xff]);
}

#[test]
fn extract_timestamp_token_rejects_failure_status() {
    // Build a fake response: status = 2 (rejection), no token.
    let pki_status = encode_tlv(0x02, &[0x02]); // INTEGER 2
    let pki_status_info = encode_tlv(0x30, &pki_status);
    let response = encode_tlv(0x30, &pki_status_info);
    let err = extract_timestamp_token(&response).unwrap_err();
    assert!(err.to_string().contains("PKIStatus"));
}

#[test]
fn extract_timestamp_token_returns_token_bytes() {
    let pki_status = encode_tlv(0x02, &[0x00]); // INTEGER 0 (granted)
    let pki_status_info = encode_tlv(0x30, &pki_status);
    // Fake token = SEQUENCE { OCTET STRING "tsa" }
    let token_inner = encode_tlv(0x04, b"tsa");
    let token = encode_tlv(0x30, &token_inner);
    let mut response_value = Vec::new();
    response_value.extend(&pki_status_info);
    response_value.extend(&token);
    let response = encode_tlv(0x30, &response_value);
    let extracted = extract_timestamp_token(&response).expect("extract token");
    assert_eq!(extracted, token);
}

#[test]
fn extract_basic_response_rejects_failure_status() {
    // Build a fake response: responseStatus = 6 (unauthorized).
    let status = encode_tlv(0x0a, &[0x06]); // ENUMERATED 6
    let response = encode_tlv(0x30, &status);
    let err = extract_basic_ocsp_response(&response).unwrap_err();
    assert!(err.to_string().contains("OCSPResponseStatus"));
}

#[test]
fn extract_basic_response_returns_octet_contents() {
    // status=0 + responseBytes [0] EXPLICIT { responseType, OCTET STRING "basic" }
    let status = encode_tlv(0x0a, &[0x00]);
    let oid = encode_tlv(0x06, &OCSP_BASIC_OID_DER);
    let octet = encode_tlv(0x04, b"basic");
    let mut rb_inner = Vec::new();
    rb_inner.extend(&oid);
    rb_inner.extend(&octet);
    let rb = encode_tlv(0x30, &rb_inner);
    let rb_explicit = encode_tlv(0xa0, &rb);
    let mut value = Vec::new();
    value.extend(&status);
    value.extend(&rb_explicit);
    let response = encode_tlv(0x30, &value);
    let extracted = extract_basic_ocsp_response(&response).expect("extract");
    assert_eq!(extracted, b"basic");
}

#[test]
fn length_octets_have_the_shortest_form() {
    assert_eq!(encode_length(0), [0x00]);
    assert_eq!(encode_length(0x7f), [0x7f]);
    assert_eq!(encode_length(0x80), [0x81, 0x80]);
    assert_eq!(encode_length(0xff), [0x81, 0xff]);
    assert_eq!(encode_length(0x100), [0x82, 0x01, 0x00]);
    assert_eq!(encode_length(0xffff), [0x82, 0xff, 0xff]);
    assert_eq!(encode_length(0x1_0000), [0x83, 0x01, 0x00, 0x00]);
    assert_eq!(encode_length(0x12_3456), [0x83, 0x12, 0x34, 0x56]);
    assert_eq!(encode_length(0x1234_5678), [0x84, 0x12, 0x34, 0x56, 0x78]);
}

#[test]
fn lengths_read_back() {
    for len in [0usize, 1, 0x7f, 0x80, 0xff, 0x100, 0xffff, 0x1_0000, 0xff_ffff, 0x100_0000] {
        let octets = encode_length(len);
        assert_eq!(read_length(&octets), Ok((len, octets.len())));
    }
}

#[test]
fn malformed_lengths_are_refused() {
    assert_eq!(read_length(&[]), Err("missing length byte"));
    assert_eq!(read_length(&[0x80]), Err("unsupported DER length form"));
    assert_eq!(read_length(&[0x85, 1, 2, 3, 4, 5]), Err("unsupported DER length form"));
    assert_eq!(read_length(&[0x82, 0x01]), Err("length bytes truncated"));
}

#[test]
fn elements_read_back() {
    let element = encode_tlv(0x04, &[7u8; 200]);
    assert_eq!(&element[..3], &[0x04, 0x81, 200]);
    assert_eq!(read_tlv(&element, 0x04), Ok(&[7u8; 200][..]));
    assert_eq!(total_tlv_length(&element), Ok(203));

    let row = joined(&[&element, &[1, 2, 3]]);
    assert_eq!(read_tlv_with_remainder(&row, 0x04), Ok((&[7u8; 200][..], &[1u8, 2, 3][..])));
    assert_eq!(read_tlv(&row, 0x04), Err("trailing bytes after TLV"));
}

#[test]
fn malformed_elements_are_refused() {
    assert_eq!(read_tlv(&[], 0x30), Err("empty DER input"));
    assert_eq!(read_tlv(&[0x31, 0x00], 0x30), Err("unexpected DER tag"));
    assert_eq!(read_tlv(&[0x30], 0x30), Err("missing length byte"));
    assert_eq!(read_tlv(&[0x30, 0x02, 0x00], 0x30), Err("DER value truncated"));
    assert_eq!(total_tlv_length(&[]), Err("empty DER input"));
    assert_eq!(total_tlv_length(&[0x30, 0x05]), Ok(7));
}

#[test]
fn unsigned_integers_are_decoded() {
    assert_eq!(decode_unsigned_int(&[0x00]).unwrap(), 0);
    assert_eq!(decode_unsigned_int(&[0x01, 0x02]).unwrap(), 0x102);
    assert_eq!(decode_unsigned_int(&[0x00, 0xff]).unwrap(), 0xff);
    assert_eq!(decode_unsigned_int(&[0xff; 8]).unwrap(), u64::MAX);
    assert_eq!(decode_unsigned_int(&[0, 255, 255, 255, 255, 255, 255, 255, 255]).unwrap(), u64::MAX);
    assert_eq!(general(decode_unsigned_int(&[]).unwrap_err()), "INTEGER out of range for u64");
    assert_eq!(general(decode_unsigned_int(&[1; 10]).unwrap_err()), "INTEGER out of range for u64");
    assert_eq!(general(decode_unsigned_int(&[1; 9]).unwrap_err()), "INTEGER > 64 bits");
}

#[test]
fn timestamp_request_holds_the_sha256_digest() {
    let request = signature_value_request(b"abc");
    let digest = [
        0xba, 0x78, 0x16, 0xbf, 0x8f, 0x01, 0xcf, 0xea, 0x41, 0x41, 0x40, 0xde, 0x5d, 0xae, 0x22,
        0x23, 0xb0, 0x03, 0x61, 0xa3, 0x96, 0x17, 0x7a, 0x9c, 0xb4, 0x10, 0xff, 0x61, 0xf2, 0x00,
        0x15, 0xad,
    ];
    assert_eq!(request, build_timestamp_request(&digest));
    let expected = joined(&[
        &[0x30, 0x39, 0x02, 0x01, 0x01, 0x30, 0x31, 0x30, 0x0d, 0x06, 0x09],
        &[0x60, 0x86, 0x48, 0x01, 0x65, 0x03, 0x04, 0x02, 0x01],
        &[0x05, 0x00, 0x04, 0x20],
        &digest,
        &[0x01, 0x01, 0xff],
    ]);
    assert_eq!(request, expected);
}

fn timestamp_response(status: u8, details: &[u8], rest: &[u8]) -> Vec<u8> {
    let info = encode_tlv(0x30, &joined(&[&encode_tlv(0x02, &[status]), details]));
    encode_tlv(0x30, &joined(&[&info, rest]))
}

#[test]
fn timestamp_status_details_and_trailing_bytes_are_ignored() {
    let token = encode_tlv(0x30, &encode_tlv(0x04, b"tsa"));
    let details = encode_tlv(0x30, b"");
    let response = timestamp_response(1, &details, &joined(&[&token, b"more"]));
    assert!(timestamp_token_is_complete(&response));
    assert_eq!(extract_timestamp_token(&response).unwrap(), token);
}

#[test]
fn malformed_timestamp_responses_are_refused() {
    let refused = |response: &[u8]| general(extract_timestamp_token(response).unwrap_err());
    assert_eq!(refused(&[]), "TSA response not SEQUENCE: empty DER input");
    assert_eq!(refused(&[0x30, 0x00]), "TSA PKIStatusInfo: empty DER input");
    assert_eq!(refused(&[0x30, 0x02, 0x30, 0x00]), "PKIStatus: empty DER input");
    assert_eq!(
        refused(&timestamp_response(5, &[], &[])),
        "TSA rejected request, PKIStatus = 5"
    );
    assert_eq!(refused(&timestamp_response(0, &[], &[])), "TSA response missing timeStampToken");
    assert_eq!(
        refused(&timestamp_response(0, &[], &[0x30])),
        "timeStampToken length: missing length byte"
    );
    assert_eq!(
        refused(&timestamp_response(0, &[], &encode_tlv(0x04, b"tsa"))),
        "timeStampToken: unexpected DER tag"
    );
}

#[test]
fn truncated_timestamp_token_is_told() {
    assert!(!timestamp_token_is_complete(&timestamp_response(0, &[], &[0x30, 0x05, 0x01])));
    assert!(timestamp_token_is_complete(&timestamp_response(0, &[], &[0x30, 0x01, 0x01])));
    assert!(timestamp_token_is_complete(&timestamp_response(2, &[], &[0x30, 0x05])));
    assert!(timestamp_token_is_complete(&[]));
}

#[test]
fn timestamp_replies_are_read() {
    let token = encode_tlv(0x30, b"");
    let answer = |success: bool| HttpReply::Answer {
        status: "503 Service Unavailable".to_string(),
        success,
        body: timestamp_response(0, &[], &token),
    };
    assert_eq!(timestamp_token_from_reply(&answer(true)).unwrap(), token);
    assert_eq!(
        general(timestamp_token_from_reply(&answer(false)).unwrap_err()),
        "TSA returned HTTP 503 Service Unavailable: 9 bytes of body"
    );
    assert_eq!(
        general(timestamp_token_from_reply(&HttpReply::SendFailed("no route".to_string())).unwrap_err()),
        "TSA HTTP request failed: no route"
    );
    assert_eq!(
        general(timestamp_token_from_reply(&HttpReply::ReadFailed("cut off".to_string())).unwrap_err()),
        "TSA response read failed: cut off"
    );
}

#[test]
fn ocsp_request_names_the_certificate_by_sha1() {
    let request = ocsp_request_for(b"abc", b"", &[0x12, 0x34]);
    let name_hash = [
        0xa9, 0x99, 0x3e, 0x36, 0x47, 0x06, 0x81, 0x6a, 0xba, 0x3e, 0x25, 0x71, 0x78, 0x50, 0xc2,
        0x6c, 0x9c, 0xd0, 0xd8, 0x9d,
    ];
    let key_hash = [
        0xda, 0x39, 0xa3, 0xee, 0x5e, 0x6b, 0x4b, 0x0d, 0x32, 0x55, 0xbf, 0xef, 0x95, 0x60, 0x18,
        0x90, 0xaf, 0xd8, 0x07, 0x09,
    ];
    let expected = joined(&[
        &[0x30, 0x43, 0x30, 0x41, 0x30, 0x3f, 0x30, 0x3d, 0x30, 0x3b],
        &[0x30, 0x09, 0x06, 0x05, 0x2b, 0x0e, 0x03, 0x02, 0x1a, 0x05, 0x00],
        &[0x04, 0x14],
        &name_hash,
        &[0x04, 0x14],
        &key_hash,
        &[0x02, 0x02, 0x12, 0x34],
    ]);
    assert_eq!(request, expected);
}

fn ocsp_response(status: u8, rest: &[u8]) -> Vec<u8> {
    encode_tlv(0x30, &joined(&[&encode_tlv(0x0a, &[status]), rest]))
}

#[test]
fn malformed_ocsp_responses_are_refused() {
    let refused = |response: &[u8]| general(extract_basic_ocsp_response(response).unwrap_err());
    assert_eq!(refused(&[]), "OCSP response not SEQUENCE: empty DER input");
    assert_eq!(refused(&[0x30, 0x00]), "OCSPResponseStatus: empty DER input");
    assert_eq!(
        refused(&ocsp_response(1, &[])),
        "OCSP responder rejected request, OCSPResponseStatus = 1"
    );
    assert_eq!(
        refused(&ocsp_response(0, &[])),
        "OCSP responseBytes [0] EXPLICIT: empty DER input"
    );
    assert_eq!(
        refused(&ocsp_response(0, &encode_tlv(0xa0, b""))),
        "OCSP ResponseBytes SEQUENCE: empty DER input"
    );
    assert_eq!(
        refused(&ocsp_response(0, &encode_tlv(0xa0, &encode_tlv(0x30, b"")))),
        "OCSP responseType: empty DER input"
    );
    let other_kind = encode_tlv(0x06, &[0x2b, 0x06]);
    assert_eq!(
        refused(&ocsp_response(0, &encode_tlv(0xa0, &encode_tlv(0x30, &other_kind)))),
        format!("OCSP unexpected responseType OID (2 bytes): {:02x?}", [0x2b, 0x06])
    );
    let only_kind = encode_tlv(0x06, &OCSP_BASIC_OID_DER);
    assert_eq!(
        refused(&ocsp_response(0, &encode_tlv(0xa0, &encode_tlv(0x30, &only_kind)))),
        "OCSP response OCTET STRING: empty DER input"
    );
}

#[test]
fn ocsp_replies_are_read() {
    let kind = encode_tlv(0x06, &OCSP_BASIC_OID_DER);
    let bytes = joined(&[&kind, &encode_tlv(0x04, b"basic")]);
    let body = ocsp_response(0, &encode_tlv(0xa0, &encode_tlv(0x30, &bytes)));
    let size = body.len();
    let answer = |success: bool| HttpReply::Answer {
        status: "500 Internal Server Error".to_string(),
        success,
        body: body.clone(),
    };
    assert_eq!(ocsp_response_from_reply(&answer(true)).unwrap(), b"basic");
    assert_eq!(
        general(ocsp_response_from_reply(&answer(false)).unwrap_err()),
        format!("OCSP responder returned HTTP 500 Internal Server Error: {} bytes of body", size)
    );
    assert_eq!(
        general(ocsp_response_from_reply(&HttpReply::SendFailed("no route".to_string())).unwrap_err()),
        "OCSP HTTP request failed: no route"
    );
    assert_eq!(
        general(ocsp_response_from_reply(&HttpReply::ReadFailed("cut off".to_string())).unwrap_err()),
        "OCSP response read failed: cut off"
    );
}
