//! OCSP requests and responses (RFC 6960).
//!
//! An OCSP response confirms that a certificate was not revoked. Requests name the
//! certificate by SHA-1 digests of its issuer's name and key and by its serial number;
//! they carry neither a signature nor a nonce. Of a response the basic response inside is
//! kept, which is what a signature embeds.

use vstd::prelude::*;
use vstd::slice::slice_to_vec;

use super::der::{decode_unsigned_int, encode_tlv, read_tlv, read_tlv_with_remainder};
use super::{der, HttpReply};
use crate::certificate::{self, parse_certificate};
use crate::crypto::{self, sha1};
use crate::error::{self, ErrorView, SignatureError};
use crate::text::{self, concat2, concat4, decimal_text, hex_list_text};

verus! {

/// The value of the object identifier of SHA-1, 1.3.14.3.2.26.
pub const SHA1_OID_DER: [u8; 5] = [0x2b, 0x0e, 0x03, 0x02, 0x1a];

/// The value of the object identifier of a basic OCSP response, 1.3.6.1.5.5.7.48.1.1.
pub const OCSP_BASIC_OID_DER: [u8; 9] = [0x2b, 0x06, 0x01, 0x05, 0x05, 0x07, 0x30, 0x01, 0x01];

/// The body of a `CertID`: the hash algorithm (SHA-1 with NULL parameters), the digests of
/// the issuer's name and key, and the serial number.
pub open spec fn cert_id(name_hash: Seq<u8>, key_hash: Seq<u8>, serial: Seq<u8>) -> Seq<u8> {
    der::tlv(0x30, der::tlv(0x06, SHA1_OID_DER@) + der::tlv(0x05, Seq::empty())) + der::tlv(
        0x04,
        name_hash,
    ) + der::tlv(0x04, key_hash) + der::tlv(0x02, serial)
}

/// An `OCSPRequest` about one certificate: the `CertID` inside a request, a request list, a
/// `TBSRequest` and the `OCSPRequest` itself.
pub open spec fn ocsp_request(cert_id_body: Seq<u8>) -> Seq<u8> {
    let id = der::tlv(0x30, cert_id_body);
    der::tlv(0x30, der::tlv(0x30, der::tlv(0x30, der::tlv(0x30, id))))
}

/// The `OCSPRequest` about the certificate with the given issuer's name, issuer's key and
/// serial number.
pub open spec fn ocsp_request_naming(
    issuer_name: Seq<u8>,
    issuer_key: Seq<u8>,
    serial: Seq<u8>,
) -> Seq<u8> {
    ocsp_request(
        cert_id(crypto::sha1_digest(issuer_name), crypto::sha1_digest(issuer_key), serial),
    )
}

/// The `OCSPRequest` about the certificate `subject_der`, issued by `issuer_der`, or the
/// error where one of the two is no certificate.
pub open spec fn ocsp_request_about(subject_der: Seq<u8>, issuer_der: Seq<u8>) -> Result<
    Seq<u8>,
    ErrorView,
> {
    match certificate::x509_certificate(subject_der) {
        Err(e) => Err(ErrorView::GeneralError("OCSP: parse subject cert: "@ + e)),
        Ok(subject) => match certificate::x509_certificate(issuer_der) {
            Err(e) => Err(ErrorView::GeneralError("OCSP: parse issuer cert: "@ + e)),
            Ok(issuer) => Ok(
                ocsp_request_naming(issuer.raw_subject, issuer.key, subject.raw_serial),
            ),
        },
    }
}

/// What follows the status in an `OCSPResponse` whose status is successful (0).
pub open spec fn successful_remainder(response: Seq<u8>) -> Result<Seq<u8>, ErrorView> {
    match der::parse_tlv(response, 0x30) {
        Err(e) => Err(ErrorView::GeneralError("OCSP response not SEQUENCE: "@ + e)),
        Ok((outer, _)) => match der::parse_tlv(outer, 0x0a) {
            Err(e) => Err(ErrorView::GeneralError("OCSPResponseStatus: "@ + e)),
            Ok((status, after_status)) => match der::unsigned_int(status) {
                Err(e) => Err(e),
                Ok(n) => if n == 0 {
                    Ok(after_status)
                } else {
                    Err(
                        ErrorView::GeneralError(
                            "OCSP responder rejected request, OCSPResponseStatus = "@
                                + text::decimal(n),
                        ),
                    )
                },
            },
        },
    }
}

/// The octets in `ResponseBytes`, which must be those of a basic response.
pub open spec fn basic_octets(response_bytes: Seq<u8>) -> Result<Seq<u8>, ErrorView> {
    match der::parse_tlv(response_bytes, 0x06) {
        Err(e) => Err(ErrorView::GeneralError("OCSP responseType: "@ + e)),
        Ok((kind, after_kind)) => if kind != OCSP_BASIC_OID_DER@ {
            Err(
                ErrorView::GeneralError(
                    "OCSP unexpected responseType OID ("@ + text::decimal(kind.len())
                        + " bytes): "@ + text::hex_list(kind),
                ),
            )
        } else {
            match der::parse_only_tlv(after_kind, 0x04) {
                Err(e) => Err(ErrorView::GeneralError("OCSP response OCTET STRING: "@ + e)),
                Ok(basic) => Ok(basic),
            }
        },
    }
}

/// The basic response in an `OCSPResponse`.
pub open spec fn basic_response(response: Seq<u8>) -> Result<Seq<u8>, ErrorView> {
    match successful_remainder(response) {
        Err(e) => Err(e),
        Ok(rest) => match der::parse_only_tlv(rest, 0xa0) {
            Err(e) => Err(ErrorView::GeneralError("OCSP responseBytes [0] EXPLICIT: "@ + e)),
            Ok(explicit) => match der::parse_only_tlv(explicit, 0x30) {
                Err(e) => Err(ErrorView::GeneralError("OCSP ResponseBytes SEQUENCE: "@ + e)),
                Ok(response_bytes) => basic_octets(response_bytes),
            },
        },
    }
}

/// What a reply of an OCSP responder amounts to: the basic response, or the error.
pub open spec fn reply_response(reply: HttpReply) -> Result<Seq<u8>, ErrorView> {
    match reply {
        HttpReply::SendFailed(e) => Err(
            ErrorView::GeneralError("OCSP HTTP request failed: "@ + e@),
        ),
        HttpReply::ReadFailed(e) => Err(
            ErrorView::GeneralError("OCSP response read failed: "@ + e@),
        ),
        HttpReply::Answer { status, success, body } => if success {
            basic_response(body@)
        } else {
            Err(
                ErrorView::GeneralError(
                    "OCSP responder returned HTTP "@ + status@ + ": "@ + (text::decimal(
                        body@.len(),
                    ) + " bytes of body"@),
                ),
            )
        },
    }
}

/// The body of the `CertID` of a request stands inside exactly five SEQUENCEs.
pub proof fn law_request_holds_cert_id(body: Seq<u8>)
    requires
        der::tlv(0x30, der::tlv(0x30, der::tlv(0x30, der::tlv(0x30, body)))).len() <= 0xffff_ffff,
    ensures
        ({
            let id = der::tlv(0x30, body);
            let request = der::tlv(0x30, id);
            let list = der::tlv(0x30, request);
            let tbs = der::tlv(0x30, list);
            &&& der::parse_only_tlv(ocsp_request(body), 0x30) == Ok::<Seq<u8>, Seq<char>>(tbs)
            &&& der::parse_only_tlv(tbs, 0x30) == Ok::<Seq<u8>, Seq<char>>(list)
            &&& der::parse_only_tlv(list, 0x30) == Ok::<Seq<u8>, Seq<char>>(request)
            &&& der::parse_only_tlv(request, 0x30) == Ok::<Seq<u8>, Seq<char>>(id)
            &&& der::parse_only_tlv(id, 0x30) == Ok::<Seq<u8>, Seq<char>>(body)
        }),
{
    let id = der::tlv(0x30, body);
    let request = der::tlv(0x30, id);
    let list = der::tlv(0x30, request);
    let tbs = der::tlv(0x30, list);
    der::law_tlv_size(0x30, body);
    der::law_tlv_size(0x30, id);
    der::law_tlv_size(0x30, request);
    der::law_tlv_size(0x30, list);
    der::law_only_tlv_round_trip(0x30, tbs);
    der::law_only_tlv_round_trip(0x30, list);
    der::law_only_tlv_round_trip(0x30, request);
    der::law_only_tlv_round_trip(0x30, id);
    der::law_only_tlv_round_trip(0x30, body);
}

/// A `CertID` reads back: it holds the algorithm, the two digests and the serial number it
/// was built from, in this order, and nothing else.
#[verifier::rlimit(60)]
#[verifier::spinoff_prover]
pub proof fn law_cert_id_reads_back(name_hash: Seq<u8>, key_hash: Seq<u8>, serial: Seq<u8>)
    requires
        name_hash.len() <= 0xffff_ffff,
        key_hash.len() <= 0xffff_ffff,
        serial.len() <= 0xffff_ffff,
    ensures
        ({
            let algorithm = der::tlv(0x06, SHA1_OID_DER@) + der::tlv(0x05, Seq::<u8>::empty());
            let serial_part = der::tlv(0x02, serial);
            let after_name = der::tlv(0x04, key_hash) + serial_part;
            let after_algorithm = der::tlv(0x04, name_hash) + after_name;
            &&& der::parse_tlv(cert_id(name_hash, key_hash, serial), 0x30) == Ok::<
                (Seq<u8>, Seq<u8>),
                Seq<char>,
            >((algorithm, after_algorithm))
            &&& der::parse_tlv(after_algorithm, 0x04) == Ok::<(Seq<u8>, Seq<u8>), Seq<char>>(
                (name_hash, after_name),
            )
            &&& der::parse_tlv(after_name, 0x04) == Ok::<(Seq<u8>, Seq<u8>), Seq<char>>(
                (key_hash, serial_part),
            )
            &&& der::parse_only_tlv(serial_part, 0x02) == Ok::<Seq<u8>, Seq<char>>(serial)
        }),
{
    let algorithm = der::tlv(0x06, SHA1_OID_DER@) + der::tlv(0x05, Seq::<u8>::empty());
    let serial_part = der::tlv(0x02, serial);
    let after_name = der::tlv(0x04, key_hash) + serial_part;
    let after_algorithm = der::tlv(0x04, name_hash) + after_name;
    assert(cert_id(name_hash, key_hash, serial) =~= der::tlv(0x30, algorithm) + after_algorithm);
    der::law_tlv_size(0x06, SHA1_OID_DER@);
    der::law_tlv_size(0x05, Seq::<u8>::empty());
    der::law_tlv_round_trip(0x30, algorithm, after_algorithm);
    der::law_tlv_round_trip(0x04, name_hash, after_name);
    der::law_tlv_round_trip(0x04, key_hash, serial_part);
    der::law_only_tlv_round_trip(0x02, serial);
}

/// The body of an `OCSPResponse` with the given status octet, and `rest` behind the status.
pub open spec fn response_body(status: u8, rest: Seq<u8>) -> Seq<u8> {
    der::tlv(0x0a, seq![status]) + rest
}

/// An `OCSPResponse` with such a body.
pub open spec fn response_with_status(status: u8, rest: Seq<u8>) -> Seq<u8> {
    der::tlv(0x30, response_body(status, rest))
}

/// The `responseBytes` of an `OCSPResponse`, for a response of the kind that the object
/// identifier `kind` names.
pub open spec fn response_bytes(kind: Seq<u8>, octets: Seq<u8>) -> Seq<u8> {
    der::tlv(0xa0, der::tlv(0x30, der::tlv(0x06, kind) + der::tlv(0x04, octets)))
}

#[verifier::rlimit(60)]
#[verifier::spinoff_prover]
proof fn lemma_status_reads_back(status: u8, rest: Seq<u8>)
    requires
        response_body(status, rest).len() <= 0xffff_ffff,
    ensures
        successful_remainder(response_with_status(status, rest)) == if status == 0 {
            Ok::<Seq<u8>, ErrorView>(rest)
        } else {
            Err::<Seq<u8>, ErrorView>(
                ErrorView::GeneralError(
                    "OCSP responder rejected request, OCSPResponseStatus = "@ + text::decimal(
                        status as nat,
                    ),
                ),
            )
        },
{
    let outer = der::tlv(0x0a, seq![status]) + rest;
    assert(der::parse_tlv(response_with_status(status, rest), 0x30) == Ok::<
        (Seq<u8>, Seq<u8>),
        Seq<char>,
    >((outer, Seq::empty()))) by {
        assert(der::tlv(0x30, outer) + Seq::<u8>::empty() =~= der::tlv(0x30, outer));
        der::law_tlv_round_trip(0x30, outer, Seq::empty());
    }
    assert(der::parse_tlv(outer, 0x0a) == Ok::<(Seq<u8>, Seq<u8>), Seq<char>>(
        (seq![status], rest),
    )) by {
        der::law_tlv_round_trip(0x0a, seq![status], rest);
    }
    assert(der::unsigned_int(seq![status]) == Ok::<nat, ErrorView>(status as nat)) by {
        reveal_with_fuel(der::be_value, 2);
        assert(seq![status].drop_last() =~= Seq::<u8>::empty());
    }
}

#[verifier::rlimit(60)]
#[verifier::spinoff_prover]
proof fn lemma_response_bytes_read_back(kind: Seq<u8>, octets: Seq<u8>)
    requires
        response_body(0, response_bytes(kind, octets)).len() <= 0xffff_ffff,
    ensures
        kind.len() <= 0xffff_ffff,
        octets.len() <= 0xffff_ffff,
        basic_response(response_with_status(0, response_bytes(kind, octets))) == basic_octets(
            der::tlv(0x06, kind) + der::tlv(0x04, octets),
        ),
{
    let inner = der::tlv(0x06, kind) + der::tlv(0x04, octets);
    let sequence = der::tlv(0x30, inner);
    der::law_tlv_size(0x06, kind);
    der::law_tlv_size(0x04, octets);
    der::law_tlv_size(0x30, inner);
    der::law_tlv_size(0xa0, sequence);
    lemma_status_reads_back(0, response_bytes(kind, octets));
    assert(der::parse_only_tlv(response_bytes(kind, octets), 0xa0) == Ok::<Seq<u8>, Seq<char>>(
        sequence,
    )) by {
        der::law_only_tlv_round_trip(0xa0, sequence);
    }
    assert(der::parse_only_tlv(sequence, 0x30) == Ok::<Seq<u8>, Seq<char>>(inner)) by {
        der::law_only_tlv_round_trip(0x30, inner);
    }
}

/// The basic response in a successful response comes out as it went in.
pub proof fn law_basic_response_is_returned(octets: Seq<u8>)
    requires
        response_body(0, response_bytes(OCSP_BASIC_OID_DER@, octets)).len() <= 0xffff_ffff,
    ensures
        basic_response(response_with_status(0, response_bytes(OCSP_BASIC_OID_DER@, octets))) == Ok::<
            Seq<u8>,
            ErrorView,
        >(octets),
{
    lemma_response_bytes_read_back(OCSP_BASIC_OID_DER@, octets);
    der::law_tlv_round_trip(0x06, OCSP_BASIC_OID_DER@, der::tlv(0x04, octets));
    der::law_only_tlv_round_trip(0x04, octets);
}

/// A response with any other status is refused, whatever follows the status, and the error
/// names the status.
pub proof fn law_other_status_is_refused(status: u8, rest: Seq<u8>)
    requires
        status != 0,
        response_body(status, rest).len() <= 0xffff_ffff,
    ensures
        basic_response(response_with_status(status, rest)) == Err::<Seq<u8>, ErrorView>(
            ErrorView::GeneralError(
                "OCSP responder rejected request, OCSPResponseStatus = "@ + text::decimal(
                    status as nat,
                ),
            ),
        ),
{
    lemma_status_reads_back(status, rest);
}

/// A successful response of another kind than a basic one is refused, and the error names
/// the kind.
pub proof fn law_other_kind_is_refused(kind: Seq<u8>, octets: Seq<u8>)
    requires
        kind != OCSP_BASIC_OID_DER@,
        response_body(0, response_bytes(kind, octets)).len() <= 0xffff_ffff,
    ensures
        basic_response(response_with_status(0, response_bytes(kind, octets))) == Err::<
            Seq<u8>,
            ErrorView,
        >(
            ErrorView::GeneralError(
                "OCSP unexpected responseType OID ("@ + text::decimal(kind.len()) + " bytes): "@
                    + text::hex_list(kind),
            ),
        ),
{
    lemma_response_bytes_read_back(kind, octets);
    der::law_tlv_round_trip(0x06, kind, der::tlv(0x04, octets));
}

/// The `OCSPRequest` about the certificate with the given issuer's name (in DER), issuer's
/// key and serial number.
pub fn ocsp_request_for(issuer_name: &[u8], issuer_key: &[u8], serial: &[u8]) -> (r: Vec<u8>)
    ensures
        r@ == ocsp_request_naming(issuer_name@, issuer_key@, serial@),
{
    let mut algorithm_body = encode_tlv(0x06, &SHA1_OID_DER);
    algorithm_body.append(&mut encode_tlv(0x05, &[]));
    let name_hash = sha1(issuer_name);
    let key_hash = sha1(issuer_key);
    let mut body = encode_tlv(0x30, algorithm_body.as_slice());
    body.append(&mut encode_tlv(0x04, name_hash.as_slice()));
    body.append(&mut encode_tlv(0x04, key_hash.as_slice()));
    body.append(&mut encode_tlv(0x02, serial));
    let id = encode_tlv(0x30, body.as_slice());
    let request = encode_tlv(0x30, id.as_slice());
    let list = encode_tlv(0x30, request.as_slice());
    let tbs = encode_tlv(0x30, list.as_slice());
    encode_tlv(0x30, tbs.as_slice())
}

/// The `OCSPRequest` about the certificate `subject_cert_der`, issued by `issuer_cert_der`.
pub fn build_ocsp_request(subject_cert_der: &[u8], issuer_cert_der: &[u8]) -> (r: Result<
    Vec<u8>,
    SignatureError,
>)
    ensures
        error::bytes_view(r) == ocsp_request_about(subject_cert_der@, issuer_cert_der@),
{
    let subject = match parse_certificate(subject_cert_der) {
        Ok(subject) => subject,
        Err(e) => return Err(
            SignatureError::GeneralError(concat2("OCSP: parse subject cert: ", e.as_str())),
        ),
    };
    let issuer = match parse_certificate(issuer_cert_der) {
        Ok(issuer) => issuer,
        Err(e) => return Err(
            SignatureError::GeneralError(concat2("OCSP: parse issuer cert: ", e.as_str())),
        ),
    };
    Ok(
        ocsp_request_for(
            issuer.fields.raw_subject.as_slice(),
            issuer.fields.key.as_slice(),
            subject.fields.raw_serial.as_slice(),
        ),
    )
}

/// Tells whether `a` and `b` hold the same bytes.
fn same_bytes(a: &[u8], b: &[u8]) -> (r: bool)
    ensures
        r == (a@ == b@),
{
    if a.len() != b.len() {
        return false;
    }
    let mut i: usize = 0;
    while i < a.len()
        invariant
            i <= a.len() == b.len(),
            a@.take(i as int) =~= b@.take(i as int),
        decreases a.len() - i,
    {
        if a[i] != b[i] {
            return false;
        }
        i += 1;
    }
    assert(a@ =~= a@.take(i as int));
    assert(b@ =~= b@.take(i as int));
    true
}

/// The basic response in an `OCSPResponse`, ready to be embedded in a signature.
pub fn extract_basic_ocsp_response(response_der: &[u8]) -> (r: Result<Vec<u8>, SignatureError>)
    ensures
        error::bytes_view(r) == basic_response(response_der@),
{
    let (outer, _) = match read_tlv_with_remainder(response_der, 0x30) {
        Ok(found) => found,
        Err(e) => return Err(
            SignatureError::GeneralError(concat2("OCSP response not SEQUENCE: ", e)),
        ),
    };
    let (status, after_status) = match read_tlv_with_remainder(outer, 0x0a) {
        Ok(found) => found,
        Err(e) => return Err(SignatureError::GeneralError(concat2("OCSPResponseStatus: ", e))),
    };
    let n = match decode_unsigned_int(status) {
        Ok(n) => n,
        Err(e) => return Err(e),
    };
    if n != 0 {
        let number = decimal_text(n);
        return Err(
            SignatureError::GeneralError(
                concat2(
                    "OCSP responder rejected request, OCSPResponseStatus = ",
                    number.as_str(),
                ),
            ),
        );
    }
    let explicit = match read_tlv(after_status, 0xa0) {
        Ok(found) => found,
        Err(e) => return Err(
            SignatureError::GeneralError(concat2("OCSP responseBytes [0] EXPLICIT: ", e)),
        ),
    };
    let response_bytes = match read_tlv(explicit, 0x30) {
        Ok(found) => found,
        Err(e) => return Err(
            SignatureError::GeneralError(concat2("OCSP ResponseBytes SEQUENCE: ", e)),
        ),
    };
    let (kind, after_kind) = match read_tlv_with_remainder(response_bytes, 0x06) {
        Ok(found) => found,
        Err(e) => return Err(SignatureError::GeneralError(concat2("OCSP responseType: ", e))),
    };
    if !same_bytes(kind, &OCSP_BASIC_OID_DER) {
        let size = decimal_text(kind.len() as u64);
        let list = hex_list_text(kind);
        return Err(
            SignatureError::GeneralError(
                concat4(
                    "OCSP unexpected responseType OID (",
                    size.as_str(),
                    " bytes): ",
                    list.as_str(),
                ),
            ),
        );
    }
    match read_tlv(after_kind, 0x04) {
        Ok(basic) => Ok(slice_to_vec(basic)),
        Err(e) => Err(SignatureError::GeneralError(concat2("OCSP response OCTET STRING: ", e))),
    }
}

/// The basic response in the reply of an OCSP responder.
pub fn ocsp_response_from_reply(reply: &HttpReply) -> (r: Result<Vec<u8>, SignatureError>)
    ensures
        error::bytes_view(r) == reply_response(*reply),
{
    match reply {
        HttpReply::SendFailed(e) => Err(
            SignatureError::GeneralError(concat2("OCSP HTTP request failed: ", e.as_str())),
        ),
        HttpReply::ReadFailed(e) => Err(
            SignatureError::GeneralError(concat2("OCSP response read failed: ", e.as_str())),
        ),
        HttpReply::Answer { status, success, body } => {
            if !*success {
                let size = decimal_text(body.len() as u64);
                let size_text = concat2(size.as_str(), " bytes of body");
                return Err(
                    SignatureError::GeneralError(
                        concat4(
                            "OCSP responder returned HTTP ",
                            status.as_str(),
                            ": ",
                            size_text.as_str(),
                        ),
                    ),
                );
            }
            extract_basic_ocsp_response(body.as_slice())
        },
    }
}

/// What stands inside `depth` SEQUENCEs, each the only element of the one around it.
pub open spec fn inside_sequences(input: Seq<u8>, depth: nat) -> Option<Seq<u8>>
    decreases depth,
{
    if depth == 0 {
        Some(input)
    } else {
        match der::parse_only_tlv(input, 0x30) {
            Ok(value) => inside_sequences(value, (depth - 1) as nat),
            Err(_) => None,
        }
    }
}

/// Whether the body of a `CertID` reads as SHA-1 with NULL parameters, the two digests and the serial
/// number, with nothing behind them.
pub open spec fn names_certificate(
    body: Seq<u8>,
    name_hash: Seq<u8>,
    key_hash: Seq<u8>,
    serial: Seq<u8>,
) -> bool {
    &&& der::parse_tlv(body, 0x30) matches Ok((algorithm, after_algorithm))
    &&& der::parse_tlv(algorithm, 0x06) matches Ok((oid, parameters))
    &&& oid == seq![0x2bu8, 0x0e, 0x03, 0x02, 0x1a]
    &&& der::parse_only_tlv(parameters, 0x05) == Ok::<Seq<u8>, Seq<char>>(Seq::empty())
    &&& der::parse_tlv(after_algorithm, 0x04) matches Ok((name, after_name))
    &&& name == name_hash
    &&& der::parse_tlv(after_name, 0x04) matches Ok((key, after_key))
    &&& key == key_hash
    &&& der::parse_only_tlv(after_key, 0x02) == Ok::<Seq<u8>, Seq<char>>(serial)
}

#[verifier::rlimit(60)]
#[verifier::spinoff_prover]
proof fn lemma_request_is_peeled(body: Seq<u8>)
    requires
        ocsp_request(body).len() <= 0xffff_ffff,
    ensures
        inside_sequences(ocsp_request(body), 5) == Some(body),
        body.len() <= ocsp_request(body).len(),
{
    let id = der::tlv(0x30, body);
    let request = der::tlv(0x30, id);
    let list = der::tlv(0x30, request);
    let tbs = der::tlv(0x30, list);
    der::law_tlv_size(0x30, body);
    der::law_tlv_size(0x30, id);
    der::law_tlv_size(0x30, request);
    der::law_tlv_size(0x30, list);
    der::law_tlv_size(0x30, tbs);
    law_request_holds_cert_id(body);
    assert(inside_sequences(body, 0) == Some(body));
    assert(inside_sequences(id, 1) == Some(body));
    assert(inside_sequences(request, 2) == Some(body));
    assert(inside_sequences(list, 3) == Some(body));
    assert(inside_sequences(tbs, 4) == Some(body));
}

#[verifier::rlimit(60)]
#[verifier::spinoff_prover]
proof fn lemma_cert_id_names(name_hash: Seq<u8>, key_hash: Seq<u8>, serial: Seq<u8>)
    requires
        cert_id(name_hash, key_hash, serial).len() <= 0xffff_ffff,
    ensures
        names_certificate(cert_id(name_hash, key_hash, serial), name_hash, key_hash, serial),
{
    der::law_tlv_size(0x04, name_hash);
    der::law_tlv_size(0x04, key_hash);
    der::law_tlv_size(0x02, serial);
    law_cert_id_reads_back(name_hash, key_hash, serial);
    der::law_tlv_round_trip(0x06, SHA1_OID_DER@, der::tlv(0x05, Seq::<u8>::empty()));
    der::law_only_tlv_round_trip(0x05, Seq::<u8>::empty());
    assert(SHA1_OID_DER@ =~= seq![0x2bu8, 0x0e, 0x03, 0x02, 0x1a]);
}

/// A request about a certificate names that certificate: inside five SEQUENCEs stands a `CertID` that
/// reads back as the SHA-1 digest of the issuer's name, the SHA-1 digest of the issuer's key, and the
/// octets of the certificate's serial number, all of them and no others, whatever their count.
#[verifier::rlimit(60)]
#[verifier::spinoff_prover]
pub proof fn law_request_names_the_certificate(
    subject_der: Seq<u8>,
    issuer_der: Seq<u8>,
    request: Seq<u8>,
)
    requires
        ocsp_request_about(subject_der, issuer_der) == Ok::<Seq<u8>, ErrorView>(request),
        request.len() <= 0xffff_ffff,
    ensures
        certificate::x509_certificate(subject_der) matches Ok(subject) && (
        certificate::x509_certificate(issuer_der) matches Ok(issuer) && (inside_sequences(
            request,
            5,
        ) matches Some(body) && names_certificate(
            body,
            crypto::sha1_digest(issuer.raw_subject),
            crypto::sha1_digest(issuer.key),
            subject.raw_serial,
        ))),
{
    let subject = certificate::x509_certificate(subject_der)->Ok_0;
    let issuer = certificate::x509_certificate(issuer_der)->Ok_0;
    let name_hash = crypto::sha1_digest(issuer.raw_subject);
    let key_hash = crypto::sha1_digest(issuer.key);
    let serial = subject.raw_serial;
    let body = cert_id(name_hash, key_hash, serial);
    lemma_request_is_peeled(body);
    lemma_cert_id_names(name_hash, key_hash, serial);
}

/// Two certificates with different serial numbers are not asked about with the same request.
pub proof fn law_requests_tell_certificates_apart(
    one_der: Seq<u8>,
    other_der: Seq<u8>,
    issuer_der: Seq<u8>,
    request: Seq<u8>,
)
    requires
        ocsp_request_about(one_der, issuer_der) == Ok::<Seq<u8>, ErrorView>(request),
        ocsp_request_about(other_der, issuer_der) == Ok::<Seq<u8>, ErrorView>(request),
        request.len() <= 0xffff_ffff,
    ensures
        certificate::x509_certificate(one_der) matches Ok(one) && (certificate::x509_certificate(
            other_der,
        ) matches Ok(other) && one.raw_serial == other.raw_serial),
{
    law_request_names_the_certificate(one_der, issuer_der, request);
    law_request_names_the_certificate(other_der, issuer_der, request);
}

/// There is a request just where both certificates can be parsed. The error names the one that cannot,
/// the subject's before the issuer's.
pub proof fn law_request_needs_both_certificates(subject_der: Seq<u8>, issuer_der: Seq<u8>)
    ensures
        ocsp_request_about(subject_der, issuer_der) is Ok <==> certificate::x509_certificate(
            subject_der,
        ) is Ok && certificate::x509_certificate(issuer_der) is Ok,
        certificate::x509_certificate(subject_der) matches Err(e) ==> ocsp_request_about(
            subject_der,
            issuer_der,
        ) == Err::<Seq<u8>, ErrorView>(ErrorView::GeneralError("OCSP: parse subject cert: "@ + e)),
        certificate::x509_certificate(subject_der) is Ok ==> (certificate::x509_certificate(
            issuer_der,
        ) matches Err(e) ==> ocsp_request_about(subject_der, issuer_der) == Err::<Seq<u8>, ErrorView>(
            ErrorView::GeneralError("OCSP: parse issuer cert: "@ + e),
        )),
{
}

/// A basic response that is returned was in the response, behind a status of zero, inside the context
/// tag, as an OCTET STRING that stands behind the object identifier of basic responses.
pub proof fn law_returned_response_was_in_the_answer(response: Seq<u8>, basic: Seq<u8>)
    ensures
        basic_response(response) == Ok::<Seq<u8>, ErrorView>(basic) <==> {
            &&& der::parse_tlv(response, 0x30) matches Ok((outer, _))
            &&& der::parse_tlv(outer, 0x0a) matches Ok((status, after_status))
            &&& der::unsigned_int(status) == Ok::<nat, ErrorView>(0)
            &&& der::parse_only_tlv(after_status, 0xa0) matches Ok(explicit)
            &&& der::parse_only_tlv(explicit, 0x30) matches Ok(response_bytes)
            &&& der::parse_tlv(response_bytes, 0x06) matches Ok((kind, after_kind))
            &&& kind == seq![0x2bu8, 0x06, 0x01, 0x05, 0x05, 0x07, 0x30, 0x01, 0x01]
            &&& der::parse_only_tlv(after_kind, 0x04) == Ok::<Seq<u8>, Seq<char>>(basic)
        },
{
    assert(OCSP_BASIC_OID_DER@ =~= seq![
        0x2bu8,
        0x06,
        0x01,
        0x05,
        0x05,
        0x07,
        0x30,
        0x01,
        0x01,
    ]);
}

/// Of an answer with a status of success the body is read; any other reply is an error that tells what
/// came of the request.
pub proof fn law_reply_is_read_on_success(reply: HttpReply)
    ensures
        reply matches HttpReply::Answer { status, success, body } ==> if success {
            reply_response(reply) == basic_response(body@)
        } else {
            reply_response(reply) == Err::<Seq<u8>, ErrorView>(
                ErrorView::GeneralError(
                    "OCSP responder returned HTTP "@ + status@ + ": "@ + (text::decimal(
                        body@.len(),
                    ) + " bytes of body"@),
                ),
            )
        },
        reply matches HttpReply::SendFailed(e) ==> reply_response(reply) == Err::<
            Seq<u8>,
            ErrorView,
        >(ErrorView::GeneralError("OCSP HTTP request failed: "@ + e@)),
        reply matches HttpReply::ReadFailed(e) ==> reply_response(reply) == Err::<
            Seq<u8>,
            ErrorView,
        >(ErrorView::GeneralError("OCSP response read failed: "@ + e@)),
{
}

/// Where a response cannot be read, the error names the part at which reading stopped.
pub proof fn law_reading_stops_at_a_part(response: Seq<u8>)
    ensures
        ({
            let r = basic_response(response);
            let outer = der::parse_tlv(response, 0x30);
            let status = der::parse_tlv(outer->Ok_0.0, 0x0a);
            let number = der::unsigned_int(status->Ok_0.0);
            let explicit = der::parse_only_tlv(status->Ok_0.1, 0xa0);
            let bytes = der::parse_only_tlv(explicit->Ok_0, 0x30);
            let kind = der::parse_tlv(bytes->Ok_0, 0x06);
            let octets = der::parse_only_tlv(kind->Ok_0.1, 0x04);
            let granted = outer is Ok && status is Ok && number == Ok::<nat, ErrorView>(0);
            &&& outer matches Err(e) ==> r == Err::<Seq<u8>, ErrorView>(
                ErrorView::GeneralError("OCSP response not SEQUENCE: "@ + e),
            )
            &&& outer is Ok ==> (status matches Err(e) ==> r == Err::<Seq<u8>, ErrorView>(
                ErrorView::GeneralError("OCSPResponseStatus: "@ + e),
            ))
            &&& outer is Ok && status is Ok ==> (number matches Err(e) ==> r == Err::<
                Seq<u8>,
                ErrorView,
            >(e))
            &&& outer is Ok && status is Ok ==> (number matches Ok(n) ==> n != 0 ==> r == Err::<
                Seq<u8>,
                ErrorView,
            >(
                ErrorView::GeneralError(
                    "OCSP responder rejected request, OCSPResponseStatus = "@ + text::decimal(n),
                ),
            ))
            &&& granted ==> (explicit matches Err(e) ==> r == Err::<Seq<u8>, ErrorView>(
                ErrorView::GeneralError("OCSP responseBytes [0] EXPLICIT: "@ + e),
            ))
            &&& granted && explicit is Ok ==> (bytes matches Err(e) ==> r == Err::<
                Seq<u8>,
                ErrorView,
            >(ErrorView::GeneralError("OCSP ResponseBytes SEQUENCE: "@ + e)))
            &&& granted && explicit is Ok && bytes is Ok ==> (kind matches Err(e) ==> r == Err::<
                Seq<u8>,
                ErrorView,
            >(ErrorView::GeneralError("OCSP responseType: "@ + e)))
            &&& granted && explicit is Ok && bytes is Ok && kind is Ok && kind->Ok_0.0
                == OCSP_BASIC_OID_DER@ ==> (octets matches Err(e) ==> r == Err::<Seq<u8>, ErrorView>(
                ErrorView::GeneralError("OCSP response OCTET STRING: "@ + e),
            ))
        }),
{
}

} // verus!
