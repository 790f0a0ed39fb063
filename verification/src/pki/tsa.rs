//! Timestamp requests and tokens (RFC 3161).
//!
//! A timestamp proves that a signature existed at some time. The digest of the canonical
//! signature value goes to a timestamp authority, and the token that comes back is
//! embedded in the signature.

use vstd::prelude::*;
use vstd::slice::slice_to_vec;

use super::der::{
    decode_unsigned_int, encode_tlv, read_length, read_tlv_with_remainder, total_tlv_length,
};
use super::{der, HttpReply};
use crate::crypto::{self, sha256};
use crate::error::{self, ErrorView, SignatureError};
use crate::text::{self, concat2, concat4, decimal_text};

verus! {

/// The timestamp authority that is used unless another one is named.
pub const DEFAULT_TSA_URL: &'static str = "https://eid-dd.ria.ee/ts";

/// The value of the object identifier of SHA-256, 2.16.840.1.101.3.4.2.1.
pub const SHA256_OID_DER: [u8; 9] = [0x60, 0x86, 0x48, 0x01, 0x65, 0x03, 0x04, 0x02, 0x01];

/// The hash algorithm of a request: SHA-256 with NULL parameters.
pub open spec fn request_algorithm() -> Seq<u8> {
    der::tlv(0x30, der::tlv(0x06, SHA256_OID_DER@) + der::tlv(0x05, Seq::empty()))
}

/// The message imprint of a request: the hash algorithm and the digest.
pub open spec fn message_imprint(imprint: Seq<u8>) -> Seq<u8> {
    request_algorithm() + der::tlv(0x04, imprint)
}

/// The body of a `TimeStampReq` for a digest: version 1, the message imprint, and the wish that
/// the answer hold the authority's certificate.
pub open spec fn request_body(imprint: Seq<u8>) -> Seq<u8> {
    der::tlv(0x02, seq![0x01u8]) + der::tlv(0x30, message_imprint(imprint)) + der::tlv(
        0x01,
        seq![0xffu8],
    )
}

/// A `TimeStampReq` for a digest.
pub open spec fn timestamp_request(imprint: Seq<u8>) -> Seq<u8> {
    der::tlv(0x30, request_body(imprint))
}

/// What follows the status in a `TimeStampResp` whose status is granted (0) or granted with
/// modifications (1).
pub open spec fn granted_remainder(response: Seq<u8>) -> Result<Seq<u8>, ErrorView> {
    match der::parse_tlv(response, 0x30) {
        Err(e) => Err(ErrorView::GeneralError("TSA response not SEQUENCE: "@ + e)),
        Ok((outer, _)) => match der::parse_tlv(outer, 0x30) {
            Err(e) => Err(ErrorView::GeneralError("TSA PKIStatusInfo: "@ + e)),
            Ok((status_info, rest)) => match der::parse_tlv(status_info, 0x02) {
                Err(e) => Err(ErrorView::GeneralError("PKIStatus: "@ + e)),
                Ok((status, _)) => match der::unsigned_int(status) {
                    Err(e) => Err(e),
                    Ok(n) => if n == 0 || n == 1 {
                        Ok(rest)
                    } else {
                        Err(
                            ErrorView::GeneralError(
                                "TSA rejected request, PKIStatus = "@ + text::decimal(n),
                            ),
                        )
                    },
                },
            },
        },
    }
}

/// The token in a `TimeStampResp`: the element behind a granted status, tag and length
/// octets kept. It is a SEQUENCE.
pub open spec fn timestamp_token(response: Seq<u8>) -> Result<Seq<u8>, ErrorView> {
    match granted_remainder(response) {
        Err(e) => Err(e),
        Ok(rest) => if rest.len() == 0 {
            Err(ErrorView::GeneralError("TSA response missing timeStampToken"@))
        } else {
            match der::element_size(rest) {
                Err(e) => Err(ErrorView::GeneralError("timeStampToken length: "@ + e)),
                Ok(size) => if rest[0] != 0x30 {
                    Err(ErrorView::GeneralError("timeStampToken: unexpected DER tag"@))
                } else {
                    Ok(rest.take(size as int))
                },
            }
        },
    }
}

/// Whether the token of a granted response, as far as its length octets can be read, is
/// there up to its end.
pub open spec fn token_is_complete(response: Seq<u8>) -> bool {
    granted_remainder(response) matches Ok(rest) ==> (der::element_size(rest) matches Ok(size) ==> size
        <= rest.len())
}

/// What a reply of a timestamp authority amounts to: the token, or the error.
pub open spec fn reply_token(reply: HttpReply) -> Result<Seq<u8>, ErrorView> {
    match reply {
        HttpReply::SendFailed(e) => Err(
            ErrorView::GeneralError("TSA HTTP request failed: "@ + e@),
        ),
        HttpReply::ReadFailed(e) => Err(
            ErrorView::GeneralError("TSA response read failed: "@ + e@),
        ),
        HttpReply::Answer { status, success, body } => if success {
            timestamp_token(body@)
        } else {
            Err(
                ErrorView::GeneralError(
                    "TSA returned HTTP "@ + status@ + ": "@ + (text::decimal(body@.len())
                        + " bytes of body"@),
                ),
            )
        },
    }
}

/// A request reads back as what it was built from: the version, the SHA-256 algorithm, the
/// digest, and the wish for the certificate, and nothing else.
#[verifier::rlimit(60)]
#[verifier::spinoff_prover]
pub proof fn law_request_reads_back(imprint: Seq<u8>)
    requires
        request_body(imprint).len() <= 0xffff_ffff,
    ensures
        ({
            let imprint_part = message_imprint(imprint);
            let cert_req = der::tlv(0x01, seq![0xffu8]);
            let after_version = der::tlv(0x30, imprint_part) + cert_req;
            let body = der::tlv(0x02, seq![0x01u8]) + after_version;
            let algorithm = der::tlv(0x06, SHA256_OID_DER@) + der::tlv(0x05, Seq::<u8>::empty());
            &&& der::parse_only_tlv(timestamp_request(imprint), 0x30) == Ok::<Seq<u8>, Seq<char>>(body)
            &&& der::parse_tlv(body, 0x02) == Ok::<(Seq<u8>, Seq<u8>), Seq<char>>(
                (seq![0x01u8], after_version),
            )
            &&& der::parse_tlv(after_version, 0x30) == Ok::<(Seq<u8>, Seq<u8>), Seq<char>>(
                (imprint_part, cert_req),
            )
            &&& der::parse_tlv(imprint_part, 0x30) == Ok::<(Seq<u8>, Seq<u8>), Seq<char>>(
                (algorithm, der::tlv(0x04, imprint)),
            )
            &&& der::parse_tlv(algorithm, 0x06) == Ok::<(Seq<u8>, Seq<u8>), Seq<char>>(
                (SHA256_OID_DER@, der::tlv(0x05, Seq::<u8>::empty())),
            )
            &&& der::parse_only_tlv(der::tlv(0x04, imprint), 0x04) == Ok::<Seq<u8>, Seq<char>>(imprint)
            &&& der::parse_only_tlv(cert_req, 0x01) == Ok::<Seq<u8>, Seq<char>>(seq![0xffu8])
        }),
{
    let imprint_part = message_imprint(imprint);
    let cert_req = der::tlv(0x01, seq![0xffu8]);
    let after_version = der::tlv(0x30, imprint_part) + cert_req;
    let body = der::tlv(0x02, seq![0x01u8]) + after_version;
    let algorithm = der::tlv(0x06, SHA256_OID_DER@) + der::tlv(0x05, Seq::<u8>::empty());
    assert(der::tlv(0x02, seq![0x01u8]) + der::tlv(0x30, imprint_part) + cert_req =~= body);
    der::law_tlv_size(0x06, SHA256_OID_DER@);
    der::law_tlv_size(0x05, Seq::<u8>::empty());
    der::law_tlv_size(0x30, algorithm);
    der::law_tlv_size(0x04, imprint);
    der::law_tlv_size(0x30, imprint_part);
    der::law_tlv_size(0x02, seq![0x01u8]);
    der::law_tlv_size(0x01, seq![0xffu8]);
    der::law_only_tlv_round_trip(0x30, body);
    der::law_tlv_round_trip(0x02, seq![0x01u8], after_version);
    der::law_tlv_round_trip(0x30, imprint_part, cert_req);
    der::law_tlv_round_trip(0x30, algorithm, der::tlv(0x04, imprint));
    der::law_tlv_round_trip(0x06, SHA256_OID_DER@, der::tlv(0x05, Seq::<u8>::empty()));
    der::law_only_tlv_round_trip(0x04, imprint);
    der::law_only_tlv_round_trip(0x01, seq![0xffu8]);
}

/// The body of a response with the given status octet, whatever else its status information
/// holds, and with `rest` behind the status information.
pub open spec fn response_body(status: u8, details: Seq<u8>, rest: Seq<u8>) -> Seq<u8> {
    der::tlv(0x30, der::tlv(0x02, seq![status]) + details) + rest
}

/// A response with such a body.
pub open spec fn response_with_status(status: u8, details: Seq<u8>, rest: Seq<u8>) -> Seq<u8> {
    der::tlv(0x30, response_body(status, details, rest))
}

#[verifier::rlimit(60)]
#[verifier::spinoff_prover]
proof fn lemma_status_reads_back(status: u8, details: Seq<u8>, rest: Seq<u8>)
    requires
        response_body(status, details, rest).len() <= 0xffff_ffff,
    ensures
        granted_remainder(response_with_status(status, details, rest)) == if status <= 1 {
            Ok::<Seq<u8>, ErrorView>(rest)
        } else {
            Err::<Seq<u8>, ErrorView>(
                ErrorView::GeneralError(
                    "TSA rejected request, PKIStatus = "@ + text::decimal(status as nat),
                ),
            )
        },
{
    let info = der::tlv(0x02, seq![status]) + details;
    let outer = der::tlv(0x30, info) + rest;
    der::law_tlv_size(0x30, info);
    assert(der::parse_tlv(response_with_status(status, details, rest), 0x30) == Ok::<
        (Seq<u8>, Seq<u8>),
        Seq<char>,
    >((outer, Seq::empty()))) by {
        assert(der::tlv(0x30, outer) + Seq::<u8>::empty() =~= der::tlv(0x30, outer));
        der::law_tlv_round_trip(0x30, outer, Seq::empty());
    }
    assert(der::parse_tlv(outer, 0x30) == Ok::<(Seq<u8>, Seq<u8>), Seq<char>>((info, rest))) by {
        der::law_tlv_round_trip(0x30, info, rest);
    }
    assert(der::parse_tlv(info, 0x02) == Ok::<(Seq<u8>, Seq<u8>), Seq<char>>(
        (seq![status], details),
    )) by {
        der::law_tlv_round_trip(0x02, seq![status], details);
    }
    assert(der::unsigned_int(seq![status]) == Ok::<nat, ErrorView>(status as nat)) by {
        reveal_with_fuel(der::be_value, 2);
        assert(seq![status].drop_last() =~= Seq::<u8>::empty());
    }
}

/// The token of a granted response comes out as it went in, whatever the status
/// information holds besides the status, and whatever follows the token.
pub proof fn law_granted_token_is_returned(
    status: u8,
    details: Seq<u8>,
    token_value: Seq<u8>,
    trailing: Seq<u8>,
)
    requires
        status == 0 || status == 1,
        response_body(status, details, der::tlv(0x30, token_value) + trailing).len()
            <= 0xffff_ffff,
    ensures
        timestamp_token(
            response_with_status(status, details, der::tlv(0x30, token_value) + trailing),
        ) == Ok::<Seq<u8>, ErrorView>(der::tlv(0x30, token_value)),
        token_is_complete(
            response_with_status(status, details, der::tlv(0x30, token_value) + trailing),
        ),
{
    let token = der::tlv(0x30, token_value);
    der::law_tlv_size(0x30, token_value);
    lemma_status_reads_back(status, details, token + trailing);
    assert(der::element_size(token + trailing) == Ok::<nat, Seq<char>>(token.len())) by {
        der::law_tlv_round_trip(0x30, token_value, trailing);
    }
    assert((token + trailing).take(token.len() as int) =~= token);
}

/// A response with any other status is refused, and the error names the status.
pub proof fn law_other_status_is_refused(status: u8, details: Seq<u8>, rest: Seq<u8>)
    requires
        status > 1,
        response_body(status, details, rest).len() <= 0xffff_ffff,
    ensures
        timestamp_token(response_with_status(status, details, rest)) == Err::<Seq<u8>, ErrorView>(
            ErrorView::GeneralError(
                "TSA rejected request, PKIStatus = "@ + text::decimal(status as nat),
            ),
        ),
{
    lemma_status_reads_back(status, details, rest);
}

/// A token that is returned is one whole SEQUENCE element.
pub proof fn law_token_is_one_sequence(response: Seq<u8>)
    requires
        token_is_complete(response),
    ensures
        timestamp_token(response) matches Ok(token) ==> {
            &&& token.len() >= 2
            &&& token[0] == 0x30
            &&& der::parse_only_tlv(token, 0x30) is Ok
        },
{
    if let Ok(token) = timestamp_token(response) {
        let rest = granted_remainder(response)->Ok_0;
        assert(token.skip(1) =~= rest.skip(1).take(token.len() - 1));
        let body = rest.skip(1);
        if body[0] >= 0x80 {
            let end = 1 + (body[0] - 0x80);
            assert(body.subrange(1, end) =~= token.skip(1).subrange(1, end));
        }
    }
}

/// A `TimeStampReq` for a SHA-256 digest.
pub fn build_timestamp_request(imprint_sha256: &[u8]) -> (r: Vec<u8>)
    ensures
        r@ == timestamp_request(imprint_sha256@),
{
    let mut algorithm_body = encode_tlv(0x06, &SHA256_OID_DER);
    algorithm_body.append(&mut encode_tlv(0x05, &[]));
    let mut imprint_body = encode_tlv(0x30, algorithm_body.as_slice());
    imprint_body.append(&mut encode_tlv(0x04, imprint_sha256));
    let mut body = encode_tlv(0x02, &[0x01]);
    body.append(&mut encode_tlv(0x30, imprint_body.as_slice()));
    body.append(&mut encode_tlv(0x01, &[0xff]));
    encode_tlv(0x30, body.as_slice())
}

/// The request that asks for a timestamp over a canonical signature value: it holds the
/// SHA-256 digest of these bytes.
pub fn signature_value_request(canonical_signature_value: &[u8]) -> (r: Vec<u8>)
    ensures
        r@ == timestamp_request(crypto::sha256_digest(canonical_signature_value@)),
{
    let imprint = sha256(canonical_signature_value);
    build_timestamp_request(imprint.as_slice())
}

/// What follows the status in a response whose status is granted.
fn read_granted_remainder<'a>(response_der: &'a [u8]) -> (r: Result<&'a [u8], SignatureError>)
    ensures
        match r {
            Ok(rest) => granted_remainder(response_der@) == Ok::<Seq<u8>, ErrorView>(rest@),
            Err(e) => granted_remainder(response_der@) == Err::<Seq<u8>, ErrorView>(e@),
        },
{
    let (outer, _) = match read_tlv_with_remainder(response_der, 0x30) {
        Ok(found) => found,
        Err(e) => return Err(
            SignatureError::GeneralError(concat2("TSA response not SEQUENCE: ", e)),
        ),
    };
    let (status_info, rest) = match read_tlv_with_remainder(outer, 0x30) {
        Ok(found) => found,
        Err(e) => return Err(SignatureError::GeneralError(concat2("TSA PKIStatusInfo: ", e))),
    };
    let (status, _) = match read_tlv_with_remainder(status_info, 0x02) {
        Ok(found) => found,
        Err(e) => return Err(SignatureError::GeneralError(concat2("PKIStatus: ", e))),
    };
    let n = match decode_unsigned_int(status) {
        Ok(n) => n,
        Err(e) => return Err(e),
    };
    if n != 0 && n != 1 {
        let number = decimal_text(n);
        return Err(
            SignatureError::GeneralError(
                concat2("TSA rejected request, PKIStatus = ", number.as_str()),
            ),
        );
    }
    Ok(rest)
}

/// Tells whether the token of a granted response is there up to its end.
pub fn timestamp_token_is_complete(response_der: &[u8]) -> (r: bool)
    ensures
        r == token_is_complete(response_der@),
{
    match read_granted_remainder(response_der) {
        Err(_) => true,
        Ok(rest) => {
            if rest.is_empty() {
                return true;
            }
            let after_tag = &rest[1..rest.len()];
            assert(after_tag@ =~= rest@.skip(1));
            match read_length(after_tag) {
                Err(_) => true,
                Ok((len, size)) => len <= after_tag.len() - size,
            }
        },
    }
}

/// The token in a `TimeStampResp`, tag and length octets kept, ready to be embedded in a
/// signature.
pub fn extract_timestamp_token(response_der: &[u8]) -> (r: Result<Vec<u8>, SignatureError>)
    requires
        token_is_complete(response_der@),
    ensures
        error::bytes_view(r) == timestamp_token(response_der@),
{
    let rest = match read_granted_remainder(response_der) {
        Ok(rest) => rest,
        Err(e) => return Err(e),
    };
    if rest.is_empty() {
        return Err(
            SignatureError::GeneralError("TSA response missing timeStampToken".to_owned()),
        );
    }
    assert(rest.len() <= usize::MAX);
    let size = match total_tlv_length(rest) {
        Ok(size) => size,
        Err(e) => return Err(SignatureError::GeneralError(concat2("timeStampToken length: ", e))),
    };
    if rest[0] != 0x30 {
        return Err(
            SignatureError::GeneralError("timeStampToken: unexpected DER tag".to_owned()),
        );
    }
    let token = slice_to_vec(&rest[0..size]);
    assert(token@ =~= rest@.take(size as int));
    Ok(token)
}

/// The token in the reply of a timestamp authority to [`signature_value_request`].
pub fn timestamp_token_from_reply(reply: &HttpReply) -> (r: Result<Vec<u8>, SignatureError>)
    requires
        reply matches HttpReply::Answer { status, success, body } ==> *success ==> token_is_complete(
            body@,
        ),
    ensures
        error::bytes_view(r) == reply_token(*reply),
{
    match reply {
        HttpReply::SendFailed(e) => Err(
            SignatureError::GeneralError(concat2("TSA HTTP request failed: ", e.as_str())),
        ),
        HttpReply::ReadFailed(e) => Err(
            SignatureError::GeneralError(concat2("TSA response read failed: ", e.as_str())),
        ),
        HttpReply::Answer { status, success, body } => {
            if !*success {
                let size = decimal_text(body.len() as u64);
                let size_text = concat2(size.as_str(), " bytes of body");
                return Err(
                    SignatureError::GeneralError(
                        concat4("TSA returned HTTP ", status.as_str(), ": ", size_text.as_str()),
                    ),
                );
            }
            extract_timestamp_token(body.as_slice())
        },
    }
}

/// Whether a request reads as version 1, SHA-256 with NULL parameters, the digest, and the wish for the
/// authority's certificate, with nothing else around or behind them.
pub open spec fn asks_for_stamp_of(request: Seq<u8>, imprint: Seq<u8>) -> bool {
    &&& der::parse_only_tlv(request, 0x30) matches Ok(body)
    &&& der::parse_tlv(body, 0x02) matches Ok((version, after_version))
    &&& version == seq![1u8]
    &&& der::parse_tlv(after_version, 0x30) matches Ok((message, after_message))
    &&& der::parse_tlv(message, 0x30) matches Ok((algorithm, after_algorithm))
    &&& der::parse_tlv(algorithm, 0x06) matches Ok((oid, parameters))
    &&& oid == seq![0x60u8, 0x86, 0x48, 0x01, 0x65, 0x03, 0x04, 0x02, 0x01]
    &&& der::parse_only_tlv(parameters, 0x05) == Ok::<Seq<u8>, Seq<char>>(Seq::empty())
    &&& der::parse_only_tlv(after_algorithm, 0x04) == Ok::<Seq<u8>, Seq<char>>(imprint)
    &&& der::parse_only_tlv(after_message, 0x01) == Ok::<Seq<u8>, Seq<char>>(seq![0xffu8])
}

/// A request asks for a stamp of the digest that it was built for, all octets of it.
#[verifier::rlimit(60)]
#[verifier::spinoff_prover]
pub proof fn law_request_asks_for_its_digest(imprint: Seq<u8>)
    requires
        timestamp_request(imprint).len() <= 0xffff_ffff,
    ensures
        asks_for_stamp_of(timestamp_request(imprint), imprint),
{
    der::law_tlv_size(0x30, request_body(imprint));
    law_request_reads_back(imprint);
    assert(SHA256_OID_DER@ =~= seq![0x60u8, 0x86, 0x48, 0x01, 0x65, 0x03, 0x04, 0x02, 0x01]);
    der::law_only_tlv_round_trip(0x05, Seq::<u8>::empty());
}

/// A token is returned just where the response says that it was granted, with or without modifications,
/// and an element with the tag of a SEQUENCE stands behind the status. The token is that element.
pub proof fn law_returned_token_was_in_the_answer(response: Seq<u8>, token: Seq<u8>)
    ensures
        timestamp_token(response) == Ok::<Seq<u8>, ErrorView>(token) <==> {
            &&& der::parse_tlv(response, 0x30) matches Ok((outer, _))
            &&& der::parse_tlv(outer, 0x30) matches Ok((info, rest))
            &&& der::parse_tlv(info, 0x02) matches Ok((status, _))
            &&& der::unsigned_int(status) matches Ok(n)
            &&& n <= 1
            &&& rest.len() > 0
            &&& rest[0] == 0x30
            &&& der::parse_length(rest.skip(1)) matches Ok((len, size))
            &&& token == rest.take(1 + size + len as int)
        },
{
}

/// Of an answer with a status of success the body is read; any other reply is an error that tells what
/// came of the request.
pub proof fn law_reply_is_read_on_success(reply: HttpReply)
    ensures
        reply matches HttpReply::Answer { status, success, body } ==> if success {
            reply_token(reply) == timestamp_token(body@)
        } else {
            reply_token(reply) == Err::<Seq<u8>, ErrorView>(
                ErrorView::GeneralError(
                    "TSA returned HTTP "@ + status@ + ": "@ + (text::decimal(body@.len())
                        + " bytes of body"@),
                ),
            )
        },
        reply matches HttpReply::SendFailed(e) ==> reply_token(reply) == Err::<Seq<u8>, ErrorView>(
            ErrorView::GeneralError("TSA HTTP request failed: "@ + e@),
        ),
        reply matches HttpReply::ReadFailed(e) ==> reply_token(reply) == Err::<Seq<u8>, ErrorView>(
            ErrorView::GeneralError("TSA response read failed: "@ + e@),
        ),
{
}

/// Where a response cannot be read, the error names the part at which reading stopped.
pub proof fn law_reading_stops_at_a_part(response: Seq<u8>)
    ensures
        ({
            let r = timestamp_token(response);
            let outer = der::parse_tlv(response, 0x30);
            let info = der::parse_tlv(outer->Ok_0.0, 0x30);
            let status = der::parse_tlv(info->Ok_0.0, 0x02);
            let number = der::unsigned_int(status->Ok_0.0);
            let rest = info->Ok_0.1;
            let read = outer is Ok && info is Ok && status is Ok;
            let granted = read && (number matches Ok(n) && n <= 1);
            &&& outer matches Err(e) ==> r == Err::<Seq<u8>, ErrorView>(
                ErrorView::GeneralError("TSA response not SEQUENCE: "@ + e),
            )
            &&& outer is Ok ==> (info matches Err(e) ==> r == Err::<Seq<u8>, ErrorView>(
                ErrorView::GeneralError("TSA PKIStatusInfo: "@ + e),
            ))
            &&& outer is Ok && info is Ok ==> (status matches Err(e) ==> r == Err::<
                Seq<u8>,
                ErrorView,
            >(ErrorView::GeneralError("PKIStatus: "@ + e)))
            &&& read ==> (number matches Err(e) ==> r == Err::<Seq<u8>, ErrorView>(e))
            &&& read ==> (number matches Ok(n) ==> n > 1 ==> r == Err::<Seq<u8>, ErrorView>(
                ErrorView::GeneralError("TSA rejected request, PKIStatus = "@ + text::decimal(n)),
            ))
            &&& granted && rest.len() == 0 ==> r == Err::<Seq<u8>, ErrorView>(
                ErrorView::GeneralError("TSA response missing timeStampToken"@),
            )
            &&& granted && rest.len() > 0 ==> (der::element_size(rest) matches Err(e) ==> r
                == Err::<Seq<u8>, ErrorView>(
                ErrorView::GeneralError("timeStampToken length: "@ + e),
            ))
            &&& granted && rest.len() > 0 && der::element_size(rest) is Ok && rest[0] != 0x30 ==> r
                == Err::<Seq<u8>, ErrorView>(
                ErrorView::GeneralError("timeStampToken: unexpected DER tag"@),
            )
        }),
{
}

/// A token is cut short just where its response says that it was granted, and its length octets say that
/// it is longer than what is there.
pub proof fn law_token_is_cut_short_where_octets_are_missing(response: Seq<u8>)
    ensures
        !token_is_complete(response) <==> {
            &&& der::parse_tlv(response, 0x30) matches Ok((outer, _))
            &&& der::parse_tlv(outer, 0x30) matches Ok((info, rest))
            &&& der::parse_tlv(info, 0x02) matches Ok((status, _))
            &&& der::unsigned_int(status) matches Ok(n)
            &&& n <= 1
            &&& rest.len() > 0
            &&& der::parse_length(rest.skip(1)) matches Ok((len, size))
            &&& rest.len() < 1 + size + len
        },
{
}

} // verus!
