//! Keys: making signatures, and checking them.

use k256::ecdsa::signature::SignatureEncoding;
use rsa::pkcs1::{DecodeRsaPrivateKey, DecodeRsaPublicKey};
use rsa::pkcs1v15::SigningKey;
use rsa::pkcs8::{DecodePrivateKey, DecodePublicKey, EncodePrivateKey, EncodePublicKey};
use rsa::signature::hazmat::PrehashSigner;
use rsa::traits::PublicKeyParts;
use rsa::{RsaPrivateKey, RsaPublicKey};
use sha2::Sha256;
use vstd::prelude::*;
use xml_sec::xmldsig::parse::SignatureAlgorithm;
use xml_sec::xmldsig::signature::{verify_ecdsa_signature_spki, verify_rsa_signature_spki};

use crate::crypto;
use crate::pki::der;

verus! {

/// The public key, as `SubjectPublicKeyInfo`, of an RSA private key in PKCS#8, or the message of
/// the error.
pub uninterp spec fn rsa_public_info(key: Seq<u8>) -> Result<Seq<u8>, Seq<char>>;

/// The modulus and the public exponent of an RSA private key in PKCS#8, most significant byte
/// first, or the message of the error.
pub uninterp spec fn rsa_public_numbers(key: Seq<u8>) -> Result<(Seq<u8>, Seq<u8>), Seq<char>>;

/// The `SubjectPublicKeyInfo` for an RSA public key in PKCS#1, or the message of the error.
pub uninterp spec fn rsa_info_from_pkcs1(key: Seq<u8>) -> Result<Seq<u8>, Seq<char>>;

/// The PKCS#8 encoding of the RSA private key in a PKCS#8 PEM text, or the message of the error.
pub uninterp spec fn rsa_key_in_pkcs8_pem(pem: Seq<char>) -> Result<Seq<u8>, Seq<char>>;

/// The PKCS#8 encoding of the RSA private key in a PKCS#1 PEM text, or the message of the error.
pub uninterp spec fn rsa_key_in_pkcs1_pem(pem: Seq<char>) -> Result<Seq<u8>, Seq<char>>;

/// The ECDSA signature (fixed width) that a P-256 private key in PKCS#8 makes of data, or the
/// message of the error.
pub uninterp spec fn p256_signature(key: Seq<u8>, data: Seq<u8>) -> Result<Seq<u8>, Seq<char>>;

/// The public key, as `SubjectPublicKeyInfo`, of a P-256 private key in PKCS#8, or the message of
/// the error.
pub uninterp spec fn p256_public_info(key: Seq<u8>) -> Result<Seq<u8>, Seq<char>>;

/// The `SubjectPublicKeyInfo` for a P-256 public key in SEC1, or the message of the error.
pub uninterp spec fn p256_info_from_sec1(key: Seq<u8>) -> Result<Seq<u8>, Seq<char>>;

/// The ECDSA signature (fixed width) that a secp256k1 private key in PKCS#8 makes of data, or the
/// message of the error.
pub uninterp spec fn k256_signature(key: Seq<u8>, data: Seq<u8>) -> Result<Seq<u8>, Seq<char>>;

/// The public key, as `SubjectPublicKeyInfo`, of a secp256k1 private key in PKCS#8, or the message
/// of the error.
pub uninterp spec fn k256_public_info(key: Seq<u8>) -> Result<Seq<u8>, Seq<char>>;

/// The `SubjectPublicKeyInfo` for a secp256k1 public key in SEC1, or the message of the error.
pub uninterp spec fn k256_info_from_sec1(key: Seq<u8>) -> Result<Seq<u8>, Seq<char>>;

/// Whether an RSA signature over `data` holds under a signature method and a public key, or the
/// message of the error.
pub uninterp spec fn rsa_check(
    method: Seq<char>,
    key_info: Seq<u8>,
    data: Seq<u8>,
    signature: Seq<u8>,
) -> Result<bool, Seq<char>>;

/// Whether an ECDSA signature over `data` holds under a signature method and a public key, or the
/// message of the error.
pub uninterp spec fn ecdsa_check(
    method: Seq<char>,
    key_info: Seq<u8>,
    data: Seq<u8>,
    signature: Seq<u8>,
) -> Result<bool, Seq<char>>;

/// Whether an ECDSA signature with SHA-256 (fixed width) over `data` holds under a secp256k1 public
/// key, given as `SubjectPublicKeyInfo`, or the message of the error.
pub uninterp spec fn k256_check(key_info: Seq<u8>, data: Seq<u8>, signature: Seq<u8>) -> Result<
    bool,
    Seq<char>,
>;

/// Whether a signature method is one of those that signatures can be checked with.
pub open spec fn is_known_method(uri: Seq<char>) -> bool {
    ||| uri == "http://www.w3.org/2000/09/xmldsig#rsa-sha1"@
    ||| uri == "http://www.w3.org/2001/04/xmldsig-more#rsa-sha256"@
    ||| uri == "http://www.w3.org/2001/04/xmldsig-more#rsa-sha384"@
    ||| uri == "http://www.w3.org/2001/04/xmldsig-more#rsa-sha512"@
    ||| uri == "http://www.w3.org/2001/04/xmldsig-more#ecdsa-sha256"@
    ||| uri == "http://www.w3.org/2001/04/xmldsig-more#ecdsa-sha384"@
}

/// Whether an RSA key has a size (2048 to 8192 bits, rounded up to whole bytes) and a public
/// exponent (odd, from 3 to 2^33 - 1) that the check of signatures takes.
pub open spec fn is_checkable_rsa(modulus: Seq<u8>, exponent: Seq<u8>) -> bool {
    &&& 256 <= modulus.len() <= 1024
    &&& modulus[0] != 0
    &&& 3 <= der::be_value(exponent) <= 0x1_ffff_ffff
    &&& der::be_value(exponent) % 2 == 1
}

/// What stands before a SHA-256 digest in a DER `DigestInfo` value.
pub open spec fn sha256_info_start() -> Seq<u8> {
    seq![
        0x30u8,
        0x31,
        0x30,
        0x0d,
        0x06,
        0x09,
        0x60,
        0x86,
        0x48,
        0x01,
        0x65,
        0x03,
        0x04,
        0x02,
        0x01,
        0x05,
        0x00,
        0x04,
        0x20,
    ]
}

/// A SHA-256 digest as PKCS#1 v1.5 pads it to `length` bytes for a signature.
pub open spec fn padded_digest(digest: Seq<u8>, length: nat) -> Seq<u8> {
    let info = sha256_info_start() + digest;
    let filler = Seq::new((length - 3 - info.len()) as nat, |i: int| 0xffu8);
    seq![0x00u8, 0x01] + filler + seq![0x00u8] + info
}

/// Whether `signature` is a signature by RSASSA-PKCS1-v1_5 of a SHA-256 digest, under the public key
/// with this modulus and exponent: it is as long as the modulus, the number it stands for is smaller,
/// and that number to the power of the exponent is, modulo the modulus, the padded digest.
pub open spec fn is_rsa_signature(
    modulus: Seq<u8>,
    exponent: Seq<u8>,
    digest: Seq<u8>,
    signature: Seq<u8>,
) -> bool {
    let n = der::be_value(modulus) as int;
    let number = der::be_value(signature) as int;
    &&& signature.len() == modulus.len()
    &&& modulus.len() >= sha256_info_start().len() + digest.len() + 11
    &&& number < n
    &&& vstd::arithmetic::power::pow(number, der::be_value(exponent)) % n == der::be_value(
        padded_digest(digest, modulus.len()),
    )
}

/// Whether `signature` passes the check with RSA and SHA-256 under the public half of `key`, for
/// all data with the given digest.
pub open spec fn passes_rsa_check(key: Seq<u8>, digest: Seq<u8>, signature: Seq<u8>) -> bool {
    forall|data: Seq<u8>|
        #![trigger crypto::sha256_digest(data)]
        crypto::sha256_digest(data) == digest ==> match (
            rsa_public_info(key),
            rsa_public_numbers(key),
        ) {
            (Ok(info), Ok((modulus, exponent))) => is_checkable_rsa(modulus, exponent)
                ==> rsa_check(
                "http://www.w3.org/2001/04/xmldsig-more#rsa-sha256"@,
                info,
                data,
                signature,
            ) == Ok::<bool, Seq<char>>(true),
            _ => true,
        }
}

/// Whether `signature` passes the check with ECDSA and SHA-256 under the public half of the P-256 key
/// `key`.
pub open spec fn passes_p256_check(key: Seq<u8>, data: Seq<u8>, signature: Seq<u8>) -> bool {
    p256_public_info(key) matches Ok(info) ==> ecdsa_check(
        "http://www.w3.org/2001/04/xmldsig-more#ecdsa-sha256"@,
        info,
        data,
        signature,
    ) == Ok::<bool, Seq<char>>(true)
}

/// Whether `signature` passes the check with ECDSA and SHA-256 under the public half of the secp256k1
/// key `key`.
pub open spec fn passes_k256_check(key: Seq<u8>, data: Seq<u8>, signature: Seq<u8>) -> bool {
    k256_public_info(key) matches Ok(info) ==> k256_check(info, data, signature) == Ok::<
        bool,
        Seq<char>,
    >(true)
}

/// Whether `r`, where it is a signature, passes the check.
pub open spec fn is_accepted(r: Result<Vec<u8>, String>, key: Seq<u8>, digest: Seq<u8>) -> bool {
    r matches Ok(made) ==> passes_rsa_check(key, digest, made@)
}

/// Whether `r`, where it is a signature, passes the check under a P-256 key.
pub open spec fn is_accepted_p256(r: Result<Vec<u8>, String>, key: Seq<u8>, data: Seq<u8>) -> bool {
    r matches Ok(made) ==> passes_p256_check(key, data, made@)
}

/// Whether `r` is the error that decoding the key gave, where it gave one.
pub open spec fn is_key_error(
    r: Result<Vec<u8>, String>,
    numbers: Result<(Seq<u8>, Seq<u8>), Seq<char>>,
) -> bool {
    numbers matches Err(message) ==> (r matches Err(e) && e@ == message)
}

/// Whether `r`, where it is a signature, is one of the digest under the public half of the key.
pub open spec fn is_signature_of(
    r: Result<Vec<u8>, String>,
    numbers: Result<(Seq<u8>, Seq<u8>), Seq<char>>,
    digest: Seq<u8>,
) -> bool {
    r matches Ok(made) ==> (numbers matches Ok((modulus, exponent)) && is_rsa_signature(
        modulus,
        exponent,
        digest,
        made@,
    ))
}

/// Whether `r`, where it is a signature, consists of two numbers of 32 bytes each.
pub open spec fn is_two_numbers(r: Result<Vec<u8>, String>) -> bool {
    r matches Ok(made) ==> made@.len() == 64
}

/// Whether `r`, where it is a signature, passes the check under a secp256k1 key.
pub open spec fn is_accepted_k256(r: Result<Vec<u8>, String>, key: Seq<u8>, data: Seq<u8>) -> bool {
    r matches Ok(made) ==> passes_k256_check(key, data, made@)
}

/// Two byte strings or a message, as values.
pub open spec fn numbers_view(r: Result<(Vec<u8>, Vec<u8>), String>) -> Result<
    (Seq<u8>, Seq<u8>),
    Seq<char>,
> {
    match r {
        Ok((modulus, exponent)) => Ok((modulus@, exponent@)),
        Err(e) => Err(e@),
    }
}

/// The outcome of a check or a message, as values.
pub open spec fn check_view(r: Result<bool, String>) -> Result<bool, Seq<char>> {
    match r {
        Ok(holds) => Ok(holds),
        Err(e) => Err(e@),
    }
}

/// Calls `rsa`'s `pkcs1v15::SigningKey::<Sha256>::sign_prehash`, with the key decoded from
/// PKCS#8. What comes back is a signature of the digest by RSASSA-PKCS1-v1_5: the call tests it
/// against the public key before it hands it out. [`verify_rsa`] takes it. A key that does not decode
/// gives the error that [`rsa_public_parts`] gives for it. When else the call fails is not stated, as
/// it needs randomness from the system; nor that it gives the same signature each time, as that
/// depends on factors of the modulus that are prime, which decoding does not test.
#[verifier::external_body]
pub(crate) fn rsa_sign_digest(key: &[u8], digest: &[u8]) -> (r: Result<Vec<u8>, String>)
    ensures
        is_signature_of(r, rsa_public_numbers(key@), digest@),
        is_accepted(r, key@, digest@),
        is_key_error(r, rsa_public_numbers(key@)),
{
    let private_key = RsaPrivateKey::from_pkcs8_der(key).map_err(|e| e.to_string())?;
    let signer = SigningKey::<Sha256>::new(private_key);
    let signature = signer.sign_prehash(digest).map_err(|e| e.to_string())?;
    Ok(signature.to_vec())
}

/// Calls `rsa`'s `RsaPrivateKey::to_public_key` and `to_public_key_der`, with the key decoded from
/// PKCS#8. Its result is [`rsa_public_info`]; an error is its message.
#[verifier::external_body]
pub(crate) fn rsa_public_key(key: &[u8]) -> (r: Result<Vec<u8>, String>)
    ensures
        crypto::decoded_view(r) == rsa_public_info(key@),
{
    let private_key = RsaPrivateKey::from_pkcs8_der(key).map_err(|e| e.to_string())?;
    let info = private_key.to_public_key().to_public_key_der().map_err(|e| e.to_string())?;
    Ok(info.as_bytes().to_vec())
}

/// Calls `n_bytes` and `e_bytes` of `rsa`'s `PublicKeyParts`, with the key decoded from PKCS#8.
/// Its result is [`rsa_public_numbers`]; an error is its message.
#[verifier::external_body]
pub(crate) fn rsa_public_parts(key: &[u8]) -> (r: Result<(Vec<u8>, Vec<u8>), String>)
    ensures
        numbers_view(r) == rsa_public_numbers(key@),
{
    let private_key = RsaPrivateKey::from_pkcs8_der(key).map_err(|e| e.to_string())?;
    Ok((private_key.n_bytes().to_vec(), private_key.e_bytes().to_vec()))
}

/// Calls `rsa`'s `RsaPublicKey::from_pkcs1_der` and `to_public_key_der`. Its result is
/// [`rsa_info_from_pkcs1`]; an error is its message.
#[verifier::external_body]
pub(crate) fn rsa_key_from_pkcs1(key: &[u8]) -> (r: Result<Vec<u8>, String>)
    ensures
        crypto::decoded_view(r) == rsa_info_from_pkcs1(key@),
{
    let public_key = RsaPublicKey::from_pkcs1_der(key).map_err(|e| e.to_string())?;
    let info = public_key.to_public_key_der().map_err(|e| e.to_string())?;
    Ok(info.as_bytes().to_vec())
}

/// Calls `rsa`'s `RsaPrivateKey::from_pkcs8_pem` and `to_pkcs8_der`. Its result is
/// [`rsa_key_in_pkcs8_pem`]; an error is its message.
#[verifier::external_body]
pub(crate) fn rsa_key_from_pkcs8_pem(pem: &str) -> (r: Result<Vec<u8>, String>)
    ensures
        crypto::decoded_view(r) == rsa_key_in_pkcs8_pem(pem@),
{
    let private_key = RsaPrivateKey::from_pkcs8_pem(pem).map_err(|e| e.to_string())?;
    let der = private_key.to_pkcs8_der().map_err(|e| e.to_string())?;
    Ok(der.as_bytes().to_vec())
}

/// Calls `rsa`'s `RsaPrivateKey::from_pkcs1_pem` and `to_pkcs8_der`. Its result is
/// [`rsa_key_in_pkcs1_pem`]; an error is its message.
#[verifier::external_body]
pub(crate) fn rsa_key_from_pkcs1_pem(pem: &str) -> (r: Result<Vec<u8>, String>)
    ensures
        crypto::decoded_view(r) == rsa_key_in_pkcs1_pem(pem@),
{
    let private_key = RsaPrivateKey::from_pkcs1_pem(pem).map_err(|e| e.to_string())?;
    let der = private_key.to_pkcs8_der().map_err(|e| e.to_string())?;
    Ok(der.as_bytes().to_vec())
}

/// Calls `p256`'s `SigningKey::sign` (deterministic ECDSA), with the key decoded from PKCS#8. Its
/// result is [`p256_signature`], two numbers of 32 bytes each, and [`verify_ecdsa`] takes it under the
/// public half of the key; an error is its message.
#[verifier::external_body]
pub(crate) fn p256_sign(key: &[u8], data: &[u8]) -> (r: Result<Vec<u8>, String>)
    ensures
        crypto::decoded_view(r) == p256_signature(key@, data@),
        is_accepted_p256(r, key@, data@),
        is_two_numbers(r),
{
    let signer = p256::ecdsa::SigningKey::from_pkcs8_der(key).map_err(|e| e.to_string())?;
    let signature: p256::ecdsa::Signature = p256::ecdsa::signature::Signer::sign(&signer, data);
    Ok(signature.to_vec())
}

/// Calls `p256`'s `SigningKey::verifying_key` and `to_public_key_der`, with the key decoded from
/// PKCS#8. Its result is [`p256_public_info`]; an error is its message.
#[verifier::external_body]
pub(crate) fn p256_public_key(key: &[u8]) -> (r: Result<Vec<u8>, String>)
    ensures
        crypto::decoded_view(r) == p256_public_info(key@),
{
    let signer = p256::ecdsa::SigningKey::from_pkcs8_der(key).map_err(|e| e.to_string())?;
    let info = signer.verifying_key().to_public_key_der().map_err(|e| e.to_string())?;
    Ok(info.as_bytes().to_vec())
}

/// Calls `p256`'s `VerifyingKey::from_sec1_bytes` and `to_public_key_der`. Its result is
/// [`p256_info_from_sec1`]; an error is its message.
#[verifier::external_body]
pub(crate) fn p256_key_from_sec1(key: &[u8]) -> (r: Result<Vec<u8>, String>)
    ensures
        crypto::decoded_view(r) == p256_info_from_sec1(key@),
{
    let public_key = p256::ecdsa::VerifyingKey::from_sec1_bytes(key).map_err(|e| e.to_string())?;
    let info = public_key.to_public_key_der().map_err(|e| e.to_string())?;
    Ok(info.as_bytes().to_vec())
}

/// Calls `k256`'s `SigningKey::sign` (deterministic ECDSA), with the key decoded from PKCS#8. Its
/// result is [`k256_signature`], two numbers of 32 bytes each, and [`verify_k256`] takes it under the
/// public half of the key; an error is its message.
#[verifier::external_body]
pub(crate) fn k256_sign(key: &[u8], data: &[u8]) -> (r: Result<Vec<u8>, String>)
    ensures
        crypto::decoded_view(r) == k256_signature(key@, data@),
        is_accepted_k256(r, key@, data@),
        is_two_numbers(r),
{
    let signer = k256::ecdsa::SigningKey::from_pkcs8_der(key).map_err(|e| e.to_string())?;
    let signature: k256::ecdsa::Signature = k256::ecdsa::signature::Signer::sign(&signer, data);
    Ok(signature.to_vec())
}

/// Calls `k256`'s `SigningKey::verifying_key` and `to_public_key_der`, with the key decoded from
/// PKCS#8. Its result is [`k256_public_info`]; an error is its message.
#[verifier::external_body]
pub(crate) fn k256_public_key(key: &[u8]) -> (r: Result<Vec<u8>, String>)
    ensures
        crypto::decoded_view(r) == k256_public_info(key@),
{
    let signer = k256::ecdsa::SigningKey::from_pkcs8_der(key).map_err(|e| e.to_string())?;
    let info = signer.verifying_key().to_public_key_der().map_err(|e| e.to_string())?;
    Ok(info.as_bytes().to_vec())
}

/// Calls `k256`'s `VerifyingKey::from_sec1_bytes` and `to_public_key_der`. Its result is
/// [`k256_info_from_sec1`]; an error is its message.
#[verifier::external_body]
pub(crate) fn k256_key_from_sec1(key: &[u8]) -> (r: Result<Vec<u8>, String>)
    ensures
        crypto::decoded_view(r) == k256_info_from_sec1(key@),
{
    let public_key = k256::ecdsa::VerifyingKey::from_sec1_bytes(key).map_err(|e| e.to_string())?;
    let info = public_key.to_public_key_der().map_err(|e| e.to_string())?;
    Ok(info.as_bytes().to_vec())
}

/// Calls `xml_sec`'s `verify_rsa_signature_spki`, with the signature method given by its URI. Its
/// result is [`rsa_check`]; an error is its message.
#[verifier::external_body]
pub(crate) fn verify_rsa(method: &str, key_info: &[u8], data: &[u8], signature: &[u8]) -> (r: Result<
    bool,
    String,
>)
    requires
        is_known_method(method@),
    ensures
        check_view(r) == rsa_check(method@, key_info@, data@, signature@),
{
    let algorithm = SignatureAlgorithm::from_uri(method).unwrap();
    verify_rsa_signature_spki(algorithm, key_info, data, signature).map_err(|e| e.to_string())
}

/// Calls `xml_sec`'s `verify_ecdsa_signature_spki`, with the signature method given by its URI. Its
/// result is [`ecdsa_check`]; an error is its message.
#[verifier::external_body]
pub(crate) fn verify_ecdsa(method: &str, key_info: &[u8], data: &[u8], signature: &[u8]) -> (r:
    Result<bool, String>)
    requires
        is_known_method(method@),
    ensures
        check_view(r) == ecdsa_check(method@, key_info@, data@, signature@),
{
    let algorithm = SignatureAlgorithm::from_uri(method).unwrap();
    verify_ecdsa_signature_spki(algorithm, key_info, data, signature).map_err(|e| e.to_string())
}

/// Calls `k256`'s `VerifyingKey::verify` (ECDSA with SHA-256), with the key decoded from
/// `SubjectPublicKeyInfo` and the signature from its fixed width. `k256` takes the smaller of the two
/// values that the second number of a signature may have, which `normalize_s` gives. The result is
/// [`k256_check`]; an error in decoding is its message.
#[verifier::external_body]
pub(crate) fn verify_k256(key_info: &[u8], data: &[u8], signature: &[u8]) -> (r: Result<
    bool,
    String,
>)
    ensures
        check_view(r) == k256_check(key_info@, data@, signature@),
{
    let key =
        k256::ecdsa::VerifyingKey::from_public_key_der(key_info).map_err(|e| e.to_string())?;
    let numbers = k256::ecdsa::Signature::from_slice(signature).map_err(|e| e.to_string())?;
    Ok(k256::ecdsa::signature::Verifier::verify(&key, data, &numbers.normalize_s()).is_ok())
}

} // verus!
