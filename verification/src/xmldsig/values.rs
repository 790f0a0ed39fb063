//! What signers do with their keys, and what stands for the parts of a signature.

use vstd::prelude::*;

use super::document::{ParsedReference, ParsedSignedInfo, XmlNode};
use super::envelope::{self, EnvelopeView, EnvelopingKeyInfo, PreparedEnvelope};
use super::verify::{self, LocatedSignature, LocatedView};
use super::xades::{self, BesView, PreparedSignature, PreparedView, XadesBesResult};
use super::{
    document, keys, xml, PublicKeyType, PublicKeyView, Reference, SignedInfo, Signer,
    SigningKeyType, Transforms,
};
use crate::crypto;
use crate::error::{ErrorView, SignatureError};

verus! {

/// A signer says which methods it signs with: RSA with SHA-256 or ECDSA with SHA-256, by its key.
pub proof fn law_signer_names_its_methods(key: SigningKeyType)
    ensures
        key is Rsa ==> key.method_uri() == "http://www.w3.org/2001/04/xmldsig-more#rsa-sha256"@,
        !(key is Rsa) ==> key.method_uri()
            == "http://www.w3.org/2001/04/xmldsig-more#ecdsa-sha256"@,
        key.digest_uri() == "http://www.w3.org/2001/04/xmlenc#sha256"@,
{
}

/// What a key signs is the data it is given: an RSA key makes a signature of the SHA-256 digest of all of
/// the data under its own modulus and exponent, and a key on a curve makes the signature that its
/// curve's signer makes of them. A failure is told with the message of its cause.
pub proof fn law_key_signs_the_data(
    key: SigningKeyType,
    data: Seq<u8>,
    outcome: Result<Seq<u8>, ErrorView>,
)
    requires
        key.may_sign(data, outcome),
    ensures
        outcome matches Ok(signature) ==> match key {
            SigningKeyType::Rsa(der) => keys::rsa_public_numbers(der@) matches Ok(
                (modulus, exponent),
            ) && keys::is_rsa_signature(
                modulus,
                exponent,
                crypto::sha256_digest(data),
                signature,
            ) && signature.len() == modulus.len(),
            SigningKeyType::P256(der) => keys::p256_signature(der@, data) == Ok::<
                Seq<u8>,
                Seq<char>,
            >(signature) && signature.len() == 64,
            SigningKeyType::K256(der) => keys::k256_signature(der@, data) == Ok::<
                Seq<u8>,
                Seq<char>,
            >(signature) && signature.len() == 64,
        },
        outcome matches Err(e) ==> (e matches ErrorView::SigningError(message) && match key {
            SigningKeyType::Rsa(der) => keys::rsa_public_numbers(der@) matches Err(cause) ==> message
                == cause,
            SigningKeyType::P256(der) => keys::p256_signature(der@, data) == Err::<
                Seq<u8>,
                Seq<char>,
            >(message),
            SigningKeyType::K256(der) => keys::k256_signature(der@, data) == Err::<
                Seq<u8>,
                Seq<char>,
            >(message),
        }),
{
}

/// The key that checks a signer's signatures is the public half of its own key, of the same kind.
pub proof fn law_checking_key_is_the_public_half(key: SigningKeyType)
    ensures
        match key {
            SigningKeyType::Rsa(der) => match keys::rsa_public_info(der@) {
                Ok(info) => key.public_key() == Ok::<PublicKeyView, ErrorView>(
                    PublicKeyView::Rsa(info),
                ),
                Err(e) => key.public_key() == Err::<PublicKeyView, ErrorView>(
                    ErrorView::KeyParsingError(e),
                ),
            },
            SigningKeyType::P256(der) => match keys::p256_public_info(der@) {
                Ok(info) => key.public_key() == Ok::<PublicKeyView, ErrorView>(
                    PublicKeyView::P256(info),
                ),
                Err(e) => key.public_key() == Err::<PublicKeyView, ErrorView>(
                    ErrorView::KeyParsingError(e),
                ),
            },
            SigningKeyType::K256(der) => match keys::k256_public_info(der@) {
                Ok(info) => key.public_key() == Ok::<PublicKeyView, ErrorView>(
                    PublicKeyView::K256(info),
                ),
                Err(e) => key.public_key() == Err::<PublicKeyView, ErrorView>(
                    ErrorView::KeyParsingError(e),
                ),
            },
        },
        forall|outcome: Result<PublicKeyView, ErrorView>|
            key.may_have_key(outcome) <==> outcome == key.public_key(),
{
}

/// The value of a public key is its kind and its octets.
pub proof fn law_key_as_value(key: PublicKeyType)
    ensures
        key matches PublicKeyType::Rsa(info) ==> key@ == PublicKeyView::Rsa(info@),
        key matches PublicKeyType::P256(info) ==> key@ == PublicKeyView::P256(info@),
        key matches PublicKeyType::K256(info) ==> key@ == PublicKeyView::K256(info@),
{
}

/// The values of a reference are its fields, each under its name.
pub proof fn law_reference_as_values(r: Reference)
    ensures
        r.id is None ==> r@.id is None,
        r.id matches Some(id) ==> r@.id == Some(id@),
        r.reference_type is None ==> r@.reference_type is None,
        r.reference_type matches Some(kind) ==> r@.reference_type == Some(kind@),
        r@.uri == r.uri@,
        r@.digest_method == r.digest_method.algorithm@,
        r@.digest_value == r.digest_value@,
        r.transforms is None ==> r@.transforms is None,
        r.transforms matches Some(t) ==> (r@.transforms matches Some(algorithms)
            && are_algorithms_of(t, algorithms)),
{
}

/// Whether these are the algorithms of transforms, in their order.
pub open spec fn are_algorithms_of(t: Transforms, algorithms: Seq<Seq<char>>) -> bool {
    &&& algorithms.len() == t.transform@.len()
    &&& forall|i: int|
        0 <= i < algorithms.len() ==> #[trigger] algorithms[i] == t.transform@[i].algorithm@
}

/// The values of signed information are its fields, each under its name, its references in their order.
pub proof fn law_signed_info_as_values(info: SignedInfo)
    ensures
        info.xmlns_asic is None ==> info@.xmlns_asic is None,
        info.xmlns_asic matches Some(uri) ==> info@.xmlns_asic == Some(uri@),
        info.xmlns_ds is None ==> info@.xmlns_ds is None,
        info.xmlns_ds matches Some(uri) ==> info@.xmlns_ds == Some(uri@),
        info.xmlns_xades is None ==> info@.xmlns_xades is None,
        info.xmlns_xades matches Some(uri) ==> info@.xmlns_xades == Some(uri@),
        info@.canonicalization_method == info.canonicalization_method.algorithm@,
        info@.signature_method == info.signature_method.algorithm@,
        info@.references.len() == info.references@.len(),
        forall|i: int|
            0 <= i < info.references@.len() ==> #[trigger] info@.references[i]
                == info.references@[i]@,
{
}

/// The values of a node are its fields, each under its name.
pub proof fn law_node_as_values(node: XmlNode)
    ensures
        node@.parent == node.parent,
        node@.is_element == node.is_element,
        node@.name == node.name@,
        node.namespace is None ==> node@.namespace is None,
        node.namespace matches Some(uri) ==> node@.namespace == Some(uri@),
        node.text is None ==> node@.text is None,
        node.text matches Some(text) ==> node@.text == Some(text@),
        node.base is None ==> node@.base is None,
        node.base matches Some(base) ==> node@.base == Some(base@),
{
}

/// The values of a reference that was read are its fields, each under its name.
pub proof fn law_parsed_reference_as_values(r: ParsedReference)
    ensures
        r.uri is None ==> r@.uri is None,
        r.uri matches Some(uri) ==> r@.uri == Some(uri@),
        r@.digest_method == r.digest_method@,
        r@.digest_value == r.digest_value@,
        r@.transforms.len() == r.transforms@.len(),
        forall|i: int|
            0 <= i < r.transforms@.len() ==> #[trigger] r@.transforms[i] == r.transforms@[i]@,
{
}

/// The values of signed information that was read are its fields, each under its name.
pub proof fn law_parsed_info_as_values(info: ParsedSignedInfo)
    ensures
        info@.c14n_method == info.c14n_method@,
        info@.signature_method == info.signature_method@,
        info@.references.len() == info.references@.len(),
        forall|i: int|
            0 <= i < info.references@.len() ==> #[trigger] info@.references[i]
                == info.references@[i]@,
{
}

/// The values of a signature that was found are its fields, each under its name.
pub proof fn law_located_as_values(l: LocatedSignature)
    ensures
        l@.signature == l.signature,
        l@.signed_info == l.signed_info,
        l.value_text is None ==> l@.value_text is None,
        l.value_text matches Some(value) ==> l@.value_text == Some(value@),
        l@.info == l.info@,
{
}

/// The values of a prepared signature are its fields, each under its name.
pub proof fn law_prepared_as_values(p: PreparedSignature)
    ensures
        p@.signed_properties == p.signed_properties@,
        p@.signed_info == p.signed_info@,
        p@.canonical_info == p.canonical_info@,
{
}

/// The values of a prepared enveloping signature are its fields, each under its name, with the key
/// information as it is written.
pub proof fn law_prepared_envelope_as_values(p: PreparedEnvelope)
    ensures
        p@.info == p.signed_info@,
        p@.canonical_info == p.canonical_info@,
        p@.key_info == envelope::key_info_element(envelope::key_numbers(p.key_info)),
{
}

/// The numbers of a key are its modulus and its exponent, where they are given.
pub proof fn law_key_numbers_as_values(info: EnvelopingKeyInfo)
    ensures
        info.key_value.rsa_key_value is None ==> envelope::key_numbers(info) is None,
        info.key_value.rsa_key_value matches Some(rsa) ==> (envelope::key_numbers(info) matches Some(
            numbers,
        ) && numbers.modulus == rsa.modulus@ && numbers.exponent == rsa.exponent@),
{
}

/// The value of a text that may be absent is that of the text, where there is one.
pub proof fn law_optional_text_as_value(owned: Option<String>, borrowed: Option<&str>)
    ensures
        owned is None ==> document::optional_text(owned) is None,
        owned matches Some(text) ==> document::optional_text(owned) == Some(text@),
        borrowed is None ==> xml::option_view(borrowed) is None,
        borrowed matches Some(text) ==> xml::option_view(borrowed) == Some(text@),
{
}

/// The value of a result of signing or preparing is the value of what it holds, or of its error.
pub proof fn law_signing_results_as_values(
    key: Result<PublicKeyType, SignatureError>,
    bes: Result<XadesBesResult, SignatureError>,
    prepared: Result<PreparedSignature, SignatureError>,
    envelope: Result<PreparedEnvelope, SignatureError>,
)
    ensures
        key matches Ok(k) ==> super::key_view(key) == Ok::<PublicKeyView, ErrorView>(k@),
        key matches Err(e) ==> super::key_view(key) == Err::<PublicKeyView, ErrorView>(e@),
        bes matches Ok(b) ==> xades::bes_view(bes) == Ok::<BesView, ErrorView>(b@),
        bes matches Err(e) ==> xades::bes_view(bes) == Err::<BesView, ErrorView>(e@),
        prepared matches Ok(p) ==> xades::prepared_view(prepared) == Ok::<PreparedView, ErrorView>(
            p@,
        ),
        prepared matches Err(e) ==> xades::prepared_view(prepared) == Err::<
            PreparedView,
            ErrorView,
        >(e@),
        envelope matches Ok(p) ==> envelope::envelope_view(envelope) == Ok::<
            EnvelopeView,
            ErrorView,
        >(p@),
        envelope matches Err(e) ==> envelope::envelope_view(envelope) == Err::<
            EnvelopeView,
            ErrorView,
        >(e@),
{
}

/// The value of a result of locating a signature, and of an answer, is the value of what it holds, or of
/// its error.
pub proof fn law_checking_results_as_values(
    located: Result<LocatedSignature, SignatureError>,
    answer: Option<Result<Vec<u8>, SignatureError>>,
)
    ensures
        located matches Ok(l) ==> verify::located_view(located) == Ok::<LocatedView, ErrorView>(l@),
        located matches Err(e) ==> verify::located_view(located) == Err::<LocatedView, ErrorView>(
            e@,
        ),
        answer is None ==> verify::answer_view(answer) is None,
        answer matches Some(Ok(bytes)) ==> verify::answer_view(answer) == Some(
            Ok::<Seq<u8>, ErrorView>(bytes@),
        ),
        answer matches Some(Err(e)) ==> verify::answer_view(answer) == Some(
            Err::<Seq<u8>, ErrorView>(e@),
        ),
{
}

} // verus!
