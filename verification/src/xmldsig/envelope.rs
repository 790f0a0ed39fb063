//! Enveloping signatures: the signed data stand in a `ds:Object` inside the signature.
//!
//! The one reference of such a signature names the object by its id. It has no transforms: the
//! enveloped-signature transform would leave out the whole signature, and with it the object.

use vstd::prelude::*;

use super::document::{self, canonicalize_document};
use super::keys::{self, rsa_key_from_pkcs1_pem, rsa_key_from_pkcs8_pem, rsa_public_parts};
use super::xml::{
    self, write_element, write_optional_attribute, write_text_element,
};
use super::{
    borrow_text, CanonicalizationMethod, DigestMethod, Reference, ReferenceParts, SignatureMethod,
    SignedInfo, SignedInfoParts, Signer, SigningKeyType,
};
use crate::crypto::{self, base64_encode, sha256};
use crate::error::{self, ErrorView, SignatureError};
use crate::text::{self, concat2, concat3, find_from};

verus! {

/// A `ds:Signature` element that holds its data.
#[derive(Debug, Clone, Default)]
pub struct EnvelopingSignature {
    /// The namespace that the prefix `ds` is declared for, if it is.
    pub xmlns_ds: Option<String>,
    pub signed_info: SignedInfo,
    /// The signature in Base64.
    pub signature_value: String,
    pub key_info: Option<EnvelopingKeyInfo>,
    /// The `ds:Object` element, already written.
    pub object: Option<String>,
}

/// A `ds:KeyInfo` element.
#[derive(Debug, Clone)]
pub struct EnvelopingKeyInfo {
    pub key_value: EnvelopingKeyValue,
}

/// A `ds:KeyValue` element.
#[derive(Debug, Clone)]
pub struct EnvelopingKeyValue {
    pub rsa_key_value: Option<EnvelopingRsaKeyValue>,
}

/// A `ds:RSAKeyValue` element. The numbers are in Base64.
#[derive(Debug, Clone)]
pub struct EnvelopingRsaKeyValue {
    pub modulus: String,
    pub exponent: String,
}

/// Modulus and exponent of a key, in Base64, as values.
pub struct KeyNumbers {
    pub modulus: Seq<char>,
    pub exponent: Seq<char>,
}

/// The numbers of an RSA key, where they are given.
pub open spec fn key_numbers(info: EnvelopingKeyInfo) -> Option<KeyNumbers> {
    match info.key_value.rsa_key_value {
        Some(rsa) => Some(KeyNumbers { modulus: rsa.modulus@, exponent: rsa.exponent@ }),
        None => None,
    }
}

/// The `ds:KeyInfo` element for the numbers of an RSA key.
pub open spec fn key_info_element(numbers: Option<KeyNumbers>) -> Seq<char> {
    let rsa = match numbers {
        Some(n) => xml::element(
            "ds:RSAKeyValue"@,
            seq![],
            xml::text_element("ds:Modulus"@, n.modulus) + xml::text_element(
                "ds:Exponent"@,
                n.exponent,
            ),
        ),
        None => seq![],
    };
    xml::element("ds:KeyInfo"@, seq![], xml::element("ds:KeyValue"@, seq![], rsa))
}

/// The `ds:Signature` element, with its object already written.
pub open spec fn signature_element(
    xmlns_ds: Option<Seq<char>>,
    info: SignedInfoParts,
    value: Seq<char>,
    key_info: Seq<char>,
    object: Seq<char>,
) -> Seq<char> {
    xml::element(
        "ds:Signature"@,
        xml::optional_attribute("xmlns:ds"@, xmlns_ds),
        super::signed_info_element(info) + xml::text_element("ds:SignatureValue"@, value) + key_info
            + object,
    )
}

impl EnvelopingKeyInfo {
    /// Writes the `ds:KeyInfo` element.
    pub fn to_xml(&self) -> (r: String)
        ensures
            r@ == key_info_element(key_numbers(*self)),
    {
        let none = String::new();
        let rsa = match &self.key_value.rsa_key_value {
            Some(rsa) => {
                let mut content = write_text_element("ds:Modulus", rsa.modulus.as_str());
                let exponent = write_text_element("ds:Exponent", rsa.exponent.as_str());
                content.append(exponent.as_str());
                write_element("ds:RSAKeyValue", none.as_str(), content.as_str())
            },
            None => String::new(),
        };
        let value = write_element("ds:KeyValue", none.as_str(), rsa.as_str());
        write_element("ds:KeyInfo", none.as_str(), value.as_str())
    }
}

impl EnvelopingSignature {
    /// Writes the `ds:Signature` element.
    pub fn to_xml(&self) -> (r: String)
        ensures
            r@ == signature_element(
                document::optional_text(self.xmlns_ds),
                self.signed_info@,
                self.signature_value@,
                match self.key_info {
                    Some(info) => key_info_element(key_numbers(info)),
                    None => seq![],
                },
                match self.object {
                    Some(object) => object@,
                    None => seq![],
                },
            ),
    {
        let attributes = write_optional_attribute("xmlns:ds", borrow_text(&self.xmlns_ds));
        let mut content = self.signed_info.to_xml();
        let value = write_text_element("ds:SignatureValue", self.signature_value.as_str());
        content.append(value.as_str());
        let key_info = match &self.key_info {
            Some(info) => info.to_xml(),
            None => String::new(),
        };
        content.append(key_info.as_str());
        let none = String::new();
        let object = match &self.object {
            Some(object) => object.as_str(),
            None => none.as_str(),
        };
        content.append(object);
        write_element("ds:Signature", attributes.as_str(), content.as_str())
    }
}

/// The signed information of an enveloping signature: one reference, to the object.
pub open spec fn object_info(
    data_id: Seq<char>,
    digest_value: Seq<char>,
    method: Seq<char>,
    digest_method: Seq<char>,
) -> SignedInfoParts {
    SignedInfoParts {
        xmlns_asic: None,
        xmlns_ds: Some("http://www.w3.org/2000/09/xmldsig#"@),
        xmlns_xades: None,
        canonicalization_method: "http://www.w3.org/TR/2001/REC-xml-c14n-20010315"@,
        signature_method: method,
        references: seq![
            ReferenceParts {
                id: None,
                reference_type: None,
                uri: "#"@ + data_id,
                transforms: None,
                digest_method,
                digest_value,
            },
        ],
    }
}

/// How the object with the given id starts.
pub open spec fn object_start(data_id: Seq<char>) -> Seq<char> {
    "<ds:Object Id=\""@ + data_id + "\""@
}

/// The object with the given id in a signature: from its start to the next end of an object.
pub open spec fn extracted_object(signature: Seq<char>, data_id: Seq<char>) -> Result<
    Seq<char>,
    ErrorView,
> {
    match text::first_occurrence(signature, object_start(data_id), 0) {
        None => Err(
            ErrorView::GeneralError(
                "could not locate <ds:Object Id=\""@ + data_id
                    + "\"> in serialised signature"@,
            ),
        ),
        Some(start) => match text::first_occurrence(signature, "</ds:Object>"@, start) {
            None => Err(
                ErrorView::GeneralError(
                    "<ds:Object> opened but never closed in serialised signature"@,
                ),
            ),
            Some(end) => Ok(signature.subrange(start, end + 12)),
        },
    }
}

/// An enveloping signature up to the point of signing.
pub struct EnvelopeView {
    pub info: SignedInfoParts,
    pub key_info: Seq<char>,
    /// The canonical signed information: what the signer signs.
    pub canonical_info: Seq<u8>,
}

/// The `ds:Signature` element in the namespace it declares.
pub open spec fn declared_signature(
    info: SignedInfoParts,
    value: Seq<char>,
    key_info: Seq<char>,
    object: Seq<char>,
) -> Seq<char> {
    signature_element(
        Some("http://www.w3.org/2000/09/xmldsig#"@),
        info,
        value,
        key_info,
        object,
    )
}

/// The signed information for the object as it stands in the signature, whose key information is
/// given; or the error.
pub open spec fn info_for_object(
    object: Seq<char>,
    data_id: Seq<char>,
    method: Seq<char>,
    digest_method: Seq<char>,
    key_info: Seq<char>,
) -> Result<SignedInfoParts, ErrorView> {
    let unsigned = declared_signature(
        object_info(data_id, seq![], method, digest_method),
        seq![],
        key_info,
        object,
    );
    match extracted_object(unsigned, data_id) {
        Err(e) => Err(e),
        Ok(extracted) => match document::canonical_document(vstd::utf8::encode_utf8(extracted)) {
            Err(e) => Err(ErrorView::CanonicalizationError(e)),
            Ok(canonical) => Ok(
                object_info(
                    data_id,
                    crypto::base64_text(crypto::sha256_digest(canonical)),
                    method,
                    digest_method,
                ),
            ),
        },
    }
}

/// The key information of an RSA key, or the error.
pub open spec fn rsa_key_info(key: Seq<u8>) -> Result<Seq<char>, ErrorView> {
    match keys::rsa_public_numbers(key) {
        Err(e) => Err(ErrorView::KeyParsingError(e)),
        Ok((modulus, exponent)) => Ok(
            key_info_element(
                Some(
                    KeyNumbers {
                        modulus: crypto::base64_text(modulus),
                        exponent: crypto::base64_text(exponent),
                    },
                ),
            ),
        ),
    }
}

/// The signature up to the point of signing, or the error.
#[verifier::opaque]
pub open spec fn prepared_envelope(
    object: Seq<char>,
    data_id: Seq<char>,
    signer: SigningKeyType,
) -> Result<EnvelopeView, ErrorView> {
    match signer {
        SigningKeyType::Rsa(key) => match rsa_key_info(key@) {
            Err(e) => Err(e),
            Ok(key_info) => match info_for_object(
                object,
                data_id,
                signer.method_uri(),
                signer.digest_uri(),
                key_info,
            ) {
                Err(e) => Err(e),
                Ok(info) => match document::canonical_document(
                    vstd::utf8::encode_utf8(super::signed_info_element(info)),
                ) {
                    Err(e) => Err(ErrorView::CanonicalizationError(e)),
                    Ok(canonical_info) => Ok(EnvelopeView { info, key_info, canonical_info }),
                },
            },
        },
        _ => Err(
            ErrorView::UnsupportedError("Only RSA keys are supported for LHV Connect"@),
        ),
    }
}

/// What signing an object comes to, once the signer came to `signed`.
pub open spec fn enveloped(
    object: Seq<char>,
    p: EnvelopeView,
    signed: Result<Seq<u8>, ErrorView>,
) -> Result<Seq<char>, ErrorView> {
    match signed {
        Err(e) => Err(e),
        Ok(signature) => Ok(
            declared_signature(p.info, crypto::base64_text(signature), p.key_info, object),
        ),
    }
}

/// Whether signing an object with the given key may come to `outcome`.
pub open spec fn may_envelop(
    signer: SigningKeyType,
    object: Seq<char>,
    p: EnvelopeView,
    outcome: Result<Seq<char>, ErrorView>,
) -> bool {
    exists|signed: Result<Seq<u8>, ErrorView>|
        #[trigger] signer.may_sign(p.canonical_info, signed) && outcome == enveloped(
            object,
            p,
            signed,
        )
}

/// Finds the object with the given id in a signature.
fn extract_object(xml: &str, data_id: &str) -> (r: Result<String, SignatureError>)
    ensures
        error::text_view(r) == extracted_object(xml@, data_id@),
{
    let start_text = concat3("<ds:Object Id=\"", data_id, "\"");
    let start = match find_from(xml, start_text.as_str(), 0) {
        Some(i) => i,
        None => return Err(
            SignatureError::GeneralError(
                concat3(
                    "could not locate <ds:Object Id=\"",
                    data_id,
                    "\"> in serialised signature",
                ),
            ),
        ),
    };
    let end = match find_from(xml, "</ds:Object>", start) {
        Some(i) => i,
        None => return Err(
            SignatureError::GeneralError(
                "<ds:Object> opened but never closed in serialised signature".to_owned(),
            ),
        ),
    };
    proof {
        reveal_strlit("</ds:Object>");
    }
    Ok(xml.substring_char(start, end + 12).to_owned())
}

fn make_object_info(
    data_id: &str,
    digest_value: String,
    method: &str,
    digest_method: &str,
) -> (r: SignedInfo)
    ensures
        r@ == object_info(data_id@, digest_value@, method@, digest_method@),
{
    let reference = Reference {
        id: None,
        reference_type: None,
        uri: concat2("#", data_id),
        transforms: None,
        digest_method: DigestMethod { algorithm: digest_method.to_owned() },
        digest_value,
    };
    let references: Vec<Reference> = vec![reference];
    assert(references@.map_values(|r: Reference| r@) =~= seq![reference@]);
    SignedInfo {
        xmlns_asic: None,
        xmlns_ds: Some("http://www.w3.org/2000/09/xmldsig#".to_owned()),
        xmlns_xades: None,
        canonicalization_method: CanonicalizationMethod {
            algorithm: "http://www.w3.org/TR/2001/REC-xml-c14n-20010315".to_owned(),
        },
        signature_method: SignatureMethod { algorithm: method.to_owned() },
        references,
    }
}

/// Writes the `ds:Signature` element in the namespace it declares.
fn write_declared_signature(
    signed_info: SignedInfo,
    signature_value: String,
    key_info: EnvelopingKeyInfo,
    object_xml: &str,
) -> (r: String)
    ensures
        r@ == declared_signature(
            signed_info@,
            signature_value@,
            key_info_element(key_numbers(key_info)),
            object_xml@,
        ),
{
    let signature = EnvelopingSignature {
        xmlns_ds: Some("http://www.w3.org/2000/09/xmldsig#".to_owned()),
        signed_info,
        signature_value,
        key_info: Some(key_info),
        object: Some(object_xml.to_owned()),
    };
    signature.to_xml()
}

/// The key information of an RSA key.
fn make_key_info(key: &[u8]) -> (r: Result<EnvelopingKeyInfo, SignatureError>)
    ensures
        match r {
            Ok(info) => rsa_key_info(key@) == Ok::<Seq<char>, ErrorView>(
                key_info_element(key_numbers(info)),
            ),
            Err(e) => rsa_key_info(key@) == Err::<Seq<char>, ErrorView>(e@),
        },
{
    match rsa_public_parts(key) {
        Err(e) => Err(SignatureError::KeyParsingError(e)),
        Ok((modulus, exponent)) => {
            let rsa = EnvelopingRsaKeyValue {
                modulus: base64_encode(modulus.as_slice()),
                exponent: base64_encode(exponent.as_slice()),
            };
            let info = EnvelopingKeyInfo {
                key_value: EnvelopingKeyValue { rsa_key_value: Some(rsa) },
            };
            Ok(info)
        },
    }
}

/// An enveloping signature up to the point of signing.
pub struct PreparedEnvelope {
    pub signed_info: SignedInfo,
    pub key_info: EnvelopingKeyInfo,
    /// The canonical signed information: what the signer signs.
    pub canonical_info: Vec<u8>,
}

impl View for PreparedEnvelope {
    type V = EnvelopeView;

    open spec fn view(&self) -> EnvelopeView {
        EnvelopeView {
            info: self.signed_info@,
            key_info: key_info_element(key_numbers(self.key_info)),
            canonical_info: self.canonical_info@,
        }
    }
}

/// A prepared signature or the error, as values.
pub open spec fn envelope_view(r: Result<PreparedEnvelope, SignatureError>) -> Result<
    EnvelopeView,
    ErrorView,
> {
    match r {
        Ok(p) => Ok(p@),
        Err(e) => Err(e@),
    }
}

/// Builds an enveloping signature up to the point of signing. The object is digested as it stands
/// in the signature.
pub fn prepare_envelope(object_xml: &str, data_id: &str, signer: &SigningKeyType) -> (r: Result<
    PreparedEnvelope,
    SignatureError,
>)
    ensures
        envelope_view(r) == prepared_envelope(object_xml@, data_id@, *signer),
{
    proof {
        reveal(prepared_envelope);
    }
    let key = match signer {
        SigningKeyType::Rsa(key) => key,
        _ => return Err(
            SignatureError::UnsupportedError(
                "Only RSA keys are supported for LHV Connect".to_owned(),
            ),
        ),
    };
    let key_info = match make_key_info(key.as_slice()) {
        Ok(info) => info,
        Err(e) => return Err(e),
    };
    let method = signer.signature_method_uri();
    let digest_method = signer.digest_method_uri();
    let placeholder_info = make_object_info(data_id, String::new(), method, digest_method);
    let placeholder_key_info = match make_key_info(key.as_slice()) {
        Ok(info) => info,
        Err(e) => return Err(e),
    };
    let placeholder = write_declared_signature(
        placeholder_info,
        String::new(),
        placeholder_key_info,
        object_xml,
    );
    let object = match extract_object(placeholder.as_str(), data_id) {
        Ok(object) => object,
        Err(e) => return Err(e),
    };
    let canonical_object = match canonicalize_document(object.as_str().as_bytes()) {
        Ok(canonical) => canonical,
        Err(e) => return Err(SignatureError::CanonicalizationError(e)),
    };
    let digest = sha256(canonical_object.as_slice());
    let digest_value = base64_encode(digest.as_slice());
    let signed_info = make_object_info(data_id, digest_value, method, digest_method);
    let signed_info_xml = signed_info.to_xml();
    let canonical_info = match canonicalize_document(signed_info_xml.as_str().as_bytes()) {
        Ok(canonical) => canonical,
        Err(e) => return Err(SignatureError::CanonicalizationError(e)),
    };
    Ok(PreparedEnvelope { signed_info, key_info, canonical_info })
}

/// Puts a signature value into a prepared signature.
pub fn finish_envelope(object_xml: &str, prepared: PreparedEnvelope, signature: &[u8]) -> (r:
    String)
    ensures
        r@ == declared_signature(
            prepared@.info,
            crypto::base64_text(signature@),
            prepared@.key_info,
            object_xml@,
        ),
{
    let value = base64_encode(signature);
    write_declared_signature(prepared.signed_info, value, prepared.key_info, object_xml)
}

/// Signs the `ds:Object` element `object_xml`, whose id is `data_id`: the result is a `ds:Signature`
/// element that holds it. The key has to be an RSA key.
pub fn sign_enveloping(object_xml: &str, data_id: &str, signer: &SigningKeyType) -> (r: Result<
    String,
    SignatureError,
>)
    ensures
        match prepared_envelope(object_xml@, data_id@, *signer) {
            Err(e) => error::text_view(r) == Err::<Seq<char>, ErrorView>(e),
            Ok(p) => may_envelop(*signer, object_xml@, p, error::text_view(r)),
        },
{
    let prepared = match prepare_envelope(object_xml, data_id, signer) {
        Ok(prepared) => prepared,
        Err(e) => return Err(e),
    };
    let ghost p = prepared@;
    let signed = signer.sign(prepared.canonical_info.as_slice());
    let ghost outcome = error::bytes_view(signed);
    let r = match signed {
        Ok(signature) => Ok(finish_envelope(object_xml, prepared, signature.as_slice())),
        Err(e) => Err(e),
    };
    assert(signer.may_sign(p.canonical_info, outcome));
    assert(may_envelop(*signer, object_xml@, p, error::text_view(r)));
    r
}

/// The RSA private key in a PEM text, in PKCS#8 or else in PKCS#1, or the error.
pub open spec fn rsa_key_in_pem(pem: Seq<char>) -> Result<Seq<u8>, ErrorView> {
    match keys::rsa_key_in_pkcs8_pem(pem) {
        Ok(key) => Ok(key),
        Err(_) => match keys::rsa_key_in_pkcs1_pem(pem) {
            Ok(key) => Ok(key),
            Err(e) => Err(
                ErrorView::KeyParsingError("Failed to parse RSA private key: "@ + e),
            ),
        },
    }
}

/// Reads an RSA private key from a PEM text, in PKCS#8 or else in PKCS#1.
pub fn parse_rsa_private_key(pem: &str) -> (r: Result<SigningKeyType, SignatureError>)
    ensures
        match r {
            Ok(key) => key matches SigningKeyType::Rsa(der) && rsa_key_in_pem(pem@) == Ok::<
                Seq<u8>,
                ErrorView,
            >(der@),
            Err(e) => rsa_key_in_pem(pem@) == Err::<Seq<u8>, ErrorView>(e@),
        },
{
    match rsa_key_from_pkcs8_pem(pem) {
        Ok(key) => Ok(SigningKeyType::Rsa(key)),
        Err(_) => match rsa_key_from_pkcs1_pem(pem) {
            Ok(key) => Ok(SigningKeyType::Rsa(key)),
            Err(e) => Err(
                SignatureError::KeyParsingError(
                    concat2("Failed to parse RSA private key: ", e.as_str()),
                ),
            ),
        },
    }
}

/// Whether `text` starts no element whose name begins with `ds:O` or the like: behind each `<` it goes
/// on for at least four characters, and the fourth is no `O`.
spec fn opens_no_object(text: Seq<char>) -> bool {
    forall|i: int|
        0 <= i < text.len() && #[trigger] text[i] == '<' ==> i + 4 < text.len() && text[i + 4] != 'O'
}

/// Whether neither the start tag nor the end tag of an element with this name looks like that of an
/// object.
spec fn is_other_tag(tag: Seq<char>) -> bool {
    tag.len() >= 4 && xml::lacks(tag, '<') && tag[2] != 'O' && tag[3] != 'O'
}

proof fn lemma_opens_no_object_concat(a: Seq<char>, b: Seq<char>)
    requires
        opens_no_object(a),
        opens_no_object(b),
    ensures
        opens_no_object(a + b),
{
    let ab = a + b;
    assert forall|i: int| 0 <= i < ab.len() && #[trigger] ab[i] == '<' implies i + 4 < ab.len()
        && ab[i + 4] != 'O' by {
        if i < a.len() {
            assert(a[i] == '<');
            assert(ab[i + 4] == a[i + 4]);
        } else {
            assert(b[i - a.len()] == '<');
            assert(ab[i + 4] == b[i - a.len() + 4]);
        }
    }
}

proof fn lemma_element_opens_no_object(tag: Seq<char>, attributes: Seq<char>, content: Seq<char>)
    requires
        is_other_tag(tag),
        xml::lacks(attributes, '<'),
        opens_no_object(content),
    ensures
        opens_no_object(xml::start_tag(tag, attributes)),
        opens_no_object(xml::element(tag, attributes, content)),
{
    reveal(xml::element);
    reveal_strlit("<");
    reveal_strlit(">");
    reveal_strlit("/>");
    reveal_strlit("</");
    let start = "<"@ + tag + attributes;
    assert forall|i: int| 0 <= i < start.len() && #[trigger] start[i] == '<' implies i + 4
        < start.len() && start[i + 4] != 'O' by {
        if 1 <= i < tag.len() + 1 {
            assert(start[i] == tag[i - 1]);
        } else if i > 0 {
            assert(start[i] == attributes[i - 1 - tag.len()]);
        } else {
            assert(start[4] == tag[3]);
        }
    }
    let end = "</"@ + tag + ">"@;
    assert forall|i: int| 0 <= i < end.len() && #[trigger] end[i] == '<' implies i + 4 < end.len()
        && end[i + 4] != 'O' by {
        if 2 <= i < tag.len() + 2 {
            assert(end[i] == tag[i - 2]);
        } else if i == 0 {
            assert(end[4] == tag[2]);
        }
    }
    lemma_opens_no_object_concat(start, ">"@);
    lemma_opens_no_object_concat(start, "/>"@);
    lemma_opens_no_object_concat(start + ">"@, content);
    lemma_opens_no_object_concat(start + ">"@ + content, end);
}

proof fn lemma_attribute_lacks_bracket(name: Seq<char>, value: Seq<char>)
    requires
        xml::lacks(name, '<'),
    ensures
        xml::lacks(xml::attribute(name, value), '<'),
{
    reveal(xml::attribute);
    reveal_strlit(" ");
    reveal_strlit("=\"");
    reveal_strlit("\"");
    xml::law_escaped_value_stays_in_quotes(value);
    let escaped = xml::escaped_value(value);
    xml::lemma_lacks_concat(" "@, name, '<');
    xml::lemma_lacks_concat(" "@ + name, "=\""@, '<');
    xml::lemma_lacks_concat(escaped, "\""@, '<');
    xml::lemma_lacks_concat(" "@ + name + "=\""@, escaped + "\""@, '<');
}

proof fn lemma_text_element_opens_no_object(tag: Seq<char>, content: Seq<char>)
    requires
        is_other_tag(tag),
    ensures
        opens_no_object(xml::text_element(tag, content)),
{
    xml::law_escaped_text_lacks_brackets(content);
    lemma_element_opens_no_object(tag, seq![], xml::escaped_text(content));
}

proof fn lemma_algorithm_element_opens_no_object(tag: Seq<char>, algorithm: Seq<char>)
    requires
        is_other_tag(tag),
        xml::lacks("Algorithm"@, '<'),
    ensures
        opens_no_object(xml::algorithm_element(tag, algorithm)),
{
    lemma_attribute_lacks_bracket("Algorithm"@, algorithm);
    lemma_element_opens_no_object(tag, xml::attribute("Algorithm"@, algorithm), seq![]);
}

#[verifier::spinoff_prover]
proof fn lemma_other_tags()
    ensures
        is_other_tag("ds:SignedInfo"@),
        is_other_tag("ds:CanonicalizationMethod"@),
        is_other_tag("ds:SignatureMethod"@),
        is_other_tag("ds:Reference"@),
        is_other_tag("ds:DigestMethod"@),
        is_other_tag("ds:DigestValue"@),
        is_other_tag("ds:SignatureValue"@),
        is_other_tag("ds:KeyInfo"@),
        is_other_tag("ds:KeyValue"@),
        is_other_tag("ds:RSAKeyValue"@),
        is_other_tag("ds:Modulus"@),
        is_other_tag("ds:Exponent"@),
        is_other_tag("ds:Signature"@),
{
    assert(is_other_tag("ds:SignedInfo"@)) by {
        reveal_strlit("ds:SignedInfo");
        reveal_with_fuel(xml::scan_misses, 15);
        xml::lemma_scan("ds:SignedInfo"@, '<', 0);
    }
    assert(is_other_tag("ds:CanonicalizationMethod"@)) by {
        reveal_strlit("ds:CanonicalizationMethod");
        reveal_with_fuel(xml::scan_misses, 27);
        xml::lemma_scan("ds:CanonicalizationMethod"@, '<', 0);
    }
    assert(is_other_tag("ds:SignatureMethod"@)) by {
        reveal_strlit("ds:SignatureMethod");
        reveal_with_fuel(xml::scan_misses, 20);
        xml::lemma_scan("ds:SignatureMethod"@, '<', 0);
    }
    assert(is_other_tag("ds:Reference"@)) by {
        reveal_strlit("ds:Reference");
        reveal_with_fuel(xml::scan_misses, 14);
        xml::lemma_scan("ds:Reference"@, '<', 0);
    }
    assert(is_other_tag("ds:DigestMethod"@)) by {
        reveal_strlit("ds:DigestMethod");
        reveal_with_fuel(xml::scan_misses, 17);
        xml::lemma_scan("ds:DigestMethod"@, '<', 0);
    }
    assert(is_other_tag("ds:DigestValue"@)) by {
        reveal_strlit("ds:DigestValue");
        reveal_with_fuel(xml::scan_misses, 16);
        xml::lemma_scan("ds:DigestValue"@, '<', 0);
    }
    assert(is_other_tag("ds:SignatureValue"@)) by {
        reveal_strlit("ds:SignatureValue");
        reveal_with_fuel(xml::scan_misses, 19);
        xml::lemma_scan("ds:SignatureValue"@, '<', 0);
    }
    assert(is_other_tag("ds:KeyInfo"@)) by {
        reveal_strlit("ds:KeyInfo");
        reveal_with_fuel(xml::scan_misses, 12);
        xml::lemma_scan("ds:KeyInfo"@, '<', 0);
    }
    assert(is_other_tag("ds:KeyValue"@)) by {
        reveal_strlit("ds:KeyValue");
        reveal_with_fuel(xml::scan_misses, 13);
        xml::lemma_scan("ds:KeyValue"@, '<', 0);
    }
    assert(is_other_tag("ds:RSAKeyValue"@)) by {
        reveal_strlit("ds:RSAKeyValue");
        reveal_with_fuel(xml::scan_misses, 16);
        xml::lemma_scan("ds:RSAKeyValue"@, '<', 0);
    }
    assert(is_other_tag("ds:Modulus"@)) by {
        reveal_strlit("ds:Modulus");
        reveal_with_fuel(xml::scan_misses, 12);
        xml::lemma_scan("ds:Modulus"@, '<', 0);
    }
    assert(is_other_tag("ds:Exponent"@)) by {
        reveal_strlit("ds:Exponent");
        reveal_with_fuel(xml::scan_misses, 13);
        xml::lemma_scan("ds:Exponent"@, '<', 0);
    }
    assert(is_other_tag("ds:Signature"@)) by {
        reveal_strlit("ds:Signature");
        reveal_with_fuel(xml::scan_misses, 14);
        xml::lemma_scan("ds:Signature"@, '<', 0);
    }
}

#[verifier::spinoff_prover]
proof fn lemma_attribute_names()
    ensures
        xml::lacks("xmlns:ds"@, '<'),
        xml::lacks("Algorithm"@, '<'),
        xml::lacks("URI"@, '<'),
{
    assert(xml::lacks("xmlns:ds"@, '<')) by {
        reveal_strlit("xmlns:ds");
        reveal_with_fuel(xml::scan_misses, 10);
        xml::lemma_scan("xmlns:ds"@, '<', 0);
    }
    assert(xml::lacks("Algorithm"@, '<')) by {
        reveal_strlit("Algorithm");
        reveal_with_fuel(xml::scan_misses, 11);
        xml::lemma_scan("Algorithm"@, '<', 0);
    }
    assert(xml::lacks("URI"@, '<')) by {
        reveal_strlit("URI");
        reveal_with_fuel(xml::scan_misses, 5);
        xml::lemma_scan("URI"@, '<', 0);
    }
}

proof fn lemma_info_opens_no_object(
    data_id: Seq<char>,
    digest_value: Seq<char>,
    method: Seq<char>,
    digest_method: Seq<char>,
)
    ensures
        opens_no_object(
            super::signed_info_element(object_info(data_id, digest_value, method, digest_method)),
        ),
{
    lemma_other_tags();
    lemma_attribute_names();
    let info = object_info(data_id, digest_value, method, digest_method);
    let none: Seq<char> = seq![];
    let reference = info.references[0];
    let uri = xml::attribute("URI"@, reference.uri);
    lemma_attribute_lacks_bracket("URI"@, reference.uri);
    assert(none + none + uri =~= uri);
    let digest = xml::algorithm_element("ds:DigestMethod"@, digest_method);
    let value = xml::text_element("ds:DigestValue"@, digest_value);
    lemma_algorithm_element_opens_no_object("ds:DigestMethod"@, digest_method);
    lemma_text_element_opens_no_object("ds:DigestValue"@, digest_value);
    assert(none + digest =~= digest);
    lemma_opens_no_object_concat(digest, value);
    lemma_element_opens_no_object("ds:Reference"@, uri, digest + value);
    let written = super::reference_element(reference);
    assert(opens_no_object(written));
    reveal_with_fuel(super::reference_elements, 2);
    assert(info.references.drop_last() =~= Seq::<ReferenceParts>::empty());
    assert(none + written =~= written);
    assert(super::reference_elements(info.references) == written);
    let c14n = xml::algorithm_element(
        "ds:CanonicalizationMethod"@,
        info.canonicalization_method,
    );
    let by = xml::algorithm_element("ds:SignatureMethod"@, method);
    lemma_algorithm_element_opens_no_object(
        "ds:CanonicalizationMethod"@,
        info.canonicalization_method,
    );
    lemma_algorithm_element_opens_no_object("ds:SignatureMethod"@, method);
    lemma_opens_no_object_concat(c14n, by);
    lemma_opens_no_object_concat(c14n + by, written);
    let ds = xml::attribute("xmlns:ds"@, "http://www.w3.org/2000/09/xmldsig#"@);
    lemma_attribute_lacks_bracket("xmlns:ds"@, "http://www.w3.org/2000/09/xmldsig#"@);
    assert(none + ds + none =~= ds);
    lemma_element_opens_no_object("ds:SignedInfo"@, ds, c14n + by + written);
}

proof fn lemma_key_info_opens_no_object(numbers: KeyNumbers)
    ensures
        opens_no_object(key_info_element(Some(numbers))),
{
    lemma_other_tags();
    let none: Seq<char> = seq![];
    let modulus = xml::text_element("ds:Modulus"@, numbers.modulus);
    let exponent = xml::text_element("ds:Exponent"@, numbers.exponent);
    lemma_text_element_opens_no_object("ds:Modulus"@, numbers.modulus);
    lemma_text_element_opens_no_object("ds:Exponent"@, numbers.exponent);
    lemma_opens_no_object_concat(modulus, exponent);
    lemma_element_opens_no_object("ds:RSAKeyValue"@, none, modulus + exponent);
    let rsa = xml::element("ds:RSAKeyValue"@, none, modulus + exponent);
    lemma_element_opens_no_object("ds:KeyValue"@, none, rsa);
    lemma_element_opens_no_object(
        "ds:KeyInfo"@,
        none,
        xml::element("ds:KeyValue"@, none, rsa),
    );
}

/// The object is digested as it was given. It has to start with its start tag, the id first, and to
/// end with its end tag, which stands nowhere else in it; the signature around it makes no
/// difference, whatever its key, its digest and its value are.
pub proof fn law_object_is_found_in_its_signature(
    object: Seq<char>,
    data_id: Seq<char>,
    digest_value: Seq<char>,
    method: Seq<char>,
    digest_method: Seq<char>,
    value: Seq<char>,
    numbers: KeyNumbers,
)
    requires
        text::occurs_at(object, object_start(data_id), 0),
        text::first_occurrence(object, "</ds:Object>"@, 0) == Some(object.len() - 12),
    ensures
        extracted_object(
            declared_signature(
                object_info(data_id, digest_value, method, digest_method),
                value,
                key_info_element(Some(numbers)),
                object,
            ),
            data_id,
        ) == Ok::<Seq<char>, ErrorView>(object),
{
    let none: Seq<char> = seq![];
    let info = super::signed_info_element(
        object_info(data_id, digest_value, method, digest_method),
    );
    let value_part = xml::text_element("ds:SignatureValue"@, value);
    let key_info = key_info_element(Some(numbers));
    let before = info + value_part + key_info;
    let ds = xml::attribute("xmlns:ds"@, "http://www.w3.org/2000/09/xmldsig#"@);
    let start = xml::start_tag("ds:Signature"@, ds);
    let end = xml::end_tag("ds:Signature"@);
    let prefix = start + before;
    lemma_other_tags();
    lemma_attribute_names();
    lemma_attribute_lacks_bracket("xmlns:ds"@, "http://www.w3.org/2000/09/xmldsig#"@);
    lemma_info_opens_no_object(data_id, digest_value, method, digest_method);
    lemma_text_element_opens_no_object("ds:SignatureValue"@, value);
    lemma_key_info_opens_no_object(numbers);
    lemma_opens_no_object_concat(info, value_part);
    lemma_opens_no_object_concat(info + value_part, key_info);
    lemma_element_opens_no_object("ds:Signature"@, ds, none);
    lemma_opens_no_object_concat(start, before);
    let wanted = object_start(data_id);
    reveal_strlit("<ds:Object Id=\"");
    reveal_strlit("\"");
    assert(wanted[0] == '<' && wanted[4] == 'O');
    let whole = prefix + object + end;
    xml::lemma_element_around("ds:Signature"@, ds, before, object, none);
    assert(before + object + none =~= before + object);
    assert(none + end =~= end);
    assert forall|i: int| 0 <= i < prefix.len() implies !text::occurs_at(whole, wanted, i) by {
        if text::occurs_at(whole, wanted, i) {
            let found = whole.subrange(i, i + wanted.len());
            assert(found[0] == whole[i]);
            assert(found[4] == whole[i + 4]);
            assert(prefix[i] == whole[i]);
            assert(prefix[i + 4] == whole[i + 4]);
        }
    }
    assert(object.subrange(0, wanted.len() as int) == wanted);
    let n = prefix.len() as int;
    assert(whole.subrange(n, n + wanted.len()) =~= wanted);
    text::lemma_first_occurrence(whole, wanted, 0, n);
    text::lemma_first_occurrence_inside(prefix, object, end, "</ds:Object>"@, 0);
    reveal_strlit("</ds:Object>");
    assert(whole.subrange(n, n + object.len()) =~= object);
}

/// The signed information of an enveloping signature holds the digest of the canonical form of the
/// object that was given, under the same conditions on the object.
pub proof fn law_envelope_covers_its_object(
    object: Seq<char>,
    data_id: Seq<char>,
    method: Seq<char>,
    digest_method: Seq<char>,
    numbers: KeyNumbers,
)
    requires
        text::occurs_at(object, object_start(data_id), 0),
        text::first_occurrence(object, "</ds:Object>"@, 0) == Some(object.len() - 12),
    ensures
        info_for_object(
            object,
            data_id,
            method,
            digest_method,
            key_info_element(Some(numbers)),
        ) == (match document::canonical_document(vstd::utf8::encode_utf8(object)) {
            Err(e) => Err::<SignedInfoParts, ErrorView>(ErrorView::CanonicalizationError(e)),
            Ok(canonical) => Ok::<SignedInfoParts, ErrorView>(
                object_info(
                    data_id,
                    crypto::base64_text(crypto::sha256_digest(canonical)),
                    method,
                    digest_method,
                ),
            ),
        }),
{
    law_object_is_found_in_its_signature(
        object,
        data_id,
        seq![],
        method,
        digest_method,
        seq![],
        numbers,
    );
}

} // verus!
