//! XML digital signatures (XMLDSig).
//!
//! This module holds the `ds:` elements that all signatures share, the [`Signer`] abstraction over
//! the kinds of keys, and [`verify_signature`]. The signature profiles are built on top of these:
//!
//! * [`xades`]: XAdES signatures (basic, with timestamp, long-term) for containers.
//! * [`envelope`]: signatures that hold the signed data in a `ds:Object`.
//!
//! What they write is read back in [`reading`], tag by tag. [`contents`] and [`enveloped`] state what the
//! signatures say that way, and what they cover; [`values`] states what stands for their parts.

pub mod contents;
pub mod document;
pub mod envelope;
pub mod enveloped;
pub mod keys;
pub mod reading;
pub mod values;
pub mod verify;
pub mod xades;
pub mod xml;

pub use envelope::{
    parse_rsa_private_key, sign_enveloping, EnvelopingKeyInfo, EnvelopingKeyValue,
    EnvelopingRsaKeyValue, EnvelopingSignature,
};
pub use verify::verify_signature;
pub use xades::{
    build_xades_basic_signature, upgrade_xades_bes_to_t, upgrade_xades_t_to_lt, XadesBesResult,
    XadesDataFile, XadesProductionPlace, XadesSignatureInputs,
};

use vstd::prelude::*;

use crate::crypto::{self, sha256};
use crate::error::{self, ErrorView, SignatureError};
use keys::{
    k256_public_key, k256_sign, p256_public_key, p256_sign, rsa_public_key, rsa_sign_digest,
};
use xml::{
    write_algorithm_element, write_attribute, write_element, write_optional_attribute,
    write_text_element,
};

verus! {

/// A `ds:SignedInfo` element: what a signature signs.
#[derive(Debug, Clone, Default)]
pub struct SignedInfo {
    /// The namespace that the prefix `asic` is declared for, if it is.
    pub xmlns_asic: Option<String>,
    /// The namespace that the prefix `ds` is declared for, if it is.
    pub xmlns_ds: Option<String>,
    /// The namespace that the prefix `xades` is declared for, if it is.
    pub xmlns_xades: Option<String>,
    pub canonicalization_method: CanonicalizationMethod,
    pub signature_method: SignatureMethod,
    pub references: Vec<Reference>,
}

/// A `ds:CanonicalizationMethod` element.
#[derive(Debug, Clone, Default)]
pub struct CanonicalizationMethod {
    pub algorithm: String,
}

/// A `ds:SignatureMethod` element.
#[derive(Debug, Clone, Default)]
pub struct SignatureMethod {
    pub algorithm: String,
}

/// A `ds:Reference` element: something signed, and its digest.
#[derive(Debug, Clone, Default)]
pub struct Reference {
    pub id: Option<String>,
    pub reference_type: Option<String>,
    pub uri: String,
    pub transforms: Option<Transforms>,
    pub digest_method: DigestMethod,
    /// The digest in Base64.
    pub digest_value: String,
}

/// A `ds:Transforms` element.
#[derive(Debug, Clone, Default)]
pub struct Transforms {
    pub transform: Vec<Transform>,
}

/// A `ds:Transform` element.
#[derive(Debug, Clone, Default)]
pub struct Transform {
    pub algorithm: String,
}

/// A `ds:DigestMethod` element.
#[derive(Debug, Clone, Default)]
pub struct DigestMethod {
    pub algorithm: String,
}

/// A [`Reference`] as values, with each method given by its algorithm.
pub struct ReferenceParts {
    pub id: Option<Seq<char>>,
    pub reference_type: Option<Seq<char>>,
    pub uri: Seq<char>,
    pub transforms: Option<Seq<Seq<char>>>,
    pub digest_method: Seq<char>,
    pub digest_value: Seq<char>,
}

/// A [`SignedInfo`] as values, with each method given by its algorithm.
pub struct SignedInfoParts {
    pub xmlns_asic: Option<Seq<char>>,
    pub xmlns_ds: Option<Seq<char>>,
    pub xmlns_xades: Option<Seq<char>>,
    pub canonicalization_method: Seq<char>,
    pub signature_method: Seq<char>,
    pub references: Seq<ReferenceParts>,
}

/// The algorithms of the transforms, as values.
pub open spec fn transforms_view(transforms: Option<Transforms>) -> Option<Seq<Seq<char>>> {
    match transforms {
        Some(t) => Some(t.transform@.map_values(|t: Transform| t.algorithm@)),
        None => None,
    }
}

impl View for Reference {
    type V = ReferenceParts;

    open spec fn view(&self) -> ReferenceParts {
        ReferenceParts {
            id: document::optional_text(self.id),
            reference_type: document::optional_text(self.reference_type),
            uri: self.uri@,
            transforms: transforms_view(self.transforms),
            digest_method: self.digest_method.algorithm@,
            digest_value: self.digest_value@,
        }
    }
}

impl View for SignedInfo {
    type V = SignedInfoParts;

    open spec fn view(&self) -> SignedInfoParts {
        SignedInfoParts {
            xmlns_asic: document::optional_text(self.xmlns_asic),
            xmlns_ds: document::optional_text(self.xmlns_ds),
            xmlns_xades: document::optional_text(self.xmlns_xades),
            canonicalization_method: self.canonicalization_method.algorithm@,
            signature_method: self.signature_method.algorithm@,
            references: self.references@.map_values(|r: Reference| r@),
        }
    }
}

/// The `ds:Transform` elements for the given algorithms.
pub open spec fn transform_elements(algorithms: Seq<Seq<char>>) -> Seq<char>
    decreases algorithms.len(),
{
    if algorithms.len() == 0 {
        seq![]
    } else {
        transform_elements(algorithms.drop_last()) + xml::algorithm_element(
            "ds:Transform"@,
            algorithms.last(),
        )
    }
}

/// The `ds:Transforms` element for the given algorithms, where there is one.
pub open spec fn transforms_element(algorithms: Option<Seq<Seq<char>>>) -> Seq<char> {
    match algorithms {
        Some(a) => xml::element("ds:Transforms"@, seq![], transform_elements(a)),
        None => seq![],
    }
}

/// The `ds:Reference` element for a reference.
pub open spec fn reference_element(r: ReferenceParts) -> Seq<char> {
    xml::element(
        "ds:Reference"@,
        xml::optional_attribute("Id"@, r.id) + xml::optional_attribute("Type"@, r.reference_type)
            + xml::attribute("URI"@, r.uri),
        transforms_element(r.transforms) + xml::algorithm_element(
            "ds:DigestMethod"@,
            r.digest_method,
        ) + xml::text_element("ds:DigestValue"@, r.digest_value),
    )
}

/// The `ds:Reference` elements for references, in their order.
pub open spec fn reference_elements(references: Seq<ReferenceParts>) -> Seq<char>
    decreases references.len(),
{
    if references.len() == 0 {
        seq![]
    } else {
        reference_elements(references.drop_last()) + reference_element(references.last())
    }
}

/// The `ds:SignedInfo` element.
pub open spec fn signed_info_element(info: SignedInfoParts) -> Seq<char> {
    xml::element(
        "ds:SignedInfo"@,
        xml::optional_attribute("xmlns:asic"@, info.xmlns_asic) + xml::optional_attribute(
            "xmlns:ds"@,
            info.xmlns_ds,
        ) + xml::optional_attribute("xmlns:xades"@, info.xmlns_xades),
        xml::algorithm_element("ds:CanonicalizationMethod"@, info.canonicalization_method)
            + xml::algorithm_element("ds:SignatureMethod"@, info.signature_method)
            + reference_elements(info.references),
    )
}

/// A text that may be absent, borrowed.
pub fn borrow_text(text: &Option<String>) -> (r: Option<&str>)
    ensures
        xml::option_view(r) == document::optional_text(*text),
{
    match text {
        Some(t) => Some(t.as_str()),
        None => None,
    }
}

impl Transforms {
    /// Writes the `ds:Transforms` element.
    pub fn to_xml(&self) -> (r: String)
        ensures
            r@ == transforms_element(transforms_view(Some(*self))),
    {
        let ghost algorithms = self.transform@.map_values(|t: Transform| t.algorithm@);
        let mut content = String::new();
        let mut i: usize = 0;
        while i < self.transform.len()
            invariant
                i <= self.transform.len(),
                algorithms == self.transform@.map_values(|t: Transform| t.algorithm@),
                content@ == transform_elements(algorithms.take(i as int)),
            decreases self.transform.len() - i,
        {
            let one = write_algorithm_element(
                "ds:Transform",
                self.transform[i].algorithm.as_str(),
            );
            content.append(one.as_str());
            proof {
                assert(algorithms.take(i + 1).drop_last() =~= algorithms.take(i as int));
            }
            i += 1;
        }
        assert(algorithms.take(i as int) =~= algorithms);
        let none = String::new();
        write_element("ds:Transforms", none.as_str(), content.as_str())
    }
}

impl Reference {
    /// Writes the `ds:Reference` element.
    pub fn to_xml(&self) -> (r: String)
        ensures
            r@ == reference_element(self@),
    {
        let mut attributes = write_optional_attribute("Id", borrow_text(&self.id));
        let kind = write_optional_attribute("Type", borrow_text(&self.reference_type));
        attributes.append(kind.as_str());
        let uri = write_attribute("URI", self.uri.as_str());
        attributes.append(uri.as_str());
        let mut content = match &self.transforms {
            Some(transforms) => transforms.to_xml(),
            None => String::new(),
        };
        let method = write_algorithm_element(
            "ds:DigestMethod",
            self.digest_method.algorithm.as_str(),
        );
        content.append(method.as_str());
        let value = write_text_element("ds:DigestValue", self.digest_value.as_str());
        content.append(value.as_str());
        write_element("ds:Reference", attributes.as_str(), content.as_str())
    }
}

impl SignedInfo {
    /// Writes the `ds:SignedInfo` element.
    pub fn to_xml(&self) -> (r: String)
        ensures
            r@ == signed_info_element(self@),
    {
        let mut attributes = write_optional_attribute("xmlns:asic", borrow_text(&self.xmlns_asic));
        let ds = write_optional_attribute("xmlns:ds", borrow_text(&self.xmlns_ds));
        attributes.append(ds.as_str());
        let xades = write_optional_attribute("xmlns:xades", borrow_text(&self.xmlns_xades));
        attributes.append(xades.as_str());
        let mut content = write_algorithm_element(
            "ds:CanonicalizationMethod",
            self.canonicalization_method.algorithm.as_str(),
        );
        let method = write_algorithm_element(
            "ds:SignatureMethod",
            self.signature_method.algorithm.as_str(),
        );
        content.append(method.as_str());
        let ghost references = self@.references;
        let mut written = String::new();
        let mut i: usize = 0;
        while i < self.references.len()
            invariant
                i <= self.references.len(),
                references == self.references@.map_values(|r: Reference| r@),
                written@ == reference_elements(references.take(i as int)),
            decreases self.references.len() - i,
        {
            let one = self.references[i].to_xml();
            written.append(one.as_str());
            proof {
                assert(references.take(i + 1).drop_last() =~= references.take(i as int));
            }
            i += 1;
        }
        assert(references.take(i as int) =~= references);
        content.append(written.as_str());
        write_element("ds:SignedInfo", attributes.as_str(), content.as_str())
    }
}

/// A key that checks signatures, as `SubjectPublicKeyInfo` in DER.
#[derive(Clone)]
pub enum PublicKeyType {
    Rsa(Vec<u8>),
    P256(Vec<u8>),
    K256(Vec<u8>),
}

/// A [`PublicKeyType`] as values.
pub enum PublicKeyView {
    Rsa(Seq<u8>),
    P256(Seq<u8>),
    K256(Seq<u8>),
}

impl View for PublicKeyType {
    type V = PublicKeyView;

    open spec fn view(&self) -> PublicKeyView {
        match self {
            PublicKeyType::Rsa(key) => PublicKeyView::Rsa(key@),
            PublicKeyType::P256(key) => PublicKeyView::P256(key@),
            PublicKeyType::K256(key) => PublicKeyView::K256(key@),
        }
    }
}

/// A key or the error, as values.
pub open spec fn key_view(r: Result<PublicKeyType, SignatureError>) -> Result<
    PublicKeyView,
    ErrorView,
> {
    match r {
        Ok(key) => Ok(key@),
        Err(e) => Err(e@),
    }
}

/// Something that makes signatures: a key in software, or a token that holds one.
pub trait Signer {
    /// Whether signing `data` may come to `outcome`.
    spec fn may_sign(&self, data: Seq<u8>, outcome: Result<Seq<u8>, ErrorView>) -> bool;

    /// The URI of the signature method.
    spec fn method_uri(&self) -> Seq<char>;

    /// The URI of the digest method.
    spec fn digest_uri(&self) -> Seq<char>;

    /// Whether asking for the key that checks the signatures may come to `outcome`.
    spec fn may_have_key(&self, outcome: Result<PublicKeyView, ErrorView>) -> bool;

    /// Signs `data`.
    fn sign(&self, data: &[u8]) -> (r: Result<Vec<u8>, SignatureError>)
        ensures
            self.may_sign(data@, error::bytes_view(r)),
    ;

    /// The URI of the signature method.
    fn signature_method_uri(&self) -> (r: &'static str)
        ensures
            r@ == self.method_uri(),
    ;

    /// The URI of the digest method.
    fn digest_method_uri(&self) -> (r: &'static str)
        ensures
            r@ == self.digest_uri(),
    ;

    /// The key that checks the signatures.
    fn verifying_key(&self) -> (r: Result<PublicKeyType, SignatureError>)
        ensures
            self.may_have_key(key_view(r)),
    ;
}

/// A private key, in PKCS#8 in DER.
#[derive(Clone)]
pub enum SigningKeyType {
    Rsa(Vec<u8>),
    P256(Vec<u8>),
    K256(Vec<u8>),
}

/// A signature, or the error with the given message.
pub open spec fn signature_or_error(r: Result<Seq<u8>, Seq<char>>) -> Result<Seq<u8>, ErrorView> {
    match r {
        Ok(signature) => Ok(signature),
        Err(e) => Err(ErrorView::SigningError(e)),
    }
}

impl SigningKeyType {
    /// Whether the check takes the public half of the key: it does for a key on a curve, and for an RSA
    /// key of the right size.
    pub open spec fn is_checkable(self) -> bool {
        match self {
            SigningKeyType::Rsa(key) => keys::rsa_public_numbers(key@) matches Ok(
                (modulus, exponent),
            ) && keys::is_checkable_rsa(modulus, exponent),
            _ => true,
        }
    }

    /// The key that checks the signatures.
    pub open spec fn public_key(self) -> Result<PublicKeyView, ErrorView> {
        match self {
            SigningKeyType::Rsa(key) => match keys::rsa_public_info(key@) {
                Ok(info) => Ok(PublicKeyView::Rsa(info)),
                Err(e) => Err(ErrorView::KeyParsingError(e)),
            },
            SigningKeyType::P256(key) => match keys::p256_public_info(key@) {
                Ok(info) => Ok(PublicKeyView::P256(info)),
                Err(e) => Err(ErrorView::KeyParsingError(e)),
            },
            SigningKeyType::K256(key) => match keys::k256_public_info(key@) {
                Ok(info) => Ok(PublicKeyView::K256(info)),
                Err(e) => Err(ErrorView::KeyParsingError(e)),
            },
        }
    }
}

impl Signer for SigningKeyType {
    /// An RSA key that does not decode gives the error for that. One that does may fail, for want of
    /// randomness; what it makes is a signature of the SHA-256 digest of the data, as long as the
    /// modulus. The outcome with another key is fixed, and a signature is 64 bytes long. What a key
    /// signs passes the check, of an RSA key if the check takes it.
    open spec fn may_sign(&self, data: Seq<u8>, outcome: Result<Seq<u8>, ErrorView>) -> bool {
        match self {
            SigningKeyType::Rsa(key) => match (keys::rsa_public_numbers(key@), outcome) {
                (Ok((modulus, exponent)), Ok(signature)) => {
                    &&& keys::is_rsa_signature(
                        modulus,
                        exponent,
                        crypto::sha256_digest(data),
                        signature,
                    )
                    &&& keys::passes_rsa_check(key@, crypto::sha256_digest(data), signature)
                },
                (Ok(_), Err(e)) => e is SigningError,
                (Err(message), _) => outcome == Err::<Seq<u8>, ErrorView>(
                    ErrorView::SigningError(message),
                ),
            },
            SigningKeyType::P256(key) => {
                &&& outcome == signature_or_error(keys::p256_signature(key@, data))
                &&& outcome matches Ok(signature) ==> signature.len() == 64
                    && keys::passes_p256_check(key@, data, signature)
            },
            SigningKeyType::K256(key) => {
                &&& outcome == signature_or_error(keys::k256_signature(key@, data))
                &&& outcome matches Ok(signature) ==> signature.len() == 64
                    && keys::passes_k256_check(key@, data, signature)
            },
        }
    }

    open spec fn method_uri(&self) -> Seq<char> {
        match self {
            SigningKeyType::Rsa(_) => "http://www.w3.org/2001/04/xmldsig-more#rsa-sha256"@,
            _ => "http://www.w3.org/2001/04/xmldsig-more#ecdsa-sha256"@,
        }
    }

    open spec fn digest_uri(&self) -> Seq<char> {
        "http://www.w3.org/2001/04/xmlenc#sha256"@
    }

    open spec fn may_have_key(&self, outcome: Result<PublicKeyView, ErrorView>) -> bool {
        outcome == self.public_key()
    }

    fn sign(&self, data: &[u8]) -> (r: Result<Vec<u8>, SignatureError>) {
        let made = match self {
            SigningKeyType::Rsa(key) => {
                let digest = sha256(data);
                rsa_sign_digest(key.as_slice(), digest.as_slice())
            },
            SigningKeyType::P256(key) => p256_sign(key.as_slice(), data),
            SigningKeyType::K256(key) => k256_sign(key.as_slice(), data),
        };
        match made {
            Ok(signature) => Ok(signature),
            Err(e) => Err(SignatureError::SigningError(e)),
        }
    }

    fn signature_method_uri(&self) -> (r: &'static str) {
        match self {
            SigningKeyType::Rsa(_) => "http://www.w3.org/2001/04/xmldsig-more#rsa-sha256",
            _ => "http://www.w3.org/2001/04/xmldsig-more#ecdsa-sha256",
        }
    }

    fn digest_method_uri(&self) -> (r: &'static str) {
        "http://www.w3.org/2001/04/xmlenc#sha256"
    }

    fn verifying_key(&self) -> (r: Result<PublicKeyType, SignatureError>) {
        match self {
            SigningKeyType::Rsa(key) => match rsa_public_key(key.as_slice()) {
                Ok(info) => Ok(PublicKeyType::Rsa(info)),
                Err(e) => Err(SignatureError::KeyParsingError(e)),
            },
            SigningKeyType::P256(key) => match p256_public_key(key.as_slice()) {
                Ok(info) => Ok(PublicKeyType::P256(info)),
                Err(e) => Err(SignatureError::KeyParsingError(e)),
            },
            SigningKeyType::K256(key) => match k256_public_key(key.as_slice()) {
                Ok(info) => Ok(PublicKeyType::K256(info)),
                Err(e) => Err(SignatureError::KeyParsingError(e)),
            },
        }
    }
}

} // verus!
