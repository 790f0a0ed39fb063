//! XAdES signatures for containers: basic (BES), with timestamp (T) and long-term (LT).
//!
//! A basic signature covers each data file and its own signed properties by their SHA-256 digests.
//! A timestamp, and later the issuer's certificate and an OCSP response, are put into its unsigned
//! properties without touching what was signed.

use vstd::prelude::*;

use super::document::{self, canonicalize_document};
use super::xml::{
    self, escape_text, write_algorithm_element, write_attribute, write_element,
    write_optional_text_element, write_text_element,
};
use super::{
    CanonicalizationMethod, DigestMethod, Reference, ReferenceParts, SignatureMethod, SignedInfo,
    SignedInfoParts, Signer,
};
use crate::certificate::{self, parse_certificate, Certificate, CertificateView};
use crate::crypto::{self, base64_encode, sha256};
use crate::error::{self, ErrorView, SignatureError};
use crate::text::{
    self, concat2, concat3, decimal_text, insert_before_last, replace_first_char,
};
use crate::time::{self, Timestamp};

verus! {

/// A data file that a signature covers.
pub struct XadesDataFile<'a> {
    pub uri: &'a str,
    pub mime_type: &'a str,
    pub content: &'a [u8],
}

/// Where a signature was made. Each part may be left out.
#[derive(Debug, Clone, Default)]
pub struct XadesProductionPlace<'a> {
    pub city: Option<&'a str>,
    pub state_or_province: Option<&'a str>,
    pub postal_code: Option<&'a str>,
    pub country_name: Option<&'a str>,
}

/// What a basic signature is built from.
pub struct XadesSignatureInputs<'a> {
    pub signer: &'a Box<dyn Signer>,
    /// The signer's certificate in DER.
    pub certificate_der: &'a [u8],
    pub signing_time: Timestamp,
    pub data_files: &'a [XadesDataFile<'a>],
    /// The number of the signature in its container, from zero on.
    pub index: usize,
    pub production_place: Option<XadesProductionPlace<'a>>,
    pub claimed_roles: &'a [&'a str],
}

/// A basic signature.
pub struct XadesBesResult {
    /// The signature document.
    pub xml: String,
    /// The id of the `ds:Signature` element.
    pub signature_id: String,
    /// The canonical `ds:SignatureValue` element, which a timestamp is made for.
    pub signature_value_canonical: Vec<u8>,
}

/// A [`XadesDataFile`] as values.
pub struct FileView {
    pub uri: Seq<char>,
    pub mime_type: Seq<char>,
    pub content: Seq<u8>,
}

/// A [`XadesProductionPlace`] as values.
pub struct PlaceView {
    pub city: Option<Seq<char>>,
    pub state_or_province: Option<Seq<char>>,
    pub postal_code: Option<Seq<char>>,
    pub country_name: Option<Seq<char>>,
}

/// [`XadesSignatureInputs`] as values, with the signer given by its signature method.
pub struct InputsView {
    pub method: Seq<char>,
    pub certificate: Seq<u8>,
    pub signing_time: (int, int),
    pub files: Seq<FileView>,
    pub index: nat,
    pub place: Option<PlaceView>,
    pub roles: Seq<Seq<char>>,
}

/// A [`XadesBesResult`] as values.
pub struct BesView {
    pub xml: Seq<char>,
    pub signature_id: Seq<char>,
    pub signature_value_canonical: Seq<u8>,
}

impl<'a> View for XadesDataFile<'a> {
    type V = FileView;

    open spec fn view(&self) -> FileView {
        FileView { uri: self.uri@, mime_type: self.mime_type@, content: self.content@ }
    }
}

impl<'a> View for XadesProductionPlace<'a> {
    type V = PlaceView;

    open spec fn view(&self) -> PlaceView {
        PlaceView {
            city: xml::option_view(self.city),
            state_or_province: xml::option_view(self.state_or_province),
            postal_code: xml::option_view(self.postal_code),
            country_name: xml::option_view(self.country_name),
        }
    }
}

impl<'a> View for XadesSignatureInputs<'a> {
    type V = InputsView;

    open spec fn view(&self) -> InputsView {
        InputsView {
            method: self.signer.method_uri(),
            certificate: self.certificate_der@,
            signing_time: self.signing_time@,
            files: self.data_files@.map_values(|f: XadesDataFile<'a>| f@),
            index: self.index as nat,
            place: match self.production_place {
                Some(p) => Some(p@),
                None => None,
            },
            roles: self.claimed_roles@.map_values(|r: &'a str| r@),
        }
    }
}

impl View for XadesBesResult {
    type V = BesView;

    open spec fn view(&self) -> BesView {
        BesView {
            xml: self.xml@,
            signature_id: self.signature_id@,
            signature_value_canonical: self.signature_value_canonical@,
        }
    }
}

/// The id of the `ds:Signature` element of the signature with the given number.
pub open spec fn signature_id(index: nat) -> Seq<char> {
    "S"@ + text::decimal(index)
}

/// The id of its `xades:SignedProperties` element.
pub open spec fn signed_properties_id(index: nat) -> Seq<char> {
    "SP"@ + text::decimal(index) + "-SignedProperties"@
}

/// The id of its `ds:SignatureValue` element.
pub open spec fn signature_value_id(index: nat) -> Seq<char> {
    signature_id(index) + "-SIG"@
}

/// The id of its reference to the `i`th data file.
pub open spec fn file_reference_id(index: nat, i: nat) -> Seq<char> {
    signature_id(index) + "-RefId"@ + text::decimal(i)
}

/// The Base64 text of the SHA-256 digest of `data`.
pub open spec fn digest_text(data: Seq<u8>) -> Seq<char> {
    crypto::base64_text(crypto::sha256_digest(data))
}

/// A reference, without transforms, to `uri` with a SHA-256 digest.
pub open spec fn sha256_reference(
    id: Seq<char>,
    kind: Option<Seq<char>>,
    uri: Seq<char>,
    data: Seq<u8>,
) -> ReferenceParts {
    ReferenceParts {
        id: Some(id),
        reference_type: kind,
        uri,
        transforms: None,
        digest_method: "http://www.w3.org/2001/04/xmlenc#sha256"@,
        digest_value: digest_text(data),
    }
}

/// The references to the data files, in their order.
pub open spec fn file_references(index: nat, files: Seq<FileView>) -> Seq<ReferenceParts> {
    Seq::new(
        files.len(),
        |i: int|
            sha256_reference(
                file_reference_id(index, i as nat),
                None,
                files[i].uri,
                files[i].content,
            ),
    )
}

/// The declarations of the three namespaces.
pub open spec fn namespaces() -> Seq<char> {
    xml::attribute("xmlns:asic"@, "http://uri.etsi.org/02918/v1.2.1#"@) + xml::attribute(
        "xmlns:ds"@,
        "http://www.w3.org/2000/09/xmldsig#"@,
    ) + xml::attribute("xmlns:xades"@, "http://uri.etsi.org/01903/v1.3.2#"@)
}

/// The element for the place, where one is given.
pub open spec fn place_element(place: Option<PlaceView>) -> Seq<char> {
    match place {
        None => seq![],
        Some(p) => xml::element(
            "xades:SignatureProductionPlace"@,
            seq![],
            xml::optional_text_element("xades:City"@, p.city) + xml::optional_text_element(
                "xades:StateOrProvince"@,
                p.state_or_province,
            ) + xml::optional_text_element("xades:PostalCode"@, p.postal_code)
                + xml::optional_text_element("xades:CountryName"@, p.country_name),
        ),
    }
}

/// The elements for claimed roles, in their order.
pub open spec fn role_elements(roles: Seq<Seq<char>>) -> Seq<char>
    decreases roles.len(),
{
    if roles.len() == 0 {
        seq![]
    } else {
        role_elements(roles.drop_last()) + xml::text_element("xades:ClaimedRole"@, roles.last())
    }
}

/// The element for the claimed roles, where there are any.
pub open spec fn roles_element(roles: Seq<Seq<char>>) -> Seq<char> {
    if roles.len() == 0 {
        seq![]
    } else {
        xml::element(
            "xades:SignerRole"@,
            seq![],
            xml::element("xades:ClaimedRoles"@, seq![], role_elements(roles)),
        )
    }
}

/// The element that names the signer's certificate, by its digest, its issuer and its number.
pub open spec fn certificate_element(
    certificate: Seq<u8>,
    issuer: Seq<char>,
    serial: Seq<char>,
) -> Seq<char> {
    let digest = xml::element(
        "xades:CertDigest"@,
        seq![],
        xml::algorithm_element("ds:DigestMethod"@, "http://www.w3.org/2001/04/xmlenc#sha256"@)
            + xml::text_element("ds:DigestValue"@, digest_text(certificate)),
    );
    let name = xml::element(
        "xades:IssuerSerial"@,
        seq![],
        xml::text_element("ds:X509IssuerName"@, issuer) + xml::text_element(
            "ds:X509SerialNumber"@,
            serial,
        ),
    );
    xml::element(
        "xades:SigningCertificate"@,
        seq![],
        xml::element("xades:Cert"@, seq![], digest + name),
    )
}

/// The elements that give the data files' media types, in the files' order.
pub open spec fn format_elements(index: nat, files: Seq<FileView>) -> Seq<char>
    decreases files.len(),
{
    if files.len() == 0 {
        seq![]
    } else {
        let i = (files.len() - 1) as nat;
        format_elements(index, files.drop_last()) + xml::element(
            "xades:DataObjectFormat"@,
            xml::attribute("ObjectReference"@, "#"@ + file_reference_id(index, i)),
            xml::text_element("xades:MimeType"@, files.last().mime_type),
        )
    }
}

/// The `xades:SignedProperties` element.
pub open spec fn signed_properties_element(v: InputsView, certificate: CertificateView) -> Seq<
    char,
> {
    let about_signature = xml::element(
        "xades:SignedSignatureProperties"@,
        seq![],
        xml::text_element(
            "xades:SigningTime"@,
            time::rfc3339_text(v.signing_time.0, v.signing_time.1),
        ) + certificate_element(v.certificate, certificate.issuer, certificate.serial)
            + place_element(v.place) + roles_element(v.roles),
    );
    let about_data = xml::element(
        "xades:SignedDataObjectProperties"@,
        seq![],
        format_elements(v.index, v.files),
    );
    xml::element(
        "xades:SignedProperties"@,
        namespaces() + xml::attribute("Id"@, signed_properties_id(v.index)),
        about_signature + about_data,
    )
}

/// The signed information: a reference to each data file, in their order, and one to the signed
/// properties, whose canonical form is given.
pub open spec fn signed_info_of(v: InputsView, canonical_properties: Seq<u8>) -> SignedInfoParts {
    SignedInfoParts {
        xmlns_asic: Some("http://uri.etsi.org/02918/v1.2.1#"@),
        xmlns_ds: Some("http://www.w3.org/2000/09/xmldsig#"@),
        xmlns_xades: Some("http://uri.etsi.org/01903/v1.3.2#"@),
        canonicalization_method: "http://www.w3.org/TR/2001/REC-xml-c14n-20010315"@,
        signature_method: v.method,
        references: file_references(v.index, v.files).push(
            sha256_reference(
                signature_id(v.index) + "-SignedPropertiesRef"@,
                Some("http://uri.etsi.org/01903#SignedProperties"@),
                "#"@ + signed_properties_id(v.index),
                canonical_properties,
            ),
        ),
    }
}

/// A signature up to the point of signing.
pub struct PreparedView {
    pub signed_properties: Seq<char>,
    pub signed_info: SignedInfoParts,
    /// The canonical signed information: what the signer signs.
    pub canonical_info: Seq<u8>,
}

/// The UTF-8 bytes of `text`.
pub open spec fn utf8(text: Seq<char>) -> Seq<u8> {
    vstd::utf8::encode_utf8(text)
}

/// The signature up to the point of signing, or the error.
#[verifier::opaque]
pub open spec fn prepared(v: InputsView) -> Result<PreparedView, ErrorView> {
    match certificate::x509_certificate(v.certificate) {
        Err(e) => Err(ErrorView::GeneralError("failed to parse certificate DER: "@ + e)),
        Ok(c) => {
            let signed_properties = signed_properties_element(v, c);
            match document::canonical_document(utf8(signed_properties)) {
                Err(e) => Err(ErrorView::CanonicalizationError(e)),
                Ok(properties) => {
                    let signed_info = signed_info_of(v, properties);
                    match document::canonical_document(utf8(super::signed_info_element(signed_info))) {
                        Err(e) => Err(ErrorView::CanonicalizationError(e)),
                        Ok(canonical_info) => Ok(
                            PreparedView { signed_properties, signed_info, canonical_info },
                        ),
                    }
                },
            }
        },
    }
}

/// The `ds:Signature` element, with the given qualifying properties.
pub open spec fn signature_element(
    v: InputsView,
    signed_info: SignedInfoParts,
    signature: Seq<u8>,
    properties: Seq<char>,
) -> Seq<char> {
    let value = xml::element(
        "ds:SignatureValue"@,
        xml::attribute("Id"@, signature_value_id(v.index)),
        xml::escaped_text(crypto::base64_text(signature)),
    );
    let key = xml::element(
        "ds:KeyInfo"@,
        seq![],
        xml::element(
            "ds:X509Data"@,
            seq![],
            xml::text_element("ds:X509Certificate"@, crypto::base64_text(v.certificate)),
        ),
    );
    let object = xml::element(
        "ds:Object"@,
        seq![],
        xml::element(
            "xades:QualifyingProperties"@,
            xml::attribute("Target"@, "#"@ + signature_id(v.index)),
            properties,
        ),
    );
    xml::element(
        "ds:Signature"@,
        xml::attribute("Id"@, signature_id(v.index)),
        super::signed_info_element(signed_info) + value + key + object,
    )
}

/// The signature document, with the given qualifying properties.
pub open spec fn signature_document(
    v: InputsView,
    signed_info: SignedInfoParts,
    signature: Seq<u8>,
    properties: Seq<char>,
) -> Seq<char> {
    "<?xml version=\"1.0\" encoding=\"UTF-8\"?>"@ + xml::element(
        "asic:XAdESSignatures"@,
        namespaces(),
        signature_element(v, signed_info, signature, properties),
    )
}

/// The `ds:SignatureValue` element on its own, with the namespaces declared.
pub open spec fn signature_value_element(id: Seq<char>, value: Seq<char>) -> Seq<char> {
    "<ds:SignatureValue xmlns:asic=\"http://uri.etsi.org/02918/v1.2.1#\" xmlns:ds=\"http://www.w3.org/2000/09/xmldsig#\" xmlns:xades=\"http://uri.etsi.org/01903/v1.3.2#\" Id=\""@
        + id + "\">"@ + (value + "</ds:SignatureValue>"@)
}

/// The finished signature, or the error.
#[verifier::opaque]
pub open spec fn finished(v: InputsView, p: PreparedView, signature: Seq<u8>) -> Result<
    BesView,
    ErrorView,
> {
    match document::canonical_document(
        utf8(signature_value_element(signature_value_id(v.index), crypto::base64_text(signature))),
    ) {
        Err(e) => Err(ErrorView::CanonicalizationError(e)),
        Ok(canonical) => Ok(
            BesView {
                xml: signature_document(v, p.signed_info, signature, p.signed_properties),
                signature_id: signature_id(v.index),
                signature_value_canonical: canonical,
            },
        ),
    }
}

/// What building a signature comes to, once signing came to `signed`.
pub open spec fn built(
    v: InputsView,
    p: PreparedView,
    signed: Result<Seq<u8>, ErrorView>,
) -> Result<BesView, ErrorView> {
    match signed {
        Err(e) => Err(e),
        Ok(signature) => finished(v, p, signature),
    }
}

/// A basic signature or the error, as values.
pub open spec fn bes_view(r: Result<XadesBesResult, SignatureError>) -> Result<
    BesView,
    ErrorView,
> {
    match r {
        Ok(bes) => Ok(bes@),
        Err(e) => Err(e@),
    }
}

/// Whether the texts that a signature document has for the certificate, the signature and the signing
/// time stand for what they were written for; of a signing time, where its year has four digits.
pub open spec fn parts_read_back(v: InputsView, signature: Seq<u8>) -> bool {
    let (secs, nanos) = v.signing_time;
    &&& crypto::decodes_to(crypto::base64_text(v.certificate), v.certificate)
    &&& crypto::decodes_to(crypto::base64_text(signature), signature)
    &&& time::reads_back(time::rfc3339_text(secs, nanos), secs, nanos)
}

/// Whether building a signature with the given signer may come to `outcome`.
pub open spec fn may_build(
    signer: &Box<dyn Signer>,
    v: InputsView,
    p: PreparedView,
    outcome: Result<BesView, ErrorView>,
) -> bool {
    exists|signed: Result<Seq<u8>, ErrorView>|
        #[trigger] signer.may_sign(p.canonical_info, signed) && outcome == built(v, p, signed) && (
        signed matches Ok(signature) ==> parts_read_back(v, signature))
}

/// A signature up to the point of signing.
pub struct PreparedSignature {
    /// The `xades:SignedProperties` element.
    pub signed_properties: String,
    pub signed_info: SignedInfo,
    /// The canonical signed information: what the signer signs.
    pub canonical_info: Vec<u8>,
}

impl View for PreparedSignature {
    type V = PreparedView;

    open spec fn view(&self) -> PreparedView {
        PreparedView {
            signed_properties: self.signed_properties@,
            signed_info: self.signed_info@,
            canonical_info: self.canonical_info@,
        }
    }
}

/// A prepared signature or the error, as values.
pub open spec fn prepared_view(r: Result<PreparedSignature, SignatureError>) -> Result<
    PreparedView,
    ErrorView,
> {
    match r {
        Ok(p) => Ok(p@),
        Err(e) => Err(e@),
    }
}

fn write_signature_id(index: usize) -> (r: String)
    ensures
        r@ == signature_id(index as nat),
{
    let number = decimal_text(index as u64);
    concat2("S", number.as_str())
}

fn write_signed_properties_id(index: usize) -> (r: String)
    ensures
        r@ == signed_properties_id(index as nat),
{
    let number = decimal_text(index as u64);
    concat3("SP", number.as_str(), "-SignedProperties")
}

fn write_signature_value_id(index: usize) -> (r: String)
    ensures
        r@ == signature_value_id(index as nat),
{
    let id = write_signature_id(index);
    concat2(id.as_str(), "-SIG")
}

fn write_file_reference_id(index: usize, i: usize) -> (r: String)
    ensures
        r@ == file_reference_id(index as nat, i as nat),
{
    let id = write_signature_id(index);
    let number = decimal_text(i as u64);
    concat3(id.as_str(), "-RefId", number.as_str())
}

fn write_digest(data: &[u8]) -> (r: String)
    ensures
        r@ == digest_text(data@),
{
    let digest = sha256(data);
    base64_encode(digest.as_slice())
}

fn make_reference(id: String, kind: Option<String>, uri: String, data: &[u8]) -> (r: Reference)
    ensures
        r@ == sha256_reference(id@, document::optional_text(kind), uri@, data@),
{
    Reference {
        id: Some(id),
        reference_type: kind,
        uri,
        transforms: None,
        digest_method: DigestMethod {
            algorithm: "http://www.w3.org/2001/04/xmlenc#sha256".to_owned(),
        },
        digest_value: write_digest(data),
    }
}

fn make_file_references(index: usize, files: &[XadesDataFile<'_>]) -> (r: Vec<Reference>)
    ensures
        r@.map_values(|r: Reference| r@) == file_references(
            index as nat,
            files@.map_values(|f: XadesDataFile<'_>| f@),
        ),
{
    let ghost all = file_references(
        index as nat,
        files@.map_values(|f: XadesDataFile<'_>| f@),
    );
    let mut references: Vec<Reference> = Vec::new();
    let mut i: usize = 0;
    while i < files.len()
        invariant
            i <= files.len(),
            references.len() == i,
            all == file_references(index as nat, files@.map_values(|f: XadesDataFile<'_>| f@)),
            forall|j: int| 0 <= j < i ==> (#[trigger] references[j])@ == all[j],
        decreases files.len() - i,
    {
        let id = write_file_reference_id(index, i);
        let reference = make_reference(id, None, files[i].uri.to_owned(), files[i].content);
        references.push(reference);
        i += 1;
    }
    assert(references@.map_values(|r: Reference| r@) =~= all);
    references
}

fn write_namespaces() -> (r: String)
    ensures
        r@ == namespaces(),
{
    let mut r = write_attribute("xmlns:asic", "http://uri.etsi.org/02918/v1.2.1#");
    let ds = write_attribute("xmlns:ds", "http://www.w3.org/2000/09/xmldsig#");
    let xades = write_attribute("xmlns:xades", "http://uri.etsi.org/01903/v1.3.2#");
    r.append(ds.as_str());
    r.append(xades.as_str());
    r
}

/// Writes an element without attributes.
fn write_plain(tag: &str, content: &str) -> (r: String)
    ensures
        r@ == xml::element(tag@, seq![], content@),
{
    let none = String::new();
    write_element(tag, none.as_str(), content)
}

fn write_place(place: &Option<XadesProductionPlace<'_>>) -> (r: String)
    ensures
        r@ == place_element(
            match *place {
                Some(p) => Some(p@),
                None => None,
            },
        ),
{
    match place {
        None => String::new(),
        Some(p) => {
            let mut content = write_optional_text_element("xades:City", p.city);
            let state = write_optional_text_element("xades:StateOrProvince", p.state_or_province);
            let postal = write_optional_text_element("xades:PostalCode", p.postal_code);
            let country = write_optional_text_element("xades:CountryName", p.country_name);
            content.append(state.as_str());
            content.append(postal.as_str());
            content.append(country.as_str());
            write_plain("xades:SignatureProductionPlace", content.as_str())
        },
    }
}

fn write_roles(roles: &[&str]) -> (r: String)
    ensures
        r@ == roles_element(roles@.map_values(|r: &str| r@)),
{
    let ghost all = roles@.map_values(|r: &str| r@);
    if roles.is_empty() {
        return String::new();
    }
    let mut content = String::new();
    let mut i: usize = 0;
    while i < roles.len()
        invariant
            i <= roles.len(),
            all == roles@.map_values(|r: &str| r@),
            content@ == role_elements(all.take(i as int)),
        decreases roles.len() - i,
    {
        let one = write_text_element("xades:ClaimedRole", roles[i]);
        content.append(one.as_str());
        proof {
            assert(all.take(i + 1).drop_last() =~= all.take(i as int));
        }
        i += 1;
    }
    assert(all.take(i as int) =~= all);
    let claimed = write_plain("xades:ClaimedRoles", content.as_str());
    write_plain("xades:SignerRole", claimed.as_str())
}

fn write_certificate(certificate_der: &[u8], issuer: &str, serial: &str) -> (r: String)
    ensures
        r@ == certificate_element(certificate_der@, issuer@, serial@),
{
    let digest_value = write_digest(certificate_der);
    let mut digest_content = write_algorithm_element(
        "ds:DigestMethod",
        "http://www.w3.org/2001/04/xmlenc#sha256",
    );
    let value = write_text_element("ds:DigestValue", digest_value.as_str());
    digest_content.append(value.as_str());
    let mut cert_content = write_plain("xades:CertDigest", digest_content.as_str());
    let mut name_content = write_text_element("ds:X509IssuerName", issuer);
    let number = write_text_element("ds:X509SerialNumber", serial);
    name_content.append(number.as_str());
    let name = write_plain("xades:IssuerSerial", name_content.as_str());
    cert_content.append(name.as_str());
    let cert = write_plain("xades:Cert", cert_content.as_str());
    write_plain("xades:SigningCertificate", cert.as_str())
}

fn write_formats(index: usize, files: &[XadesDataFile<'_>]) -> (r: String)
    ensures
        r@ == format_elements(index as nat, files@.map_values(|f: XadesDataFile<'_>| f@)),
{
    let ghost all = files@.map_values(|f: XadesDataFile<'_>| f@);
    let mut content = String::new();
    let mut i: usize = 0;
    while i < files.len()
        invariant
            i <= files.len(),
            all == files@.map_values(|f: XadesDataFile<'_>| f@),
            content@ == format_elements(index as nat, all.take(i as int)),
        decreases files.len() - i,
    {
        let id = write_file_reference_id(index, i);
        let target = concat2("#", id.as_str());
        let attributes = write_attribute("ObjectReference", target.as_str());
        let mime_type = write_text_element("xades:MimeType", files[i].mime_type);
        let one = write_element("xades:DataObjectFormat", attributes.as_str(), mime_type.as_str());
        content.append(one.as_str());
        proof {
            assert(all.take(i + 1).drop_last() =~= all.take(i as int));
            assert(all.take(i + 1).last() == files[i as int]@);
        }
        i += 1;
    }
    assert(all.take(i as int) =~= all);
    content
}

fn write_signed_properties(input: &XadesSignatureInputs<'_>, certificate: &Certificate) -> (r:
    String)
    ensures
        r@ == signed_properties_element(input@, certificate@),
        time::reads_back(
            time::rfc3339_text(input@.signing_time.0, input@.signing_time.1),
            input@.signing_time.0,
            input@.signing_time.1,
        ),
{
    let time_text = input.signing_time.to_rfc3339();
    let mut signature_content = write_text_element("xades:SigningTime", time_text.as_str());
    let cert = write_certificate(
        input.certificate_der,
        certificate.fields.issuer.as_str(),
        certificate.fields.serial.as_str(),
    );
    signature_content.append(cert.as_str());
    let place = write_place(&input.production_place);
    signature_content.append(place.as_str());
    let roles = write_roles(input.claimed_roles);
    signature_content.append(roles.as_str());
    let mut content = write_plain("xades:SignedSignatureProperties", signature_content.as_str());
    let formats = write_formats(input.index, input.data_files);
    let about_data = write_plain("xades:SignedDataObjectProperties", formats.as_str());
    content.append(about_data.as_str());
    let mut attributes = write_namespaces();
    let properties_id = write_signed_properties_id(input.index);
    let id = write_attribute("Id", properties_id.as_str());
    attributes.append(id.as_str());
    write_element("xades:SignedProperties", attributes.as_str(), content.as_str())
}

fn make_signed_info(input: &XadesSignatureInputs<'_>, canonical_properties: &[u8]) -> (r: SignedInfo)
    ensures
        r@ == signed_info_of(input@, canonical_properties@),
{
    let mut references = make_file_references(input.index, input.data_files);
    let id = write_signature_id(input.index);
    let properties_id = write_signed_properties_id(input.index);
    let reference = make_reference(
        concat2(id.as_str(), "-SignedPropertiesRef"),
        Some("http://uri.etsi.org/01903#SignedProperties".to_owned()),
        concat2("#", properties_id.as_str()),
        canonical_properties,
    );
    let ghost before = references@.map_values(|r: Reference| r@);
    references.push(reference);
    assert(references@.map_values(|r: Reference| r@) =~= before.push(reference@));
    SignedInfo {
        xmlns_asic: Some("http://uri.etsi.org/02918/v1.2.1#".to_owned()),
        xmlns_ds: Some("http://www.w3.org/2000/09/xmldsig#".to_owned()),
        xmlns_xades: Some("http://uri.etsi.org/01903/v1.3.2#".to_owned()),
        canonicalization_method: CanonicalizationMethod {
            algorithm: "http://www.w3.org/TR/2001/REC-xml-c14n-20010315".to_owned(),
        },
        signature_method: SignatureMethod {
            algorithm: input.signer.signature_method_uri().to_owned(),
        },
        references,
    }
}

/// Builds a basic signature up to the point of signing.
pub fn prepare_signature(input: &XadesSignatureInputs<'_>) -> (r: Result<
    PreparedSignature,
    SignatureError,
>)
    ensures
        prepared_view(r) == prepared(input@),
        r is Ok ==> time::reads_back(
            time::rfc3339_text(input@.signing_time.0, input@.signing_time.1),
            input@.signing_time.0,
            input@.signing_time.1,
        ),
{
    proof {
        reveal(prepared);
    }
    let certificate = match parse_certificate(input.certificate_der) {
        Ok(certificate) => certificate,
        Err(e) => return Err(
            SignatureError::GeneralError(
                concat2("failed to parse certificate DER: ", e.as_str()),
            ),
        ),
    };
    let signed_properties = write_signed_properties(input, &certificate);
    let canonical_properties = match canonicalize_document(signed_properties.as_str().as_bytes()) {
        Ok(canonical) => canonical,
        Err(e) => return Err(SignatureError::CanonicalizationError(e)),
    };
    let signed_info = make_signed_info(input, canonical_properties.as_slice());
    let signed_info_xml = signed_info.to_xml();
    let canonical_info = match canonicalize_document(signed_info_xml.as_str().as_bytes()) {
        Ok(canonical) => canonical,
        Err(e) => return Err(SignatureError::CanonicalizationError(e)),
    };
    Ok(PreparedSignature { signed_properties, signed_info, canonical_info })
}

fn write_signature_value(id: &str, value: &str) -> (r: String)
    ensures
        r@ == signature_value_element(id@, value@),
{
    let mut r = "<ds:SignatureValue xmlns:asic=\"http://uri.etsi.org/02918/v1.2.1#\" xmlns:ds=\"http://www.w3.org/2000/09/xmldsig#\" xmlns:xades=\"http://uri.etsi.org/01903/v1.3.2#\" Id=\"".to_owned();
    r.append(id);
    r.append("\">");
    let end = concat2(value, "</ds:SignatureValue>");
    r.append(end.as_str());
    r
}

/// The canonical form of a `ds:SignatureValue` element with the given id and Base64 text.
fn build_canonical_signature_value(id: &str, base64_value: &str) -> (r: Result<
    Vec<u8>,
    SignatureError,
>)
    ensures
        error::bytes_view(r) == (match document::canonical_document(
            utf8(signature_value_element(id@, base64_value@)),
        ) {
            Ok(canonical) => Ok::<Seq<u8>, ErrorView>(canonical),
            Err(e) => Err::<Seq<u8>, ErrorView>(ErrorView::CanonicalizationError(e)),
        }),
{
    let raw = write_signature_value(id, base64_value);
    match canonicalize_document(raw.as_str().as_bytes()) {
        Ok(canonical) => Ok(canonical),
        Err(e) => Err(SignatureError::CanonicalizationError(e)),
    }
}

fn write_signature(
    input: &XadesSignatureInputs<'_>,
    signed_info: &SignedInfo,
    signature_text: &str,
    properties: &str,
    Ghost(signature): Ghost<Seq<u8>>,
) -> (r: String)
    requires
        signature_text@ == crypto::base64_text(signature),
    ensures
        r@ == signature_document(input@, signed_info@, signature, properties@),
        crypto::decodes_to(crypto::base64_text(input@.certificate), input@.certificate),
{
    let id = write_signature_id(input.index);
    let value_id = write_signature_value_id(input.index);
    let value_attributes = write_attribute("Id", value_id.as_str());
    let value_content = escape_text(signature_text);
    let value = write_element(
        "ds:SignatureValue",
        value_attributes.as_str(),
        value_content.as_str(),
    );
    let certificate_text = base64_encode(input.certificate_der);
    let x509 = write_text_element("ds:X509Certificate", certificate_text.as_str());
    let data = write_plain("ds:X509Data", x509.as_str());
    let key = write_plain("ds:KeyInfo", data.as_str());
    let target = concat2("#", id.as_str());
    let target_attribute = write_attribute("Target", target.as_str());
    let qualifying = write_element(
        "xades:QualifyingProperties",
        target_attribute.as_str(),
        properties,
    );
    let object = write_plain("ds:Object", qualifying.as_str());
    let mut content = signed_info.to_xml();
    content.append(value.as_str());
    content.append(key.as_str());
    content.append(object.as_str());
    let attributes = write_attribute("Id", id.as_str());
    let signature_xml = write_element("ds:Signature", attributes.as_str(), content.as_str());
    let names = write_namespaces();
    let body = write_element("asic:XAdESSignatures", names.as_str(), signature_xml.as_str());
    concat2("<?xml version=\"1.0\" encoding=\"UTF-8\"?>", body.as_str())
}

/// Puts a signature value into a prepared signature.
pub fn finish_signature(
    input: &XadesSignatureInputs<'_>,
    prepared: &PreparedSignature,
    signature: &[u8],
) -> (r: Result<XadesBesResult, SignatureError>)
    ensures
        bes_view(r) == finished(input@, prepared@, signature@),
        crypto::decodes_to(crypto::base64_text(input@.certificate), input@.certificate),
        crypto::decodes_to(crypto::base64_text(signature@), signature@),
{
    proof {
        reveal(finished);
    }
    let signature_text = base64_encode(signature);
    let xml = write_signature(
        input,
        &prepared.signed_info,
        signature_text.as_str(),
        prepared.signed_properties.as_str(),
        Ghost(signature@),
    );
    let value_id = write_signature_value_id(input.index);
    match build_canonical_signature_value(value_id.as_str(), signature_text.as_str()) {
        Ok(signature_value_canonical) => Ok(
            XadesBesResult {
                xml,
                signature_id: write_signature_id(input.index),
                signature_value_canonical,
            },
        ),
        Err(e) => Err(e),
    }
}

/// Builds a basic signature (XAdES-BES).
pub fn build_xades_basic_signature(input: &XadesSignatureInputs<'_>) -> (r: Result<
    XadesBesResult,
    SignatureError,
>)
    ensures
        match prepared(input@) {
            Err(e) => bes_view(r) == Err::<BesView, ErrorView>(e),
            Ok(p) => may_build(input.signer, input@, p, bes_view(r)),
        },
{
    let p = match prepare_signature(input) {
        Ok(p) => p,
        Err(e) => return Err(e),
    };
    let signed = input.signer.sign(p.canonical_info.as_slice());
    let ghost outcome = error::bytes_view(signed);
    let r = match signed {
        Ok(signature) => finish_signature(input, &p, signature.as_slice()),
        Err(e) => Err(e),
    };
    assert(input.signer.may_sign(p@.canonical_info, outcome));
    assert(may_build(input.signer, input@, p@, bes_view(r)));
    r
}

/// The `xades:SignatureTimeStamp` element for a timestamp token.
pub open spec fn timestamp_element(id: Seq<char>, token: Seq<u8>) -> Seq<char> {
    xml::element(
        "xades:SignatureTimeStamp"@,
        xml::attribute("Id"@, id + "-T0"@),
        xml::algorithm_element(
            "ds:CanonicalizationMethod"@,
            "http://www.w3.org/TR/2001/REC-xml-c14n-20010315"@,
        ) + xml::text_element("xades:EncapsulatedTimeStamp"@, crypto::base64_text(token)),
    )
}

/// The `xades:UnsignedProperties` element around unsigned signature properties.
pub open spec fn unsigned_properties_element(content: Seq<char>) -> Seq<char> {
    xml::element(
        "xades:UnsignedProperties"@,
        seq![],
        xml::element("xades:UnsignedSignatureProperties"@, seq![], content),
    )
}

/// The `xades:CertificateValues` element for the issuer's certificate.
pub open spec fn certificate_values_element(id: Seq<char>, issuer: Seq<u8>) -> Seq<char> {
    xml::element(
        "xades:CertificateValues"@,
        seq![],
        xml::element(
            "xades:EncapsulatedX509Certificate"@,
            xml::attribute("Id"@, id + "-CA-CERT"@),
            xml::escaped_text(crypto::base64_text(issuer)),
        ),
    )
}

/// The `xades:RevocationValues` element for an OCSP response. Its id is the signature's with the
/// first `S` turned into `N`.
pub open spec fn revocation_values_element(id: Seq<char>, response: Seq<u8>) -> Seq<char> {
    xml::element(
        "xades:RevocationValues"@,
        seq![],
        xml::element(
            "xades:OCSPValues"@,
            seq![],
            xml::element(
                "xades:EncapsulatedOCSPValue"@,
                xml::attribute("Id"@, text::with_first_replaced(id, 'S', 'N')),
                xml::escaped_text(crypto::base64_text(response)),
            ),
        ),
    )
}

/// A basic signature with a timestamp put in, right before the end of its qualifying properties, or
/// the error where these are missing.
pub open spec fn upgraded_to_t(document: Seq<char>, id: Seq<char>, token: Seq<u8>) -> Result<
    Seq<char>,
    ErrorView,
> {
    match text::last_occurrence(document, xml::end_tag("xades:QualifyingProperties"@)) {
        None => Err(
            ErrorView::XmlStructureError("BES XML missing </xades:QualifyingProperties>"@),
        ),
        Some(at) => Ok(
            text::with_insert(
                document,
                at,
                unsigned_properties_element(timestamp_element(id, token)),
            ),
        ),
    }
}

/// A signature with the issuer's certificate and an OCSP response put in, right before the end of
/// its unsigned signature properties, or the error where these are missing.
pub open spec fn upgraded_to_lt(
    document: Seq<char>,
    id: Seq<char>,
    issuer: Seq<u8>,
    response: Seq<u8>,
) -> Result<Seq<char>, ErrorView> {
    match text::last_occurrence(document, xml::end_tag("xades:UnsignedSignatureProperties"@)) {
        None => Err(
            ErrorView::XmlStructureError(
                "T-level XML missing </xades:UnsignedSignatureProperties>"@,
            ),
        ),
        Some(at) => Ok(
            text::with_insert(
                document,
                at,
                certificate_values_element(id, issuer) + revocation_values_element(id, response),
            ),
        ),
    }
}

/// Puts a timestamp token into a basic signature (XAdES-T).
pub fn upgrade_xades_bes_to_t(bes: &XadesBesResult, timestamp_token_der: &[u8]) -> (r: Result<
    String,
    SignatureError,
>)
    ensures
        error::text_view(r) == upgraded_to_t(bes.xml@, bes.signature_id@, timestamp_token_der@),
{
    let stamp_id = concat2(bes.signature_id.as_str(), "-T0");
    let attributes = write_attribute("Id", stamp_id.as_str());
    let mut stamp_content = write_algorithm_element(
        "ds:CanonicalizationMethod",
        "http://www.w3.org/TR/2001/REC-xml-c14n-20010315",
    );
    let token_text = base64_encode(timestamp_token_der);
    let token = write_text_element("xades:EncapsulatedTimeStamp", token_text.as_str());
    stamp_content.append(token.as_str());
    let stamp = write_element(
        "xades:SignatureTimeStamp",
        attributes.as_str(),
        stamp_content.as_str(),
    );
    let properties = write_plain("xades:UnsignedSignatureProperties", stamp.as_str());
    let block = write_plain("xades:UnsignedProperties", properties.as_str());
    let end = concat3("</", "xades:QualifyingProperties", ">");
    match insert_before_last(bes.xml.as_str(), end.as_str(), block.as_str()) {
        Some(xml) => Ok(xml),
        None => Err(
            SignatureError::XmlStructureError(
                "BES XML missing </xades:QualifyingProperties>".to_owned(),
            ),
        ),
    }
}

/// Puts the issuer's certificate and an OCSP response into a signature with a timestamp
/// (XAdES-LT).
pub fn upgrade_xades_t_to_lt(
    t_level_xml: &str,
    signature_id: &str,
    issuer_cert_der: &[u8],
    basic_ocsp_response_der: &[u8],
) -> (r: Result<String, SignatureError>)
    ensures
        error::text_view(r) == upgraded_to_lt(
            t_level_xml@,
            signature_id@,
            issuer_cert_der@,
            basic_ocsp_response_der@,
        ),
{
    let cert_id = concat2(signature_id, "-CA-CERT");
    let cert_attributes = write_attribute("Id", cert_id.as_str());
    let cert_text = base64_encode(issuer_cert_der);
    let cert_content = escape_text(cert_text.as_str());
    let cert = write_element(
        "xades:EncapsulatedX509Certificate",
        cert_attributes.as_str(),
        cert_content.as_str(),
    );
    let mut block = write_plain("xades:CertificateValues", cert.as_str());
    let ocsp_id = replace_first_char(signature_id, 'S', 'N');
    let ocsp_attributes = write_attribute("Id", ocsp_id.as_str());
    let ocsp_text = base64_encode(basic_ocsp_response_der);
    let ocsp_content = escape_text(ocsp_text.as_str());
    let ocsp = write_element(
        "xades:EncapsulatedOCSPValue",
        ocsp_attributes.as_str(),
        ocsp_content.as_str(),
    );
    let values = write_plain("xades:OCSPValues", ocsp.as_str());
    let revocation = write_plain("xades:RevocationValues", values.as_str());
    block.append(revocation.as_str());
    let end = concat3("</", "xades:UnsignedSignatureProperties", ">");
    match insert_before_last(t_level_xml, end.as_str(), block.as_str()) {
        Some(xml) => Ok(xml),
        None => Err(
            SignatureError::XmlStructureError(
                "T-level XML missing </xades:UnsignedSignatureProperties>".to_owned(),
            ),
        ),
    }
}

/// The content of the `ds:Signature` element up to its `ds:Object`.
spec fn signature_start(v: InputsView, signed_info: SignedInfoParts, signature: Seq<u8>) -> Seq<
    char,
> {
    let value = xml::element(
        "ds:SignatureValue"@,
        xml::attribute("Id"@, signature_value_id(v.index)),
        xml::escaped_text(crypto::base64_text(signature)),
    );
    let key = xml::element(
        "ds:KeyInfo"@,
        seq![],
        xml::element(
            "ds:X509Data"@,
            seq![],
            xml::text_element("ds:X509Certificate"@, crypto::base64_text(v.certificate)),
        ),
    );
    super::signed_info_element(signed_info) + value + key
}

/// What comes before the qualifying properties in a signature document.
spec fn document_head(v: InputsView, signed_info: SignedInfoParts, signature: Seq<u8>) -> Seq<char> {
    nested_head(
        xml::start_tag("asic:XAdESSignatures"@, namespaces()),
        xml::start_tag("ds:Signature"@, xml::attribute("Id"@, signature_id(v.index))),
        signature_start(v, signed_info, signature),
        xml::start_tag("ds:Object"@, seq![]),
        xml::start_tag(
            "xades:QualifyingProperties"@,
            xml::attribute("Target"@, "#"@ + signature_id(v.index)),
        ),
    )
}

spec fn nested_head(
    outer: Seq<char>,
    middle: Seq<char>,
    first: Seq<char>,
    inner: Seq<char>,
    innermost: Seq<char>,
) -> Seq<char> {
    "<?xml version=\"1.0\" encoding=\"UTF-8\"?>"@ + (outer + (middle + (first + (inner
        + innermost))))
}

/// The names of the elements that end after the qualifying properties.
spec fn outer_tags() -> Seq<Seq<char>> {
    seq!["ds:Object"@, "ds:Signature"@, "asic:XAdESSignatures"@]
}

proof fn lemma_three_end_tags(first: Seq<char>, second: Seq<char>, third: Seq<char>)
    ensures
        xml::end_tags(seq![first, second, third]) == xml::end_tag(first) + xml::end_tag(second)
            + xml::end_tag(third),
{
    let tags = seq![first, second, third];
    reveal_with_fuel(xml::end_tags, 4);
    assert(tags.skip(1) =~= seq![second, third]);
    assert(tags.skip(1).skip(1) =~= seq![third]);
    assert(tags.skip(1).skip(1).skip(1) =~= Seq::<Seq<char>>::empty());
    assert(xml::end_tags(tags) =~= xml::end_tag(first) + xml::end_tag(second) + xml::end_tag(
        third,
    ));
}

proof fn lemma_nested_shape(
    outer: (Seq<char>, Seq<char>),
    middle: (Seq<char>, Seq<char>),
    first: Seq<char>,
    inner: (Seq<char>, Seq<char>),
    innermost: (Seq<char>, Seq<char>),
    content: Seq<char>,
)
    requires
        content.len() > 0,
    ensures
        "<?xml version=\"1.0\" encoding=\"UTF-8\"?>"@ + xml::element(
            outer.0,
            outer.1,
            xml::element(
                middle.0,
                middle.1,
                first + xml::element(
                    inner.0,
                    inner.1,
                    xml::element(innermost.0, innermost.1, content),
                ),
            ),
        ) == nested_head(
            xml::start_tag(outer.0, outer.1),
            xml::start_tag(middle.0, middle.1),
            first,
            xml::start_tag(inner.0, inner.1),
            xml::start_tag(innermost.0, innermost.1),
        ) + content + (xml::end_tag(innermost.0) + (xml::end_tag(inner.0) + xml::end_tag(middle.0)
            + xml::end_tag(outer.0))),
{
    let none: Seq<char> = seq![];
    let declaration = "<?xml version=\"1.0\" encoding=\"UTF-8\"?>"@;
    let q_start = xml::start_tag(innermost.0, innermost.1);
    let q_end = xml::end_tag(innermost.0);
    let q = xml::element(innermost.0, innermost.1, content);
    assert(q == q_start + content + q_end) by {
        assert(none + content + none =~= content);
        xml::lemma_element_around(innermost.0, innermost.1, none, content, none);
        assert(q_start + none =~= q_start);
        assert(none + q_end =~= q_end);
    }
    let o_start = xml::start_tag(inner.0, inner.1) + q_start;
    let o_end = q_end + xml::end_tag(inner.0);
    let o = xml::element(inner.0, inner.1, q);
    assert(o == o_start + content + o_end) by {
        xml::lemma_element_around(inner.0, inner.1, q_start, content, q_end);
    }
    let s_start = xml::start_tag(middle.0, middle.1) + (first + o_start);
    let s_end = o_end + xml::end_tag(middle.0);
    let s = xml::element(middle.0, middle.1, first + o);
    assert(s == s_start + content + s_end) by {
        assert(first + (o_start + content + o_end) =~= (first + o_start) + content + o_end);
        xml::lemma_element_around(middle.0, middle.1, first + o_start, content, o_end);
    }
    let a_start = xml::start_tag(outer.0, outer.1) + s_start;
    let a_end = s_end + xml::end_tag(outer.0);
    let a = xml::element(outer.0, outer.1, s);
    assert(a == a_start + content + a_end) by {
        xml::lemma_element_around(outer.0, outer.1, s_start, content, s_end);
    }
    assert(declaration + (a_start + content + a_end) =~= (declaration + a_start) + content + a_end);
    assert(a_end =~= q_end + (xml::end_tag(inner.0) + xml::end_tag(middle.0) + xml::end_tag(
        outer.0,
    )));
}

proof fn lemma_document_shape(
    v: InputsView,
    signed_info: SignedInfoParts,
    signature: Seq<u8>,
    properties: Seq<char>,
)
    requires
        properties.len() > 0,
    ensures
        signature_document(v, signed_info, signature, properties) == document_head(
            v,
            signed_info,
            signature,
        ) + properties + (xml::end_tag("xades:QualifyingProperties"@) + xml::end_tags(outer_tags())),
{
    lemma_three_end_tags("ds:Object"@, "ds:Signature"@, "asic:XAdESSignatures"@);
    lemma_nested_shape(
        ("asic:XAdESSignatures"@, namespaces()),
        ("ds:Signature"@, xml::attribute("Id"@, signature_id(v.index))),
        signature_start(v, signed_info, signature),
        ("ds:Object"@, seq![]),
        (
            "xades:QualifyingProperties"@,
            xml::attribute("Target"@, "#"@ + signature_id(v.index)),
        ),
        properties,
    );
}

#[verifier::spinoff_prover]
proof fn lemma_tags_are_plain()
    ensures
        xml::is_plain("ds:Object"@) && "ds:Object"@.len() == 9,
        xml::is_plain("ds:Signature"@) && "ds:Signature"@.len() == 12,
        xml::is_plain("asic:XAdESSignatures"@) && "asic:XAdESSignatures"@.len() == 20,
        xml::is_plain("xades:UnsignedProperties"@) && "xades:UnsignedProperties"@.len() == 24,
        xml::is_plain("xades:QualifyingProperties"@) && "xades:QualifyingProperties"@.len() == 26,
        xml::is_plain("xades:UnsignedSignatureProperties"@) && "xades:UnsignedSignatureProperties"@.len() == 33,
{
    assert(xml::is_plain("ds:Object"@) && "ds:Object"@.len() == 9) by {
        reveal_strlit("ds:Object");
        reveal_with_fuel(xml::scan_misses, 11);
        xml::lemma_plain("ds:Object"@);
    }
    assert(xml::is_plain("ds:Signature"@) && "ds:Signature"@.len() == 12) by {
        reveal_strlit("ds:Signature");
        reveal_with_fuel(xml::scan_misses, 14);
        xml::lemma_plain("ds:Signature"@);
    }
    assert(xml::is_plain("asic:XAdESSignatures"@) && "asic:XAdESSignatures"@.len() == 20) by {
        reveal_strlit("asic:XAdESSignatures");
        reveal_with_fuel(xml::scan_misses, 22);
        xml::lemma_plain("asic:XAdESSignatures"@);
    }
    assert(xml::is_plain("xades:UnsignedProperties"@) && "xades:UnsignedProperties"@.len() == 24) by {
        reveal_strlit("xades:UnsignedProperties");
        reveal_with_fuel(xml::scan_misses, 26);
        xml::lemma_plain("xades:UnsignedProperties"@);
    }
    assert(xml::is_plain("xades:QualifyingProperties"@) && "xades:QualifyingProperties"@.len() == 26) by {
        reveal_strlit("xades:QualifyingProperties");
        reveal_with_fuel(xml::scan_misses, 28);
        xml::lemma_plain("xades:QualifyingProperties"@);
    }
    assert(xml::is_plain("xades:UnsignedSignatureProperties"@) && "xades:UnsignedSignatureProperties"@.len() == 33) by {
        reveal_strlit("xades:UnsignedSignatureProperties");
        reveal_with_fuel(xml::scan_misses, 35);
        xml::lemma_plain("xades:UnsignedSignatureProperties"@);
    }
}

/// A timestamp lands inside the qualifying properties, right behind what was there; the rest of the
/// signature document stays as it was.
pub proof fn law_timestamp_joins_the_properties(
    v: InputsView,
    signed_info: SignedInfoParts,
    signature: Seq<u8>,
    properties: Seq<char>,
    token: Seq<u8>,
)
    requires
        properties.len() > 0,
    ensures
        upgraded_to_t(
            signature_document(v, signed_info, signature, properties),
            signature_id(v.index),
            token,
        ) == Ok::<Seq<char>, ErrorView>(
            signature_document(
                v,
                signed_info,
                signature,
                properties + unsigned_properties_element(
                    timestamp_element(signature_id(v.index), token),
                ),
            ),
        ),
{
    let q = "xades:QualifyingProperties"@;
    let head = document_head(v, signed_info, signature);
    let tail = xml::end_tag(q) + xml::end_tags(outer_tags());
    let block = unsigned_properties_element(timestamp_element(signature_id(v.index), token));
    let document = signature_document(v, signed_info, signature, properties);
    lemma_document_shape(v, signed_info, signature, properties);
    lemma_document_shape(v, signed_info, signature, properties + block);
    lemma_tags_are_plain();
    xml::lemma_last_end_tag(head + properties, q, outer_tags());
    let at = (head + properties).len() as int;
    assert(text::last_occurrence(document, xml::end_tag("xades:QualifyingProperties"@)) == Some(at));
    lemma_insert_between(head + properties, tail, block);
    assert(head + properties + block =~= head + (properties + block));
}

proof fn lemma_insert_between(before: Seq<char>, after: Seq<char>, insert: Seq<char>)
    ensures
        text::with_insert(before + after, before.len() as int, insert) == before + insert + after,
{
    assert((before + after).take(before.len() as int) =~= before);
    assert((before + after).skip(before.len() as int) =~= after);
}

/// The issuer's certificate and the OCSP response land behind the timestamp, inside the same
/// unsigned signature properties; the rest of the signature document stays as it was.
pub proof fn law_revocation_data_follow_the_timestamp(
    v: InputsView,
    signed_info: SignedInfoParts,
    signature: Seq<u8>,
    properties: Seq<char>,
    stamp: Seq<char>,
    issuer: Seq<u8>,
    response: Seq<u8>,
)
    requires
        stamp.len() > 0,
    ensures
        upgraded_to_lt(
            signature_document(
                v,
                signed_info,
                signature,
                properties + unsigned_properties_element(stamp),
            ),
            signature_id(v.index),
            issuer,
            response,
        ) == Ok::<Seq<char>, ErrorView>(
            signature_document(
                v,
                signed_info,
                signature,
                properties + unsigned_properties_element(
                    stamp + (certificate_values_element(signature_id(v.index), issuer)
                        + revocation_values_element(signature_id(v.index), response)),
                ),
            ),
        ),
{
    let u = "xades:UnsignedSignatureProperties"@;
    let head = document_head(v, signed_info, signature);
    let block = certificate_values_element(signature_id(v.index), issuer)
        + revocation_values_element(signature_id(v.index), response);
    let whole = signature_document(
        v,
        signed_info,
        signature,
        properties + unsigned_properties_element(stamp),
    );
    let none: Seq<char> = seq![];
    let starts = xml::start_tag("xades:UnsignedProperties"@, none) + xml::start_tag(u, none);
    lemma_unsigned_shape(stamp);
    lemma_unsigned_shape(stamp + block);
    lemma_document_shape(
        v,
        signed_info,
        signature,
        properties + unsigned_properties_element(stamp),
    );
    lemma_document_shape(
        v,
        signed_info,
        signature,
        properties + unsigned_properties_element(stamp + block),
    );
    let tags = seq![
        "xades:UnsignedProperties"@,
        "xades:QualifyingProperties"@,
        "ds:Object"@,
        "ds:Signature"@,
        "asic:XAdESSignatures"@,
    ];
    let tail = xml::end_tag(u) + xml::end_tags(tags);
    lemma_five_end_tags();
    lemma_tags_are_plain();
    let before = head + (properties + starts) + stamp;
    let ends = xml::end_tag(u) + xml::end_tag("xades:UnsignedProperties"@);
    let rest = xml::end_tag("xades:QualifyingProperties"@) + xml::end_tags(outer_tags());
    assert(ends + rest =~= tail);
    lemma_regroup(head, properties, starts, stamp, ends, rest);
    lemma_regroup(head, properties, starts, stamp + block, ends, rest);
    assert(whole == before + tail);
    xml::lemma_last_end_tag(before, u, tags);
    lemma_insert_between(before, tail, block);
    assert(before + block =~= head + (properties + starts) + (stamp + block));
}

proof fn lemma_regroup(
    head: Seq<char>,
    properties: Seq<char>,
    starts: Seq<char>,
    content: Seq<char>,
    ends: Seq<char>,
    rest: Seq<char>,
)
    ensures
        head + (properties + (starts + content + ends)) + rest == head + (properties + starts)
            + content + (ends + rest),
{
    assert(head + (properties + (starts + content + ends)) + rest =~= head + (properties + starts)
        + content + (ends + rest));
}

proof fn lemma_unsigned_shape(content: Seq<char>)
    requires
        content.len() > 0,
    ensures
        unsigned_properties_element(content) == (xml::start_tag(
            "xades:UnsignedProperties"@,
            seq![],
        ) + xml::start_tag("xades:UnsignedSignatureProperties"@, seq![])) + content + (xml::end_tag(
            "xades:UnsignedSignatureProperties"@,
        ) + xml::end_tag("xades:UnsignedProperties"@)),
{
    let none: Seq<char> = seq![];
    let u = "xades:UnsignedSignatureProperties"@;
    let start = xml::start_tag(u, none);
    let end = xml::end_tag(u);
    assert(none + content + none =~= content);
    xml::lemma_element_around(u, none, none, content, none);
    assert(start + none =~= start);
    assert(none + end =~= end);
    xml::lemma_element_around("xades:UnsignedProperties"@, none, start, content, end);
}

proof fn lemma_five_end_tags()
    ensures
        xml::end_tags(
            seq![
                "xades:UnsignedProperties"@,
                "xades:QualifyingProperties"@,
                "ds:Object"@,
                "ds:Signature"@,
                "asic:XAdESSignatures"@,
            ],
        ) == xml::end_tag("xades:UnsignedProperties"@) + (xml::end_tag(
            "xades:QualifyingProperties"@,
        ) + xml::end_tags(outer_tags())),
{
    let tags = seq![
        "xades:UnsignedProperties"@,
        "xades:QualifyingProperties"@,
        "ds:Object"@,
        "ds:Signature"@,
        "asic:XAdESSignatures"@,
    ];
    reveal_with_fuel(xml::end_tags, 3);
    assert(tags.skip(1).skip(1) =~= outer_tags());
}

/// Both upgrades of a basic signature succeed, and only add to it: the signed information, the
/// signature value, the certificate and the signed properties stay, and the unsigned properties
/// behind them hold the timestamp, the issuer's certificate and the OCSP response, in this order.
pub proof fn law_upgrades_only_add_unsigned_properties(
    v: InputsView,
    signed_info: SignedInfoParts,
    signature: Seq<u8>,
    properties: Seq<char>,
    token: Seq<u8>,
    issuer: Seq<u8>,
    response: Seq<u8>,
)
    requires
        properties.len() > 0,
    ensures
        ({
            let id = signature_id(v.index);
            let bes = signature_document(v, signed_info, signature, properties);
            &&& upgraded_to_t(bes, id, token) matches Ok(t)
            &&& upgraded_to_lt(t, id, issuer, response) == Ok::<Seq<char>, ErrorView>(
                signature_document(
                    v,
                    signed_info,
                    signature,
                    properties + unsigned_properties_element(
                        timestamp_element(id, token) + (certificate_values_element(id, issuer)
                            + revocation_values_element(id, response)),
                    ),
                ),
            )
        }),
{
    let id = signature_id(v.index);
    law_timestamp_joins_the_properties(v, signed_info, signature, properties, token);
    xml::law_element_is_not_empty(
        "xades:SignatureTimeStamp"@,
        xml::attribute("Id"@, id + "-T0"@),
        xml::algorithm_element(
            "ds:CanonicalizationMethod"@,
            "http://www.w3.org/TR/2001/REC-xml-c14n-20010315"@,
        ) + xml::text_element("xades:EncapsulatedTimeStamp"@, crypto::base64_text(token)),
    );
    law_revocation_data_follow_the_timestamp(
        v,
        signed_info,
        signature,
        properties,
        timestamp_element(id, token),
        issuer,
        response,
    );
}

/// Every data file is signed: the signed information holds one reference for each file, in their
/// order, with the file's name and digest, then one for the signed properties, and no other.
pub proof fn law_every_file_is_referenced(v: InputsView, canonical_properties: Seq<u8>)
    ensures
        ({
            let references = signed_info_of(v, canonical_properties).references;
            &&& references.len() == v.files.len() + 1
            &&& forall|i: int|
                0 <= i < v.files.len() ==> (#[trigger] references[i]).uri == v.files[i].uri
                    && references[i].digest_value == digest_text(v.files[i].content)
            &&& references.last().uri == "#"@ + signed_properties_id(v.index)
            &&& references.last().digest_value == digest_text(canonical_properties)
        }),
{
}

} // verus!
