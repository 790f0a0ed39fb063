//! What a container's manifest and signature documents say, read from their XML.

use vstd::prelude::*;

verus! {

/// A manifest.
#[derive(Debug)]
pub struct DigiDocManifest {
    pub manifest: FileEntriesManifest,
}

/// The entries of a manifest.
#[derive(Debug)]
pub struct FileEntriesManifest {
    pub file_entries: Vec<FileEntry>,
}

/// An entry of a manifest: a file's path in the archive, and its media type.
#[derive(Debug)]
pub struct FileEntry {
    pub full_path: String,
    pub media_type: String,
}

/// A signature document.
pub struct XAdEsSignatures {
    pub signature: Signature,
    pub xmlns_asic: String,
    pub xmlns_ds: String,
    pub xmlns_xades: String,
}

/// A signature.
pub struct Signature {
    pub signed_info: SignedInfo,
    pub signature_value: SignatureValue,
    pub key_info: KeyInfo,
    pub object: Object,
    pub id: String,
}

/// What a signature says of its key.
pub struct KeyInfo {
    pub x509_data: X509Data,
}

/// The signer's certificate, in Base64.
pub struct X509Data {
    pub x509_certificate: String,
}

/// The object that holds a signature's qualifying properties.
pub struct Object {
    pub qualifying_properties: QualifyingProperties,
}

/// The properties that qualify a signature.
pub struct QualifyingProperties {
    pub signed_properties: SignedProperties,
    pub unsigned_properties: Option<UnsignedProperties>,
    pub target: String,
}

/// The properties that a signature covers.
pub struct SignedProperties {
    pub signed_signature_properties: SignedSignatureProperties,
    pub signed_data_object_properties: SignedDataObjectProperties,
    pub id: String,
}

/// The signed properties of the data: a media type for each data file.
pub struct SignedDataObjectProperties {
    pub data_object_format: Vec<DataObjectFormat>,
}

/// The media type of what a reference names.
pub struct DataObjectFormat {
    pub mime_type: String,
    pub object_reference: String,
}

/// The signed properties of the signature: when it was made, and with which certificate.
pub struct SignedSignatureProperties {
    pub signing_time: String,
    pub signing_certificate: SigningCertificate,
}

/// The certificate that a signature was made with.
pub struct SigningCertificate {
    pub cert: Cert,
}

/// A certificate, by its digest, its issuer and its serial number.
pub struct Cert {
    pub cert_digest: CertDigest,
    pub issuer_serial: IssuerSerial,
}

/// The digest of a certificate.
pub struct CertDigest {
    pub digest_method: Method,
    pub digest_value: String,
}

/// An algorithm, by its URI.
pub struct Method {
    pub algorithm: String,
}

/// The issuer and the serial number of a certificate.
pub struct IssuerSerial {
    pub x509_issuer_name: String,
    pub x509_serial_number: String,
}

/// The properties that a signature does not cover.
pub struct UnsignedProperties {
    pub unsigned_signature_properties: UnsignedSignatureProperties,
}

/// The timestamp, the certificates and the revocation data that were added to a signature.
pub struct UnsignedSignatureProperties {
    pub signature_time_stamp: Option<SignatureTimeStamp>,
    pub certificate_values: Option<CertificateValues>,
    pub revocation_values: Option<RevocationValues>,
}

/// A certificate that was added to a signature.
pub struct CertificateValues {
    pub encapsulated_x509_certificate: SignatureValue,
}

/// A value in Base64, with an identifier.
pub struct SignatureValue {
    pub id: String,
    pub text: String,
}

/// The revocation data that were added to a signature.
pub struct RevocationValues {
    pub ocsp_values: OcspValues,
}

/// An OCSP response.
pub struct OcspValues {
    pub encapsulated_ocsp_value: SignatureValue,
}

/// A timestamp of a signature value.
pub struct SignatureTimeStamp {
    pub canonicalization_method: Method,
    pub encapsulated_time_stamp: String,
    pub id: String,
}

/// What a signature covers.
pub struct SignedInfo {
    pub canonicalization_method: Method,
    pub signature_method: Method,
    pub reference: Vec<Reference>,
}

/// A reference to something that a signature covers.
pub struct Reference {
    pub digest_method: Method,
    pub digest_value: String,
    pub id: String,
    pub uri: String,
    pub reference_type: Option<String>,
}

/// The parts of a signature document that a reader reports.
pub struct SignatureRecord {
    /// The signer's certificate, in Base64.
    pub certificate: Seq<char>,
    /// The signature value, in Base64.
    pub value: Seq<char>,
    pub signing_time: Seq<char>,
    pub signature_method: Seq<char>,
    /// The digest method of each reference.
    pub digest_methods: Seq<Seq<char>>,
}

impl View for XAdEsSignatures {
    type V = SignatureRecord;

    open spec fn view(&self) -> SignatureRecord {
        let s = self.signature;
        let properties = s.object.qualifying_properties.signed_properties;
        SignatureRecord {
            certificate: s.key_info.x509_data.x509_certificate@,
            value: s.signature_value.text@,
            signing_time: properties.signed_signature_properties.signing_time@,
            signature_method: s.signed_info.signature_method.algorithm@,
            digest_methods: s.signed_info.reference@.map_values(
                |r: Reference| r.digest_method.algorithm@,
            ),
        }
    }
}

/// A signature document that was read, or the message of the error, as values.
pub open spec fn record_view(r: Result<XAdEsSignatures, String>) -> Result<
    SignatureRecord,
    Seq<char>,
> {
    match r {
        Ok(signatures) => Ok(signatures@),
        Err(e) => Err(e@),
    }
}

} // verus!
