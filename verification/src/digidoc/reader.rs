//! Reading and validating containers.
//!
//! [`DigiDocReader`] takes what was found in an archive, and reports its data files and its
//! signatures. Each signature is checked under the key of the certificate it carries, against the
//! data files of the container.

use vstd::prelude::*;
use vstd::slice::slice_to_vec;

use super::builder::{self, EntryView};
use super::records::{self, DigiDocManifest, FileEntry, Reference, SignatureRecord, XAdEsSignatures};
use super::DigiDocFile;
use crate::certificate::{
    self, parse_certificate, Certificate, CertificateView, NameAttribute, NameAttributeView,
};
use crate::crypto::{self, base64_decode};
use crate::error::{self, ErrorView, SignatureError};
use crate::text::{self, concat2, concat4, same_text};
use crate::time::{self, Timestamp};
use crate::xmldsig::keys::{self, k256_key_from_sec1, p256_key_from_sec1, rsa_key_from_pkcs1};
use crate::xmldsig::verify::{self, verify_signature, Answer, LocatedView};
use crate::xmldsig::xades::{self, FileView, InputsView, PreparedView};
use crate::xmldsig::{document, PublicKeyType, PublicKeyView, Signer, SigningKeyType};

verus! {

/// Reads the container at a path.
pub struct DigiDocReader<'a> {
    document_path: &'a str,
}

/// A signature of a container.
#[derive(Debug, Clone)]
pub struct DigiDocSignatureInfo {
    /// The signer's certificate in DER.
    pub certificate: Vec<u8>,
    pub signature_value: Vec<u8>,
    /// The whole signature document.
    pub signed_info: String,
    pub signing_time: Timestamp,
    pub signer_info: DigiDocSignerInfo,
    pub signature_algorithm: String,
    pub digest_algorithm: String,
    pub is_valid: bool,
}

/// What a signer's certificate says of them.
#[derive(Debug, Clone)]
pub struct DigiDocSignerInfo {
    pub common_name: String,
    pub serial_number: String,
    pub issuer: String,
    pub subject: String,
    pub not_before: Timestamp,
    pub not_after: Timestamp,
}

/// What validating a container came to.
#[derive(Debug, Clone)]
pub struct DigiDocValidationResult {
    pub is_valid: bool,
    pub signatures: Vec<DigiDocSignatureInfo>,
    pub files: Vec<DigiDocFile>,
    pub validation_errors: Vec<String>,
    pub validation_warnings: Vec<String>,
}

/// A signature document of an archive: its text, and what it says or why it could not be read.
pub struct SignatureDocument {
    pub content: String,
    pub parsed: Result<XAdEsSignatures, String>,
}

/// What was found in an archive.
pub struct ContainerContents {
    /// The content of the file `mimetype`, or why there is none.
    pub mimetype: Result<String, String>,
    pub manifest: DigiDocManifest,
    /// For each entry of the manifest the file's content, or why there is none.
    pub data: Vec<Result<Vec<u8>, String>>,
    pub signatures: Vec<SignatureDocument>,
}

/// A [`DigiDocSignerInfo`] as values.
pub struct SignerView {
    pub common_name: Seq<char>,
    pub serial_number: Seq<char>,
    pub issuer: Seq<char>,
    pub subject: Seq<char>,
    pub not_before: (int, int),
    pub not_after: (int, int),
}

/// A [`DigiDocSignatureInfo`] as values.
pub struct SignatureView {
    pub certificate: Seq<u8>,
    pub signature_value: Seq<u8>,
    pub signed_info: Seq<char>,
    pub signing_time: (int, int),
    pub signer: SignerView,
    pub signature_algorithm: Seq<char>,
    pub digest_algorithm: Seq<char>,
    pub is_valid: bool,
}

/// A [`DigiDocValidationResult`] as values.
pub struct ValidationView {
    pub is_valid: bool,
    pub signatures: Seq<SignatureView>,
    pub files: Seq<FileView>,
    pub errors: Seq<Seq<char>>,
    pub warnings: Seq<Seq<char>>,
}

/// A [`SignatureDocument`] as values.
pub struct DocumentView {
    pub content: Seq<char>,
    pub parsed: Result<SignatureRecord, Seq<char>>,
}

/// An entry of a manifest with what was found at its path, as values.
pub struct FoundView {
    pub path: Seq<char>,
    pub media_type: Seq<char>,
    pub content: Result<Seq<u8>, Seq<char>>,
}

/// [`ContainerContents`] as values.
pub struct ContentsView {
    pub mimetype: Result<Seq<char>, Seq<char>>,
    pub found: Seq<FoundView>,
    pub documents: Seq<DocumentView>,
}

impl View for DigiDocSignerInfo {
    type V = SignerView;

    open spec fn view(&self) -> SignerView {
        SignerView {
            common_name: self.common_name@,
            serial_number: self.serial_number@,
            issuer: self.issuer@,
            subject: self.subject@,
            not_before: self.not_before@,
            not_after: self.not_after@,
        }
    }
}

impl View for DigiDocSignatureInfo {
    type V = SignatureView;

    open spec fn view(&self) -> SignatureView {
        SignatureView {
            certificate: self.certificate@,
            signature_value: self.signature_value@,
            signed_info: self.signed_info@,
            signing_time: self.signing_time@,
            signer: self.signer_info@,
            signature_algorithm: self.signature_algorithm@,
            digest_algorithm: self.digest_algorithm@,
            is_valid: self.is_valid,
        }
    }
}

impl View for DigiDocValidationResult {
    type V = ValidationView;

    open spec fn view(&self) -> ValidationView {
        ValidationView {
            is_valid: self.is_valid,
            signatures: self.signatures@.map_values(|s: DigiDocSignatureInfo| s@),
            files: views_of(self.files@),
            errors: self.validation_errors@.map_values(|e: String| e@),
            warnings: self.validation_warnings@.map_values(|w: String| w@),
        }
    }
}

impl View for SignatureDocument {
    type V = DocumentView;

    open spec fn view(&self) -> DocumentView {
        DocumentView { content: self.content@, parsed: records::record_view(self.parsed) }
    }
}

/// The files of a container, as values.
pub open spec fn views_of(files: Seq<DigiDocFile>) -> Seq<FileView> {
    files.map_values(|f: DigiDocFile| f@)
}

/// A text or a message, as values.
pub open spec fn read_view(r: Result<String, String>) -> Result<Seq<char>, Seq<char>> {
    match r {
        Ok(content) => Ok(content@),
        Err(e) => Err(e@),
    }
}

/// An entry of a manifest and what was found at its path, as values.
pub open spec fn found_view(entry: FileEntry, content: Result<Vec<u8>, String>) -> FoundView {
    FoundView {
        path: entry.full_path@,
        media_type: entry.media_type@,
        content: crypto::decoded_view(content),
    }
}

impl View for ContainerContents {
    type V = ContentsView;

    open spec fn view(&self) -> ContentsView {
        let entries = self.manifest.manifest.file_entries@;
        ContentsView {
            mimetype: read_view(self.mimetype),
            found: Seq::new(entries.len(), |i: int| found_view(entries[i], self.data@[i])),
            documents: self.signatures@.map_values(|d: SignatureDocument| d@),
        }
    }
}

impl ContainerContents {
    /// Whether there is an answer for each entry of the manifest.
    pub open spec fn is_complete(&self) -> bool {
        self.data@.len() == self.manifest.manifest.file_entries@.len()
    }
}

/// Whether an attribute of a name is a common name with a value.
pub open spec fn is_common_name(attribute: NameAttributeView) -> bool {
    attribute.kind == "2.5.4.3"@ && attribute.value is Some
}

/// The first common name among the attributes from `from` on.
pub open spec fn common_name_in(attributes: Seq<NameAttributeView>, from: int) -> Option<Seq<char>>
    decreases attributes.len() - from,
{
    if from < 0 || from >= attributes.len() {
        None
    } else if is_common_name(attributes[from]) {
        attributes[from].value
    } else {
        common_name_in(attributes, from + 1)
    }
}

/// The first common name in the groups of attributes from `from` on.
pub open spec fn common_name_among(groups: Seq<Seq<NameAttributeView>>, from: int) -> Option<
    Seq<char>,
>
    decreases groups.len() - from,
{
    if from < 0 || from >= groups.len() {
        None
    } else {
        match common_name_in(groups[from], 0) {
            Some(name) => Some(name),
            None => common_name_among(groups, from + 1),
        }
    }
}

/// The name that a certificate's subject goes by: its first common name, or `Unknown`.
pub open spec fn common_name(certificate: CertificateView) -> Seq<char> {
    match common_name_among(certificate.subject_attributes, 0) {
        Some(name) => name,
        None => "Unknown"@,
    }
}

/// What a certificate says of its subject, or the message where its validity period is out of
/// bounds.
pub open spec fn signer_of(certificate: CertificateView) -> Result<SignerView, Seq<char>> {
    if time::is_time(certificate.not_before as int, 0) && time::is_time(
        certificate.not_after as int,
        0,
    ) {
        Ok(
            SignerView {
                common_name: common_name(certificate),
                serial_number: certificate.serial_hex,
                issuer: certificate.issuer,
                subject: certificate.subject,
                not_before: (certificate.not_before as int, 0),
                not_after: (certificate.not_after as int, 0),
            },
        )
    } else {
        Err("Invalid timestamp"@)
    }
}

/// The signature in a signature document, or the message where a part of it cannot be read. It is
/// not checked yet.
pub open spec fn signature_of(content: Seq<char>, record: SignatureRecord) -> Result<
    SignatureView,
    Seq<char>,
> {
    match crypto::base64_decoded(record.certificate) {
        Err(e) => Err(e),
        Ok(der) => match certificate::x509_certificate(der) {
            Err(e) => Err(e),
            Ok(parsed) => match crypto::base64_decoded(record.value) {
                Err(e) => Err(e),
                Ok(signature_value) => match time::rfc3339_time(record.signing_time) {
                    Err(e) => Err("Failed to parse signing time: "@ + e),
                    Ok(signing_time) => match signer_of(parsed) {
                        Err(e) => Err(e),
                        Ok(signer) => Ok(
                            SignatureView {
                                certificate: der,
                                signature_value,
                                signed_info: content,
                                signing_time,
                                signer,
                                signature_algorithm: record.signature_method,
                                digest_algorithm: if record.digest_methods.len() > 0 {
                                    record.digest_methods[0]
                                } else {
                                    "unknown"@
                                },
                                is_valid: false,
                            },
                        ),
                    },
                },
            },
        },
    }
}

/// The signature in a signature document, or the message where it cannot be read.
pub open spec fn read_signature(document: DocumentView) -> Result<SignatureView, Seq<char>> {
    match document.parsed {
        Err(e) => Err(e),
        Ok(record) => signature_of(document.content, record),
    }
}

/// The key of a certificate: an RSA key, or one on the curve that the parameters name.
pub open spec fn public_key_of(certificate: CertificateView) -> Result<PublicKeyView, Seq<char>> {
    if certificate.key_algorithm == "1.2.840.113549.1.1.1"@ {
        match keys::rsa_info_from_pkcs1(certificate.key) {
            Ok(info) => Ok(PublicKeyView::Rsa(info)),
            Err(e) => Err(e),
        }
    } else if certificate.key_algorithm == "1.2.840.10045.2.1"@ {
        match certificate.key_parameters {
            None => Err("ECDSA missing parameters"@),
            Some(Err(e)) => Err("Failed to parse ECDSA curve OID: "@ + e),
            Some(Ok(curve)) => if curve == "1.2.840.10045.3.1.7"@ {
                match keys::p256_info_from_sec1(certificate.key) {
                    Ok(info) => Ok(PublicKeyView::P256(info)),
                    Err(e) => Err(e),
                }
            } else if curve == "1.3.132.0.10"@ {
                match keys::k256_info_from_sec1(certificate.key) {
                    Ok(info) => Ok(PublicKeyView::K256(info)),
                    Err(e) => Err(e),
                }
            } else {
                Err("Unsupported ECDSA curve: "@ + curve)
            },
        }
    } else {
        Err("Unsupported public key algorithm: "@ + certificate.key_algorithm)
    }
}

/// A URI without the `#` signs at its start.
pub open spec fn without_hashes(uri: Seq<char>) -> Seq<char>
    decreases uri.len(),
{
    if uri.len() > 0 && uri[0] == '#' {
        without_hashes(uri.skip(1))
    } else {
        uri
    }
}

/// The content of the first file, from `from` on, with the given name.
pub open spec fn content_of(files: Seq<FileView>, name: Seq<char>, from: int) -> Option<Seq<u8>>
    decreases files.len() - from,
{
    if from < 0 || from >= files.len() {
        None
    } else if files[from].uri == name {
        Some(files[from].content)
    } else {
        content_of(files, name, from + 1)
    }
}

/// What a URI names: the content of the file with that name.
pub open spec fn resolved(files: Seq<FileView>, uri: Seq<char>) -> Result<Seq<u8>, ErrorView> {
    match content_of(files, without_hashes(uri), 0) {
        Some(content) => Ok(content),
        None => Err(ErrorView::ReferenceNotFound(uri)),
    }
}

/// What the container answers for a reference: a URI outside the signature document names a file.
pub open spec fn file_answer(files: Seq<FileView>, uri: Option<Seq<char>>) -> Answer {
    match uri {
        None => None,
        Some(u) => if verify::is_same_document(u) {
            None
        } else {
            Some(resolved(files, u))
        },
    }
}

/// What the container answers for all references of a signature.
pub open spec fn file_answers(files: Seq<FileView>, l: LocatedView) -> Seq<Answer> {
    Seq::new(
        l.info.references.len(),
        |i: int| file_answer(files, l.info.references[i].uri),
    )
}

/// What checking a signature document comes to under a key and with the files of the container.
pub open spec fn check_outcome(content: Seq<char>, key: PublicKeyView, files: Seq<FileView>) -> Result<
    (),
    ErrorView,
> {
    match verify::signed_document(vstd::utf8::encode_utf8(content)) {
        Err(e) => Err(e),
        Ok((xml, l)) => verify::verdict(
            xml,
            l,
            key,
            verify::references_outcome(xml, l, file_answers(files, l)),
        ),
    }
}

/// Whether a signature holds, or the message where its certificate has no key to check it with.
pub open spec fn validity(signature: SignatureView, files: Seq<FileView>) -> Result<bool, Seq<char>> {
    match certificate::x509_certificate(signature.certificate) {
        Err(e) => Err(e),
        Ok(parsed) => match public_key_of(parsed) {
            Err(e) => Err(e),
            Ok(key) => Ok(check_outcome(signature.signed_info, key, files) is Ok),
        },
    }
}

/// The errors that the check of a signature gives rise to.
pub open spec fn check_errors(signer: SignerView, holds: Result<bool, Seq<char>>) -> Seq<Seq<char>> {
    match holds {
        Ok(true) => seq![],
        Ok(false) => seq!["Signature by "@ + signer.common_name + " is invalid"@],
        Err(e) => seq!["Signature validation failed: "@ + e],
    }
}

/// The errors that the signing time gives rise to: the certificate must have been valid then. It may
/// have expired since.
pub open spec fn time_errors(signing_time: (int, int), signer: SignerView) -> Seq<Seq<char>> {
    let early = if time::is_before(signing_time, signer.not_before) {
        seq!["Certificate not yet valid at signing time for "@ + signer.common_name]
    } else {
        seq![]
    };
    let late = if time::is_before(signer.not_after, signing_time) {
        seq!["Certificate expired at signing time for "@ + signer.common_name]
    } else {
        seq![]
    };
    early + late
}

/// A signature with the outcome of its check.
pub open spec fn checked(signature: SignatureView, files: Seq<FileView>) -> SignatureView {
    SignatureView {
        is_valid: validity(signature, files) == Ok::<bool, Seq<char>>(true),
        ..signature
    }
}

/// The signatures that a signature document contributes: one, or none where it cannot be read.
pub open spec fn document_signatures(document: DocumentView, files: Seq<FileView>) -> Seq<
    SignatureView,
> {
    match read_signature(document) {
        Err(_) => seq![],
        Ok(signature) => seq![checked(signature, files)],
    }
}

/// The errors that a signature document gives rise to.
pub open spec fn document_errors(document: DocumentView, files: Seq<FileView>) -> Seq<Seq<char>> {
    match read_signature(document) {
        Err(e) => seq!["Failed to parse signature: "@ + e],
        Ok(signature) => check_errors(signature.signer, validity(signature, files)) + time_errors(
            signature.signing_time,
            signature.signer,
        ),
    }
}

/// The signatures of all signature documents, in their order.
pub open spec fn all_signatures(documents: Seq<DocumentView>, files: Seq<FileView>) -> Seq<
    SignatureView,
>
    decreases documents.len(),
{
    if documents.len() == 0 {
        seq![]
    } else {
        all_signatures(documents.drop_last(), files) + document_signatures(documents.last(), files)
    }
}

/// The errors of all signature documents, in their order.
pub open spec fn all_errors(documents: Seq<DocumentView>, files: Seq<FileView>) -> Seq<Seq<char>>
    decreases documents.len(),
{
    if documents.len() == 0 {
        seq![]
    } else {
        all_errors(documents.drop_last(), files) + document_errors(documents.last(), files)
    }
}

/// The data files that were found, in the order of the manifest.
pub open spec fn found_files(found: Seq<FoundView>) -> Seq<FileView>
    decreases found.len(),
{
    if found.len() == 0 {
        seq![]
    } else {
        let before = found_files(found.drop_last());
        match found.last().content {
            Ok(content) => before.push(
                FileView {
                    uri: found.last().path,
                    mime_type: found.last().media_type,
                    content,
                },
            ),
            Err(_) => before,
        }
    }
}

/// A warning for each data file that was not found.
pub open spec fn missing_files(found: Seq<FoundView>) -> Seq<Seq<char>>
    decreases found.len(),
{
    if found.len() == 0 {
        seq![]
    } else {
        let before = missing_files(found.drop_last());
        match found.last().content {
            Ok(_) => before,
            Err(e) => before.push("Could not read file "@ + found.last().path + ": "@ + e),
        }
    }
}

/// The errors that the media type gives rise to.
pub open spec fn mimetype_errors(mimetype: Result<Seq<char>, Seq<char>>) -> Seq<Seq<char>> {
    match mimetype {
        Ok(text) => if text == "application/vnd.etsi.asic-e+zip"@ {
            seq![]
        } else {
            seq!["Unsupported document with mimetype: "@ + text]
        },
        Err(e) => seq!["Missing mimetype file: "@ + e],
    }
}

/// What validating a container comes to. It is valid where there are no errors, at least one
/// signature, and all signatures hold.
pub open spec fn validated(contents: ContentsView) -> ValidationView {
    let files = found_files(contents.found);
    let signatures = all_signatures(contents.documents, files);
    let errors = mimetype_errors(contents.mimetype) + all_errors(contents.documents, files);
    ValidationView {
        is_valid: errors.len() == 0 && signatures.len() > 0 && all_valid(signatures),
        signatures,
        files,
        errors,
        warnings: missing_files(contents.found),
    }
}

/// Whether all signatures hold.
pub open spec fn all_valid(signatures: Seq<SignatureView>) -> bool {
    forall|i: int| 0 <= i < signatures.len() ==> (#[trigger] signatures[i]).is_valid
}

/// A signature or a message, as values.
pub open spec fn signature_view(r: Result<DigiDocSignatureInfo, String>) -> Result<
    SignatureView,
    Seq<char>,
> {
    match r {
        Ok(signature) => Ok(signature@),
        Err(e) => Err(e@),
    }
}

/// A key or a message, as values.
pub open spec fn public_key_view(r: Result<PublicKeyType, String>) -> Result<
    PublicKeyView,
    Seq<char>,
> {
    match r {
        Ok(key) => Ok(key@),
        Err(e) => Err(e@),
    }
}

/// Tells whether an entry of an archive is a signature document.
pub fn is_signature_entry(name: &str, is_file: bool) -> (r: bool)
    ensures
        r == (is_file && "META-INF/signatures"@.is_prefix_of(name@)),
{
    if !is_file {
        return false;
    }
    let start = "META-INF/signatures";
    let n = start.unicode_len();
    if name.unicode_len() < n {
        return false;
    }
    let head = name.substring_char(0, n);
    let r = same_text(head, start);
    assert(name@.subrange(0, n as int) =~= name@.take(n as int));
    assert(r == start@.is_prefix_of(name@)) by {
        if r {
            assert(start@ =~= name@.take(n as int));
        } else if start@.is_prefix_of(name@) {
            assert(start@ =~= name@.take(n as int));
        }
    }
    r
}

/// Finds the first common name among the attributes of a name.
fn find_common_name(attributes: &Vec<NameAttribute>) -> (r: Option<String>)
    ensures
        document::optional_text(r) == common_name_in(
            attributes@.map_values(|a: NameAttribute| a@),
            0,
        ),
{
    let ghost all = attributes@.map_values(|a: NameAttribute| a@);
    let mut i: usize = 0;
    while i < attributes.len()
        invariant
            i <= attributes.len(),
            all == attributes@.map_values(|a: NameAttribute| a@),
            common_name_in(all, 0) == common_name_in(all, i as int),
        decreases attributes.len() - i,
    {
        assert(all[i as int] == attributes[i as int]@);
        if same_text(attributes[i].kind.as_str(), "2.5.4.3") {
            match &attributes[i].value {
                Some(value) => return Some(value.clone()),
                None => {},
            }
        }
        i += 1;
    }
    None
}

/// The name that a certificate's subject goes by.
pub fn extract_common_name(certificate: &Certificate) -> (r: String)
    ensures
        r@ == common_name(certificate@),
{
    let groups = &certificate.subject_attributes;
    let ghost all = certificate@.subject_attributes;
    let mut i: usize = 0;
    while i < groups.len()
        invariant
            i <= groups.len(),
            *groups == certificate.subject_attributes,
            all == certificate@.subject_attributes,
            common_name_among(all, 0) == common_name_among(all, i as int),
        decreases groups.len() - i,
    {
        assert(all[i as int] == groups[i as int]@.map_values(|a: NameAttribute| a@));
        match find_common_name(&groups[i]) {
            Some(name) => return name,
            None => {},
        }
        i += 1;
    }
    "Unknown".to_owned()
}

/// The point in time with the given count of seconds since 1970.
pub fn x509_time_to_chrono(timestamp: i64) -> (r: Result<Timestamp, String>)
    ensures
        time::time_view(r) == if time::is_time(timestamp as int, 0) {
            Ok((timestamp as int, 0int))
        } else {
            Err("Invalid timestamp"@)
        },
{
    match Timestamp::from_timestamp(timestamp, 0) {
        Some(time) => Ok(time),
        None => Err("Invalid timestamp".to_owned()),
    }
}

/// What a certificate says of its subject.
fn signer_info(certificate: &Certificate) -> (r: Result<DigiDocSignerInfo, String>)
    ensures
        match r {
            Ok(signer) => signer_of(certificate@) == Ok::<SignerView, Seq<char>>(signer@),
            Err(e) => signer_of(certificate@) == Err::<SignerView, Seq<char>>(e@),
        },
{
    let not_before = match x509_time_to_chrono(certificate.fields.not_before) {
        Ok(time) => time,
        Err(e) => return Err(e),
    };
    let not_after = match x509_time_to_chrono(certificate.fields.not_after) {
        Ok(time) => time,
        Err(e) => return Err(e),
    };
    Ok(
        DigiDocSignerInfo {
            common_name: extract_common_name(certificate),
            serial_number: certificate.fields.serial_hex.clone(),
            issuer: certificate.fields.issuer.clone(),
            subject: certificate.fields.subject.clone(),
            not_before,
            not_after,
        },
    )
}

/// Reads the signature in a signature document. It is not checked yet.
pub fn parse_signature(signature_content: &str, signatures: &XAdEsSignatures) -> (r: Result<
    DigiDocSignatureInfo,
    String,
>)
    ensures
        signature_view(r) == signature_of(signature_content@, signatures@),
{
    let signature = &signatures.signature;
    let certificate = match base64_decode(signature.key_info.x509_data.x509_certificate.as_str()) {
        Ok(der) => der,
        Err(e) => return Err(e),
    };
    let parsed = match parse_certificate(certificate.as_slice()) {
        Ok(parsed) => parsed,
        Err(e) => return Err(e),
    };
    let signature_value = match base64_decode(signature.signature_value.text.as_str()) {
        Ok(value) => value,
        Err(e) => return Err(e),
    };
    let properties = &signature.object.qualifying_properties.signed_properties;
    let signing_time = match Timestamp::parse_rfc3339(
        properties.signed_signature_properties.signing_time.as_str(),
    ) {
        Ok(time) => time,
        Err(e) => return Err(concat2("Failed to parse signing time: ", e.as_str())),
    };
    let signer_info = match signer_info(&parsed) {
        Ok(signer) => signer,
        Err(e) => return Err(e),
    };
    let references: &Vec<Reference> = &signature.signed_info.reference;
    assert(signatures@.digest_methods.len() == references.len());
    let digest_algorithm = if references.len() > 0 {
        assert(signatures@.digest_methods[0] == references[0].digest_method.algorithm@);
        references[0].digest_method.algorithm.clone()
    } else {
        "unknown".to_owned()
    };
    Ok(
        DigiDocSignatureInfo {
            certificate,
            signature_value,
            signed_info: signature_content.to_owned(),
            signing_time,
            signer_info,
            signature_algorithm: signature.signed_info.signature_method.algorithm.clone(),
            digest_algorithm,
            is_valid: false,
        },
    )
}

/// The key of a certificate.
pub fn certificate_key(certificate: &Certificate) -> (r: Result<PublicKeyType, String>)
    ensures
        public_key_view(r) == public_key_of(certificate@),
{
    let key = certificate.fields.key.as_slice();
    let algorithm = certificate.fields.key_algorithm.as_str();
    if same_text(algorithm, "1.2.840.113549.1.1.1") {
        return match rsa_key_from_pkcs1(key) {
            Ok(info) => Ok(PublicKeyType::Rsa(info)),
            Err(e) => Err(e),
        };
    }
    if !same_text(algorithm, "1.2.840.10045.2.1") {
        return Err(concat2("Unsupported public key algorithm: ", algorithm));
    }
    let curve = match &certificate.key_parameters {
        None => return Err("ECDSA missing parameters".to_owned()),
        Some(Err(e)) => return Err(concat2("Failed to parse ECDSA curve OID: ", e.as_str())),
        Some(Ok(curve)) => curve.as_str(),
    };
    if same_text(curve, "1.2.840.10045.3.1.7") {
        match p256_key_from_sec1(key) {
            Ok(info) => Ok(PublicKeyType::P256(info)),
            Err(e) => Err(e),
        }
    } else if same_text(curve, "1.3.132.0.10") {
        match k256_key_from_sec1(key) {
            Ok(info) => Ok(PublicKeyType::K256(info)),
            Err(e) => Err(e),
        }
    } else {
        Err(concat2("Unsupported ECDSA curve: ", curve))
    }
}

/// Takes the `#` signs at the start off a URI.
fn trim_hashes(uri: &str) -> (r: &str)
    ensures
        r@ == without_hashes(uri@),
{
    let n = uri.unicode_len();
    let mut i: usize = 0;
    assert(uri@.skip(0) =~= uri@);
    while i < n && uri.get_char(i) == '#'
        invariant
            i <= n == uri@.len(),
            without_hashes(uri@) == without_hashes(uri@.skip(i as int)),
        decreases n - i,
    {
        assert(uri@.skip(i as int).skip(1) =~= uri@.skip(i + 1));
        i += 1;
    }
    assert(uri@.subrange(i as int, n as int) =~= uri@.skip(i as int));
    uri.substring_char(i, n)
}

/// Finds what a URI names among the files of a container.
pub fn resolve_file(files: &Vec<DigiDocFile>, uri: &str) -> (r: Result<Vec<u8>, SignatureError>)
    ensures
        error::bytes_view(r) == resolved(views_of(files@), uri@),
{
    let ghost all = views_of(files@);
    let name = trim_hashes(uri);
    let mut i: usize = 0;
    while i < files.len()
        invariant
            i <= files.len(),
            all == views_of(files@),
            name@ == without_hashes(uri@),
            content_of(all, name@, 0) == content_of(all, name@, i as int),
        decreases files.len() - i,
    {
        assert(all[i as int] == files[i as int]@);
        if same_text(files[i].name.as_str(), name) {
            return Ok(slice_to_vec(files[i].content.as_slice()));
        }
        i += 1;
    }
    Err(SignatureError::ReferenceNotFound(uri.to_owned()))
}

/// Once a reference has failed, those behind it do not matter.
proof fn lemma_first_failure_decides(
    xml: Seq<char>,
    l: LocatedView,
    answers: Seq<Answer>,
    all: Seq<Answer>,
)
    requires
        answers.len() <= all.len(),
        answers == all.take(answers.len() as int),
        verify::references_outcome(xml, l, answers) is Err,
    ensures
        verify::references_outcome(xml, l, all) == verify::references_outcome(xml, l, answers),
    decreases all.len(),
{
    if answers.len() < all.len() {
        assert(all.drop_last().take(answers.len() as int) =~= answers);
        lemma_first_failure_decides(xml, l, answers, all.drop_last());
    } else {
        assert(answers =~= all);
    }
}

/// With files that always answer the same, a check has one outcome.
proof fn lemma_files_decide<F: Fn(&str) -> Result<Vec<u8>, SignatureError>>(
    xml: Seq<char>,
    l: LocatedView,
    key: PublicKeyView,
    files: Seq<FileView>,
    resolver: F,
    outcome: Result<(), ErrorView>,
)
    requires
        forall|asked: &str, given: Result<Vec<u8>, SignatureError>| #[trigger]
            call_ensures(resolver, (asked,), given) ==> error::bytes_view(given) == resolved(
                files,
                asked@,
            ),
        verify::may_come_to(xml, l, key, Some(resolver), outcome),
    ensures
        outcome == verify::verdict(
            xml,
            l,
            key,
            verify::references_outcome(xml, l, file_answers(files, l)),
        ),
{
    let all = file_answers(files, l);
    let answers = choose|answers: Seq<Answer>|
        verify::are_answers_of(Some(resolver), l.info, answers) && #[trigger] verify::comes_to(
            xml,
            l,
            key,
            answers,
            outcome,
        );
    assert forall|i: int| 0 <= i < answers.len() implies answers[i] == all[i] by {
        assert(verify::is_answer_of(Some(resolver), l.info.references[i].uri, answers[i]));
    }
    assert(answers =~= all.take(answers.len() as int));
    if answers.len() == l.info.references.len() {
        assert(answers =~= all);
    } else {
        lemma_first_failure_decides(xml, l, answers, all);
    }
}

/// Copies a list of messages behind another.
fn append_messages(messages: &mut Vec<String>, more: Vec<String>)
    ensures
        final(messages)@.map_values(|m: String| m@) == old(messages)@.map_values(|m: String| m@)
            + more@.map_values(|m: String| m@),
{
    let mut rest = more;
    let ghost before = messages@;
    let ghost added = rest@;
    messages.append(&mut rest);
    assert((before + added).map_values(|m: String| m@) =~= before.map_values(|m: String| m@)
        + added.map_values(|m: String| m@));
}

/// The messages for the outcome of a signature's check.
fn report_check(signer: &DigiDocSignerInfo, holds: &Result<bool, String>) -> (r: Vec<String>)
    ensures
        r@.map_values(|m: String| m@) == check_errors(signer@, keys::check_view(*holds)),
{
    let mut r: Vec<String> = Vec::new();
    match holds {
        Ok(true) => {},
        Ok(false) => {
            let start = concat2("Signature by ", signer.common_name.as_str());
            r.push(concat2(start.as_str(), " is invalid"));
        },
        Err(e) => r.push(concat2("Signature validation failed: ", e.as_str())),
    }
    assert(r@.map_values(|m: String| m@) =~= check_errors(signer@, keys::check_view(*holds)));
    r
}

/// The messages for a signing time outside of the certificate's validity period.
fn report_time(signing_time: &Timestamp, signer: &DigiDocSignerInfo) -> (r: Vec<String>)
    ensures
        r@.map_values(|m: String| m@) == time_errors(signing_time@, signer@),
{
    let mut r: Vec<String> = Vec::new();
    if signing_time.is_earlier_than(&signer.not_before) {
        r.push(
            concat2(
                "Certificate not yet valid at signing time for ",
                signer.common_name.as_str(),
            ),
        );
    }
    if signer.not_after.is_earlier_than(signing_time) {
        r.push(
            concat2("Certificate expired at signing time for ", signer.common_name.as_str()),
        );
    }
    assert(r@.map_values(|m: String| m@) =~= time_errors(signing_time@, signer@));
    r
}

/// The message for the media type.
fn report_mimetype(mimetype: &Result<String, String>) -> (r: Vec<String>)
    ensures
        r@.map_values(|m: String| m@) == mimetype_errors(read_view(*mimetype)),
{
    let mut r: Vec<String> = Vec::new();
    match mimetype {
        Ok(content) => {
            if !same_text(content.as_str(), "application/vnd.etsi.asic-e+zip") {
                r.push(concat2("Unsupported document with mimetype: ", content.as_str()));
            }
        },
        Err(e) => r.push(concat2("Missing mimetype file: ", e.as_str())),
    }
    assert(r@.map_values(|m: String| m@) =~= mimetype_errors(read_view(*mimetype)));
    r
}

impl<'a> DigiDocReader<'a> {
    /// The path of the container.
    pub closed spec fn path(&self) -> Seq<char> {
        self.document_path@
    }

    /// A reader for the container at the given path.
    pub fn new(document_path: &'a str) -> (r: DigiDocReader<'a>)
        ensures
            r.path() == document_path@,
    {
        DigiDocReader { document_path }
    }

    /// The path of the container.
    pub fn document_path(&self) -> (r: &'a str)
        ensures
            r@ == self.path(),
    {
        self.document_path
    }

    /// Checks a signature under the key of its certificate, against the files of the container.
    pub fn validate_signature(
        &self,
        signature_info: &DigiDocSignatureInfo,
        files: &Vec<DigiDocFile>,
    ) -> (r: Result<bool, String>)
        ensures
            keys::check_view(r) == validity(
                signature_info@,
                views_of(files@),
            ),
    {
        let ghost all = views_of(files@);
        let certificate = match parse_certificate(signature_info.certificate.as_slice()) {
            Ok(certificate) => certificate,
            Err(e) => return Err(e),
        };
        let public_key = match certificate_key(&certificate) {
            Ok(key) => key,
            Err(e) => return Err(e),
        };
        let file_resolver = |uri: &str| -> (r: Result<Vec<u8>, SignatureError>)
            ensures
                error::bytes_view(r) == resolved(views_of(files@), uri@),
            { resolve_file(files, uri) };
        let xml_data = signature_info.signed_info.as_str().as_bytes();
        let outcome = verify_signature(xml_data, &public_key, Some(file_resolver));
        proof {
            match verify::signed_document(xml_data@) {
                Err(_) => {},
                Ok((xml, l)) => {
                    lemma_files_decide(
                        xml,
                        l,
                        public_key@,
                        all,
                        file_resolver,
                        error::unit_view(outcome),
                    );
                },
            }
        }
        match outcome {
            Ok(()) => Ok(true),
            Err(_) => Ok(false),
        }
    }

    /// Takes the data files out of what was found, with a warning for each that was not.
    fn collect_files(&self, contents: &ContainerContents) -> (r: (Vec<DigiDocFile>, Vec<String>))
        requires
            contents.is_complete(),
        ensures
            views_of(r.0@) == found_files(contents@.found),
            r.1@.map_values(|m: String| m@) == missing_files(contents@.found),
    {
        let entries = &contents.manifest.manifest.file_entries;
        let ghost found = contents@.found;
        let mut files: Vec<DigiDocFile> = Vec::new();
        let mut warnings: Vec<String> = Vec::new();
        let mut i: usize = 0;
        assert(views_of(files@) =~= seq![]);
        assert(warnings@.map_values(|m: String| m@) =~= seq![]);
        while i < entries.len()
            invariant
                i <= entries.len() == contents.data.len(),
                *entries == contents.manifest.manifest.file_entries,
                found == contents@.found,
                views_of(files@) == found_files(found.take(i as int)),
                warnings@.map_values(|m: String| m@) == missing_files(found.take(i as int)),
            decreases entries.len() - i,
        {
            let entry: &FileEntry = &entries[i];
            let ghost now = found.take(i + 1);
            let ghost before_files = files@;
            let ghost before_warnings = warnings@;
            assert(now.drop_last() =~= found.take(i as int));
            assert(now.last() == found_view(*entry, contents.data[i as int]));
            match &contents.data[i] {
                Ok(content) => {
                    let file = DigiDocFile {
                        name: entry.full_path.clone(),
                        content: slice_to_vec(content.as_slice()),
                        mime_type: entry.media_type.clone(),
                    };
                    files.push(file);
                    assert(views_of(files@) =~= views_of(before_files).push(file@));
                },
                Err(e) => {
                    let message = concat4(
                        "Could not read file ",
                        entry.full_path.as_str(),
                        ": ",
                        e.as_str(),
                    );
                    warnings.push(message);
                    assert(warnings@.map_values(|m: String| m@) =~= before_warnings.map_values(
                        |m: String| m@,
                    ).push(message@));
                },
            }
            i += 1;
        }
        assert(found.take(i as int) =~= found);
        (files, warnings)
    }

    /// Reads and checks the signature in a signature document.
    fn read_document(&self, document: &SignatureDocument, files: &Vec<DigiDocFile>) -> (r: (
        Option<DigiDocSignatureInfo>,
        Vec<String>,
    ))
        ensures
            ({
                let all = views_of(files@);
                &&& r.1@.map_values(|m: String| m@) == document_errors(document@, all)
                &&& document_signatures(document@, all) == match r.0 {
                    Some(signature) => seq![signature@],
                    None => seq![],
                }
            }),
    {
        let ghost all = views_of(files@);
        let parsed = match &document.parsed {
            Ok(signatures) => parse_signature(document.content.as_str(), signatures),
            Err(e) => Err(e.clone()),
        };
        assert(signature_view(parsed) == read_signature(document@));
        match parsed {
            Err(e) => {
                let message = concat2("Failed to parse signature: ", e.as_str());
                let mut errors: Vec<String> = Vec::new();
                errors.push(message);
                assert(errors@.map_values(|m: String| m@) =~= document_errors(document@, all));
                (None, errors)
            },
            Ok(info) => {
                let mut info = info;
                let ghost signature = info@;
                let holds = self.validate_signature(&info, files);
                let mut errors = report_check(&info.signer_info, &holds);
                let times = report_time(&info.signing_time, &info.signer_info);
                append_messages(&mut errors, times);
                info.is_valid = match holds {
                    Ok(holds) => holds,
                    Err(_) => false,
                };
                assert(info@ == checked(signature, all));
                (Some(info), errors)
            },
        }
    }

    /// Validates a container, given what was found in it.
    pub fn parse_document(&self, contents: &ContainerContents) -> (r: DigiDocValidationResult)
        requires
            contents.is_complete(),
        ensures
            r@ == validated(contents@),
    {
        let mut validation_errors = report_mimetype(&contents.mimetype);
        let (files, validation_warnings) = self.collect_files(contents);
        let ghost all = views_of(files@);
        let ghost documents = contents@.documents;
        let ghost first = mimetype_errors(contents@.mimetype);
        let mut signatures: Vec<DigiDocSignatureInfo> = Vec::new();
        let mut holding = true;
        let mut i: usize = 0;
        assert(signatures@.map_values(|s: DigiDocSignatureInfo| s@) =~= seq![]);
        assert(first + Seq::<Seq<char>>::empty() =~= first);
        while i < contents.signatures.len()
            invariant
                i <= contents.signatures.len(),
                all == views_of(files@),
                documents == contents@.documents,
                validation_errors@.map_values(|m: String| m@) == first + all_errors(
                    documents.take(i as int),
                    all,
                ),
                signatures@.map_values(|s: DigiDocSignatureInfo| s@) == all_signatures(
                    documents.take(i as int),
                    all,
                ),
                holding == all_valid(signatures@.map_values(|s: DigiDocSignatureInfo| s@)),
            decreases contents.signatures.len() - i,
        {
            let ghost now = documents.take(i + 1);
            let ghost before = signatures@.map_values(|s: DigiDocSignatureInfo| s@);
            let ghost before_errors = all_errors(documents.take(i as int), all);
            assert(now.drop_last() =~= documents.take(i as int));
            assert(now.last() == contents.signatures[i as int]@);
            let (signature, errors) = self.read_document(&contents.signatures[i], &files);
            append_messages(&mut validation_errors, errors);
            assert((first + before_errors) + document_errors(now.last(), all) =~= first + (
            before_errors + document_errors(now.last(), all)));
            match signature {
                Some(signature) => {
                    if !signature.is_valid {
                        holding = false;
                    }
                    let ghost one = signature@;
                    signatures.push(signature);
                    proof {
                        let after = signatures@.map_values(|s: DigiDocSignatureInfo| s@);
                        assert(after =~= before + seq![one]);
                        assert(after[before.len() as int] == one);
                        assert forall|j: int| 0 <= j < before.len() implies before[j]
                            == #[trigger] after[j] by {}
                        if all_valid(before) && one.is_valid {
                            assert(all_valid(after));
                        }
                        if all_valid(after) {
                            assert forall|j: int| 0 <= j < before.len() implies (
                            #[trigger] before[j]).is_valid by {
                                assert(after[j].is_valid);
                            }
                        }
                    }
                },
                None => {
                    assert(before + Seq::<SignatureView>::empty() =~= before);
                },
            }
            i += 1;
        }
        assert(documents.take(i as int) =~= documents);
        let is_valid = validation_errors.len() == 0 && signatures.len() > 0 && holding;
        assert(validation_errors@.map_values(|m: String| m@).len() == validation_errors.len());
        assert(signatures@.map_values(|s: DigiDocSignatureInfo| s@).len() == signatures.len());
        DigiDocValidationResult { is_valid, signatures, files, validation_errors, validation_warnings }
    }
}

/// Whether a signature document holds a signature that can be read, that holds, and that was made
/// while its certificate was valid.
pub open spec fn is_sound(document: DocumentView, files: Seq<FileView>) -> bool {
    match read_signature(document) {
        Err(_) => false,
        Ok(signature) => {
            &&& validity(signature, files) == Ok::<bool, Seq<char>>(true)
            &&& !time::is_before(signature.signing_time, signature.signer.not_before)
            &&& !time::is_before(signature.signer.not_after, signature.signing_time)
        },
    }
}

/// A container is valid just where its media type is the right one, there is a signature document,
/// and each signature document is sound. The time of reading does not matter, and neither does a
/// data file that is missing, unless a signature refers to it.
pub proof fn law_valid_container(contents: ContentsView)
    ensures
        validated(contents).is_valid <==> contents.mimetype == Ok::<Seq<char>, Seq<char>>(
            "application/vnd.etsi.asic-e+zip"@,
        ) && contents.documents.len() > 0 && (forall|i: int|
            0 <= i < contents.documents.len() ==> is_sound(
                #[trigger] contents.documents[i],
                validated(contents).files,
            )),
{
    lemma_sound_documents(contents.documents, found_files(contents.found));
}

proof fn lemma_sound_documents(documents: Seq<DocumentView>, files: Seq<FileView>)
    ensures
        all_errors(documents, files).len() == 0 && all_valid(all_signatures(documents, files))
            <==> (forall|i: int|
            0 <= i < documents.len() ==> is_sound(#[trigger] documents[i], files)),
        all_errors(documents, files).len() == 0 ==> all_signatures(documents, files).len()
            == documents.len(),
    decreases documents.len(),
{
    if documents.len() > 0 {
        let before = documents.drop_last();
        let last = documents.last();
        lemma_sound_documents(before, files);
        let old_signatures = all_signatures(before, files);
        let new_signatures = all_signatures(documents, files);
        lemma_sound_document(last, files);
        assert forall|i: int| 0 <= i < before.len() implies before[i] == #[trigger] documents[i] by {}
        assert(documents[documents.len() - 1] == last);
        let added = document_signatures(last, files);
        assert(all_valid(new_signatures) <==> all_valid(old_signatures) && all_valid(added)) by {
            assert forall|i: int| 0 <= i < old_signatures.len() implies old_signatures[i]
                == #[trigger] new_signatures[i] by {}
            assert forall|i: int| 0 <= i < added.len() implies added[i]
                == #[trigger] new_signatures[old_signatures.len() + i] by {}
            if all_valid(new_signatures) {
                assert forall|i: int| 0 <= i < old_signatures.len() implies (
                #[trigger] old_signatures[i]).is_valid by {
                    assert(new_signatures[i].is_valid);
                }
                assert forall|i: int| 0 <= i < added.len() implies (#[trigger] added[i]).is_valid by {
                    assert(new_signatures[old_signatures.len() + i].is_valid);
                }
            }
            if all_valid(old_signatures) && all_valid(added) {
                assert forall|i: int| 0 <= i < new_signatures.len() implies (
                #[trigger] new_signatures[i]).is_valid by {
                    if i < old_signatures.len() {
                        assert(old_signatures[i].is_valid);
                    } else {
                        assert(added[i - old_signatures.len()].is_valid);
                    }
                }
            }
        }
        if forall|i: int| 0 <= i < documents.len() ==> is_sound(#[trigger] documents[i], files) {
            assert forall|i: int| 0 <= i < before.len() implies is_sound(
                #[trigger] before[i],
                files,
            ) by {
                assert(is_sound(documents[i], files));
            }
            assert(is_sound(documents[documents.len() - 1], files));
        }
        if (forall|i: int| 0 <= i < before.len() ==> is_sound(#[trigger] before[i], files))
            && is_sound(last, files) {
            assert forall|i: int| 0 <= i < documents.len() implies is_sound(
                #[trigger] documents[i],
                files,
            ) by {
                if i < before.len() {
                    assert(is_sound(before[i], files));
                }
            }
        }
    }
}

proof fn lemma_sound_document(document: DocumentView, files: Seq<FileView>)
    ensures
        is_sound(document, files) <==> document_errors(document, files).len() == 0 && all_valid(
            document_signatures(document, files),
        ),
        document_errors(document, files).len() == 0 ==> document_signatures(document, files).len()
            == 1,
{
    match read_signature(document) {
        Err(_) => {},
        Ok(signature) => {
            let one = document_signatures(document, files);
            assert(one[0] == checked(signature, files));
            if validity(signature, files) == Ok::<bool, Seq<char>>(true) {
                assert(all_valid(one));
            }
        },
    }
}

/// The file for an entry of the manifest that was found.
pub open spec fn file_of(found: FoundView) -> FileView {
    FileView { uri: found.path, mime_type: found.media_type, content: found.content->Ok_0 }
}

/// The warning for an entry of the manifest that was not found.
pub open spec fn warning_for(found: FoundView) -> Seq<char> {
    "Could not read file "@ + found.path + ": "@ + found.content->Err_0
}

/// The container's files are the entries of the manifest that were found, in their order, with their
/// paths, media types and bytes; and there is a warning for each of the others.
pub proof fn law_files_are_the_entries_found(found: Seq<FoundView>)
    ensures
        found_files(found) == found.filter(|f: FoundView| f.content is Ok).map_values(
            |f: FoundView| file_of(f),
        ),
        missing_files(found) == found.filter(|f: FoundView| f.content is Err).map_values(
            |f: FoundView| warning_for(f),
        ),
    decreases found.len(),
{
    reveal(Seq::filter);
    let is_there = |f: FoundView| f.content is Ok;
    let is_missing = |f: FoundView| f.content is Err;
    if found.len() > 0 {
        let before = found.drop_last();
        law_files_are_the_entries_found(before);
        assert(found_files(found) =~= found.filter(is_there).map_values(
            |f: FoundView| file_of(f),
        ));
        assert(missing_files(found) =~= found.filter(is_missing).map_values(
            |f: FoundView| warning_for(f),
        ));
    } else {
        assert(found_files(found) =~= found.filter(is_there).map_values(
            |f: FoundView| file_of(f),
        ));
        assert(missing_files(found) =~= found.filter(is_missing).map_values(
            |f: FoundView| warning_for(f),
        ));
    }
}

/// Whether the files have different names, and none that starts with `#`.
pub open spec fn have_own_names(files: Seq<FileView>) -> bool {
    &&& forall|i: int, j: int|
        #![trigger files[i].uri, files[j].uri]
        0 <= i < j < files.len() ==> files[i].uri != files[j].uri
    &&& forall|i: int|
        0 <= i < files.len() ==> !verify::is_same_document((#[trigger] files[i]).uri)
}

/// The name of a file leads to its content, if no other file has it.
pub proof fn law_file_is_found_by_its_name(files: Seq<FileView>, i: int)
    requires
        have_own_names(files),
        0 <= i < files.len(),
    ensures
        resolved(files, files[i].uri) == Ok::<Seq<u8>, ErrorView>(files[i].content),
{
    let name = files[i].uri;
    assert(!verify::is_same_document(files[i].uri));
    assert(without_hashes(name) == name);
    lemma_content_of(files, i, 0);
}

proof fn lemma_content_of(files: Seq<FileView>, i: int, from: int)
    requires
        have_own_names(files),
        0 <= from <= i < files.len(),
    ensures
        content_of(files, files[i].uri, from) == Some(files[i].content),
    decreases i - from,
{
    if from < i {
        assert(files[from].uri != files[i].uri);
        lemma_content_of(files, i, from + 1);
    }
}

/// A signature that holds covers the container's files as they are: whatever it refers to outside
/// its own document is a file of the container, and without transforms that file has the digest
/// that the signature states.
pub proof fn law_holding_signature_covers_its_files(
    content: Seq<char>,
    key: PublicKeyView,
    files: Seq<FileView>,
    i: int,
)
    ensures
        check_outcome(content, key, files) is Ok ==> (verify::signed_document(
            vstd::utf8::encode_utf8(content),
        ) matches Ok((xml, l)) && (0 <= i < l.info.references.len() ==> {
            let reference = l.info.references[i];
            &&& reference.uri matches Some(uri)
            &&& !verify::is_same_document(uri) ==> (resolved(files, uri) matches Ok(bytes) && (
            reference.transforms.len() == 0 ==> document::digest_by(reference.digest_method, bytes)
                == reference.digest_value))
        })),
{
    match verify::signed_document(vstd::utf8::encode_utf8(content)) {
        Err(_) => {},
        Ok((xml, l)) => {
            let answers = file_answers(files, l);
            if verify::references_outcome(xml, l, answers) is Ok {
                verify::law_passing_references_have_their_digests(xml, l, answers);
                if 0 <= i < l.info.references.len() {
                    assert(answers[i] == file_answer(files, l.info.references[i].uri));
                }
            }
        },
    }
}

/// Whether a signature refers to the files, in their order, with their SHA-256 digests and without
/// transforms.
pub open spec fn refers_to(l: LocatedView, files: Seq<FileView>) -> bool {
    forall|i: int|
        #![trigger files[i]]
        0 <= i < files.len() ==> {
            let reference = l.info.references[i];
            &&& reference.uri == Some(files[i].uri)
            &&& reference.transforms.len() == 0
            &&& reference.digest_method == "http://www.w3.org/2001/04/xmlenc#sha256"@
            &&& reference.digest_value == crypto::sha256_digest(files[i].content)
        }
}

/// What was signed is accepted: a signature document that refers to the files of the container,
/// and to its own signed properties with their digest, and whose value a key made, holds under the
/// public half of that key. The key has to be one that the check takes.
pub proof fn law_signed_container_is_accepted(
    content: Seq<char>,
    l: LocatedView,
    files: Seq<FileView>,
    key: SigningKeyType,
    public_key: PublicKeyView,
    canonical: Seq<u8>,
    signature: Seq<u8>,
)
    requires
        have_own_names(files),
    ensures
        ({
            let n = files.len() as int;
            &&& verify::signed_document(vstd::utf8::encode_utf8(content)) == Ok::<
                (Seq<char>, LocatedView),
                ErrorView,
            >((content, l))
            &&& l.info.references.len() == n + 1
            &&& refers_to(l, files)
            &&& l.info.references[n].uri matches Some(uri) && verify::is_same_document(uri)
            &&& verify::reference_outcome(content, l, n, None) == Ok::<(), ErrorView>(())
            &&& document::canonical_form(content, l.signed_info, l.info.c14n_method) == Some(
                Ok::<Seq<u8>, Seq<char>>(canonical),
            )
            &&& l.value_text matches Some(value) && crypto::decodes_to(
                text::without_white_space(value),
                signature,
            )
            &&& l.info.signature_method == key.method_uri()
            &&& key.may_sign(canonical, Ok(signature))
            &&& key.public_key() == Ok::<PublicKeyView, ErrorView>(public_key)
            &&& key.is_checkable()
        }) ==> check_outcome(content, public_key, files) == Ok::<(), ErrorView>(()),
{
    let n = files.len() as int;
    let answers = file_answers(files, l);
    verify::law_own_signature_is_accepted(
        content,
        l,
        key,
        public_key,
        answers,
        canonical,
        signature,
    );
    if l.info.references.len() == n + 1 && refers_to(l, files) && (l.info.references[n].uri matches
        Some(uri) && verify::is_same_document(uri)) && verify::reference_outcome(
        content,
        l,
        n,
        None,
    ) == Ok::<(), ErrorView>(()) {
        assert forall|i: int| 0 <= i < answers.len() implies verify::reference_outcome(
            content,
            l,
            i,
            #[trigger] answers[i],
        ) == Ok::<(), ErrorView>(()) by {
            if i < n {
                law_file_is_found_by_its_name(files, i);
                assert(!verify::is_same_document(files[i].uri));
                assert(answers[i] == Some(Ok::<Seq<u8>, ErrorView>(files[i].content)));
            } else {
                assert(answers[i] is None);
            }
        }
    }
}

/// Whether the `i`th reference of a signature names a file from outside the signature document, is
/// without transforms, and states another digest than that file has.
pub open spec fn states_other_digest(l: LocatedView, i: int, files: Seq<FileView>) -> bool {
    let reference = l.info.references[i];
    &&& 0 <= i < l.info.references.len()
    &&& reference.uri matches Some(uri) && !verify::is_same_document(uri) && (resolved(
        files,
        uri,
    ) matches Ok(bytes) && document::digest_by(reference.digest_method, bytes)
        != reference.digest_value)
    &&& reference.transforms.len() == 0
}

/// A signature that states another digest of a file than the file has is refused under every key, and
/// so is a container with such a signature.
pub proof fn law_other_digest_is_refused(
    contents: ContentsView,
    d: int,
    xml: Seq<char>,
    l: LocatedView,
    i: int,
    key: PublicKeyView,
)
    requires
        0 <= d < contents.documents.len(),
        verify::signed_document(vstd::utf8::encode_utf8(contents.documents[d].content)) == Ok::<
            (Seq<char>, LocatedView),
            ErrorView,
        >((xml, l)),
        states_other_digest(l, i, found_files(contents.found)),
    ensures
        check_outcome(contents.documents[d].content, key, found_files(contents.found)) is Err,
        read_signature(contents.documents[d]) matches Ok(signature) ==> !checked(
            signature,
            found_files(contents.found),
        ).is_valid,
        !validated(contents).is_valid,
{
    let files = found_files(contents.found);
    lemma_other_digest(contents.documents[d].content, files, xml, l, i, key);
    if read_signature(contents.documents[d]) is Ok {
        let signature = read_signature(contents.documents[d])->Ok_0;
        let parsed = certificate::x509_certificate(signature.certificate)->Ok_0;
        let own_key = public_key_of(parsed)->Ok_0;
        lemma_other_digest(contents.documents[d].content, files, xml, l, i, own_key);
    }
    law_valid_container(contents);
    if validated(contents).is_valid {
        assert(is_sound(contents.documents[d], files));
    }
}

proof fn lemma_other_digest(
    content: Seq<char>,
    files: Seq<FileView>,
    xml: Seq<char>,
    l: LocatedView,
    i: int,
    key: PublicKeyView,
)
    requires
        verify::signed_document(vstd::utf8::encode_utf8(content)) == Ok::<
            (Seq<char>, LocatedView),
            ErrorView,
        >((xml, l)),
        states_other_digest(l, i, files),
    ensures
        check_outcome(content, key, files) is Err,
{
    let answers = file_answers(files, l);
    if verify::references_outcome(xml, l, answers) is Ok {
        verify::law_passing_references_have_their_digests(xml, l, answers);
        assert(answers[i] == file_answer(files, l.info.references[i].uri));
    }
}

/// Whether a signature document refers to the file with the given name, without transforms and by its
/// SHA-256 digest.
pub open spec fn covers(content: Seq<char>, name: Seq<char>) -> bool {
    verify::signed_document(vstd::utf8::encode_utf8(content)) matches Ok((xml, l)) && exists|j: int|
        names_file(l, j, name)
}

/// Whether the `j`th reference is such a one.
pub open spec fn names_file(l: LocatedView, j: int, name: Seq<char>) -> bool {
    let reference = l.info.references[j];
    &&& 0 <= j < l.info.references.len()
    &&& reference.uri == Some(name)
    &&& reference.transforms.len() == 0
    &&& reference.digest_method == "http://www.w3.org/2001/04/xmlenc#sha256"@
}

/// A container in which other bytes were found at the path of the `k`th entry of the manifest.
pub open spec fn altered(contents: ContentsView, k: int, bytes: Seq<u8>) -> ContentsView {
    ContentsView {
        found: contents.found.update(k, FoundView { content: Ok(bytes), ..contents.found[k] }),
        ..contents
    }
}

/// A valid container in which the bytes of one data file are replaced by bytes with another digest
/// is not valid any more, and none of its signatures holds, if all of them cover that file.
pub proof fn law_altered_file_is_refused(contents: ContentsView, k: int, bytes: Seq<u8>)
    requires
        validated(contents).is_valid,
        have_own_names(found_files(contents.found)),
        0 <= k < contents.found.len(),
        contents.found[k].content matches Ok(before) && crypto::sha256_digest(before)
            != crypto::sha256_digest(bytes),
        forall|d: int|
            0 <= d < contents.documents.len() ==> covers(
                (#[trigger] contents.documents[d]).content,
                contents.found[k].path,
            ),
    ensures
        !validated(altered(contents, k, bytes)).is_valid,
        validated(altered(contents, k, bytes)).signatures.len() == contents.documents.len(),
        forall|d: int|
            0 <= d < contents.documents.len() ==> !(#[trigger] validated(
                altered(contents, k, bytes),
            ).signatures[d]).is_valid,
{
    let after = altered(contents, k, bytes);
    let files = found_files(contents.found);
    let new_files = found_files(after.found);
    let m = lemma_file_is_replaced(contents.found, k, bytes);
    law_valid_container(contents);
    assert forall|d: int| 0 <= d < contents.documents.len() implies (read_signature(
        #[trigger] contents.documents[d],
    ) matches Ok(signature) && !checked(signature, new_files).is_valid) by {
        assert(is_sound(contents.documents[d], files));
        assert(covers(contents.documents[d].content, files[m].uri));
        lemma_altered_file(contents.documents[d], files, m, bytes);
    }
    lemma_signature_of_each_document(contents.documents, new_files);
    let signatures = validated(after).signatures;
    assert(!signatures[0].is_valid);
    assert(!all_valid(signatures));
}

/// A sound signature that covers a file can be read but does not hold any more when the bytes of that
/// file are replaced by bytes with another digest.
proof fn lemma_altered_file(document: DocumentView, files: Seq<FileView>, m: int, bytes: Seq<u8>)
    requires
        have_own_names(files),
        0 <= m < files.len(),
        crypto::sha256_digest(files[m].content) != crypto::sha256_digest(bytes),
        is_sound(document, files),
        covers(document.content, files[m].uri),
    ensures
        read_signature(document) matches Ok(signature) && !checked(
            signature,
            files.update(m, FileView { content: bytes, ..files[m] }),
        ).is_valid,
{
    let new_files = files.update(m, FileView { content: bytes, ..files[m] });
    let name = files[m].uri;
    lemma_names_are_kept(files, m, bytes);
    law_file_is_found_by_its_name(files, m);
    law_file_is_found_by_its_name(new_files, m);
    let signature = read_signature(document)->Ok_0;
    let parsed = certificate::x509_certificate(signature.certificate)->Ok_0;
    let key = public_key_of(parsed)->Ok_0;
    let (xml, l) = verify::signed_document(vstd::utf8::encode_utf8(document.content))->Ok_0;
    let j = choose|j: int| names_file(l, j, name);
    assert(names_file(l, j, name));
    law_holding_signature_covers_its_files(document.content, key, files, j);
    lemma_other_digest(document.content, new_files, xml, l, j, key);
}

proof fn lemma_names_are_kept(files: Seq<FileView>, m: int, bytes: Seq<u8>)
    requires
        have_own_names(files),
        0 <= m < files.len(),
    ensures
        have_own_names(files.update(m, FileView { content: bytes, ..files[m] })),
{
    let new_files = files.update(m, FileView { content: bytes, ..files[m] });
    assert forall|i: int, j: int|
        #![trigger new_files[i].uri, new_files[j].uri]
        0 <= i < j < new_files.len() implies new_files[i].uri != new_files[j].uri by {
        assert(files[i].uri != files[j].uri);
    }
    assert forall|i: int| 0 <= i < new_files.len() implies !verify::is_same_document(
        (#[trigger] new_files[i]).uri,
    ) by {
        assert(!verify::is_same_document(files[i].uri));
    }
}

/// Where each signature document can be read, there is a signature for each, in their order.
proof fn lemma_signature_of_each_document(documents: Seq<DocumentView>, files: Seq<FileView>)
    requires
        forall|d: int| 0 <= d < documents.len() ==> read_signature(#[trigger] documents[d]) is Ok,
    ensures
        all_signatures(documents, files).len() == documents.len(),
        forall|d: int|
            0 <= d < documents.len() ==> #[trigger] all_signatures(documents, files)[d] == checked(
                read_signature(documents[d])->Ok_0,
                files,
            ),
    decreases documents.len(),
{
    if documents.len() > 0 {
        let before = documents.drop_last();
        assert forall|d: int| 0 <= d < before.len() implies read_signature(#[trigger] before[d])
            is Ok by {
            assert(read_signature(documents[d]) is Ok);
        }
        lemma_signature_of_each_document(before, files);
        assert(read_signature(documents[documents.len() - 1]) is Ok);
        let all = all_signatures(documents, files);
        assert forall|d: int| 0 <= d < documents.len() implies #[trigger] all[d] == checked(
            read_signature(documents[d])->Ok_0,
            files,
        ) by {
            if d < before.len() {
                assert(all[d] == all_signatures(before, files)[d]);
                assert(before[d] == documents[d]);
            }
        }
    }
}

/// Replacing the bytes that were found at one path replaces the bytes of one file, and nothing else.
proof fn lemma_file_is_replaced(found: Seq<FoundView>, k: int, bytes: Seq<u8>) -> (m: int)
    requires
        0 <= k < found.len(),
        found[k].content is Ok,
    ensures
        ({
            let files = found_files(found);
            let new_files = found_files(
                found.update(k, FoundView { content: Ok(bytes), ..found[k] }),
            );
            &&& 0 <= m < files.len()
            &&& files[m] == file_of(found[k])
            &&& new_files == files.update(m, FileView { content: bytes, ..files[m] })
        }),
    decreases found.len(),
{
    let new_found = found.update(k, FoundView { content: Ok(bytes), ..found[k] });
    let before = found.drop_last();
    let files = found_files(found);
    let new_files = found_files(new_found);
    if k == found.len() - 1 {
        let m = found_files(before).len() as int;
        assert(new_found.drop_last() =~= before);
        assert(new_files =~= files.update(m, FileView { content: bytes, ..files[m] }));
        m
    } else {
        let m = lemma_file_is_replaced(before, k, bytes);
        assert(new_found.drop_last() =~= before.update(
            k,
            FoundView { content: Ok(bytes), ..before[k] },
        ));
        assert(new_files =~= files.update(m, FileView { content: bytes, ..files[m] }));
        m
    }
}

/// What is found at the paths that the manifest of a container lists: the content of the entry with
/// that name, or nothing, with the given message.
pub open spec fn found_in(
    entries: Seq<EntryView>,
    listed: Seq<(Seq<char>, Seq<char>)>,
    message: Seq<char>,
) -> Seq<FoundView> {
    Seq::new(
        listed.len(),
        |i: int|
            FoundView {
                path: listed[i].0,
                media_type: listed[i].1,
                content: match builder::entry_content(entries, listed[i].0, 0) {
                    Some(content) => Ok(content),
                    None => Err(message),
                },
            },
    )
}

/// What is read from a container with the given files and signature documents.
pub open spec fn read_back(
    files: Seq<FileView>,
    documents: Seq<DocumentView>,
    message: Seq<char>,
) -> ContentsView {
    let entries = builder::container_entries(
        files,
        documents.map_values(|d: DocumentView| d.content),
    );
    ContentsView {
        mimetype: match builder::entry_content(entries, "mimetype"@, 0) {
            Some(content) => Ok(vstd::utf8::decode_utf8(content)),
            None => Err(message),
        },
        found: found_in(entries, builder::listed(files), message),
        documents,
    }
}

/// Whether the files have names by which they are found in a container and referred to.
pub open spec fn have_plain_names(files: Seq<FileView>) -> bool {
    &&& have_own_names(files)
    &&& builder::have_free_names(files)
    &&& forall|i: int| 0 <= i < files.len() ==> (#[trigger] files[i]).uri != "/"@
}

/// The data files of a container read back as they were written, in their order, with their names,
/// media types and bytes; and so does the media type.
pub proof fn law_container_reads_back(
    files: Seq<FileView>,
    documents: Seq<DocumentView>,
    message: Seq<char>,
)
    requires
        have_plain_names(files),
    ensures
        found_files(read_back(files, documents, message).found) == files,
        read_back(files, documents, message).mimetype == Ok::<Seq<char>, Seq<char>>(
            "application/vnd.etsi.asic-e+zip"@,
        ),
{
    let texts = documents.map_values(|d: DocumentView| d.content);
    let entries = builder::container_entries(files, texts);
    let found = read_back(files, documents, message).found;
    builder::law_media_type_comes_first(files, texts);
    builder::law_entry_is_found_by_its_name(files, texts, 0);
    vstd::utf8::encode_utf8_decode_utf8("application/vnd.etsi.asic-e+zip"@);
    builder::lemma_container_is_no_entry(files, texts);
    assert forall|i: int| 0 <= i < files.len() implies (#[trigger] found[i + 1]) == (FoundView {
        path: files[i].uri,
        media_type: files[i].mime_type,
        content: Ok(files[i].content),
    }) by {
        builder::law_data_files_are_verbatim(files, texts, i);
        builder::law_entry_is_found_by_its_name(files, texts, 1 + i);
    }
    lemma_found_behind_container(files, found, files.len());
    assert(found.take(files.len() as int + 1) =~= found);
    assert(files.take(files.len() as int) =~= files);
}

proof fn lemma_found_behind_container(files: Seq<FileView>, found: Seq<FoundView>, n: nat)
    requires
        n <= files.len(),
        found.len() == files.len() + 1,
        found[0].content is Err,
        forall|i: int|
            0 <= i < files.len() ==> (#[trigger] found[i + 1]) == (FoundView {
                path: files[i].uri,
                media_type: files[i].mime_type,
                content: Ok(files[i].content),
            }),
    ensures
        found_files(found.take(n as int + 1)) == files.take(n as int),
    decreases n,
{
    let now = found.take(n as int + 1);
    if n == 0 {
        assert(now.drop_last() =~= Seq::<FoundView>::empty());
        assert(found_files(now.drop_last()) =~= Seq::<FileView>::empty());
        assert(found_files(now) =~= files.take(0));
    } else {
        lemma_found_behind_container(files, found, (n - 1) as nat);
        assert(now.drop_last() =~= found.take(n as int));
        assert(now.last() == found[n - 1 + 1]);
        assert(found_files(now) =~= files.take(n as int));
    }
}

/// What a signature document says that was built from the given inputs and holds the given signature.
pub open spec fn written_record(v: InputsView, signature: Seq<u8>) -> SignatureRecord {
    SignatureRecord {
        certificate: crypto::base64_text(v.certificate),
        value: crypto::base64_text(signature),
        signing_time: time::rfc3339_text(v.signing_time.0, v.signing_time.1),
        signature_method: v.method,
        digest_methods: Seq::new(
            v.files.len() + 1,
            |i: int| "http://www.w3.org/2001/04/xmlenc#sha256"@,
        ),
    }
}

/// Whether a signature document that was built from the given inputs, and holds the given signature,
/// reads as what was written: its parts decode to what they were made of, its references are those
/// to the files and to the signed properties, and its signed information is what was signed.
pub open spec fn reads_as_written(
    document: DocumentView,
    l: LocatedView,
    v: InputsView,
    p: PreparedView,
    signature: Seq<u8>,
) -> bool {
    let n = v.files.len() as int;
    let value = crypto::base64_text(signature);
    &&& xades::finished(v, p, signature) matches Ok(bes) && document.content == bes.xml
    &&& document.parsed == Ok::<SignatureRecord, Seq<char>>(written_record(v, signature))
    &&& xades::parts_read_back(v, signature)
    &&& time::has_common_year(v.signing_time.0)
    &&& verify::signed_document(vstd::utf8::encode_utf8(document.content)) == Ok::<
        (Seq<char>, LocatedView),
        ErrorView,
    >((document.content, l))
    &&& l.info.references.len() == n + 1
    &&& refers_to(l, v.files)
    &&& l.info.references[n].uri matches Some(uri) && verify::is_same_document(uri)
    &&& verify::reference_outcome(document.content, l, n, None) == Ok::<(), ErrorView>(())
    &&& document::canonical_form(document.content, l.signed_info, l.info.c14n_method) == Some(
        Ok::<Seq<u8>, Seq<char>>(p.canonical_info),
    )
    &&& l.value_text == Some(value)
    &&& l.info.signature_method == v.method
}

/// Whether a certificate is for the given key, and was valid at the given time.
pub open spec fn certifies(
    certificate: Seq<u8>,
    key: SigningKeyType,
    signing_time: (int, int),
) -> bool {
    &&& certificate::x509_certificate(certificate) matches Ok(parsed) && (public_key_of(
        parsed,
    ) matches Ok(public_key) && key.public_key() == Ok::<PublicKeyView, ErrorView>(public_key)) && (
    signer_of(parsed) matches Ok(signer) && !time::is_before(signing_time, signer.not_before)
        && !time::is_before(signer.not_after, signing_time))
}

/// What was signed is sound: a signature document that a key made for the files of a container, with
/// a certificate for that key that was valid at the time, holds where it reads as it was written. The
/// key has to be one that the check takes.
pub proof fn law_signed_document_is_sound(
    document: DocumentView,
    l: LocatedView,
    v: InputsView,
    p: PreparedView,
    signature: Seq<u8>,
    key: SigningKeyType,
)
    requires
        have_own_names(v.files),
        reads_as_written(document, l, v, p, signature),
        v.method == key.method_uri(),
        key.may_sign(p.canonical_info, Ok(signature)),
        key.is_checkable(),
        certifies(v.certificate, key, v.signing_time),
    ensures
        is_sound(document, v.files),
{
    let parsed = certificate::x509_certificate(v.certificate)->Ok_0;
    let public_key = public_key_of(parsed)->Ok_0;
    crypto::law_base64_has_no_white_space(signature);
    law_signed_container_is_accepted(
        document.content,
        l,
        v.files,
        key,
        public_key,
        p.canonical_info,
        signature,
    );
}

/// A container with sound signatures, at least one, is valid when it is read back: each of its
/// signatures is reported, and its files are those that were put in, in their order.
pub proof fn law_signed_container_is_valid(
    files: Seq<FileView>,
    documents: Seq<DocumentView>,
    message: Seq<char>,
)
    requires
        have_plain_names(files),
        documents.len() > 0,
        forall|d: int| 0 <= d < documents.len() ==> is_sound(#[trigger] documents[d], files),
    ensures
        ({
            let result = validated(read_back(files, documents, message));
            &&& result.is_valid
            &&& result.signatures.len() == documents.len()
            &&& result.files == files
            &&& result.errors.len() == 0
        }),
{
    law_container_reads_back(files, documents, message);
    let contents = read_back(files, documents, message);
    assert(validated(contents).files == files);
    law_valid_container(contents);
    assert forall|d: int| 0 <= d < documents.len() implies read_signature(#[trigger] documents[d])
        is Ok by {
        assert(is_sound(documents[d], files));
    }
    lemma_signature_of_each_document(documents, files);
}

/// Signing a container and reading it gives a valid container: with one signature, made for its files
/// by a key that the check takes and that the certificate is for, and whose document reads as it was
/// written, the result is valid, reports that signature, and has the files that were put in, in
/// their order.
pub proof fn law_sign_and_read(
    files: Seq<FileView>,
    document: DocumentView,
    l: LocatedView,
    v: InputsView,
    p: PreparedView,
    signature: Seq<u8>,
    key: SigningKeyType,
    message: Seq<char>,
)
    requires
        have_plain_names(files),
        v.files == files,
        reads_as_written(document, l, v, p, signature),
        v.method == key.method_uri(),
        key.may_sign(p.canonical_info, Ok(signature)),
        key.is_checkable(),
        certifies(v.certificate, key, v.signing_time),
    ensures
        ({
            let result = validated(read_back(files, seq![document], message));
            &&& result.is_valid
            &&& result.signatures.len() == 1
            &&& result.signatures[0].is_valid
            &&& result.files == files
        }),
{
    law_signed_document_is_sound(document, l, v, p, signature, key);
    law_signed_container_is_valid(files, seq![document], message);
    let result = validated(read_back(files, seq![document], message));
    assert(all_valid(result.signatures));
}

/// A signature document that reads as it was written covers each of its files.
pub proof fn law_written_document_covers_its_files(
    document: DocumentView,
    l: LocatedView,
    v: InputsView,
    p: PreparedView,
    signature: Seq<u8>,
    m: int,
)
    requires
        reads_as_written(document, l, v, p, signature),
        0 <= m < v.files.len(),
    ensures
        covers(document.content, v.files[m].uri),
{
    assert(names_file(l, m, v.files[m].uri));
}

/// A container whose signatures are sound and all cover a file is refused, and none of its signatures
/// holds, once the bytes of that file are replaced by bytes with another digest.
pub proof fn law_altered_container_is_refused(
    files: Seq<FileView>,
    documents: Seq<DocumentView>,
    m: int,
    bytes: Seq<u8>,
    message: Seq<char>,
)
    requires
        have_plain_names(files),
        documents.len() > 0,
        0 <= m < files.len(),
        crypto::sha256_digest(files[m].content) != crypto::sha256_digest(bytes),
        forall|d: int|
            0 <= d < documents.len() ==> is_sound(#[trigger] documents[d], files) && covers(
                documents[d].content,
                files[m].uri,
            ),
    ensures
        ({
            let new_files = files.update(m, FileView { content: bytes, ..files[m] });
            let result = validated(read_back(new_files, documents, message));
            &&& !result.is_valid
            &&& result.files == new_files
            &&& result.signatures.len() == documents.len()
            &&& forall|d: int|
                0 <= d < documents.len() ==> !(#[trigger] result.signatures[d]).is_valid
        }),
{
    let new_files = files.update(m, FileView { content: bytes, ..files[m] });
    lemma_names_are_kept(files, m, bytes);
    assert(have_plain_names(new_files)) by {
        assert forall|i: int| 0 <= i < new_files.len() implies (#[trigger] new_files[i]).uri
            == files[i].uri by {}
    }
    law_container_reads_back(new_files, documents, message);
    let contents = read_back(new_files, documents, message);
    assert forall|d: int| 0 <= d < documents.len() implies (read_signature(
        #[trigger] documents[d],
    ) matches Ok(signature) && !checked(signature, new_files).is_valid) by {
        lemma_altered_file(documents[d], files, m, bytes);
    }
    lemma_signature_of_each_document(documents, new_files);
    let signatures = validated(contents).signatures;
    assert(!signatures[0].is_valid);
    assert(!all_valid(signatures));
}

} // verus!
