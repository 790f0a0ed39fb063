//! What a report on a container says of it.
//!
//! These laws tie what [`super::reader`] reports to what was found in the archive: each signer to the
//! certificate in the signature document, each file and each error to its cause, and each signature
//! that is called valid to the check of its value under the certificate's key.

use vstd::prelude::*;

use super::reader::{
    self, ContainerContents, ContentsView, DigiDocSignatureInfo, DigiDocSignerInfo,
    DigiDocValidationResult, DocumentView, SignatureDocument, SignatureView, SignerView,
};
use super::records::{SignatureRecord, XAdEsSignatures};
use super::DigiDocFile;
use crate::certificate::{self, Certificate, CertificateView, NameAttributeView};
use crate::crypto;
use crate::error::ErrorView;
use crate::time::{self, Timestamp};
use crate::xmldsig::verify::{self, LocatedView};
use crate::xmldsig::xades::FileView;
use crate::xmldsig::{keys, PublicKeyType, PublicKeyView};

verus! {

/// Whether the attribute at a place is a common name with a value.
pub open spec fn is_common_name_at(groups: Seq<Seq<NameAttributeView>>, g: int, k: int) -> bool {
    &&& 0 <= g < groups.len()
    &&& 0 <= k < groups[g].len()
    &&& groups[g][k].kind == "2.5.4.3"@
    &&& groups[g][k].value is Some
}

/// Whether `name` is the value of the common name that comes first, or `Unknown` where there is none.
pub open spec fn is_first_common_name(groups: Seq<Seq<NameAttributeView>>, name: Seq<char>) -> bool {
    ||| exists|g: int, k: int| #[trigger]
        is_common_name_at(groups, g, k) && groups[g][k].value == Some(name) && forall|h: int, j: int|
            #[trigger] is_common_name_at(groups, h, j) ==> g < h || (g == h && k <= j)
    ||| (name == "Unknown"@ && forall|h: int, j: int| !#[trigger] is_common_name_at(groups, h, j))
}

proof fn lemma_common_name_in(attributes: Seq<NameAttributeView>, from: int) -> (at: int)
    requires
        0 <= from,
    ensures
        match reader::common_name_in(attributes, from) {
            Some(name) => from <= at < attributes.len() && attributes[at].kind == "2.5.4.3"@
                && attributes[at].value == Some(name) && forall|k: int|
                from <= k < at ==> !((#[trigger] attributes[k]).kind == "2.5.4.3"@
                    && attributes[k].value is Some),
            None => forall|k: int|
                from <= k < attributes.len() ==> !((#[trigger] attributes[k]).kind == "2.5.4.3"@
                    && attributes[k].value is Some),
        },
    decreases attributes.len() - from,
{
    if from < attributes.len() && !(attributes[from].kind == "2.5.4.3"@
        && attributes[from].value is Some) {
        lemma_common_name_in(attributes, from + 1)
    } else {
        from
    }
}

proof fn lemma_common_name_among(groups: Seq<Seq<NameAttributeView>>, from: int)
    requires
        0 <= from,
        forall|h: int, j: int| #[trigger] is_common_name_at(groups, h, j) ==> from <= h,
    ensures
        match reader::common_name_among(groups, from) {
            Some(name) => is_first_common_name(groups, name),
            None => forall|h: int, j: int| !#[trigger] is_common_name_at(groups, h, j),
        },
    decreases groups.len() - from,
{
    if from < groups.len() {
        let k = lemma_common_name_in(groups[from], 0);
        match reader::common_name_in(groups[from], 0) {
            Some(name) => {
                assert(is_common_name_at(groups, from, k));
                assert(is_first_common_name(groups, name));
            },
            None => {
                assert forall|h: int, j: int| #[trigger] is_common_name_at(groups, h, j) implies from + 1
                    <= h by {}
                lemma_common_name_among(groups, from + 1);
            },
        }
    }
}

/// The name that a certificate's subject goes by is its first common name, in the order in which the
/// subject's attributes stand, or `Unknown` where it has none.
pub proof fn law_first_common_name_is_reported(certificate: CertificateView)
    ensures
        is_first_common_name(certificate.subject_attributes, reader::common_name(certificate)),
{
    lemma_common_name_among(certificate.subject_attributes, 0);
}

/// Whether a signer is reported as the certificate names them.
pub open spec fn is_named_by(signer: SignerView, certificate: CertificateView) -> bool {
    &&& signer.issuer == certificate.issuer
    &&& signer.subject == certificate.subject
    &&& signer.serial_number == certificate.serial_hex
    &&& signer.not_before == (certificate.not_before as int, 0int)
    &&& signer.not_after == (certificate.not_after as int, 0int)
    &&& is_first_common_name(certificate.subject_attributes, signer.common_name)
}

/// Whether a signature is reported as its document states it.
pub open spec fn is_stated_by(signature: SignatureView, content: Seq<char>, record: SignatureRecord) -> bool {
    &&& crypto::base64_decoded(record.certificate) == Ok::<Seq<u8>, Seq<char>>(
        signature.certificate,
    )
    &&& crypto::base64_decoded(record.value) == Ok::<Seq<u8>, Seq<char>>(signature.signature_value)
    &&& time::rfc3339_time(record.signing_time) == Ok::<(int, int), Seq<char>>(
        signature.signing_time,
    )
    &&& signature.signed_info == content
    &&& signature.signature_algorithm == record.signature_method
    &&& record.digest_methods.len() > 0 ==> signature.digest_algorithm == record.digest_methods[0]
    &&& record.digest_methods.len() == 0 ==> signature.digest_algorithm == "unknown"@
}

/// A signature that is read is reported as its document states it, and its signer as the certificate in
/// the document names them: the issuer is the issuer, the subject the subject.
pub proof fn law_signer_is_the_certificates(document: DocumentView, signature: SignatureView)
    requires
        reader::read_signature(document) == Ok::<SignatureView, Seq<char>>(signature),
    ensures
        document.parsed matches Ok(record) && is_stated_by(signature, document.content, record),
        certificate::x509_certificate(signature.certificate) matches Ok(parsed) && is_named_by(
            signature.signer,
            parsed,
        ),
        !signature.is_valid,
{
    let parsed = certificate::x509_certificate(signature.certificate)->Ok_0;
    law_first_common_name_is_reported(parsed);
}

/// Whether a document can be read: it holds a certificate with a validity period within the calendar, a
/// value and a signing time.
pub open spec fn can_be_read(record: SignatureRecord) -> bool {
    &&& crypto::base64_decoded(record.certificate) matches Ok(der)
    &&& certificate::x509_certificate(der) matches Ok(parsed)
    &&& crypto::base64_decoded(record.value) is Ok
    &&& time::rfc3339_time(record.signing_time) is Ok
    &&& time::is_time(parsed.not_before as int, 0)
    &&& time::is_time(parsed.not_after as int, 0)
}

/// A document is read just where all its parts can be. The first part that cannot is told: the document
/// itself, its certificate, its value, its signing time, or the certificate's validity period.
pub proof fn law_reading_fails_for_a_reason(document: DocumentView)
    ensures
        document.parsed matches Err(e) ==> reader::read_signature(document) == Err::<
            SignatureView,
            Seq<char>,
        >(e),
        document.parsed matches Ok(record) ==> {
            let read = reader::read_signature(document);
            let der = crypto::base64_decoded(record.certificate);
            let parsed = certificate::x509_certificate(der->Ok_0);
            let value = crypto::base64_decoded(record.value);
            let time = time::rfc3339_time(record.signing_time);
            &&& read is Ok <==> can_be_read(record)
            &&& der is Err ==> read->Err_0 == der->Err_0
            &&& der is Ok && parsed is Err ==> read->Err_0 == parsed->Err_0
            &&& der is Ok && parsed is Ok && value is Err ==> read->Err_0 == value->Err_0
            &&& der is Ok && parsed is Ok && value is Ok && time is Err ==> read->Err_0
                == "Failed to parse signing time: "@ + time->Err_0
            &&& der is Ok && parsed is Ok && value is Ok && time is Ok && read is Err ==> read->Err_0
                == "Invalid timestamp"@
        },
{
}

/// The key of a certificate is the key that it holds, of the kind that its algorithm names: RSA, or the
/// curve P-256 or secp256k1 that its parameters name. There is none of another kind.
pub proof fn law_key_is_of_the_named_kind(certificate: CertificateView, key: PublicKeyView)
    ensures
        reader::public_key_of(certificate) == Ok::<PublicKeyView, Seq<char>>(key) <==> match key {
            PublicKeyView::Rsa(info) => certificate.key_algorithm == "1.2.840.113549.1.1.1"@
                && keys::rsa_info_from_pkcs1(certificate.key) == Ok::<_, Seq<char>>(info),
            PublicKeyView::P256(info) => certificate.key_algorithm == "1.2.840.10045.2.1"@
                && certificate.key_parameters == Some(
                Ok::<Seq<char>, Seq<char>>("1.2.840.10045.3.1.7"@),
            ) && keys::p256_info_from_sec1(certificate.key) == Ok::<_, Seq<char>>(info),
            PublicKeyView::K256(info) => certificate.key_algorithm == "1.2.840.10045.2.1"@
                && certificate.key_parameters == Some(Ok::<Seq<char>, Seq<char>>("1.3.132.0.10"@))
                && keys::k256_info_from_sec1(certificate.key) == Ok::<_, Seq<char>>(info),
        },
{
    reveal_strlit("1.2.840.113549.1.1.1");
    reveal_strlit("1.2.840.10045.2.1");
    reveal_strlit("1.2.840.10045.3.1.7");
    reveal_strlit("1.3.132.0.10");
    assert("1.2.840.113549.1.1.1"@.len() != "1.2.840.10045.2.1"@.len());
    assert("1.2.840.10045.3.1.7"@.len() != "1.3.132.0.10"@.len());
}

/// Where a certificate has no key to check with, the message tells why: an algorithm or a curve that is
/// not known is named, and so are parameters that are missing or cannot be read.
pub proof fn law_unknown_kinds_are_told(certificate: CertificateView)
    ensures
        ({
            let key = reader::public_key_of(certificate);
            let algorithm = certificate.key_algorithm;
            &&& algorithm != "1.2.840.113549.1.1.1"@ && algorithm != "1.2.840.10045.2.1"@ ==> key
                == Err::<PublicKeyView, Seq<char>>(
                "Unsupported public key algorithm: "@ + algorithm,
            )
            &&& algorithm == "1.2.840.10045.2.1"@ ==> {
                &&& certificate.key_parameters is None ==> key == Err::<PublicKeyView, Seq<char>>(
                    "ECDSA missing parameters"@,
                )
                &&& certificate.key_parameters matches Some(Err(e)) ==> key == Err::<
                    PublicKeyView,
                    Seq<char>,
                >("Failed to parse ECDSA curve OID: "@ + e)
                &&& certificate.key_parameters matches Some(Ok(curve)) ==> curve
                    != "1.2.840.10045.3.1.7"@ && curve != "1.3.132.0.10"@ ==> key == Err::<
                    PublicKeyView,
                    Seq<char>,
                >("Unsupported ECDSA curve: "@ + curve)
            }
        }),
{
    reveal_strlit("1.2.840.113549.1.1.1");
    reveal_strlit("1.2.840.10045.2.1");
    assert("1.2.840.113549.1.1.1"@.len() != "1.2.840.10045.2.1"@.len());
}

/// Whether `uri` is `name` behind `n` signs `#`, and `name` starts with none.
pub open spec fn is_behind_hashes(uri: Seq<char>, n: int, name: Seq<char>) -> bool {
    &&& 0 <= n <= uri.len()
    &&& uri.skip(n) == name
    &&& forall|i: int| 0 <= i < n ==> #[trigger] uri[i] == '#'
    &&& name.len() == 0 || name[0] != '#'
}

/// Whether the file at `i` is the first one with the given name.
pub open spec fn is_first_named(files: Seq<FileView>, i: int, name: Seq<char>) -> bool {
    &&& 0 <= i < files.len()
    &&& files[i].uri == name
    &&& forall|j: int| 0 <= j < i ==> (#[trigger] files[j]).uri != name
}

proof fn lemma_without_hashes(uri: Seq<char>) -> (n: int)
    ensures
        is_behind_hashes(uri, n, reader::without_hashes(uri)),
    decreases uri.len(),
{
    if uri.len() > 0 && uri[0] == '#' {
        let m = lemma_without_hashes(uri.skip(1));
        let n = m + 1;
        assert(uri.skip(n) =~= uri.skip(1).skip(m));
        assert forall|i: int| 0 <= i < n implies #[trigger] uri[i] == '#' by {
            if i > 0 {
                assert(uri.skip(1)[i - 1] == '#');
            }
        }
        n
    } else {
        assert(uri.skip(0) =~= uri);
        0
    }
}

proof fn lemma_content_of(files: Seq<FileView>, name: Seq<char>, from: int)
    requires
        0 <= from,
        forall|j: int| 0 <= j < from && j < files.len() ==> (#[trigger] files[j]).uri != name,
    ensures
        match reader::content_of(files, name, from) {
            Some(content) => exists|i: int| #[trigger]
                is_first_named(files, i, name) && files[i].content == content,
            None => forall|i: int| 0 <= i < files.len() ==> (#[trigger] files[i]).uri != name,
        },
    decreases files.len() - from,
{
    if from < files.len() {
        if files[from].uri == name {
            assert(is_first_named(files, from, name));
        } else {
            lemma_content_of(files, name, from + 1);
        }
    }
}

/// A URI names the first file that is called like it, signs `#` at its start left out: all bytes of that
/// file are what it stands for. Where no file is called so, the error names the URI.
pub proof fn law_uri_names_the_first_file(files: Seq<FileView>, uri: Seq<char>, n: int, name: Seq<char>)
    requires
        is_behind_hashes(uri, n, name),
    ensures
        match reader::resolved(files, uri) {
            Ok(content) => exists|i: int| #[trigger]
                is_first_named(files, i, name) && files[i].content == content,
            Err(e) => e == ErrorView::ReferenceNotFound(uri) && forall|i: int|
                0 <= i < files.len() ==> (#[trigger] files[i]).uri != name,
        },
{
    let m = lemma_without_hashes(uri);
    if m < n {
        assert(uri.skip(m)[0] == uri[m]);
    } else if n < m {
        assert(uri.skip(n)[0] == uri[n]);
    }
    lemma_content_of(files, name, 0);
}

/// Whether a signature document holds under a key: each of its references into the document holds, each
/// other one holds for the content of the file that it names, and its value is a signature under the key
/// over its signed information.
pub open spec fn holds_for(content: Seq<char>, l: LocatedView, key: PublicKeyView, files: Seq<FileView>) -> bool {
    &&& verify::located(content) == Ok::<LocatedView, ErrorView>(l)
    &&& forall|i: int|
        0 <= i < l.info.references.len() ==> (#[trigger] l.info.references[i]).uri is Some && {
            let uri = l.info.references[i].uri->0;
            if uri.len() > 0 && uri[0] == '#' {
                verify::reference_holds(content, l, i, None)
            } else {
                reader::resolved(files, uri) matches Ok(bytes) && verify::reference_holds(
                    content,
                    l,
                    i,
                    Some(Ok(bytes)),
                )
            }
        }
    &&& exists|canonical: Seq<u8>, value: Seq<u8>|
        verify::value_holds(content, l, key, canonical, value)
}

/// A signature document passes its check just where it holds under the key for the files.
pub proof fn law_check_passes_where_all_holds(
    content: Seq<char>,
    key: PublicKeyView,
    files: Seq<FileView>,
)
    ensures
        reader::check_outcome(content, key, files) is Ok <==> exists|l: LocatedView|
            #[trigger] holds_for(content, l, key, files),
{
    vstd::utf8::encode_utf8_decode_utf8(content);
    vstd::utf8::encode_utf8_valid_utf8(content);
    if let Ok(l) = verify::located(content) {
        let answers = reader::file_answers(files, l);
        verify::law_accepted_where_all_holds(content, l, key, answers);
        if reader::check_outcome(content, key, files) is Ok {
            assert(verify::comes_to(content, l, key, answers, Ok(())));
            assert forall|i: int| 0 <= i < l.info.references.len() implies (
            #[trigger] l.info.references[i]).uri is Some && {
                let uri = l.info.references[i].uri->0;
                if uri.len() > 0 && uri[0] == '#' {
                    verify::reference_holds(content, l, i, None)
                } else {
                    reader::resolved(files, uri) matches Ok(bytes) && verify::reference_holds(
                        content,
                        l,
                        i,
                        Some(Ok(bytes)),
                    )
                }
            } by {
                assert(verify::reference_holds(content, l, i, answers[i]));
            }
            assert(holds_for(content, l, key, files));
        }
        if holds_for(content, l, key, files) {
            assert forall|i: int| 0 <= i < answers.len() implies verify::reference_holds(
                content,
                l,
                i,
                #[trigger] answers[i],
            ) by {
                assert(l.info.references[i].uri is Some);
            }
            assert(verify::comes_to(content, l, key, answers, Ok(())));
        }
    }
}

/// A signature is reported as valid just where its certificate has a key, and its document holds under
/// that key for the files of the container. Nothing else of the report depends on it.
pub proof fn law_valid_signature_holds(signature: SignatureView, files: Seq<FileView>)
    ensures
        reader::checked(signature, files).is_valid <==> {
            &&& certificate::x509_certificate(signature.certificate) matches Ok(parsed)
            &&& reader::public_key_of(parsed) matches Ok(key)
            &&& exists|l: LocatedView| #[trigger] holds_for(signature.signed_info, l, key, files)
        },
        ({
            let report = reader::checked(signature, files);
            &&& report.certificate == signature.certificate
            &&& report.signature_value == signature.signature_value
            &&& report.signed_info == signature.signed_info
            &&& report.signing_time == signature.signing_time
            &&& report.signer == signature.signer
            &&& report.signature_algorithm == signature.signature_algorithm
            &&& report.digest_algorithm == signature.digest_algorithm
        }),
{
    if let Ok(parsed) = certificate::x509_certificate(signature.certificate) {
        if let Ok(key) = reader::public_key_of(parsed) {
            law_check_passes_where_all_holds(signature.signed_info, key, files);
        }
    }
}

proof fn lemma_signatures_in_a_row(documents: Seq<DocumentView>, files: Seq<FileView>)
    ensures
        reader::all_signatures(documents, files) == documents.filter(
            |d: DocumentView| reader::read_signature(d) is Ok,
        ).map_values(|d: DocumentView| reader::checked(reader::read_signature(d)->Ok_0, files)),
    decreases documents.len(),
{
    reveal(Seq::filter);
    let readable = |d: DocumentView| reader::read_signature(d) is Ok;
    let report = |d: DocumentView| reader::checked(reader::read_signature(d)->Ok_0, files);
    if documents.len() > 0 {
        lemma_signatures_in_a_row(documents.drop_last(), files);
        assert(reader::all_signatures(documents, files) =~= documents.filter(readable).map_values(
            report,
        ));
    } else {
        assert(documents.filter(readable).map_values(report) =~= Seq::<SignatureView>::empty());
    }
}

/// A report has one signature for each signature document that can be read, in the order of the
/// documents; each is reported as its document states it, with its signer as the certificate names them.
pub proof fn law_report_names_each_signer(contents: ContentsView)
    ensures
        ({
            let documents = contents.documents.filter(
                |d: DocumentView| reader::read_signature(d) is Ok,
            );
            let signatures = reader::validated(contents).signatures;
            &&& signatures.len() == documents.len()
            &&& forall|i: int|
                0 <= i < signatures.len() ==> {
                    &&& documents[i].parsed matches Ok(record)
                    &&& is_stated_by(#[trigger] signatures[i], documents[i].content, record)
                    &&& certificate::x509_certificate(signatures[i].certificate) matches Ok(parsed)
                    &&& is_named_by(signatures[i].signer, parsed)
                }
        }),
{
    let readable = |d: DocumentView| reader::read_signature(d) is Ok;
    let documents = contents.documents.filter(readable);
    let files = reader::found_files(contents.found);
    let signatures = reader::validated(contents).signatures;
    lemma_signatures_in_a_row(contents.documents, files);
    assert forall|i: int| 0 <= i < signatures.len() implies {
        &&& documents[i].parsed matches Ok(record)
        &&& is_stated_by(#[trigger] signatures[i], documents[i].content, record)
        &&& certificate::x509_certificate(signatures[i].certificate) matches Ok(parsed)
        &&& is_named_by(signatures[i].signer, parsed)
    } by {
        contents.documents.filter_lemma(readable);
        assert(readable(documents[i]));
        let signature = reader::read_signature(documents[i])->Ok_0;
        assert(signatures[i] == reader::checked(signature, files));
        law_signer_is_the_certificates(documents[i], signature);
        law_valid_signature_holds(signature, files);
    }
}

/// A container that is valid has the media type of such containers and at least one signature document,
/// and every one of them holds under its certificate's key for the files, and was signed while its
/// certificate was valid; and any such container is valid.
pub proof fn law_valid_container_holds(contents: ContentsView)
    ensures
        reader::validated(contents).is_valid <==> {
            &&& contents.mimetype == Ok::<Seq<char>, Seq<char>>("application/vnd.etsi.asic-e+zip"@)
            &&& contents.documents.len() > 0
            &&& forall|i: int|
                0 <= i < contents.documents.len() ==> is_good(
                    #[trigger] contents.documents[i],
                    reader::validated(contents).files,
                )
        },
{
    reader::law_valid_container(contents);
    let files = reader::validated(contents).files;
    assert forall|i: int| 0 <= i < contents.documents.len() implies (is_good(
        #[trigger] contents.documents[i],
        files,
    ) <==> reader::is_sound(contents.documents[i], files)) by {
        let document = contents.documents[i];
        if let Ok(signature) = reader::read_signature(document) {
            law_signer_is_the_certificates(document, signature);
            law_valid_signature_holds(signature, files);
        }
    }
}

/// Whether a signature document can be read, holds under the key of its certificate for the files, and
/// was signed within the certificate's validity period.
pub open spec fn is_good(document: DocumentView, files: Seq<FileView>) -> bool {
    &&& reader::read_signature(document) matches Ok(signature)
    &&& certificate::x509_certificate(signature.certificate) matches Ok(parsed)
    &&& reader::public_key_of(parsed) matches Ok(key)
    &&& exists|l: LocatedView| #[trigger] holds_for(document.content, l, key, files)
    &&& (parsed.not_before < signature.signing_time.0 || (parsed.not_before
        == signature.signing_time.0 && 0 <= signature.signing_time.1))
    &&& (signature.signing_time.0 < parsed.not_after || (signature.signing_time.0
        == parsed.not_after && signature.signing_time.1 <= 0))
}

/// Each signature document gives rise to its own errors, behind those of the media type, in the order of
/// the documents: that it could not be read, that it is not valid, or that its certificate was not valid
/// when it was signed. A document that is good gives rise to none.
pub proof fn law_errors_have_their_causes(document: DocumentView, files: Seq<FileView>)
    ensures
        ({
            let errors = reader::document_errors(document, files);
            match reader::read_signature(document) {
                Err(e) => errors == seq!["Failed to parse signature: "@ + e],
                Ok(signature) => {
                    let name = signature.signer.common_name;
                    let early = "Certificate not yet valid at signing time for "@ + name;
                    let late = "Certificate expired at signing time for "@ + name;
                    let wrong = "Signature by "@ + name + " is invalid"@;
                    let signed = signature.signing_time;
                    let first = signature.signer.not_before;
                    let last = signature.signer.not_after;
                    let is_early = signed.0 < first.0 || (signed.0 == first.0 && signed.1 < first.1);
                    let is_late = last.0 < signed.0 || (last.0 == signed.0 && last.1 < signed.1);
                    let parsed = certificate::x509_certificate(signature.certificate);
                    let key = reader::public_key_of(parsed->Ok_0);
                    let of_check = if reader::checked(signature, files).is_valid {
                        seq![]
                    } else if parsed is Err {
                        seq!["Signature validation failed: "@ + parsed->Err_0]
                    } else if key is Err {
                        seq!["Signature validation failed: "@ + key->Err_0]
                    } else {
                        seq![wrong]
                    };
                    let of_start = if is_early {
                        seq![early]
                    } else {
                        seq![]
                    };
                    let of_end = if is_late {
                        seq![late]
                    } else {
                        seq![]
                    };
                    errors == of_check + (of_start + of_end)
                },
            }
        }),
{
}

/// The errors of a report are those of the media type and then those of each document in turn.
pub proof fn law_report_has_all_errors(contents: ContentsView)
    ensures
        ({
            let files = reader::validated(contents).files;
            let of_type = match contents.mimetype {
                Ok(text) => if text == "application/vnd.etsi.asic-e+zip"@ {
                    seq![]
                } else {
                    seq!["Unsupported document with mimetype: "@ + text]
                },
                Err(e) => seq!["Missing mimetype file: "@ + e],
            };
            reader::validated(contents).errors == of_type + contents.documents.map_values(
                |d: DocumentView| reader::document_errors(d, files),
            ).flatten()
        }),
{
    let files = reader::validated(contents).files;
    lemma_errors_in_a_row(contents.documents, files);
}

proof fn lemma_errors_in_a_row(documents: Seq<DocumentView>, files: Seq<FileView>)
    ensures
        reader::all_errors(documents, files) == documents.map_values(
            |d: DocumentView| reader::document_errors(d, files),
        ).flatten(),
    decreases documents.len(),
{
    let errors = |d: DocumentView| reader::document_errors(d, files);
    if documents.len() > 0 {
        let before = documents.drop_last();
        lemma_errors_in_a_row(before, files);
        assert(documents.map_values(errors) =~= before.map_values(errors).push(
            reader::document_errors(documents.last(), files),
        ));
        before.map_values(errors).lemma_flatten_push(
            reader::document_errors(documents.last(), files),
        );
    } else {
        assert(documents.map_values(errors) =~= Seq::<Seq<Seq<char>>>::empty());
    }
}

/// The files of a report are those entries of the manifest that were found, with their paths, media types
/// and contents, and its warnings name the other entries and the causes, both in the manifest's order.
pub proof fn law_report_has_the_files_found(contents: ContentsView)
    ensures
        reader::validated(contents).files == contents.found.filter(
            |f: reader::FoundView| f.content is Ok,
        ).map_values(
            |f: reader::FoundView|
                FileView { uri: f.path, mime_type: f.media_type, content: f.content->Ok_0 },
        ),
        reader::validated(contents).warnings == contents.found.filter(
            |f: reader::FoundView| f.content is Err,
        ).map_values(
            |f: reader::FoundView| "Could not read file "@ + f.path + ": "@ + f.content->Err_0,
        ),
{
    let found = contents.found;
    reader::law_files_are_the_entries_found(found);
    let there = found.filter(|f: reader::FoundView| f.content is Ok);
    let missing = found.filter(|f: reader::FoundView| f.content is Err);
    assert(there.map_values(|f: reader::FoundView| reader::file_of(f)) =~= there.map_values(
        |f: reader::FoundView|
            FileView { uri: f.path, mime_type: f.media_type, content: f.content->Ok_0 },
    ));
    assert(missing.map_values(|f: reader::FoundView| reader::warning_for(f))
        =~= missing.map_values(
        |f: reader::FoundView| "Could not read file "@ + f.path + ": "@ + f.content->Err_0,
    ));
}

/// The values of a data file are its name, its media type and its content.
pub proof fn law_file_as_values(file: DigiDocFile)
    ensures
        file@.uri == file.name@,
        file@.mime_type == file.mime_type@,
        file@.content == file.content@,
{
}

/// The values of a report on a signer are its fields, each under its name.
pub proof fn law_signer_as_values(signer: DigiDocSignerInfo)
    ensures
        signer@.common_name == signer.common_name@,
        signer@.serial_number == signer.serial_number@,
        signer@.issuer == signer.issuer@,
        signer@.subject == signer.subject@,
        signer@.not_before == signer.not_before@,
        signer@.not_after == signer.not_after@,
{
}

/// The values of a report on a signature are its fields, each under its name.
pub proof fn law_signature_as_values(signature: DigiDocSignatureInfo)
    ensures
        signature@.certificate == signature.certificate@,
        signature@.signature_value == signature.signature_value@,
        signature@.signed_info == signature.signed_info@,
        signature@.signing_time == signature.signing_time@,
        signature@.signer == signature.signer_info@,
        signature@.signature_algorithm == signature.signature_algorithm@,
        signature@.digest_algorithm == signature.digest_algorithm@,
        signature@.is_valid == signature.is_valid,
{
}

/// The values of a report on a container are its fields, each under its name, its lists element by
/// element.
pub proof fn law_report_as_values(result: DigiDocValidationResult)
    ensures
        result@.is_valid == result.is_valid,
        result@.signatures.len() == result.signatures@.len(),
        forall|i: int|
            0 <= i < result.signatures@.len() ==> #[trigger] result@.signatures[i]
                == result.signatures@[i]@,
        result@.files.len() == result.files@.len(),
        forall|i: int|
            0 <= i < result.files@.len() ==> #[trigger] result@.files[i] == result.files@[i]@,
        result@.errors.len() == result.validation_errors@.len(),
        forall|i: int|
            0 <= i < result.validation_errors@.len() ==> #[trigger] result@.errors[i]
                == result.validation_errors@[i]@,
        result@.warnings.len() == result.validation_warnings@.len(),
        forall|i: int|
            0 <= i < result.validation_warnings@.len() ==> #[trigger] result@.warnings[i]
                == result.validation_warnings@[i]@,
{
}

/// The values of what was found in an archive are what was found: the media type, at each entry of the
/// manifest its path, its media type and its content, and each signature document.
pub proof fn law_contents_as_values(contents: ContainerContents)
    ensures
        contents.mimetype matches Ok(text) ==> contents@.mimetype == Ok::<Seq<char>, Seq<char>>(
            text@,
        ),
        contents.mimetype matches Err(e) ==> contents@.mimetype == Err::<Seq<char>, Seq<char>>(e@),
        contents@.found.len() == contents.manifest.manifest.file_entries@.len(),
        forall|i: int|
            0 <= i < contents@.found.len() ==> {
                let found = #[trigger] contents@.found[i];
                let entry = contents.manifest.manifest.file_entries@[i];
                &&& found.path == entry.full_path@
                &&& found.media_type == entry.media_type@
                &&& contents.data@[i] matches Ok(bytes) ==> found.content == Ok::<
                    Seq<u8>,
                    Seq<char>,
                >(bytes@)
                &&& contents.data@[i] matches Err(e) ==> found.content == Err::<
                    Seq<u8>,
                    Seq<char>,
                >(e@)
            },
        contents@.documents.len() == contents.signatures@.len(),
        forall|i: int|
            0 <= i < contents@.documents.len() ==> #[trigger] contents@.documents[i]
                == contents.signatures@[i]@,
{
}

/// The values of a signature document are its text and what was read from it.
pub proof fn law_document_as_values(document: SignatureDocument)
    ensures
        document@.content == document.content@,
        document.parsed matches Ok(signatures) ==> document@.parsed == Ok::<
            SignatureRecord,
            Seq<char>,
        >(signatures@),
        document.parsed matches Err(e) ==> document@.parsed == Err::<SignatureRecord, Seq<char>>(
            e@,
        ),
{
}

/// The values of what was read from a signature document are those that a report needs, each from its
/// place in the document.
pub proof fn law_record_as_values(signatures: XAdEsSignatures)
    ensures
        ({
            let s = signatures.signature;
            let signed = s.object.qualifying_properties.signed_properties;
            &&& signatures@.certificate == s.key_info.x509_data.x509_certificate@
            &&& signatures@.value == s.signature_value.text@
            &&& signatures@.signing_time == signed.signed_signature_properties.signing_time@
            &&& signatures@.signature_method == s.signed_info.signature_method.algorithm@
            &&& signatures@.digest_methods.len() == s.signed_info.reference@.len()
            &&& forall|i: int|
                0 <= i < s.signed_info.reference@.len() ==> #[trigger] signatures@.digest_methods[i]
                    == s.signed_info.reference@[i].digest_method.algorithm@
        }),
{
}

/// The values of a certificate are its fields, each under its name.
pub proof fn law_certificate_as_values(c: Certificate)
    ensures
        c@.issuer == c.fields.issuer@,
        c@.subject == c.fields.subject@,
        c@.serial == c.fields.serial@,
        c@.serial_hex == c.fields.serial_hex@,
        c@.not_before == c.fields.not_before,
        c@.not_after == c.fields.not_after,
        c@.raw_serial == c.fields.raw_serial@,
        c@.raw_subject == c.fields.raw_subject@,
        c@.key_algorithm == c.fields.key_algorithm@,
        c@.key == c.fields.key@,
        c.key_parameters is None ==> c@.key_parameters is None,
        c.key_parameters matches Some(Ok(oid)) ==> c@.key_parameters == Some(
            Ok::<Seq<char>, Seq<char>>(oid@),
        ),
        c.key_parameters matches Some(Err(e)) ==> c@.key_parameters == Some(
            Err::<Seq<char>, Seq<char>>(e@),
        ),
        c@.subject_attributes.len() == c.subject_attributes@.len(),
        forall|g: int, k: int|
            0 <= g < c.subject_attributes@.len() && 0 <= k < c.subject_attributes@[g]@.len() ==> {
                let attribute = c.subject_attributes@[g]@[k];
                let values = #[trigger] c@.subject_attributes[g][k];
                &&& values.kind == attribute.kind@
                &&& attribute.value is None ==> values.value is None
                &&& attribute.value matches Some(value) ==> values.value == Some(value@)
            },
        forall|g: int|
            0 <= g < c.subject_attributes@.len() ==> (#[trigger] c@.subject_attributes[g]).len()
                == c.subject_attributes@[g]@.len(),
{
}

/// The value of a result of reading is the value of what it holds, or of the message.
pub proof fn law_reading_results_as_values(
    signature: Result<DigiDocSignatureInfo, String>,
    key: Result<PublicKeyType, String>,
    certificate: Result<Certificate, String>,
    bytes: Result<Vec<u8>, String>,
    time: Result<Timestamp, String>,
)
    ensures
        signature matches Ok(s) ==> reader::signature_view(signature) == Ok::<
            SignatureView,
            Seq<char>,
        >(s@),
        signature matches Err(e) ==> reader::signature_view(signature) == Err::<
            SignatureView,
            Seq<char>,
        >(e@),
        key matches Ok(k) ==> reader::public_key_view(key) == Ok::<PublicKeyView, Seq<char>>(k@),
        key matches Err(e) ==> reader::public_key_view(key) == Err::<PublicKeyView, Seq<char>>(e@),
        certificate matches Ok(c) ==> certificate::certificate_view(certificate) == Ok::<
            CertificateView,
            Seq<char>,
        >(c@),
        certificate matches Err(e) ==> certificate::certificate_view(certificate) == Err::<
            CertificateView,
            Seq<char>,
        >(e@),
        bytes matches Ok(data) ==> crypto::decoded_view(bytes) == Ok::<Seq<u8>, Seq<char>>(data@),
        bytes matches Err(e) ==> crypto::decoded_view(bytes) == Err::<Seq<u8>, Seq<char>>(e@),
        time matches Ok(t) ==> time::time_view(time) == Ok::<(int, int), Seq<char>>(t@),
        time matches Err(e) ==> time::time_view(time) == Err::<(int, int), Seq<char>>(e@),
{
}

} // verus!
