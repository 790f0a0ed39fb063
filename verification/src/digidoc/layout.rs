//! What a container holds, and how its signatures come about.
//!
//! These laws tie what [`super::builder`] lays out to what was put in: the manifest to the data files,
//! the entries of the archive to the files and the signature documents, and each step of signing to the
//! inputs of the signer and to what came of the step before.

use vstd::prelude::*;

use super::builder::{
    self, ContainerEntry, DigiDocProductionPlace, DigiDocSignature, DigiDocSignerInput,
    SigningStep, StepView,
};
use crate::crypto;
use crate::error::ErrorView;
use crate::text;
use crate::time;
use crate::xmldsig::reading::{self, Mark};
use crate::xmldsig::xades::{
    self, BesView, FileView, InputsView, PlaceView, PreparedView, XadesBesResult, XadesDataFile,
    XadesProductionPlace, XadesSignatureInputs,
};
use crate::xmldsig::{contents, document, xml};

verus! {

/// What an entry of the manifest says: the path and the media type.
pub open spec fn entry_says(path: Seq<char>, media_type: Seq<char>) -> Seq<Mark> {
    reading::around(
        "manifest:file-entry"@,
        xml::attribute("manifest:full-path"@, path) + xml::attribute(
            "manifest:media-type"@,
            media_type,
        ),
        seq![],
    )
}

proof fn lemma_entry(path: Seq<char>, media_type: Seq<char>)
    ensures
        reading::is_markup(builder::manifest_entry(path, media_type)),
        reading::marks(builder::manifest_entry(path, media_type)) == entry_says(path, media_type),
{
    let first = xml::attribute("manifest:full-path"@, path);
    let second = xml::attribute("manifest:media-type"@, media_type);
    reading::lemma_manifest_names();
    reading::lemma_attribute_names();
    reading::lemma_attribute("manifest:full-path"@, path);
    reading::lemma_attribute("manifest:media-type"@, media_type);
    reading::lemma_attributes_in_a_row(first, second);
    reading::law_element_holds_its_content("manifest:file-entry"@, first + second, seq![]);
    assert(reading::marks(Seq::<char>::empty()) =~= Seq::<Mark>::empty());
}

proof fn lemma_entries(files: Seq<FileView>)
    ensures
        reading::is_markup(builder::manifest_entries(files)),
        reading::marks(builder::manifest_entries(files)) == Seq::new(
            files.len(),
            |i: int| entry_says(files[i].uri, files[i].mime_type),
        ).flatten(),
    decreases files.len(),
{
    let all = Seq::new(files.len(), |i: int| entry_says(files[i].uri, files[i].mime_type));
    if files.len() > 0 {
        let before = files.drop_last();
        let last = files.last();
        let first = Seq::new(before.len(), |i: int| entry_says(before[i].uri, before[i].mime_type));
        lemma_entries(before);
        lemma_entry(last.uri, last.mime_type);
        reading::lemma_marks_in_a_row(
            builder::manifest_entries(before),
            builder::manifest_entry(last.uri, last.mime_type),
        );
        first.lemma_flatten_push(entry_says(last.uri, last.mime_type));
        assert(all =~= first.push(entry_says(last.uri, last.mime_type)));
    } else {
        assert(all.flatten() =~= Seq::<Mark>::empty());
    }
}

/// The manifest lists the container itself with its media type, and then every data file by its name,
/// with its media type, in their order, and nothing else.
pub proof fn law_manifest_says_what_is_listed(files: Seq<FileView>)
    ensures
        ({
            let head = "<?xml version=\"1.0\" encoding=\"UTF-8\"?>\n"@;
            let document = builder::manifest_document(files);
            &&& head.is_prefix_of(document)
            &&& reading::marks(document.skip(head.len() as int)) == reading::around(
                "manifest:manifest"@,
                xml::attribute(
                    "xmlns:manifest"@,
                    "urn:oasis:names:tc:opendocument:xmlns:manifest:1.0"@,
                ),
                entry_says("/"@, "application/vnd.etsi.asic-e+zip"@) + Seq::new(
                    files.len(),
                    |i: int| entry_says(files[i].uri, files[i].mime_type),
                ).flatten(),
            )
        }),
{
    let head = "<?xml version=\"1.0\" encoding=\"UTF-8\"?>\n"@;
    let document = builder::manifest_document(files);
    let root = builder::manifest_entry("/"@, "application/vnd.etsi.asic-e+zip"@);
    let entries = builder::manifest_entries(files);
    let namespace = xml::attribute(
        "xmlns:manifest"@,
        "urn:oasis:names:tc:opendocument:xmlns:manifest:1.0"@,
    );
    let body = xml::element("manifest:manifest"@, namespace, root + entries);
    lemma_entry("/"@, "application/vnd.etsi.asic-e+zip"@);
    lemma_entries(files);
    reading::lemma_marks_in_a_row(root, entries);
    reading::lemma_manifest_names();
    reading::lemma_attribute_names();
    reading::lemma_attribute(
        "xmlns:manifest"@,
        "urn:oasis:names:tc:opendocument:xmlns:manifest:1.0"@,
    );
    reading::law_element_holds_its_content("manifest:manifest"@, namespace, root + entries);
    assert(document.take(head.len() as int) =~= head);
    assert(document.skip(head.len() as int) =~= body);
}

/// The entries of a container are the media type, stored; each data file with its name and all its
/// bytes; the manifest; and each signature document in UTF-8, numbered from zero; all of these but the
/// first compressed, and nothing else.
pub proof fn law_container_holds_what_was_put_in(files: Seq<FileView>, documents: Seq<Seq<char>>)
    ensures
        ({
            let entries = builder::container_entries(files, documents);
            let n = files.len() as int;
            &&& entries.len() == 2 + n + documents.len()
            &&& entries[0].name == "mimetype"@
            &&& entries[0].content == vstd::utf8::encode_utf8("application/vnd.etsi.asic-e+zip"@)
            &&& !entries[0].compressed
            &&& forall|i: int|
                0 <= i < n ==> {
                    let entry = entries[1 + i];
                    &&& entry.name == (#[trigger] files[i]).uri
                    &&& entry.content == files[i].content
                    &&& entry.compressed
                }
            &&& entries[1 + n].name == "META-INF/manifest.xml"@
            &&& entries[1 + n].content == vstd::utf8::encode_utf8(builder::manifest_document(files))
            &&& entries[1 + n].compressed
            &&& forall|i: int|
                0 <= i < documents.len() ==> {
                    let entry = entries[2 + n + i];
                    &&& entry.name == "META-INF/signatures"@ + text::decimal(i as nat) + ".xml"@
                    &&& entry.content == vstd::utf8::encode_utf8(#[trigger] documents[i])
                    &&& entry.compressed
                }
        }),
{
}

/// The document for a signature that was made elsewhere is a fixed text that names RSA with SHA-256 and
/// leaves the digests empty, with the signature's id, the id of its properties, its value and its
/// certificate in Base64, and its signing time filled in.
pub proof fn law_template_is_filled_in(
    index: nat,
    value: Seq<u8>,
    certificate: Seq<u8>,
    signing_time: (int, int),
)
    ensures
        ({
            let id = "S"@ + text::decimal(index);
            let properties_id = "SP"@ + text::decimal(index);
            builder::template_document(index, value, certificate, signing_time) == seq![
                "<?xml version=\"1.0\" encoding=\"UTF-8\"?>\n<asic:XAdESSignatures xmlns:asic=\"http://uri.etsi.org/02918/v1.2.1#\" xmlns:ds=\"http://www.w3.org/2000/09/xmldsig#\" xmlns:xades=\"http://uri.etsi.org/01903/v1.3.2#\">\n  <ds:Signature Id=\""@,
                id,
                "\">\n    <ds:SignedInfo>\n      <ds:CanonicalizationMethod Algorithm=\"http://www.w3.org/TR/2001/REC-xml-c14n-20010315\"/>\n      <ds:SignatureMethod Algorithm=\"http://www.w3.org/2001/04/xmldsig-more#rsa-sha256\"/>\n      <ds:Reference URI=\"\">\n        <ds:Transforms>\n          <ds:Transform Algorithm=\"http://www.w3.org/2000/09/xmldsig#enveloped-signature\"/>\n        </ds:Transforms>\n        <ds:DigestMethod Algorithm=\"http://www.w3.org/2001/04/xmlenc#sha256\"/>\n        <ds:DigestValue></ds:DigestValue>\n      </ds:Reference>\n      <ds:Reference URI=\"#"@,
                properties_id,
                "\" Type=\"http://uri.etsi.org/01903#SignedProperties\">\n        <ds:DigestMethod Algorithm=\"http://www.w3.org/2001/04/xmlenc#sha256\"/>\n        <ds:DigestValue></ds:DigestValue>\n      </ds:Reference>\n    </ds:SignedInfo>\n    <ds:SignatureValue Id=\""@,
                id,
                "-SIG\">"@,
                crypto::base64_text(value),
                "</ds:SignatureValue>\n    <ds:KeyInfo>\n      <ds:X509Data>\n        <ds:X509Certificate>"@,
                crypto::base64_text(certificate),
                "</ds:X509Certificate>\n      </ds:X509Data>\n    </ds:KeyInfo>\n    <ds:Object>\n      <xades:QualifyingProperties Target=\"#"@,
                id,
                "\">\n        <xades:SignedProperties Id=\""@,
                properties_id,
                "\">\n          <xades:SignedSignatureProperties>\n            <xades:SigningTime>"@,
                time::rfc3339_text(signing_time.0, signing_time.1),
                "</xades:SigningTime>\n            <xades:SigningCertificate>\n              <xades:Cert>\n                <xades:CertDigest>\n                  <ds:DigestMethod Algorithm=\"http://www.w3.org/2001/04/xmlenc#sha256\"/>\n                  <ds:DigestValue></ds:DigestValue>\n                </xades:CertDigest>\n                <xades:IssuerSerial>\n                  <ds:X509IssuerName></ds:X509IssuerName>\n                  <ds:X509SerialNumber></ds:X509SerialNumber>\n                </xades:IssuerSerial>\n              </xades:Cert>\n            </xades:SigningCertificate>\n          </xades:SignedSignatureProperties>\n          <xades:SignedDataObjectProperties>\n            <xades:DataObjectFormat ObjectReference=\"\">\n              <xades:MimeType>application/octet-stream</xades:MimeType>\n            </xades:DataObjectFormat>\n          </xades:SignedDataObjectProperties>\n        </xades:SignedProperties>\n      </xades:QualifyingProperties>\n    </ds:Object>\n  </ds:Signature>\n</asic:XAdESSignatures>"@,
            ].flatten()
        }),
{
    text::law_joined_is_the_row(
        builder::template_parts(index, value, certificate, signing_time),
    );
}

/// There is one such document for each signature that was made elsewhere, with the signature's number,
/// value, certificate and signing time.
pub proof fn law_template_for_each_signature(signatures: Seq<DigiDocSignature>, i: int)
    requires
        0 <= i < signatures.len(),
    ensures
        builder::template_documents(signatures).len() == signatures.len(),
        builder::template_documents(signatures)[i] == builder::template_document(
            i as nat,
            signatures[i].signature_value@,
            signatures[i].certificate@,
            signatures[i].signing_time@,
        ),
{
}

/// Whether a place is given as values, each part under its name.
pub open spec fn is_place(place: DigiDocProductionPlace, values: PlaceView) -> bool {
    &&& place.city is None ==> values.city is None
    &&& place.city matches Some(city) ==> values.city == Some(city@)
    &&& place.state_or_province is None ==> values.state_or_province is None
    &&& place.state_or_province matches Some(state) ==> values.state_or_province == Some(state@)
    &&& place.postal_code is None ==> values.postal_code is None
    &&& place.postal_code matches Some(code) ==> values.postal_code == Some(code@)
    &&& place.country_name is None ==> values.country_name is None
    &&& place.country_name matches Some(country) ==> values.country_name == Some(country@)
}

/// A signature is built from what its signer was added with, and covers all files of the container.
pub proof fn law_signature_is_built_from_its_input(
    files: Seq<FileView>,
    input: &DigiDocSignerInput,
    index: nat,
)
    ensures
        ({
            let v = builder::inputs_of(files, input, index);
            &&& v.method == input.signer.method_uri()
            &&& v.certificate == input.certificate_der@
            &&& v.signing_time == input.signing_time@
            &&& v.files == files
            &&& v.index == index
            &&& input.production_place is None ==> v.place is None
            &&& input.production_place matches Some(place) ==> (v.place matches Some(values)
                && is_place(place, values))
            &&& v.roles.len() == input.claimed_roles@.len()
            &&& forall|i: int|
                0 <= i < v.roles.len() ==> #[trigger] v.roles[i] == input.claimed_roles@[i]@
        }),
        input.issuer_cert_der matches Some(der) ==> builder::issuer_of(input) == der@,
        input.issuer_cert_der is None ==> builder::issuer_of(input) == input.certificate_der@,
{
}

/// Whether a signer with these inputs may have built the basic signature `bes`.
pub open spec fn is_built(input: &DigiDocSignerInput, v: InputsView, p: PreparedView, bes: BesView) -> bool {
    &&& xades::prepared(v) == Ok::<PreparedView, ErrorView>(p)
    &&& xades::may_build(&input.signer, v, p, Ok(bes))
}

/// Whether preparing or building a signature with these inputs may fail with `e`.
pub open spec fn is_stopped_by(input: &DigiDocSignerInput, v: InputsView, e: ErrorView) -> bool {
    match xades::prepared(v) {
        Err(cause) => cause == e,
        Ok(p) => xades::may_build(&input.signer, v, p, Err(e)),
    }
}

/// The first step of signing ends with the basic signature: it is the document where no timestamp
/// authority is named, and else waits for the timestamp of the one that is named. Where it fails, the
/// message tells the error of preparing or building the signature.
pub proof fn law_first_step_is_the_basic_signature(
    files: Seq<FileView>,
    input: &DigiDocSignerInput,
    index: nat,
    outcome: Result<StepView, Seq<char>>,
)
    requires
        builder::may_start(files, input, index, outcome),
    ensures
        outcome matches Ok(StepView::Done(xml)) ==> input.tsa_url is None && exists|
            p: PreparedView,
            bes: BesView,
        | #[trigger]
            is_built(input, builder::inputs_of(files, input, index), p, bes) && bes.xml == xml,
        outcome matches Ok(StepView::Timestamp { url, bes }) ==> input.tsa_url is Some && url
            == input.tsa_url->0@,
        outcome matches Ok(StepView::Timestamp { url, bes }) ==> exists|p: PreparedView| #[trigger]
            is_built(input, builder::inputs_of(files, input, index), p, bes),
        !(outcome matches Ok(step) && step is Revocation),
        outcome matches Err(message) ==> exists|e: ErrorView| #[trigger]
            is_stopped_by(input, builder::inputs_of(files, input, index), e) && message
                == "xades signature build: "@ + e.message(),
{
    let v = builder::inputs_of(files, input, index);
    let tsa_url = document::optional_text(input.tsa_url);
    match xades::prepared(v) {
        Err(e) => {
            assert(is_stopped_by(input, v, e));
        },
        Ok(p) => {
            let bes = choose|bes: Result<BesView, ErrorView>|
                #[trigger] xades::may_build(&input.signer, v, p, bes) && outcome
                    == builder::step_after_bes(tsa_url, bes);
            match bes {
                Ok(b) => {
                    assert(is_built(input, v, p, b));
                    if let Ok(StepView::Timestamp { url, bes: made }) = outcome {
                        assert(made == b);
                        assert(is_built(input, v, p, made));
                    }
                },
                Err(e) => {
                    assert(is_stopped_by(input, v, e));
                },
            }
        },
    }
}

/// With a timestamp token the signature gets a timestamp with that token. It is then the document where
/// no OCSP responder is named, and else waits for the response of the one that is named. A failure of
/// fetching the token or of putting it in is told.
pub proof fn law_timestamp_step(
    ocsp_url: Option<Seq<char>>,
    bes: BesView,
    token: Result<Seq<u8>, ErrorView>,
)
    ensures
        ({
            let outcome = builder::step_after_timestamp(ocsp_url, bes, token);
            match token {
                Err(e) => outcome == Err::<StepView, Seq<char>>(
                    "TSA timestamp fetch: "@ + e.message(),
                ),
                Ok(bytes) => {
                    let upgraded = xades::upgraded_to_t(bes.xml, bes.signature_id, bytes);
                    &&& upgraded matches Err(e) ==> outcome == Err::<StepView, Seq<char>>(
                        "xades-T upgrade: "@ + e.message(),
                    )
                    &&& upgraded matches Ok(xml) ==> (ocsp_url is None ==> outcome == Ok::<
                        StepView,
                        Seq<char>,
                    >(StepView::Done(xml)))
                    &&& upgraded matches Ok(xml) ==> (ocsp_url matches Some(wanted) ==> (
                    outcome matches Ok(step) && step matches StepView::Revocation {
                        url,
                        signature_id,
                        t_level_xml,
                    } && url == wanted && signature_id == bes.signature_id && t_level_xml == xml))
                },
            }
        }),
{
}

/// With an OCSP response the signature gets the issuer's certificate and that response, and is the
/// document. A failure of fetching the response or of putting it in is told.
pub proof fn law_revocation_step(
    issuer: Seq<u8>,
    id: Seq<char>,
    t_level: Seq<char>,
    response: Result<Seq<u8>, ErrorView>,
)
    ensures
        ({
            let outcome = builder::step_after_revocation(issuer, id, t_level, response);
            match response {
                Err(e) => outcome == Err::<StepView, Seq<char>>("OCSP fetch: "@ + e.message()),
                Ok(bytes) => {
                    let upgraded = xades::upgraded_to_lt(t_level, id, issuer, bytes);
                    &&& upgraded matches Err(e) ==> outcome == Err::<StepView, Seq<char>>(
                        "xades-LT upgrade: "@ + e.message(),
                    )
                    &&& upgraded matches Ok(xml) ==> outcome == Ok::<StepView, Seq<char>>(
                        StepView::Done(xml),
                    )
                },
            }
        }),
{
}

/// A signature that is finished without a timestamp says what its signer signed for the files: the whole
/// signature over the canonical form of its signed information.
pub proof fn law_finished_signature_says_what_was_signed(
    files: Seq<FileView>,
    input: &DigiDocSignerInput,
    index: nat,
    xml: Seq<char>,
)
    requires
        builder::may_start(files, input, index, Ok(StepView::Done(xml))),
    ensures
        exists|p: PreparedView, signature: Seq<u8>|
            #[trigger] contents::is_signed_by(&input.signer, p, signature) && xades::prepared(
                builder::inputs_of(files, input, index),
            ) == Ok::<PreparedView, ErrorView>(p) && reading::marks(xml) == contents::document_says(
                builder::inputs_of(files, input, index),
                p,
                signature,
            ),
{
    let v = builder::inputs_of(files, input, index);
    law_first_step_is_the_basic_signature(files, input, index, Ok(StepView::Done(xml)));
    let (p, bes) = choose|p: PreparedView, bes: BesView|
        #[trigger] is_built(input, v, p, bes) && bes.xml == xml;
    contents::law_built_signature_is_the_signers(&input.signer, v, p, bes);
}

/// The values of an entry are its fields, each under its name.
pub proof fn law_entry_as_values(entry: ContainerEntry)
    ensures
        entry@.name == entry.name@,
        entry@.content == entry.content@,
        entry@.compressed == entry.compressed,
{
}

/// The values of a step are its fields, each under its name.
pub proof fn law_step_as_values(step: SigningStep)
    ensures
        step matches SigningStep::Done(xml) ==> step@ == StepView::Done(xml@),
        step matches SigningStep::Timestamp { url, bes } ==> (step@ matches StepView::Timestamp {
            url: wanted,
            bes: made,
        } && wanted == url@ && made == bes@),
        step matches SigningStep::Revocation { url, signature_id, t_level_xml } ==> (
        step@ matches StepView::Revocation { url: wanted, signature_id: id, t_level_xml: xml }
            && wanted == url@ && id == signature_id@ && xml == t_level_xml@),
{
}

/// The values of a basic signature are its fields, each under its name.
pub proof fn law_basic_signature_as_values(bes: XadesBesResult)
    ensures
        bes@.xml == bes.xml@,
        bes@.signature_id == bes.signature_id@,
        bes@.signature_value_canonical == bes.signature_value_canonical@,
{
}

/// The values of what a signature is built from are its fields, each under its name.
pub proof fn law_inputs_as_values<'a>(inputs: XadesSignatureInputs<'a>)
    ensures
        inputs@.method == inputs.signer.method_uri(),
        inputs@.certificate == inputs.certificate_der@,
        inputs@.signing_time == inputs.signing_time@,
        inputs@.index == inputs.index,
        inputs@.files.len() == inputs.data_files@.len(),
        forall|i: int|
            0 <= i < inputs.data_files@.len() ==> #[trigger] inputs@.files[i]
                == inputs.data_files@[i]@,
        inputs.production_place is None ==> inputs@.place is None,
        inputs.production_place matches Some(place) ==> inputs@.place == Some(place@),
        inputs@.roles.len() == inputs.claimed_roles@.len(),
        forall|i: int|
            0 <= i < inputs.claimed_roles@.len() ==> #[trigger] inputs@.roles[i]
                == inputs.claimed_roles@[i]@,
{
}

/// The values of a data file and of a place are their fields, each under its name.
pub proof fn law_file_and_place_as_values<'a>(file: XadesDataFile<'a>, place: XadesProductionPlace<'a>)
    ensures
        file@.uri == file.uri@,
        file@.mime_type == file.mime_type@,
        file@.content == file.content@,
        place.city is None ==> place@.city is None,
        place.city matches Some(city) ==> place@.city == Some(city@),
        place.state_or_province is None ==> place@.state_or_province is None,
        place.state_or_province matches Some(state) ==> place@.state_or_province == Some(state@),
        place.postal_code is None ==> place@.postal_code is None,
        place.postal_code matches Some(code) ==> place@.postal_code == Some(code@),
        place.country_name is None ==> place@.country_name is None,
        place.country_name matches Some(country) ==> place@.country_name == Some(country@),
{
}

/// The value of what came of a step is the value of the step, or of the message.
pub proof fn law_step_result_as_value(r: Result<SigningStep, String>)
    ensures
        r matches Ok(step) ==> builder::step_view(r) == Ok::<StepView, Seq<char>>(step@),
        r matches Err(e) ==> builder::step_view(r) == Err::<StepView, Seq<char>>(e@),
{
}

} // verus!
