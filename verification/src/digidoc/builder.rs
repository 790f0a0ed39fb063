//! Writing containers.
//!
//! [`DigiDocBuilder`] lays out the entries of the archive, writes the manifest, and drives the
//! signing of each signature: basic, then with a timestamp if a timestamp authority is named, then
//! long-term if an OCSP responder is named too.

use vstd::prelude::*;
use vstd::slice::slice_to_vec;

use super::DigiDocFile;
use crate::crypto::{self, base64_encode};
use crate::error::{self, ErrorView, SignatureError};
use crate::text::{self, concat2, concat3, decimal_text, join};
use crate::time::{self, Timestamp};
use crate::xmldsig::document;
use crate::xmldsig::xades::{
    self, build_xades_basic_signature, upgrade_xades_bes_to_t, upgrade_xades_t_to_lt, BesView,
    FileView, InputsView, PlaceView, PreparedView, XadesBesResult, XadesDataFile,
    XadesProductionPlace, XadesSignatureInputs,
};
use crate::xmldsig::xml::{self, write_attribute, write_element};
use crate::xmldsig::{borrow_text, Signer};

verus! {

/// What a signature of a container is built from.
pub struct DigiDocSignerInput {
    pub signer: Box<dyn Signer>,
    /// The signer's certificate in DER.
    pub certificate_der: Vec<u8>,
    pub signing_time: Timestamp,
    /// Where the signature is made. Parts that are absent are left out.
    pub production_place: Option<DigiDocProductionPlace>,
    /// The roles that the signer claims. None are written where there are none.
    pub claimed_roles: Vec<String>,
    /// The timestamp authority. Where one is named, the signature gets a timestamp.
    pub tsa_url: Option<String>,
    /// The OCSP responder. Where one is named besides a timestamp authority, the signature gets
    /// the issuer's certificate and an OCSP response.
    pub ocsp_url: Option<String>,
    /// The certificate, in DER, of the issuer of the signer's certificate. Where there is none, the
    /// signer's certificate stands for its own issuer.
    pub issuer_cert_der: Option<Vec<u8>>,
}

/// Where a signature is made.
#[derive(Debug, Clone, Default)]
pub struct DigiDocProductionPlace {
    pub city: Option<String>,
    pub state_or_province: Option<String>,
    pub postal_code: Option<String>,
    pub country_name: Option<String>,
}

/// A signature that was made elsewhere. It is put into a template whose digests are empty, so it
/// does not verify: use [`DigiDocSignerInput`] for signatures that do.
#[derive(Debug, Clone)]
pub struct DigiDocSignature {
    pub certificate: Vec<u8>,
    pub signature_value: Vec<u8>,
    pub signed_info: String,
    pub signing_time: Timestamp,
}

/// An entry of a container's archive.
#[derive(Debug, Clone)]
pub struct ContainerEntry {
    pub name: String,
    pub content: Vec<u8>,
    /// Whether the entry is compressed, and not just stored.
    pub compressed: bool,
}

/// A [`ContainerEntry`] as values.
pub struct EntryView {
    pub name: Seq<char>,
    pub content: Seq<u8>,
    pub compressed: bool,
}

impl View for ContainerEntry {
    type V = EntryView;

    open spec fn view(&self) -> EntryView {
        EntryView { name: self.name@, content: self.content@, compressed: self.compressed }
    }
}

/// How far the building of a signature has come.
pub enum SigningStep {
    /// The signature document is done.
    Done(String),
    /// A timestamp for the signature value is wanted from the authority at `url`.
    Timestamp { url: String, bes: XadesBesResult },
    /// An OCSP response for the signer's certificate is wanted from the responder at `url`.
    Revocation { url: String, signature_id: String, t_level_xml: String },
}

/// A [`SigningStep`] as values.
pub enum StepView {
    Done(Seq<char>),
    Timestamp { url: Seq<char>, bes: BesView },
    Revocation { url: Seq<char>, signature_id: Seq<char>, t_level_xml: Seq<char> },
}

impl View for SigningStep {
    type V = StepView;

    open spec fn view(&self) -> StepView {
        match self {
            SigningStep::Done(xml) => StepView::Done(xml@),
            SigningStep::Timestamp { url, bes } => StepView::Timestamp { url: url@, bes: bes@ },
            SigningStep::Revocation { url, signature_id, t_level_xml } => StepView::Revocation {
                url: url@,
                signature_id: signature_id@,
                t_level_xml: t_level_xml@,
            },
        }
    }
}

/// A step or a message, as values.
pub open spec fn step_view(r: Result<SigningStep, String>) -> Result<StepView, Seq<char>> {
    match r {
        Ok(step) => Ok(step@),
        Err(e) => Err(e@),
    }
}

/// A place, where one is given, as values.
pub open spec fn place_view(place: Option<DigiDocProductionPlace>) -> Option<PlaceView> {
    match place {
        None => None,
        Some(p) => Some(
            PlaceView {
                city: document::optional_text(p.city),
                state_or_province: document::optional_text(p.state_or_province),
                postal_code: document::optional_text(p.postal_code),
                country_name: document::optional_text(p.country_name),
            },
        ),
    }
}

/// What the signature with the given number is built from: it covers all files.
pub open spec fn inputs_of(files: Seq<FileView>, input: &DigiDocSignerInput, index: nat) -> InputsView {
    InputsView {
        method: input.signer.method_uri(),
        certificate: input.certificate_der@,
        signing_time: input.signing_time@,
        files,
        index,
        place: place_view(input.production_place),
        roles: input.claimed_roles@.map_values(|role: String| role@),
    }
}

/// The issuer's certificate: the one that is given, or else the signer's own.
pub open spec fn issuer_of(input: &DigiDocSignerInput) -> Seq<u8> {
    match input.issuer_cert_der {
        Some(der) => der@,
        None => input.certificate_der@,
    }
}

/// What to do once the basic signature came to `bes`: it is done where no timestamp authority is
/// named.
pub open spec fn step_after_bes(
    tsa_url: Option<Seq<char>>,
    bes: Result<BesView, ErrorView>,
) -> Result<StepView, Seq<char>> {
    match bes {
        Err(e) => Err("xades signature build: "@ + e.message()),
        Ok(bes) => match tsa_url {
            None => Ok(StepView::Done(bes.xml)),
            Some(url) => Ok(StepView::Timestamp { url, bes }),
        },
    }
}

/// What to do once fetching a timestamp came to `token`: the signature with the timestamp is done
/// where no OCSP responder is named.
pub open spec fn step_after_timestamp(
    ocsp_url: Option<Seq<char>>,
    bes: BesView,
    token: Result<Seq<u8>, ErrorView>,
) -> Result<StepView, Seq<char>> {
    match token {
        Err(e) => Err("TSA timestamp fetch: "@ + e.message()),
        Ok(token) => match xades::upgraded_to_t(bes.xml, bes.signature_id, token) {
            Err(e) => Err("xades-T upgrade: "@ + e.message()),
            Ok(xml) => match ocsp_url {
                None => Ok(StepView::Done(xml)),
                Some(url) => Ok(
                    StepView::Revocation {
                        url,
                        signature_id: bes.signature_id,
                        t_level_xml: xml,
                    },
                ),
            },
        },
    }
}

/// What to do once fetching an OCSP response came to `response`.
pub open spec fn step_after_revocation(
    issuer: Seq<u8>,
    signature_id: Seq<char>,
    t_level_xml: Seq<char>,
    response: Result<Seq<u8>, ErrorView>,
) -> Result<StepView, Seq<char>> {
    match response {
        Err(e) => Err("OCSP fetch: "@ + e.message()),
        Ok(response) => match xades::upgraded_to_lt(
            t_level_xml,
            signature_id,
            issuer,
            response,
        ) {
            Err(e) => Err("xades-LT upgrade: "@ + e.message()),
            Ok(xml) => Ok(StepView::Done(xml)),
        },
    }
}

/// Whether building the signature may come to `outcome` in its first step.
pub open spec fn may_start(
    files: Seq<FileView>,
    input: &DigiDocSignerInput,
    index: nat,
    outcome: Result<StepView, Seq<char>>,
) -> bool {
    let v = inputs_of(files, input, index);
    let tsa_url = document::optional_text(input.tsa_url);
    match xades::prepared(v) {
        Err(e) => outcome == step_after_bes(tsa_url, Err(e)),
        Ok(p) => exists|bes: Result<BesView, ErrorView>|
            #[trigger] xades::may_build(&input.signer, v, p, bes) && outcome == step_after_bes(
                tsa_url,
                bes,
            ),
    }
}

/// An entry of the manifest.
pub open spec fn manifest_entry(path: Seq<char>, media_type: Seq<char>) -> Seq<char> {
    xml::element(
        "manifest:file-entry"@,
        xml::attribute("manifest:full-path"@, path) + xml::attribute(
            "manifest:media-type"@,
            media_type,
        ),
        seq![],
    )
}

/// The entries of the manifest for data files, in their order.
pub open spec fn manifest_entries(files: Seq<FileView>) -> Seq<char>
    decreases files.len(),
{
    if files.len() == 0 {
        seq![]
    } else {
        manifest_entries(files.drop_last()) + manifest_entry(
            files.last().uri,
            files.last().mime_type,
        )
    }
}

/// The manifest: an entry for the container itself, then one for each data file.
pub open spec fn manifest_document(files: Seq<FileView>) -> Seq<char> {
    "<?xml version=\"1.0\" encoding=\"UTF-8\"?>\n"@ + xml::element(
        "manifest:manifest"@,
        xml::attribute(
            "xmlns:manifest"@,
            "urn:oasis:names:tc:opendocument:xmlns:manifest:1.0"@,
        ),
        manifest_entry("/"@, "application/vnd.etsi.asic-e+zip"@) + manifest_entries(files),
    )
}

/// The entry for a data file.
pub open spec fn file_entry(file: FileView) -> EntryView {
    EntryView { name: file.uri, content: file.content, compressed: true }
}

/// The entry for the signature document with the given number.
pub open spec fn signature_entry(index: nat, xml: Seq<char>) -> EntryView {
    EntryView {
        name: "META-INF/signatures"@ + text::decimal(index) + ".xml"@,
        content: vstd::utf8::encode_utf8(xml),
        compressed: true,
    }
}

/// The entries of a container: the media type, stored and first; the data files; the manifest; and
/// the signature documents, numbered from zero.
pub open spec fn container_entries(files: Seq<FileView>, documents: Seq<Seq<char>>) -> Seq<
    EntryView,
> {
    let mimetype = EntryView {
        name: "mimetype"@,
        content: vstd::utf8::encode_utf8("application/vnd.etsi.asic-e+zip"@),
        compressed: false,
    };
    let manifest = EntryView {
        name: "META-INF/manifest.xml"@,
        content: vstd::utf8::encode_utf8(manifest_document(files)),
        compressed: true,
    };
    seq![mimetype] + Seq::new(files.len(), |i: int| file_entry(files[i])) + seq![manifest]
        + Seq::new(documents.len(), |i: int| signature_entry(i as nat, documents[i]))
}

/// The template for a signature that was made elsewhere, up to its id.
pub const TEMPLATE_START: &'static str = "<?xml version=\"1.0\" encoding=\"UTF-8\"?>\n<asic:XAdESSignatures xmlns:asic=\"http://uri.etsi.org/02918/v1.2.1#\" xmlns:ds=\"http://www.w3.org/2000/09/xmldsig#\" xmlns:xades=\"http://uri.etsi.org/01903/v1.3.2#\">\n  <ds:Signature Id=\"";

/// The template from the signature's id to the reference to its properties.
pub const TEMPLATE_AFTER_ID: &'static str = "\">\n    <ds:SignedInfo>\n      <ds:CanonicalizationMethod Algorithm=\"http://www.w3.org/TR/2001/REC-xml-c14n-20010315\"/>\n      <ds:SignatureMethod Algorithm=\"http://www.w3.org/2001/04/xmldsig-more#rsa-sha256\"/>\n      <ds:Reference URI=\"\">\n        <ds:Transforms>\n          <ds:Transform Algorithm=\"http://www.w3.org/2000/09/xmldsig#enveloped-signature\"/>\n        </ds:Transforms>\n        <ds:DigestMethod Algorithm=\"http://www.w3.org/2001/04/xmlenc#sha256\"/>\n        <ds:DigestValue></ds:DigestValue>\n      </ds:Reference>\n      <ds:Reference URI=\"#";

/// The template from there to the id of the signature value.
pub const TEMPLATE_AFTER_PROPERTIES_URI: &'static str = "\" Type=\"http://uri.etsi.org/01903#SignedProperties\">\n        <ds:DigestMethod Algorithm=\"http://www.w3.org/2001/04/xmlenc#sha256\"/>\n        <ds:DigestValue></ds:DigestValue>\n      </ds:Reference>\n    </ds:SignedInfo>\n    <ds:SignatureValue Id=\"";

/// The template from there to the signature value.
pub const TEMPLATE_AFTER_VALUE_ID: &'static str = "-SIG\">";

/// The template from the signature value to the certificate.
pub const TEMPLATE_AFTER_VALUE: &'static str = "</ds:SignatureValue>\n    <ds:KeyInfo>\n      <ds:X509Data>\n        <ds:X509Certificate>";

/// The template from the certificate to the target of the properties.
pub const TEMPLATE_AFTER_CERTIFICATE: &'static str = "</ds:X509Certificate>\n      </ds:X509Data>\n    </ds:KeyInfo>\n    <ds:Object>\n      <xades:QualifyingProperties Target=\"#";

/// The template from there to the id of the properties.
pub const TEMPLATE_AFTER_TARGET: &'static str = "\">\n        <xades:SignedProperties Id=\"";

/// The template from there to the signing time.
pub const TEMPLATE_AFTER_PROPERTIES_ID: &'static str = "\">\n          <xades:SignedSignatureProperties>\n            <xades:SigningTime>";

/// The template from the signing time to its end.
pub const TEMPLATE_END: &'static str = "</xades:SigningTime>\n            <xades:SigningCertificate>\n              <xades:Cert>\n                <xades:CertDigest>\n                  <ds:DigestMethod Algorithm=\"http://www.w3.org/2001/04/xmlenc#sha256\"/>\n                  <ds:DigestValue></ds:DigestValue>\n                </xades:CertDigest>\n                <xades:IssuerSerial>\n                  <ds:X509IssuerName></ds:X509IssuerName>\n                  <ds:X509SerialNumber></ds:X509SerialNumber>\n                </xades:IssuerSerial>\n              </xades:Cert>\n            </xades:SigningCertificate>\n          </xades:SignedSignatureProperties>\n          <xades:SignedDataObjectProperties>\n            <xades:DataObjectFormat ObjectReference=\"\">\n              <xades:MimeType>application/octet-stream</xades:MimeType>\n            </xades:DataObjectFormat>\n          </xades:SignedDataObjectProperties>\n        </xades:SignedProperties>\n      </xades:QualifyingProperties>\n    </ds:Object>\n  </ds:Signature>\n</asic:XAdESSignatures>";

/// The parts of the document for a signature that was made elsewhere.
pub open spec fn template_parts(
    index: nat,
    value: Seq<u8>,
    certificate: Seq<u8>,
    signing_time: (int, int),
) -> Seq<Seq<char>> {
    let id = "S"@ + text::decimal(index);
    let properties_id = "SP"@ + text::decimal(index);
    seq![
        TEMPLATE_START@,
        id,
        TEMPLATE_AFTER_ID@,
        properties_id,
        TEMPLATE_AFTER_PROPERTIES_URI@,
        id,
        TEMPLATE_AFTER_VALUE_ID@,
        crypto::base64_text(value),
        TEMPLATE_AFTER_VALUE@,
        crypto::base64_text(certificate),
        TEMPLATE_AFTER_CERTIFICATE@,
        id,
        TEMPLATE_AFTER_TARGET@,
        properties_id,
        TEMPLATE_AFTER_PROPERTIES_ID@,
        time::rfc3339_text(signing_time.0, signing_time.1),
        TEMPLATE_END@,
    ]
}

/// The document for a signature that was made elsewhere: its number, value, certificate and signing
/// time in a template whose digests are empty.
pub open spec fn template_document(
    index: nat,
    value: Seq<u8>,
    certificate: Seq<u8>,
    signing_time: (int, int),
) -> Seq<char> {
    text::joined(template_parts(index, value, certificate, signing_time))
}

/// The documents for signatures that were made elsewhere, numbered from zero.
pub open spec fn template_documents(signatures: Seq<DigiDocSignature>) -> Seq<Seq<char>> {
    Seq::new(
        signatures.len(),
        |i: int|
            template_document(
                i as nat,
                signatures[i].signature_value@,
                signatures[i].certificate@,
                signatures[i].signing_time@,
            ),
    )
}

/// Builds a container: collects data files and signatures, and lays out the archive.
pub struct DigiDocBuilder {
    files: Vec<DigiDocFile>,
    signatures: Vec<DigiDocSignature>,
    signers: Vec<DigiDocSignerInput>,
}

impl DigiDocBuilder {
    /// The data files, in the order in which they were added.
    pub closed spec fn files(&self) -> Seq<FileView> {
        self.files@.map_values(|f: DigiDocFile| f@)
    }

    /// The signatures that were made elsewhere, in the order in which they were added.
    pub closed spec fn signatures(&self) -> Seq<DigiDocSignature> {
        self.signatures@
    }

    /// The signatures to be made, in the order in which they were added.
    pub closed spec fn signers(&self) -> Seq<DigiDocSignerInput> {
        self.signers@
    }

    /// An empty container.
    pub fn new() -> (r: DigiDocBuilder)
        ensures
            r.files() == Seq::<FileView>::empty(),
            r.signatures() == Seq::<DigiDocSignature>::empty(),
            r.signers() == Seq::<DigiDocSignerInput>::empty(),
    {
        let r = DigiDocBuilder {
            files: Vec::new(),
            signatures: Vec::new(),
            signers: Vec::new(),
        };
        assert(r.files() =~= Seq::<FileView>::empty());
        r
    }

    /// Adds a signature that will be made by the given signer.
    pub fn add_signer(self, input: DigiDocSignerInput) -> (r: DigiDocBuilder)
        ensures
            r.files() == self.files(),
            r.signatures() == self.signatures(),
            r.signers() == self.signers().push(input),
    {
        let mut r = self;
        r.signers.push(input);
        r
    }

    /// Adds a data file that was read from disk. Its name is the last part of the file's path, where
    /// that is text.
    pub fn add_file(self, file_name: Option<&str>, content: Vec<u8>, mime_type: &str) -> (r: Result<
        DigiDocBuilder,
        String,
    >)
        ensures
            match file_name {
                None => r matches Err(e) && e@ == "Invalid file name"@,
                Some(name) => r matches Ok(b) && b.files() == self.files().push(
                    FileView { uri: name@, mime_type: mime_type@, content: content@ },
                ) && b.signatures() == self.signatures() && b.signers() == self.signers(),
            },
    {
        match file_name {
            None => Err("Invalid file name".to_owned()),
            Some(name) => Ok(self.add_file_content(name.to_owned(), content, mime_type)),
        }
    }

    /// Adds a data file.
    pub fn add_file_content(self, name: String, content: Vec<u8>, mime_type: &str) -> (r:
        DigiDocBuilder)
        ensures
            r.files() == self.files().push(
                FileView { uri: name@, mime_type: mime_type@, content: content@ },
            ),
            r.signatures() == self.signatures(),
            r.signers() == self.signers(),
    {
        let file = DigiDocFile { name, content, mime_type: mime_type.to_owned() };
        let mut r = self;
        r.files.push(file);
        assert(r.files() =~= self.files().push(file@));
        r
    }

    /// Adds a signature that was made elsewhere.
    pub fn add_signature(self, signature: DigiDocSignature) -> (r: DigiDocBuilder)
        ensures
            r.files() == self.files(),
            r.signatures() == self.signatures().push(signature),
            r.signers() == self.signers(),
    {
        let mut r = self;
        r.signatures.push(signature);
        r
    }

    /// How many signatures there are to be made.
    pub fn signer_count(&self) -> (r: usize)
        ensures
            r == self.signers().len(),
    {
        self.signers.len()
    }

    /// The `i`th signature to be made.
    pub fn signer_input(&self, i: usize) -> (r: &DigiDocSignerInput)
        requires
            i < self.signers().len(),
        ensures
            *r == self.signers()[i as int],
    {
        &self.signers[i]
    }

    /// The number, in the container, of the `i`th signature to be made: those that were made
    /// elsewhere come first.
    pub fn signer_number(&self, i: usize) -> (r: usize)
        requires
            i < self.signers().len(),
            self.signatures().len() + self.signers().len() <= usize::MAX,
        ensures
            r == self.signatures().len() + i,
    {
        self.signatures.len() + i
    }

    /// Builds the basic signature with the given number, and tells what to do next.
    pub fn build_xades_signature(&self, input: &DigiDocSignerInput, index: usize) -> (r: Result<
        SigningStep,
        String,
    >)
        ensures
            may_start(self.files(), input, index as nat, step_view(r)),
    {
        let data_files = borrow_files(&self.files);
        let claimed_roles = borrow_texts(&input.claimed_roles);
        let production_place = match &input.production_place {
            None => None,
            Some(p) => Some(
                XadesProductionPlace {
                    city: borrow_text(&p.city),
                    state_or_province: borrow_text(&p.state_or_province),
                    postal_code: borrow_text(&p.postal_code),
                    country_name: borrow_text(&p.country_name),
                },
            ),
        };
        let inputs = XadesSignatureInputs {
            signer: &input.signer,
            certificate_der: input.certificate_der.as_slice(),
            signing_time: input.signing_time,
            data_files: data_files.as_slice(),
            index,
            production_place,
            claimed_roles: claimed_roles.as_slice(),
        };
        let ghost v = inputs_of(self.files(), input, index as nat);
        assert(inputs@ == v);
        let bes = build_xades_basic_signature(&inputs);
        let ghost outcome = xades::bes_view(bes);
        let r = match bes {
            Err(e) => {
                let message = e.to_string();
                Err(concat2("xades signature build: ", message.as_str()))
            },
            Ok(bes) => match &input.tsa_url {
                None => Ok(SigningStep::Done(bes.xml)),
                Some(url) => Ok(SigningStep::Timestamp { url: url.clone(), bes }),
            },
        };
        proof {
            let tsa_url = document::optional_text(input.tsa_url);
            assert(step_view(r) == step_after_bes(tsa_url, outcome));
            match xades::prepared(v) {
                Err(e) => {},
                Ok(p) => {
                    assert(xades::may_build(&input.signer, v, p, outcome));
                },
            }
        }
        r
    }

    /// The documents of the signatures that were made elsewhere.
    fn template_xmls(&self) -> (r: Vec<String>)
        ensures
            r@.map_values(|xml: String| xml@) == template_documents(self.signatures()),
    {
        let ghost all = template_documents(self.signatures());
        let mut r: Vec<String> = Vec::new();
        let mut i: usize = 0;
        while i < self.signatures.len()
            invariant
                i <= self.signatures.len(),
                r.len() == i,
                all == template_documents(self.signatures@),
                forall|j: int| 0 <= j < i ==> (#[trigger] r[j])@ == all[j],
            decreases self.signatures.len() - i,
        {
            let xml = create_signature_xml(&self.signatures[i], i);
            r.push(xml);
            i += 1;
        }
        assert(r@.map_values(|xml: String| xml@) =~= all);
        r
    }

    /// Writes the manifest.
    pub fn create_manifest(&self) -> (r: String)
        ensures
            r@ == manifest_document(self.files()),
    {
        let ghost all = self.files();
        let mut entries = String::new();
        let mut i: usize = 0;
        while i < self.files.len()
            invariant
                i <= self.files.len(),
                all == self.files@.map_values(|f: DigiDocFile| f@),
                entries@ == manifest_entries(all.take(i as int)),
            decreases self.files.len() - i,
        {
            let entry = write_manifest_entry(
                self.files[i].name.as_str(),
                self.files[i].mime_type.as_str(),
            );
            entries.append(entry.as_str());
            proof {
                assert(all.take(i + 1).drop_last() =~= all.take(i as int));
                assert(all.take(i + 1).last() == self.files[i as int]@);
            }
            i += 1;
        }
        assert(all.take(i as int) =~= all);
        let mut content = write_manifest_entry("/", "application/vnd.etsi.asic-e+zip");
        content.append(entries.as_str());
        let attributes = write_attribute(
            "xmlns:manifest",
            "urn:oasis:names:tc:opendocument:xmlns:manifest:1.0",
        );
        let body = write_element("manifest:manifest", attributes.as_str(), content.as_str());
        concat2("<?xml version=\"1.0\" encoding=\"UTF-8\"?>\n", body.as_str())
    }

    /// Lays out the archive without the signatures that are still to be made.
    pub fn unsigned_entries(&self) -> (r: Vec<ContainerEntry>)
        ensures
            r@.map_values(|e: ContainerEntry| e@) == container_entries(
                self.files(),
                template_documents(self.signatures()),
            ),
    {
        let ghost files = self.files();
        let ghost documents = template_documents(self.signatures());
        let ghost all = container_entries(files, documents);
        let n = self.files.len();
        let mut entries: Vec<ContainerEntry> = Vec::new();
        entries.push(make_entry("mimetype".to_owned(), "application/vnd.etsi.asic-e+zip", false));
        let mut i: usize = 0;
        while i < self.files.len()
            invariant
                i <= self.files.len() == n,
                entries.len() == 1 + i,
                files == self.files@.map_values(|f: DigiDocFile| f@),
                all == container_entries(files, documents),
                forall|j: int| 0 <= j < 1 + i ==> (#[trigger] entries[j])@ == all[j],
            decreases self.files.len() - i,
        {
            let entry = ContainerEntry {
                name: self.files[i].name.clone(),
                content: copy_bytes(&self.files[i].content),
                compressed: true,
            };
            assert(all[1 + i] == file_entry(files[i as int]));
            entries.push(entry);
            i += 1;
        }
        let manifest = self.create_manifest();
        entries.push(make_entry("META-INF/manifest.xml".to_owned(), manifest.as_str(), true));
        assert(entries[1 + n]@ == all[1 + n]);
        let xmls = self.template_xmls();
        assert(forall|j: int| 0 <= j < xmls.len() ==> (#[trigger] xmls[j])@ == documents[j]) by {
            assert forall|j: int| 0 <= j < xmls.len() implies (#[trigger] xmls[j])@
                == documents[j] by {
                assert(xmls@.map_values(|xml: String| xml@)[j] == documents[j]);
            }
        }
        assert(xmls@.map_values(|xml: String| xml@).len() == xmls.len());
        let mut s: usize = 0;
        while s < xmls.len()
            invariant
                s <= xmls.len() == documents.len(),
                files.len() == n,
                entries.len() == 2 + n + s,
                all == container_entries(files, documents),
                forall|j: int| 0 <= j < xmls.len() ==> (#[trigger] xmls[j])@ == documents[j],
                forall|j: int| 0 <= j < 2 + n + s ==> (#[trigger] entries[j])@ == all[j],
            decreases xmls.len() - s,
        {
            entries.push(signature_file(s, xmls[s].as_str()));
            assert(all[2 + n + s] == signature_entry(s as nat, documents[s as int]));
            s += 1;
        }
        assert(entries@.map_values(|e: ContainerEntry| e@) =~= all);
        entries
    }

    /// Lays out the archive, given the documents of the signatures that were to be made, one for
    /// each signer.
    pub fn create_container(&self, signer_documents: &Vec<String>) -> (r: Vec<ContainerEntry>)
        requires
            signer_documents.len() == self.signers().len(),
        ensures
            r@.map_values(|e: ContainerEntry| e@) == container_entries(
                self.files(),
                template_documents(self.signatures()) + signer_documents@.map_values(
                    |xml: String| xml@,
                ),
            ),
    {
        let ghost first = template_documents(self.signatures());
        let ghost documents = first + signer_documents@.map_values(|xml: String| xml@);
        let ghost all = container_entries(self.files(), documents);
        let mut entries = self.unsigned_entries();
        let ghost unsigned = container_entries(self.files(), first);
        let ghost n = unsigned.len() as int;
        proof {
            assert(entries@.map_values(|e: ContainerEntry| e@).len() == entries.len());
            assert forall|j: int| 0 <= j < n implies (#[trigger] entries[j])@ == all[j] by {
                assert(entries@.map_values(|e: ContainerEntry| e@)[j] == entries[j]@);
                assert(unsigned[j] == all[j]);
            }
        }
        let mut k: usize = 0;
        while k < signer_documents.len()
            invariant
                k <= signer_documents.len(),
                first == template_documents(self.signatures()),
                documents == first + signer_documents@.map_values(|xml: String| xml@),
                all == container_entries(self.files(), documents),
                n == 2 + self.files().len() + first.len(),
                entries.len() == n + k,
                forall|j: int| 0 <= j < n + k ==> (#[trigger] entries[j])@ == all[j],
            decreases signer_documents.len() - k,
        {
            assert(self.files().len() == self.files.len());
            let number = entries.len() - 2 - self.files.len();
            entries.push(signature_file(number, signer_documents[k].as_str()));
            assert(documents[number as int] == signer_documents[k as int]@);
            assert(all[n + k] == signature_entry(number as nat, documents[number as int]));
            k += 1;
        }
        assert(entries@.map_values(|e: ContainerEntry| e@) =~= all);
        entries
    }
}

impl Default for DigiDocBuilder {
    fn default() -> (r: DigiDocBuilder)
        ensures
            r.files() == Seq::<FileView>::empty(),
            r.signatures() == Seq::<DigiDocSignature>::empty(),
            r.signers() == Seq::<DigiDocSignerInput>::empty(),
    {
        DigiDocBuilder::new()
    }
}

/// Puts a timestamp token into a basic signature, and tells what to do next.
pub fn continue_with_timestamp(
    input: &DigiDocSignerInput,
    bes: XadesBesResult,
    token: Result<Vec<u8>, SignatureError>,
) -> (r: Result<SigningStep, String>)
    ensures
        step_view(r) == step_after_timestamp(
            document::optional_text(input.ocsp_url),
            bes@,
            error::bytes_view(token),
        ),
{
    let token = match token {
        Ok(token) => token,
        Err(e) => {
            let message = e.to_string();
            return Err(concat2("TSA timestamp fetch: ", message.as_str()));
        },
    };
    let xml = match upgrade_xades_bes_to_t(&bes, token.as_slice()) {
        Ok(xml) => xml,
        Err(e) => {
            let message = e.to_string();
            return Err(concat2("xades-T upgrade: ", message.as_str()));
        },
    };
    match &input.ocsp_url {
        None => Ok(SigningStep::Done(xml)),
        Some(url) => Ok(
            SigningStep::Revocation {
                url: url.clone(),
                signature_id: bes.signature_id,
                t_level_xml: xml,
            },
        ),
    }
}

/// The issuer's certificate: the one that is given, or else the signer's own.
pub fn issuer_certificate(input: &DigiDocSignerInput) -> (r: &[u8])
    ensures
        r@ == issuer_of(input),
{
    match &input.issuer_cert_der {
        Some(der) => der.as_slice(),
        None => input.certificate_der.as_slice(),
    }
}

/// Puts the issuer's certificate and an OCSP response into a signature with a timestamp.
pub fn continue_with_revocation(
    input: &DigiDocSignerInput,
    signature_id: &str,
    t_level_xml: &str,
    response: Result<Vec<u8>, SignatureError>,
) -> (r: Result<SigningStep, String>)
    ensures
        step_view(r) == step_after_revocation(
            issuer_of(input),
            signature_id@,
            t_level_xml@,
            error::bytes_view(response),
        ),
{
    let response = match response {
        Ok(response) => response,
        Err(e) => {
            let message = e.to_string();
            return Err(concat2("OCSP fetch: ", message.as_str()));
        },
    };
    match upgrade_xades_t_to_lt(
        t_level_xml,
        signature_id,
        issuer_certificate(input),
        response.as_slice(),
    ) {
        Ok(xml) => Ok(SigningStep::Done(xml)),
        Err(e) => {
            let message = e.to_string();
            Err(concat2("xades-LT upgrade: ", message.as_str()))
        },
    }
}

fn borrow_files<'a>(files: &'a Vec<DigiDocFile>) -> (r: Vec<XadesDataFile<'a>>)
    ensures
        r@.map_values(|f: XadesDataFile<'a>| f@) == files@.map_values(|f: DigiDocFile| f@),
{
    let mut r: Vec<XadesDataFile<'a>> = Vec::new();
    let mut i: usize = 0;
    while i < files.len()
        invariant
            i <= files.len(),
            r.len() == i,
            forall|j: int| 0 <= j < i ==> (#[trigger] r[j])@ == files[j]@,
        decreases files.len() - i,
    {
        r.push(
            XadesDataFile {
                uri: files[i].name.as_str(),
                mime_type: files[i].mime_type.as_str(),
                content: files[i].content.as_slice(),
            },
        );
        i += 1;
    }
    assert(r@.map_values(|f: XadesDataFile<'a>| f@) =~= files@.map_values(|f: DigiDocFile| f@));
    r
}

fn borrow_texts<'a>(texts: &'a Vec<String>) -> (r: Vec<&'a str>)
    ensures
        r@.map_values(|t: &'a str| t@) == texts@.map_values(|t: String| t@),
{
    let mut r: Vec<&'a str> = Vec::new();
    let mut i: usize = 0;
    while i < texts.len()
        invariant
            i <= texts.len(),
            r.len() == i,
            forall|j: int| 0 <= j < i ==> (#[trigger] r[j])@ == texts[j]@,
        decreases texts.len() - i,
    {
        r.push(texts[i].as_str());
        i += 1;
    }
    assert(r@.map_values(|t: &'a str| t@) =~= texts@.map_values(|t: String| t@));
    r
}

fn copy_bytes(bytes: &Vec<u8>) -> (r: Vec<u8>)
    ensures
        r@ == bytes@,
{
    slice_to_vec(bytes.as_slice())
}

fn make_entry(name: String, text: &str, compressed: bool) -> (r: ContainerEntry)
    ensures
        r@ == (EntryView { name: name@, content: vstd::utf8::encode_utf8(text@), compressed }),
{
    ContainerEntry { name, content: slice_to_vec(text.as_bytes()), compressed }
}

/// The entry for the signature document with the given number.
pub fn signature_file(index: usize, xml: &str) -> (r: ContainerEntry)
    ensures
        r@ == signature_entry(index as nat, xml@),
{
    let number = decimal_text(index as u64);
    make_entry(concat3("META-INF/signatures", number.as_str(), ".xml"), xml, true)
}

fn write_manifest_entry(path: &str, media_type: &str) -> (r: String)
    ensures
        r@ == manifest_entry(path@, media_type@),
{
    let mut attributes = write_attribute("manifest:full-path", path);
    let media = write_attribute("manifest:media-type", media_type);
    attributes.append(media.as_str());
    let none = String::new();
    write_element("manifest:file-entry", attributes.as_str(), none.as_str())
}

/// Writes the document for a signature that was made elsewhere.
pub fn create_signature_xml(signature: &DigiDocSignature, index: usize) -> (r: String)
    ensures
        r@ == template_document(
            index as nat,
            signature.signature_value@,
            signature.certificate@,
            signature.signing_time@,
        ),
{
    let number = decimal_text(index as u64);
    let id = concat2("S", number.as_str());
    let properties_id = concat2("SP", number.as_str());
    let value = base64_encode(signature.signature_value.as_slice());
    let certificate = base64_encode(signature.certificate.as_slice());
    let time_text = signature.signing_time.to_rfc3339();
    let parts: Vec<&str> = vec![
        TEMPLATE_START,
        id.as_str(),
        TEMPLATE_AFTER_ID,
        properties_id.as_str(),
        TEMPLATE_AFTER_PROPERTIES_URI,
        id.as_str(),
        TEMPLATE_AFTER_VALUE_ID,
        value.as_str(),
        TEMPLATE_AFTER_VALUE,
        certificate.as_str(),
        TEMPLATE_AFTER_CERTIFICATE,
        id.as_str(),
        TEMPLATE_AFTER_TARGET,
        properties_id.as_str(),
        TEMPLATE_AFTER_PROPERTIES_ID,
        time_text.as_str(),
        TEMPLATE_END,
    ];
    assert(parts@.map_values(|part: &str| part@) =~= template_parts(
        index as nat,
        signature.signature_value@,
        signature.certificate@,
        signature.signing_time@,
    ));
    join(&parts)
}

/// The first entry of a container is the media type, and it alone is stored and not compressed.
pub proof fn law_media_type_comes_first(files: Seq<FileView>, documents: Seq<Seq<char>>)
    ensures
        ({
            let entries = container_entries(files, documents);
            &&& entries[0].name == "mimetype"@
            &&& entries[0].content == vstd::utf8::encode_utf8("application/vnd.etsi.asic-e+zip"@)
            &&& forall|i: int|
                0 <= i < entries.len() ==> ((#[trigger] entries[i]).compressed <==> i > 0)
        }),
{
    lemma_entries(files, documents);
}

/// A container with one more signature is the container without it and the entry for that signature,
/// so that a container can be written before its signatures are made.
pub proof fn law_signature_is_added_at_the_end(
    files: Seq<FileView>,
    documents: Seq<Seq<char>>,
    document: Seq<char>,
)
    ensures
        container_entries(files, documents.push(document)) == container_entries(
            files,
            documents,
        ).push(signature_entry(documents.len(), document)),
{
    assert(container_entries(files, documents.push(document)) =~= container_entries(
        files,
        documents,
    ).push(signature_entry(documents.len(), document)));
}

/// The data files stand in a container as they were added: behind the media type, in their order,
/// with their names and their bytes.
pub proof fn law_data_files_are_verbatim(files: Seq<FileView>, documents: Seq<Seq<char>>, i: int)
    requires
        0 <= i < files.len(),
    ensures
        container_entries(files, documents)[1 + i].name == files[i].uri,
        container_entries(files, documents)[1 + i].content == files[i].content,
{
    lemma_entries(files, documents);
}

/// A container holds the media type, the manifest, the data files and one document for each
/// signature, and nothing else. The documents come last, and their names count from zero.
pub proof fn law_one_document_for_each_signature(
    files: Seq<FileView>,
    documents: Seq<Seq<char>>,
    i: int,
)
    requires
        0 <= i < documents.len(),
    ensures
        container_entries(files, documents).len() == 2 + files.len() + documents.len(),
        container_entries(files, documents)[2 + files.len() + i].name == "META-INF/signatures"@
            + text::decimal(i as nat) + ".xml"@,
        container_entries(files, documents)[2 + files.len() + i].content
            == vstd::utf8::encode_utf8(documents[i]),
{
    lemma_entries(files, documents);
}

/// An entry whose name starts as those of signature documents do is one, unless it is a data file:
/// a container without signatures, and without a data file of such a name, has none.
pub proof fn law_no_document_without_a_signature(
    files: Seq<FileView>,
    documents: Seq<Seq<char>>,
    i: int,
)
    requires
        0 <= i < container_entries(files, documents).len(),
        "META-INF/signatures"@.is_prefix_of(container_entries(files, documents)[i].name),
    ensures
        i >= 2 + files.len() || 1 <= i <= files.len(),
{
    lemma_entries(files, documents);
    reveal_strlit("META-INF/signatures");
    reveal_strlit("META-INF/manifest.xml");
    reveal_strlit("mimetype");
    let start = "META-INF/signatures"@;
    let name = container_entries(files, documents)[i].name;
    assert(start[9] == name[9]);
}

/// The document for a signature that was made elsewhere holds the signature's id, its value and its
/// certificate in Base64, and its signing time.
pub proof fn law_template_holds_the_signature(
    index: nat,
    value: Seq<u8>,
    certificate: Seq<u8>,
    signing_time: (int, int),
)
    ensures
        ({
            let document = template_document(index, value, certificate, signing_time);
            let time_text = time::rfc3339_text(signing_time.0, signing_time.1);
            &&& text::holds(document, "S"@ + text::decimal(index))
            &&& text::holds(document, crypto::base64_text(value))
            &&& text::holds(document, crypto::base64_text(certificate))
            &&& text::holds(document, time_text)
        }),
{
    let parts = template_parts(index, value, certificate, signing_time);
    text::law_joined_holds_each_part(parts, 1);
    text::law_joined_holds_each_part(parts, 7);
    text::law_joined_holds_each_part(parts, 9);
    text::law_joined_holds_each_part(parts, 15);
}

/// No two signature documents of a container have the same name.
pub proof fn law_document_names_differ(i: nat, j: nat, a: Seq<char>, b: Seq<char>)
    requires
        i != j,
    ensures
        signature_entry(i, a).name != signature_entry(j, b).name,
{
    let first = signature_entry(i, a).name;
    let second = signature_entry(j, b).name;
    let start = "META-INF/signatures"@;
    let end = ".xml"@;
    if first == second {
        let n = first.len() - end.len();
        assert(first.subrange(start.len() as int, n) =~= text::decimal(i));
        assert(second.subrange(start.len() as int, n) =~= text::decimal(j));
        text::law_decimal_is_unique(i, j);
    }
}

/// The entries of a container have different names, if the data files do, and if none of them is
/// named like the media type or lies under `META-INF/`.
pub proof fn law_entry_names_differ(
    files: Seq<FileView>,
    documents: Seq<Seq<char>>,
    i: int,
    j: int,
)
    requires
        0 <= i < j < container_entries(files, documents).len(),
        have_free_names(files),
    ensures
        container_entries(files, documents)[i].name != container_entries(files, documents)[j].name,
{
    let entries = container_entries(files, documents);
    let n = files.len() as int;
    lemma_entries(files, documents);
    reveal_strlit("META-INF/signatures");
    reveal_strlit("META-INF/manifest.xml");
    reveal_strlit("META-INF/");
    reveal_strlit("mimetype");
    assert("META-INF/"@.is_prefix_of("META-INF/manifest.xml"@));
    assert("META-INF/"@.is_prefix_of("META-INF/signatures"@));
    assert forall|k: int| 2 + n <= k < entries.len() implies "META-INF/"@.is_prefix_of(
        #[trigger] entries[k].name,
    ) && entries[k].name[9] == 's' by {
        let name = entries[k].name;
        assert(name[9] == "META-INF/signatures"@[9]);
        assert(name.take(9) =~= "META-INF/signatures"@.take(9));
        assert("META-INF/"@ =~= name.take(9));
    }
    if i >= 2 + n {
        law_document_names_differ(
            (i - 2 - n) as nat,
            (j - 2 - n) as nat,
            documents[i - 2 - n],
            documents[j - 2 - n],
        );
    } else if i == 1 + n {
        assert("META-INF/manifest.xml"@[9] == 'm');
    } else if 1 <= i {
        assert(entries[i].name == files[i - 1].uri);
        if j <= n {
            assert(entries[j].name == files[j - 1].uri);
        }
    } else {
        assert("mimetype"@[0] == 'm' && "META-INF/"@[0] == 'M');
        if j <= n {
            assert(entries[j].name == files[j - 1].uri);
        } else if j > 1 + n {
            assert(entries[j].name[0] == "META-INF/"@[0]);
        }
    }
}

/// The content of the first entry, from `from` on, with the given name.
pub open spec fn entry_content(entries: Seq<EntryView>, name: Seq<char>, from: int) -> Option<
    Seq<u8>,
>
    decreases entries.len() - from,
{
    if from < 0 || from >= entries.len() {
        None
    } else if entries[from].name == name {
        Some(entries[from].content)
    } else {
        entry_content(entries, name, from + 1)
    }
}

/// Whether the files have different names, and none of them is named like the media type or lies
/// under `META-INF/`.
pub open spec fn have_free_names(files: Seq<FileView>) -> bool {
    &&& forall|a: int, b: int|
        #![trigger files[a].uri, files[b].uri]
        0 <= a < b < files.len() ==> files[a].uri != files[b].uri
    &&& forall|a: int|
        0 <= a < files.len() ==> (#[trigger] files[a]).uri != "mimetype"@
            && !"META-INF/"@.is_prefix_of(files[a].uri)
}

/// What a container holds is found by name: the name of an entry leads to its content.
pub proof fn law_entry_is_found_by_its_name(
    files: Seq<FileView>,
    documents: Seq<Seq<char>>,
    i: int,
)
    requires
        have_free_names(files),
        0 <= i < container_entries(files, documents).len(),
    ensures
        ({
            let entries = container_entries(files, documents);
            entry_content(entries, entries[i].name, 0) == Some(entries[i].content)
        }),
{
    lemma_entry_content(files, documents, i, 0);
}

proof fn lemma_entry_content(
    files: Seq<FileView>,
    documents: Seq<Seq<char>>,
    i: int,
    from: int,
)
    requires
        have_free_names(files),
        0 <= from <= i < container_entries(files, documents).len(),
    ensures
        ({
            let entries = container_entries(files, documents);
            entry_content(entries, entries[i].name, from) == Some(entries[i].content)
        }),
    decreases i - from,
{
    if from < i {
        law_entry_names_differ(files, documents, from, i);
        lemma_entry_content(files, documents, i, from + 1);
    }
}

/// A name that no entry has leads nowhere.
pub proof fn lemma_no_entry(entries: Seq<EntryView>, name: Seq<char>, from: int)
    requires
        0 <= from,
        forall|i: int| from <= i < entries.len() ==> (#[trigger] entries[i]).name != name,
    ensures
        entry_content(entries, name, from) is None,
    decreases entries.len() - from,
{
    if from < entries.len() {
        lemma_no_entry(entries, name, from + 1);
    }
}

/// What the manifest lists: the container itself, and each data file, with the media types.
pub open spec fn listed(files: Seq<FileView>) -> Seq<(Seq<char>, Seq<char>)> {
    seq![("/"@, "application/vnd.etsi.asic-e+zip"@)] + Seq::new(
        files.len(),
        |i: int| (files[i].uri, files[i].mime_type),
    )
}

/// No entry of a container is named like the container itself, if no data file is.
pub proof fn lemma_container_is_no_entry(files: Seq<FileView>, documents: Seq<Seq<char>>)
    requires
        forall|i: int| 0 <= i < files.len() ==> (#[trigger] files[i]).uri != "/"@,
    ensures
        entry_content(container_entries(files, documents), "/"@, 0) is None,
{
    let entries = container_entries(files, documents);
    let n = files.len() as int;
    lemma_entries(files, documents);
    reveal_strlit("/");
    reveal_strlit("mimetype");
    reveal_strlit("META-INF/manifest.xml");
    reveal_strlit("META-INF/signatures");
    assert forall|i: int| 0 <= i < entries.len() implies (#[trigger] entries[i]).name != "/"@ by {
        if 1 <= i <= n {
            assert(entries[i].name == files[i - 1].uri);
        } else {
            assert(entries[i].name.len() > 1);
        }
    }
    lemma_no_entry(entries, "/"@, 0);
}

/// The manifest lists every data file: the entry with the file's name and media type stands in it.
pub proof fn law_manifest_lists_every_file(files: Seq<FileView>, i: int)
    requires
        0 <= i < files.len(),
    ensures
        text::holds(
            manifest_document(files),
            manifest_entry(files[i].uri, files[i].mime_type),
        ),
{
    let entry = manifest_entry(files[i].uri, files[i].mime_type);
    let root = manifest_entry("/"@, "application/vnd.etsi.asic-e+zip"@);
    let tag = "manifest:manifest"@;
    let attributes = xml::attribute(
        "xmlns:manifest"@,
        "urn:oasis:names:tc:opendocument:xmlns:manifest:1.0"@,
    );
    let head = "<?xml version=\"1.0\" encoding=\"UTF-8\"?>\n"@;
    let inner = lemma_manifest_entries_hold(files, i);
    let entries = manifest_entries(files);
    xml::law_element_is_not_empty(
        "manifest:file-entry"@,
        xml::attribute("manifest:full-path"@, files[i].uri) + xml::attribute(
            "manifest:media-type"@,
            files[i].mime_type,
        ),
        seq![],
    );
    let before = root + entries.take(inner);
    let after = entries.skip(inner + entry.len());
    assert(before + entry + after =~= root + entries) by {
        assert(entries =~= entries.take(inner) + entries.subrange(inner, inner + entry.len())
            + after);
    }
    xml::lemma_element_around(tag, attributes, before, entry, after);
    let left = xml::start_tag(tag, attributes) + before;
    let right = after + xml::end_tag(tag);
    let at = (head.len() + left.len()) as int;
    assert(manifest_document(files) == head + (left + entry + right));
    assert(manifest_document(files).subrange(at, at + entry.len()) =~= entry);
    assert(text::occurs_at(manifest_document(files), entry, at));
}

/// A signature gets a timestamp only from a named authority, and revocation data only on top of a
/// timestamp: the first step asks for no OCSP response, and without an authority it asks for
/// nothing, whether an OCSP responder is named or not.
pub proof fn law_first_step_asks_at_most_for_a_timestamp(
    files: Seq<FileView>,
    input: &DigiDocSignerInput,
    index: nat,
    outcome: Result<StepView, Seq<char>>,
)
    requires
        may_start(files, input, index, outcome),
    ensures
        outcome matches Ok(step) ==> !(step is Revocation) && (step is Timestamp <==> input.tsa_url
            is Some),
{
}

/// A signature that gets a timestamp and revocation data goes through three steps. What comes out
/// is the basic signature, upgraded first with the timestamp and then with the issuer's certificate
/// and the OCSP response.
pub proof fn law_steps_build_on_each_other(
    bes: BesView,
    ocsp_url: Seq<char>,
    issuer: Seq<u8>,
    token: Seq<u8>,
    response: Seq<u8>,
    t_level: Seq<char>,
    lt_level: Seq<char>,
)
    requires
        xades::upgraded_to_t(bes.xml, bes.signature_id, token) == Ok::<Seq<char>, ErrorView>(
            t_level,
        ),
        xades::upgraded_to_lt(t_level, bes.signature_id, issuer, response) == Ok::<
            Seq<char>,
            ErrorView,
        >(lt_level),
    ensures
        step_after_timestamp(Some(ocsp_url), bes, Ok(token)) matches Ok(step) && step matches
            StepView::Revocation { url, signature_id, t_level_xml } && url == ocsp_url
            && step_after_revocation(issuer, signature_id, t_level_xml, Ok(response)) == Ok::<
            StepView,
            Seq<char>,
        >(StepView::Done(lt_level)),
{
}

proof fn lemma_entries(files: Seq<FileView>, documents: Seq<Seq<char>>)
    ensures
        ({
            let entries = container_entries(files, documents);
            let n = files.len() as int;
            &&& entries.len() == 2 + n + documents.len()
            &&& entries[0].name == "mimetype"@
            &&& entries[0].content == vstd::utf8::encode_utf8("application/vnd.etsi.asic-e+zip"@)
            &&& !entries[0].compressed
            &&& forall|i: int| 1 <= i <= n ==> #[trigger] entries[i] == file_entry(files[i - 1])
            &&& entries[1 + n].name == "META-INF/manifest.xml"@
            &&& entries[1 + n].compressed
            &&& forall|i: int|
                2 + n <= i < entries.len() ==> #[trigger] entries[i] == signature_entry(
                    (i - 2 - n) as nat,
                    documents[i - 2 - n],
                )
        }),
{
}

proof fn lemma_manifest_entries_hold(files: Seq<FileView>, i: int) -> (at: int)
    requires
        0 <= i < files.len(),
    ensures
        text::occurs_at(
            manifest_entries(files),
            manifest_entry(files[i].uri, files[i].mime_type),
            at,
        ),
    decreases files.len(),
{
    let entry = manifest_entry(files[i].uri, files[i].mime_type);
    let before = manifest_entries(files.drop_last());
    let all = manifest_entries(files);
    if i == files.len() - 1 {
        let at = before.len() as int;
        assert(all.subrange(at, at + entry.len()) =~= entry);
        at
    } else {
        let at = lemma_manifest_entries_hold(files.drop_last(), i);
        assert(all.subrange(at, at + entry.len()) =~= before.subrange(at, at + entry.len()));
        at
    }
}

} // verus!
