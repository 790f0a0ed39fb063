//! What the signature documents say that this library writes.

use vstd::prelude::*;

use super::reading::Mark;
use super::xades::{BesView, FileView, InputsView, PlaceView, PreparedView};
use super::{document, reading, xades, xml, ReferenceParts, SignedInfoParts, Signer};
use crate::certificate::{self, CertificateView};
use crate::error::ErrorView;
use crate::{crypto, text, time};

verus! {

/// What the transforms of a reference say: the algorithms, in their order.
pub open spec fn transforms_say(algorithms: Option<Seq<Seq<char>>>) -> Seq<Mark> {
    match algorithms {
        None => seq![],
        Some(list) => reading::around(
            "ds:Transforms"@,
            reading::none(),
            list.map_values(|uri: Seq<char>| reading::algorithm("ds:Transform"@, uri)).flatten(),
        ),
    }
}

/// What a reference says: what it names, its transforms, and the digest with its method.
pub open spec fn reference_says(r: ReferenceParts) -> Seq<Mark> {
    reading::around(
        "ds:Reference"@,
        xml::optional_attribute("Id"@, r.id) + xml::optional_attribute("Type"@, r.reference_type)
            + xml::attribute("URI"@, r.uri),
        transforms_say(r.transforms) + reading::algorithm("ds:DigestMethod"@, r.digest_method)
            + reading::says("ds:DigestValue"@, r.digest_value),
    )
}

/// A `ds:Transforms` element names each algorithm, in their order.
pub proof fn law_transforms_name_their_algorithms(algorithms: Option<Seq<Seq<char>>>)
    ensures
        reading::is_markup(super::transforms_element(algorithms)),
        reading::marks(super::transforms_element(algorithms)) == transforms_say(algorithms),
{
    if let Some(list) = algorithms {
        lemma_transforms(list);
        reading::lemma_signature_names();
        reading::lemma_plain_element("ds:Transforms"@, super::transform_elements(list));
    }
}

proof fn lemma_transforms(list: Seq<Seq<char>>)
    ensures
        reading::is_markup(super::transform_elements(list)),
        reading::marks(super::transform_elements(list)) == list.map_values(
            |uri: Seq<char>| reading::algorithm("ds:Transform"@, uri),
        ).flatten(),
    decreases list.len(),
{
    let f = |uri: Seq<char>| reading::algorithm("ds:Transform"@, uri);
    if list.len() > 0 {
        let before = list.drop_last();
        lemma_transforms(before);
        reading::lemma_signature_names();
        reading::lemma_algorithm_element("ds:Transform"@, list.last());
        reading::lemma_marks_in_a_row(
            super::transform_elements(before),
            xml::algorithm_element("ds:Transform"@, list.last()),
        );
        before.map_values(f).lemma_flatten_push(f(list.last()));
        assert(list.map_values(f) =~= before.map_values(f).push(f(list.last())));
    } else {
        assert(list.map_values(f).flatten() =~= Seq::<Mark>::empty());
    }
}

/// A `ds:Reference` element says what the reference consists of.
pub proof fn law_reference_says_its_parts(r: ReferenceParts)
    ensures
        reading::is_markup(super::reference_element(r)),
        reading::marks(super::reference_element(r)) == reference_says(r),
{
    let attributes = xml::optional_attribute("Id"@, r.id) + xml::optional_attribute(
        "Type"@,
        r.reference_type,
    ) + xml::attribute("URI"@, r.uri);
    let transforms = super::transforms_element(r.transforms);
    let method = xml::algorithm_element("ds:DigestMethod"@, r.digest_method);
    let value = xml::text_element("ds:DigestValue"@, r.digest_value);
    reading::lemma_attribute_names();
    reading::lemma_signature_names();
    reading::law_optional_attribute("Id"@, r.id);
    reading::law_optional_attribute("Type"@, r.reference_type);
    reading::lemma_attribute("URI"@, r.uri);
    reading::lemma_attributes_in_a_row(
        xml::optional_attribute("Id"@, r.id),
        xml::optional_attribute("Type"@, r.reference_type),
    );
    reading::lemma_attributes_in_a_row(
        xml::optional_attribute("Id"@, r.id) + xml::optional_attribute("Type"@, r.reference_type),
        xml::attribute("URI"@, r.uri),
    );
    law_transforms_name_their_algorithms(r.transforms);
    reading::lemma_algorithm_element("ds:DigestMethod"@, r.digest_method);
    reading::lemma_text_element("ds:DigestValue"@, r.digest_value);
    reading::lemma_marks_in_a_row(transforms, method);
    reading::lemma_marks_in_a_row(transforms + method, value);
    reading::law_element_holds_its_content(
        "ds:Reference"@,
        attributes,
        transforms + method + value,
    );
}

proof fn lemma_references(references: Seq<ReferenceParts>)
    ensures
        reading::is_markup(super::reference_elements(references)),
        reading::marks(super::reference_elements(references)) == references.map_values(
            |r: ReferenceParts| reference_says(r),
        ).flatten(),
    decreases references.len(),
{
    let f = |r: ReferenceParts| reference_says(r);
    if references.len() > 0 {
        let before = references.drop_last();
        lemma_references(before);
        law_reference_says_its_parts(references.last());
        reading::lemma_marks_in_a_row(
            super::reference_elements(before),
            super::reference_element(references.last()),
        );
        before.map_values(f).lemma_flatten_push(f(references.last()));
        assert(references.map_values(f) =~= before.map_values(f).push(f(references.last())));
    } else {
        assert(references.map_values(f).flatten() =~= Seq::<Mark>::empty());
    }
}

/// What signed information says: its two methods and its references, in their order.
pub open spec fn signed_info_says(info: SignedInfoParts) -> Seq<Mark> {
    reading::around(
        "ds:SignedInfo"@,
        xml::optional_attribute("xmlns:asic"@, info.xmlns_asic) + xml::optional_attribute(
            "xmlns:ds"@,
            info.xmlns_ds,
        ) + xml::optional_attribute("xmlns:xades"@, info.xmlns_xades),
        reading::algorithm("ds:CanonicalizationMethod"@, info.canonicalization_method)
            + reading::algorithm("ds:SignatureMethod"@, info.signature_method)
            + info.references.map_values(|r: ReferenceParts| reference_says(r)).flatten(),
    )
}

/// A `ds:SignedInfo` element says what the signed information consists of, each reference in its
/// place.
pub proof fn law_signed_info_says_its_parts(info: SignedInfoParts)
    ensures
        reading::is_markup(super::signed_info_element(info)),
        super::signed_info_element(info).len() > 0,
        reading::marks(super::signed_info_element(info)) == signed_info_says(info),
{
    let asic = xml::optional_attribute("xmlns:asic"@, info.xmlns_asic);
    let ds = xml::optional_attribute("xmlns:ds"@, info.xmlns_ds);
    let xades = xml::optional_attribute("xmlns:xades"@, info.xmlns_xades);
    let canonicalization = xml::algorithm_element(
        "ds:CanonicalizationMethod"@,
        info.canonicalization_method,
    );
    let method = xml::algorithm_element("ds:SignatureMethod"@, info.signature_method);
    let references = super::reference_elements(info.references);
    reading::lemma_attribute_names();
    reading::lemma_signature_names();
    reading::law_optional_attribute("xmlns:asic"@, info.xmlns_asic);
    reading::law_optional_attribute("xmlns:ds"@, info.xmlns_ds);
    reading::law_optional_attribute("xmlns:xades"@, info.xmlns_xades);
    reading::lemma_attributes_in_a_row(asic, ds);
    reading::lemma_attributes_in_a_row(asic + ds, xades);
    reading::lemma_algorithm_element("ds:CanonicalizationMethod"@, info.canonicalization_method);
    reading::lemma_algorithm_element("ds:SignatureMethod"@, info.signature_method);
    lemma_references(info.references);
    reading::lemma_marks_in_a_row(canonicalization, method);
    reading::lemma_marks_in_a_row(canonicalization + method, references);
    reading::law_element_holds_its_content(
        "ds:SignedInfo"@,
        asic + ds + xades,
        canonicalization + method + references,
    );
    xml::law_element_is_not_empty(
        "ds:SignedInfo"@,
        asic + ds + xades,
        canonicalization + method + references,
    );
}

/// The declarations of the three namespaces, in a start tag.
pub open spec fn three_namespaces() -> Seq<char> {
    xml::attribute("xmlns:asic"@, "http://uri.etsi.org/02918/v1.2.1#"@) + xml::attribute(
        "xmlns:ds"@,
        "http://www.w3.org/2000/09/xmldsig#"@,
    ) + xml::attribute("xmlns:xades"@, "http://uri.etsi.org/01903/v1.3.2#"@)
}

proof fn lemma_namespaces()
    ensures
        reading::are_attributes(three_namespaces()),
        xades::namespaces() == three_namespaces(),
{
    reading::lemma_attribute_names();
    reading::lemma_attribute("xmlns:asic"@, "http://uri.etsi.org/02918/v1.2.1#"@);
    reading::lemma_attribute("xmlns:ds"@, "http://www.w3.org/2000/09/xmldsig#"@);
    reading::lemma_attribute("xmlns:xades"@, "http://uri.etsi.org/01903/v1.3.2#"@);
    reading::lemma_attributes_in_a_row(
        xml::attribute("xmlns:asic"@, "http://uri.etsi.org/02918/v1.2.1#"@),
        xml::attribute("xmlns:ds"@, "http://www.w3.org/2000/09/xmldsig#"@),
    );
    reading::lemma_attributes_in_a_row(
        xml::attribute("xmlns:asic"@, "http://uri.etsi.org/02918/v1.2.1#"@) + xml::attribute(
            "xmlns:ds"@,
            "http://www.w3.org/2000/09/xmldsig#"@,
        ),
        xml::attribute("xmlns:xades"@, "http://uri.etsi.org/01903/v1.3.2#"@),
    );
}

/// The signing certificate is named by its own SHA-256 digest, its issuer's name and its serial
/// number.
pub proof fn law_signing_certificate_is_named(
    certificate: Seq<u8>,
    issuer: Seq<char>,
    serial: Seq<char>,
)
    ensures
        reading::is_markup(xades::certificate_element(certificate, issuer, serial)),
        reading::marks(xades::certificate_element(certificate, issuer, serial))
            == reading::around(
            "xades:SigningCertificate"@,
            reading::none(),
            reading::around(
                "xades:Cert"@,
                reading::none(),
                reading::around(
                    "xades:CertDigest"@,
                    reading::none(),
                    reading::algorithm(
                        "ds:DigestMethod"@,
                        "http://www.w3.org/2001/04/xmlenc#sha256"@,
                    ) + reading::says(
                        "ds:DigestValue"@,
                        crypto::base64_text(crypto::sha256_digest(certificate)),
                    ),
                ) + reading::around(
                    "xades:IssuerSerial"@,
                    reading::none(),
                    reading::says("ds:X509IssuerName"@, issuer) + reading::says(
                        "ds:X509SerialNumber"@,
                        serial,
                    ),
                ),
            ),
        ),
{
    let method = xml::algorithm_element(
        "ds:DigestMethod"@,
        "http://www.w3.org/2001/04/xmlenc#sha256"@,
    );
    let value = xml::text_element(
        "ds:DigestValue"@,
        crypto::base64_text(crypto::sha256_digest(certificate)),
    );
    let name = xml::text_element("ds:X509IssuerName"@, issuer);
    let number = xml::text_element("ds:X509SerialNumber"@, serial);
    let digest = xml::element("xades:CertDigest"@, seq![], method + value);
    let both = xml::element("xades:IssuerSerial"@, seq![], name + number);
    reading::lemma_signature_names();
    reading::lemma_property_names();
    reading::lemma_algorithm_element(
        "ds:DigestMethod"@,
        "http://www.w3.org/2001/04/xmlenc#sha256"@,
    );
    reading::lemma_text_element(
        "ds:DigestValue"@,
        crypto::base64_text(crypto::sha256_digest(certificate)),
    );
    reading::lemma_text_element("ds:X509IssuerName"@, issuer);
    reading::lemma_text_element("ds:X509SerialNumber"@, serial);
    reading::lemma_marks_in_a_row(method, value);
    reading::lemma_marks_in_a_row(name, number);
    reading::lemma_plain_element("xades:CertDigest"@, method + value);
    reading::lemma_plain_element("xades:IssuerSerial"@, name + number);
    reading::lemma_marks_in_a_row(digest, both);
    reading::lemma_plain_element("xades:Cert"@, digest + both);
    reading::lemma_plain_element(
        "xades:SigningCertificate"@,
        xml::element("xades:Cert"@, seq![], digest + both),
    );
}

/// What an optional part of a place says.
pub open spec fn part_says(name: Seq<char>, part: Option<Seq<char>>) -> Seq<Mark> {
    match part {
        Some(text) => reading::says(name, text),
        None => seq![],
    }
}

proof fn lemma_part(name: Seq<char>, part: Option<Seq<char>>)
    requires
        reading::is_name(name),
    ensures
        reading::is_markup(xml::optional_text_element(name, part)),
        reading::marks(xml::optional_text_element(name, part)) == part_says(name, part),
{
    reading::law_optional_text_element(name, part);
    if part is None {
        assert(reading::marks(xml::optional_text_element(name, part)) =~= Seq::<Mark>::empty());
    }
}

/// What the signature says of where it was made: the parts that are given.
pub open spec fn place_says(place: Option<PlaceView>) -> Seq<Mark> {
    match place {
        None => seq![],
        Some(p) => reading::around(
            "xades:SignatureProductionPlace"@,
            reading::none(),
            part_says("xades:City"@, p.city) + part_says(
                "xades:StateOrProvince"@,
                p.state_or_province,
            ) + part_says("xades:PostalCode"@, p.postal_code) + part_says(
                "xades:CountryName"@,
                p.country_name,
            ),
        ),
    }
}

/// A place is said part by part, under the names that go with them.
pub proof fn law_place_is_said(place: Option<PlaceView>)
    ensures
        reading::is_markup(xades::place_element(place)),
        reading::marks(xades::place_element(place)) == place_says(place),
{
    if let Some(p) = place {
        let city = xml::optional_text_element("xades:City"@, p.city);
        let state = xml::optional_text_element("xades:StateOrProvince"@, p.state_or_province);
        let code = xml::optional_text_element("xades:PostalCode"@, p.postal_code);
        let country = xml::optional_text_element("xades:CountryName"@, p.country_name);
        reading::lemma_property_names();
        lemma_part("xades:City"@, p.city);
        lemma_part("xades:StateOrProvince"@, p.state_or_province);
        lemma_part("xades:PostalCode"@, p.postal_code);
        lemma_part("xades:CountryName"@, p.country_name);
        reading::lemma_marks_in_a_row(city, state);
        reading::lemma_marks_in_a_row(city + state, code);
        reading::lemma_marks_in_a_row(city + state + code, country);
        reading::lemma_plain_element(
            "xades:SignatureProductionPlace"@,
            city + state + code + country,
        );
    }
}

/// What the signature says of the roles that are claimed, in their order.
pub open spec fn roles_say(roles: Seq<Seq<char>>) -> Seq<Mark> {
    if roles.len() == 0 {
        seq![]
    } else {
        reading::around(
            "xades:SignerRole"@,
            reading::none(),
            reading::around(
                "xades:ClaimedRoles"@,
                reading::none(),
                roles.map_values(|role: Seq<char>| reading::says("xades:ClaimedRole"@, role)).flatten(),
            ),
        )
    }
}

proof fn lemma_roles(roles: Seq<Seq<char>>)
    ensures
        reading::is_markup(xades::role_elements(roles)),
        reading::marks(xades::role_elements(roles)) == roles.map_values(
            |role: Seq<char>| reading::says("xades:ClaimedRole"@, role),
        ).flatten(),
    decreases roles.len(),
{
    let f = |role: Seq<char>| reading::says("xades:ClaimedRole"@, role);
    if roles.len() > 0 {
        let before = roles.drop_last();
        lemma_roles(before);
        reading::lemma_property_names();
        reading::lemma_text_element("xades:ClaimedRole"@, roles.last());
        reading::lemma_marks_in_a_row(
            xades::role_elements(before),
            xml::text_element("xades:ClaimedRole"@, roles.last()),
        );
        before.map_values(f).lemma_flatten_push(f(roles.last()));
        assert(roles.map_values(f) =~= before.map_values(f).push(f(roles.last())));
    } else {
        assert(roles.map_values(f).flatten() =~= Seq::<Mark>::empty());
    }
}

/// Every role that is claimed is said, in their order.
pub proof fn law_roles_are_said(roles: Seq<Seq<char>>)
    ensures
        reading::is_markup(xades::roles_element(roles)),
        reading::marks(xades::roles_element(roles)) == roles_say(roles),
{
    if roles.len() > 0 {
        lemma_roles(roles);
        reading::lemma_property_names();
        reading::lemma_plain_element("xades:ClaimedRoles"@, xades::role_elements(roles));
        reading::lemma_plain_element(
            "xades:SignerRole"@,
            xml::element("xades:ClaimedRoles"@, seq![], xades::role_elements(roles)),
        );
    }
}

/// The id of the reference to the `i`th file of the signature with the given number.
pub open spec fn id_of_file(index: nat, i: nat) -> Seq<char> {
    "S"@ + text::decimal(index) + "-RefId"@ + text::decimal(i)
}

/// What the signature says of the `i`th file: its media type, and which reference it goes with.
pub open spec fn format_says(index: nat, i: int, media_type: Seq<char>) -> Seq<Mark> {
    reading::around(
        "xades:DataObjectFormat"@,
        xml::attribute("ObjectReference"@, "#"@ + id_of_file(index, i as nat)),
        reading::says("xades:MimeType"@, media_type),
    )
}

/// Every file's media type is said, in their order, with the reference to the file.
pub proof fn law_media_types_are_said(index: nat, files: Seq<FileView>)
    ensures
        reading::is_markup(xades::format_elements(index, files)),
        reading::marks(xades::format_elements(index, files)) == Seq::new(
            files.len(),
            |i: int| format_says(index, i, files[i].mime_type),
        ).flatten(),
    decreases files.len(),
{
    let all = Seq::new(files.len(), |i: int| format_says(index, i, files[i].mime_type));
    if files.len() > 0 {
        let before = files.drop_last();
        let n = files.len() - 1;
        let first = Seq::new(before.len(), |i: int| format_says(index, i, before[i].mime_type));
        let reference = "#"@ + id_of_file(index, n as nat);
        let media = xml::text_element("xades:MimeType"@, files.last().mime_type);
        law_media_types_are_said(index, before);
        reading::lemma_property_names();
        reading::lemma_attribute_names();
        reading::lemma_attribute("ObjectReference"@, reference);
        reading::lemma_text_element("xades:MimeType"@, files.last().mime_type);
        reading::law_element_holds_its_content(
            "xades:DataObjectFormat"@,
            xml::attribute("ObjectReference"@, reference),
            media,
        );
        reading::lemma_marks_in_a_row(
            xades::format_elements(index, before),
            xml::element(
                "xades:DataObjectFormat"@,
                xml::attribute("ObjectReference"@, reference),
                media,
            ),
        );
        first.lemma_flatten_push(format_says(index, n, files.last().mime_type));
        assert(all =~= first.push(format_says(index, n, files.last().mime_type)));
    } else {
        assert(all.flatten() =~= Seq::<Mark>::empty());
    }
}

/// What the signed properties say: the signing time, the signing certificate by its digest, its
/// issuer's name and its serial number, the place, the roles, and each file's media type.
pub open spec fn properties_say(v: InputsView, c: CertificateView) -> Seq<Mark> {
    reading::around(
        "xades:SignedProperties"@,
        three_namespaces() + xml::attribute(
            "Id"@,
            "SP"@ + text::decimal(v.index) + "-SignedProperties"@,
        ),
        reading::around(
            "xades:SignedSignatureProperties"@,
            reading::none(),
            reading::says(
                "xades:SigningTime"@,
                time::rfc3339_text(v.signing_time.0, v.signing_time.1),
            ) + reading::around(
                "xades:SigningCertificate"@,
                reading::none(),
                reading::around(
                    "xades:Cert"@,
                    reading::none(),
                    reading::around(
                        "xades:CertDigest"@,
                        reading::none(),
                        reading::algorithm(
                            "ds:DigestMethod"@,
                            "http://www.w3.org/2001/04/xmlenc#sha256"@,
                        ) + reading::says(
                            "ds:DigestValue"@,
                            crypto::base64_text(crypto::sha256_digest(v.certificate)),
                        ),
                    ) + reading::around(
                        "xades:IssuerSerial"@,
                        reading::none(),
                        reading::says("ds:X509IssuerName"@, c.issuer) + reading::says(
                            "ds:X509SerialNumber"@,
                            c.serial,
                        ),
                    ),
                ),
            ) + place_says(v.place) + roles_say(v.roles),
        ) + reading::around(
            "xades:SignedDataObjectProperties"@,
            reading::none(),
            Seq::new(
                v.files.len(),
                |i: int| format_says(v.index, i, v.files[i].mime_type),
            ).flatten(),
        ),
    )
}

proof fn lemma_properties(v: InputsView, c: CertificateView)
    ensures
        reading::is_markup(xades::signed_properties_element(v, c)),
        xades::signed_properties_element(v, c).len() > 0,
        reading::marks(xades::signed_properties_element(v, c)) == properties_say(v, c),
{
    let id = "SP"@ + text::decimal(v.index) + "-SignedProperties"@;
    let moment = xml::text_element(
        "xades:SigningTime"@,
        time::rfc3339_text(v.signing_time.0, v.signing_time.1),
    );
    let cert = xades::certificate_element(v.certificate, c.issuer, c.serial);
    let place = xades::place_element(v.place);
    let roles = xades::roles_element(v.roles);
    let formats = xades::format_elements(v.index, v.files);
    let signature_part = xml::element(
        "xades:SignedSignatureProperties"@,
        seq![],
        moment + cert + place + roles,
    );
    let data_part = xml::element("xades:SignedDataObjectProperties"@, seq![], formats);
    let attributes = three_namespaces() + xml::attribute("Id"@, id);
    reading::lemma_property_names();
    reading::lemma_attribute_names();
    lemma_namespaces();
    reading::lemma_attribute("Id"@, id);
    reading::lemma_attributes_in_a_row(three_namespaces(), xml::attribute("Id"@, id));
    reading::lemma_text_element(
        "xades:SigningTime"@,
        time::rfc3339_text(v.signing_time.0, v.signing_time.1),
    );
    law_signing_certificate_is_named(v.certificate, c.issuer, c.serial);
    law_place_is_said(v.place);
    law_roles_are_said(v.roles);
    law_media_types_are_said(v.index, v.files);
    reading::lemma_marks_in_a_row(moment, cert);
    reading::lemma_marks_in_a_row(moment + cert, place);
    reading::lemma_marks_in_a_row(moment + cert + place, roles);
    reading::lemma_plain_element(
        "xades:SignedSignatureProperties"@,
        moment + cert + place + roles,
    );
    reading::lemma_plain_element("xades:SignedDataObjectProperties"@, formats);
    reading::lemma_marks_in_a_row(signature_part, data_part);
    reading::law_element_holds_its_content(
        "xades:SignedProperties"@,
        attributes,
        signature_part + data_part,
    );
    xml::law_element_is_not_empty(
        "xades:SignedProperties"@,
        attributes,
        signature_part + data_part,
    );
}

/// A reference to `uri` with a SHA-256 digest and no transforms.
pub open spec fn is_sha256_reference(
    r: ReferenceParts,
    id: Seq<char>,
    kind: Option<Seq<char>>,
    uri: Seq<char>,
    data: Seq<u8>,
) -> bool {
    &&& r.id == Some(id)
    &&& r.reference_type == kind
    &&& r.uri == uri
    &&& r.transforms is None
    &&& r.digest_method == "http://www.w3.org/2001/04/xmlenc#sha256"@
    &&& r.digest_value == crypto::base64_text(crypto::sha256_digest(data))
}

/// What is signed covers the files and the signed properties: the signed information has a reference
/// to each file, in their order, with its SHA-256 digest, and one to the signed properties with the
/// digest of their canonical form, and no others. The signed properties are about the certificate, the
/// files and the circumstances that were given. What the signer signs is the canonical form of the
/// signed information.
pub proof fn law_what_is_signed_covers_the_inputs(v: InputsView, p: PreparedView)
    requires
        xades::prepared(v) == Ok::<PreparedView, ErrorView>(p),
    ensures
        certificate::x509_certificate(v.certificate) matches Ok(c) && reading::marks(
            p.signed_properties,
        ) == properties_say(v, c),
        document::canonical_document(vstd::utf8::encode_utf8(p.signed_properties)) matches Ok(
            properties,
        ) && is_sha256_reference(
            p.signed_info.references.last(),
            "S"@ + text::decimal(v.index) + "-SignedPropertiesRef"@,
            Some("http://uri.etsi.org/01903#SignedProperties"@),
            "#SP"@ + text::decimal(v.index) + "-SignedProperties"@,
            properties,
        ),
        p.signed_info.references.len() == v.files.len() + 1,
        forall|i: int|
            0 <= i < v.files.len() ==> is_sha256_reference(
                #[trigger] p.signed_info.references[i],
                id_of_file(v.index, i as nat),
                None,
                v.files[i].uri,
                v.files[i].content,
            ),
        p.signed_info.signature_method == v.method,
        p.signed_info.canonicalization_method
            == "http://www.w3.org/TR/2001/REC-xml-c14n-20010315"@,
        p.signed_info.xmlns_asic == Some("http://uri.etsi.org/02918/v1.2.1#"@),
        p.signed_info.xmlns_ds == Some("http://www.w3.org/2000/09/xmldsig#"@),
        p.signed_info.xmlns_xades == Some("http://uri.etsi.org/01903/v1.3.2#"@),
        exists|text: Seq<char>|
            #[trigger] reading::marks(text) == signed_info_says(p.signed_info)
                && document::canonical_document(vstd::utf8::encode_utf8(text)) == Ok::<
                Seq<u8>,
                Seq<char>,
            >(p.canonical_info),
{
    reveal(xades::prepared);
    let c = certificate::x509_certificate(v.certificate)->Ok_0;
    lemma_properties(v, c);
    law_signed_info_says_its_parts(p.signed_info);
    assert("#SP"@ =~= "#"@ + "SP"@) by {
        reveal_strlit("#SP");
        reveal_strlit("#");
        reveal_strlit("SP");
    }
    assert("#SP"@ + text::decimal(v.index) + "-SignedProperties"@ =~= "#"@ + ("SP"@ + text::decimal(
        v.index,
    ) + "-SignedProperties"@));
    let text = super::signed_info_element(p.signed_info);
    assert(reading::marks(text) == signed_info_says(p.signed_info));
}

/// Preparing a signature fails just where the certificate cannot be parsed, or the signed properties
/// or the signed information have no canonical form; the error says which.
pub proof fn law_preparing_fails_for_a_reason(v: InputsView, e: ErrorView)
    requires
        xades::prepared(v) == Err::<PreparedView, ErrorView>(e),
    ensures
        match certificate::x509_certificate(v.certificate) {
            Err(message) => e == ErrorView::GeneralError(
                "failed to parse certificate DER: "@ + message,
            ),
            Ok(c) => exists|text: Seq<char>|
                (document::canonical_document(vstd::utf8::encode_utf8(text)) matches Err(message)
                    && e == ErrorView::CanonicalizationError(message)) && (#[trigger] reading::marks(
                    text,
                ) == properties_say(v, c) || reading::marks(text).first() == reading::tag(
                    "ds:SignedInfo"@ + three_namespaces(),
                ).first()),
        },
{
    reveal(xades::prepared);
    if let Ok(c) = certificate::x509_certificate(v.certificate) {
        let properties = xades::signed_properties_element(v, c);
        lemma_properties(v, c);
        match document::canonical_document(xades::utf8(properties)) {
            Err(message) => {
                assert(e == ErrorView::CanonicalizationError(message));
            },
            Ok(canonical) => {
                let info = xades::signed_info_of(v, canonical);
                let text = super::signed_info_element(info);
                law_signed_info_says_its_parts(info);
                reading::law_optional_attribute("xmlns:asic"@, info.xmlns_asic);
                reading::law_optional_attribute("xmlns:ds"@, info.xmlns_ds);
                reading::law_optional_attribute("xmlns:xades"@, info.xmlns_xades);
                assert(reading::marks(text)[0] == reading::tag(
                    "ds:SignedInfo"@ + three_namespaces(),
                )[0]);
                let message = document::canonical_document(xades::utf8(text))->Err_0;
                assert(e == ErrorView::CanonicalizationError(message));
            },
        }
    }
}

/// What a finished signature document says: the signed information and the signed properties that were
/// signed, the signature, and the signer's certificate.
pub open spec fn document_says(v: InputsView, p: PreparedView, signature: Seq<u8>) -> Seq<Mark> {
    let id = "S"@ + text::decimal(v.index);
    reading::tag("?xml version=\"1.0\" encoding=\"UTF-8\"?"@) + reading::around(
        "asic:XAdESSignatures"@,
        three_namespaces(),
        reading::around(
            "ds:Signature"@,
            xml::attribute("Id"@, id),
            signed_info_says(p.signed_info) + reading::says_with(
                "ds:SignatureValue"@,
                xml::attribute("Id"@, id + "-SIG"@),
                crypto::base64_text(signature),
            ) + reading::around(
                "ds:KeyInfo"@,
                reading::none(),
                reading::around(
                    "ds:X509Data"@,
                    reading::none(),
                    reading::says("ds:X509Certificate"@, crypto::base64_text(v.certificate)),
                ),
            ) + reading::around(
                "ds:Object"@,
                reading::none(),
                reading::around(
                    "xades:QualifyingProperties"@,
                    xml::attribute("Target"@, "#"@ + id),
                    reading::marks(p.signed_properties),
                ),
            ),
        ),
    )
}

proof fn lemma_declaration()
    ensures
        reading::is_markup("<?xml version=\"1.0\" encoding=\"UTF-8\"?>"@),
        reading::marks("<?xml version=\"1.0\" encoding=\"UTF-8\"?>"@) == reading::tag(
            "?xml version=\"1.0\" encoding=\"UTF-8\"?"@,
        ),
{
    let inside = "?xml version=\"1.0\" encoding=\"UTF-8\"?"@;
    let whole = "<?xml version=\"1.0\" encoding=\"UTF-8\"?>"@;
    reveal_strlit("?xml version=\"1.0\" encoding=\"UTF-8\"?");
    reveal_strlit("<?xml version=\"1.0\" encoding=\"UTF-8\"?>");
    reveal_with_fuel(xml::scan_misses, 40);
    xml::lemma_scan(inside, '>', 0);
    assert(whole =~= seq!['<'] + inside + seq!['>'] + Seq::<char>::empty());
    reading::lemma_one_tag(inside, Seq::empty());
    assert(reading::unescaped(Seq::<char>::empty()) =~= Seq::<char>::empty());
}

/// A finished signature document says the signed information and the signed properties as they were
/// signed, the whole signature and the whole certificate in Base64; its id is the one that its
/// properties are for; and a timestamp is made for the canonical form of its signature value.
pub proof fn law_document_says_what_was_signed(
    v: InputsView,
    p: PreparedView,
    signature: Seq<u8>,
    bes: BesView,
)
    requires
        reading::is_markup(p.signed_properties),
        xades::finished(v, p, signature) == Ok::<BesView, ErrorView>(bes),
    ensures
        reading::marks(bes.xml) == document_says(v, p, signature),
        bes.signature_id == "S"@ + text::decimal(v.index),
        exists|text: Seq<char>|
            document::canonical_document(vstd::utf8::encode_utf8(text)) == Ok::<
                Seq<u8>,
                Seq<char>,
            >(bes.signature_value_canonical) && #[trigger] reading::marks(text) == seq![
                Mark {
                    tag: "ds:SignatureValue xmlns:asic=\"http://uri.etsi.org/02918/v1.2.1#\" xmlns:ds=\"http://www.w3.org/2000/09/xmldsig#\" xmlns:xades=\"http://uri.etsi.org/01903/v1.3.2#\" Id=\"S"@
                        + text::decimal(v.index) + "-SIG\""@,
                    text: crypto::base64_text(signature),
                },
            ] + reading::end("ds:SignatureValue"@),
{
    reveal(xades::finished);
    let id = "S"@ + text::decimal(v.index);
    let info = super::signed_info_element(p.signed_info);
    let value = xml::element(
        "ds:SignatureValue"@,
        xml::attribute("Id"@, id + "-SIG"@),
        xml::escaped_text(crypto::base64_text(signature)),
    );
    let x509 = xml::text_element("ds:X509Certificate"@, crypto::base64_text(v.certificate));
    let data = xml::element("ds:X509Data"@, seq![], x509);
    let key = xml::element("ds:KeyInfo"@, seq![], data);
    let qualifying = xml::element(
        "xades:QualifyingProperties"@,
        xml::attribute("Target"@, "#"@ + id),
        p.signed_properties,
    );
    let object = xml::element("ds:Object"@, seq![], qualifying);
    let inner = info + value + key + object;
    let element = xml::element("ds:Signature"@, xml::attribute("Id"@, id), inner);
    reading::lemma_signature_names();
    reading::lemma_property_names();
    reading::lemma_attribute_names();
    lemma_namespaces();
    reading::lemma_attribute("Id"@, id);
    reading::lemma_attribute("Id"@, id + "-SIG"@);
    reading::lemma_attribute("Target"@, "#"@ + id);
    law_signed_info_says_its_parts(p.signed_info);
    reading::law_element_says_its_text(
        "ds:SignatureValue"@,
        xml::attribute("Id"@, id + "-SIG"@),
        crypto::base64_text(signature),
    );
    reading::lemma_text_element("ds:X509Certificate"@, crypto::base64_text(v.certificate));
    reading::lemma_plain_element("ds:X509Data"@, x509);
    reading::lemma_plain_element("ds:KeyInfo"@, data);
    reading::law_element_holds_its_content(
        "xades:QualifyingProperties"@,
        xml::attribute("Target"@, "#"@ + id),
        p.signed_properties,
    );
    reading::lemma_plain_element("ds:Object"@, qualifying);
    reading::lemma_marks_in_a_row(info, value);
    reading::lemma_marks_in_a_row(info + value, key);
    reading::lemma_marks_in_a_row(info + value + key, object);
    reading::law_element_holds_its_content("ds:Signature"@, xml::attribute("Id"@, id), inner);
    reading::law_element_holds_its_content("asic:XAdESSignatures"@, three_namespaces(), element);
    lemma_declaration();
    reading::lemma_marks_in_a_row(
        "<?xml version=\"1.0\" encoding=\"UTF-8\"?>"@,
        xml::element("asic:XAdESSignatures"@, three_namespaces(), element),
    );
    lemma_signature_value(v.index, signature);
}

proof fn lemma_signature_value(index: nat, signature: Seq<u8>)
    ensures
        reading::marks(
            xades::signature_value_element(
                xades::signature_value_id(index),
                crypto::base64_text(signature),
            ),
        ) == seq![
            Mark {
                tag: "ds:SignatureValue xmlns:asic=\"http://uri.etsi.org/02918/v1.2.1#\" xmlns:ds=\"http://www.w3.org/2000/09/xmldsig#\" xmlns:xades=\"http://uri.etsi.org/01903/v1.3.2#\" Id=\"S"@
                    + text::decimal(index) + "-SIG\""@,
                text: crypto::base64_text(signature),
            },
        ] + reading::end("ds:SignatureValue"@),
{
    let start = "ds:SignatureValue xmlns:asic=\"http://uri.etsi.org/02918/v1.2.1#\" xmlns:ds=\"http://www.w3.org/2000/09/xmldsig#\" xmlns:xades=\"http://uri.etsi.org/01903/v1.3.2#\" Id=\"S"@;
    let digits = text::decimal(index);
    let stop = "-SIG\""@;
    let inside = start + digits + stop;
    let value = crypto::base64_text(signature);
    let whole = xades::signature_value_element(xades::signature_value_id(index), value);
    let ending = seq!['/'] + "ds:SignatureValue"@;
    let first = seq!['<'] + inside + seq!['>'] + value;
    let second = seq!['<'] + ending + seq!['>'] + Seq::<char>::empty();
    lemma_value_start();
    text::law_decimal_reads_back(index);
    assert(xml::lacks(stop, '>') && stop.len() == 5 && stop.last() == '"') by {
        reveal_strlit("-SIG\"");
        reveal_with_fuel(xml::scan_misses, 7);
        xml::lemma_scan(stop, '>', 0);
    }
    assert(xml::lacks(inside, '>')) by {
        xml::lemma_lacks_concat(start, digits, '>');
        xml::lemma_lacks_concat(start + digits, stop, '>');
    }
    assert(inside.last() == '"');
    reading::lemma_base64_is_plain(signature);
    reading::lemma_reads_as_it_stands(value);
    reading::lemma_one_tag(inside, value);
    reading::lemma_signature_names();
    reading::lemma_end_inside("ds:SignatureValue"@);
    assert(reading::unescaped(Seq::<char>::empty()) =~= Seq::<char>::empty());
    reading::lemma_one_tag(ending, Seq::empty());
    reading::lemma_text_then_tag(first, second);
    assert(whole =~= first + second) by {
        lemma_value_pieces();
        let a = "<ds:SignatureValue xmlns:asic=\"http://uri.etsi.org/02918/v1.2.1#\" xmlns:ds=\"http://www.w3.org/2000/09/xmldsig#\" xmlns:xades=\"http://uri.etsi.org/01903/v1.3.2#\" Id=\""@;
        assert(a + "S"@ =~= seq!['<'] + start);
        assert(whole =~= (a + "S"@) + digits + ("-SIG"@ + "\">"@) + value + "</ds:SignatureValue>"@);
        assert("-SIG"@ + "\">"@ =~= stop + seq!['>']);
        assert("</ds:SignatureValue>"@ =~= second);
    }
    assert(reading::marks(whole) =~= seq![Mark { tag: inside, text: value }] + reading::end(
        "ds:SignatureValue"@,
    ));
}

#[verifier::spinoff_prover]
proof fn lemma_value_start()
    ensures
        xml::lacks(
            "ds:SignatureValue xmlns:asic=\"http://uri.etsi.org/02918/v1.2.1#\" xmlns:ds=\"http://www.w3.org/2000/09/xmldsig#\" xmlns:xades=\"http://uri.etsi.org/01903/v1.3.2#\" Id=\"S"@,
            '>',
        ),
{
    let start = "ds:SignatureValue xmlns:asic=\"http://uri.etsi.org/02918/v1.2.1#\" xmlns:ds=\"http://www.w3.org/2000/09/xmldsig#\" xmlns:xades=\"http://uri.etsi.org/01903/v1.3.2#\" Id=\"S"@;
    reveal_strlit(
        "ds:SignatureValue xmlns:asic=\"http://uri.etsi.org/02918/v1.2.1#\" xmlns:ds=\"http://www.w3.org/2000/09/xmldsig#\" xmlns:xades=\"http://uri.etsi.org/01903/v1.3.2#\" Id=\"S",
    );
    reveal_with_fuel(xml::scan_misses, 32);
    assert(xml::scan_misses(start, '>', 150));
    assert(xml::scan_misses(start, '>', 120));
    assert(xml::scan_misses(start, '>', 90));
    assert(xml::scan_misses(start, '>', 60));
    assert(xml::scan_misses(start, '>', 30));
    assert(xml::scan_misses(start, '>', 0));
    xml::lemma_scan(start, '>', 0);
}

#[verifier::spinoff_prover]
proof fn lemma_value_pieces()
    ensures
        "<ds:SignatureValue xmlns:asic=\"http://uri.etsi.org/02918/v1.2.1#\" xmlns:ds=\"http://www.w3.org/2000/09/xmldsig#\" xmlns:xades=\"http://uri.etsi.org/01903/v1.3.2#\" Id=\""@
            + "S"@ == seq!['<']
            + "ds:SignatureValue xmlns:asic=\"http://uri.etsi.org/02918/v1.2.1#\" xmlns:ds=\"http://www.w3.org/2000/09/xmldsig#\" xmlns:xades=\"http://uri.etsi.org/01903/v1.3.2#\" Id=\"S"@,
        "-SIG"@ + "\">"@ == "-SIG\""@ + seq!['>'],
        "</ds:SignatureValue>"@ == seq!['<'] + (seq!['/'] + "ds:SignatureValue"@) + seq!['>']
            + Seq::<char>::empty(),
{
    reveal_strlit(
        "<ds:SignatureValue xmlns:asic=\"http://uri.etsi.org/02918/v1.2.1#\" xmlns:ds=\"http://www.w3.org/2000/09/xmldsig#\" xmlns:xades=\"http://uri.etsi.org/01903/v1.3.2#\" Id=\"",
    );
    reveal_strlit(
        "ds:SignatureValue xmlns:asic=\"http://uri.etsi.org/02918/v1.2.1#\" xmlns:ds=\"http://www.w3.org/2000/09/xmldsig#\" xmlns:xades=\"http://uri.etsi.org/01903/v1.3.2#\" Id=\"S",
    );
    reveal_strlit("S");
    reveal_strlit("-SIG");
    reveal_strlit("\">");
    reveal_strlit("-SIG\"");
    reveal_strlit("</ds:SignatureValue>");
    reveal_strlit("ds:SignatureValue");
    assert("-SIG"@ + "\">"@ =~= "-SIG\""@ + seq!['>']);
    assert("</ds:SignatureValue>"@ =~= seq!['<'] + (seq!['/'] + "ds:SignatureValue"@) + seq!['>']
        + Seq::<char>::empty());
    assert("<ds:SignatureValue xmlns:asic=\"http://uri.etsi.org/02918/v1.2.1#\" xmlns:ds=\"http://www.w3.org/2000/09/xmldsig#\" xmlns:xades=\"http://uri.etsi.org/01903/v1.3.2#\" Id=\""@
        + "S"@ =~= seq!['<']
        + "ds:SignatureValue xmlns:asic=\"http://uri.etsi.org/02918/v1.2.1#\" xmlns:ds=\"http://www.w3.org/2000/09/xmldsig#\" xmlns:xades=\"http://uri.etsi.org/01903/v1.3.2#\" Id=\"S"@);
}

/// A basic signature that was built says what its signer signed, and the signature that it made of
/// it: the signed information and properties are those for the given inputs, and the value is, in
/// Base64, a signature of the signer over the canonical signed information.
pub proof fn law_built_signature_is_the_signers(
    signer: &Box<dyn Signer>,
    v: InputsView,
    p: PreparedView,
    bes: BesView,
)
    requires
        xades::prepared(v) == Ok::<PreparedView, ErrorView>(p),
        xades::may_build(signer, v, p, Ok(bes)),
    ensures
        exists|signature: Seq<u8>|
            #[trigger] is_signed_by(signer, p, signature) && reading::marks(bes.xml)
                == document_says(v, p, signature),
        bes.signature_id == "S"@ + text::decimal(v.index),
{
    let signed = choose|signed: Result<Seq<u8>, ErrorView>|
        #[trigger] signer.may_sign(p.canonical_info, signed) && Ok::<BesView, ErrorView>(bes)
            == xades::built(v, p, signed);
    let signature = signed->Ok_0;
    lemma_prepared_properties(v, p);
    law_document_says_what_was_signed(v, p, signature, bes);
    assert(is_signed_by(signer, p, signature));
}

/// Whether a signer may have made `signature` of the canonical signed information.
pub open spec fn is_signed_by(signer: &Box<dyn Signer>, p: PreparedView, signature: Seq<u8>) -> bool {
    signer.may_sign(p.canonical_info, Ok(signature))
}

/// Building a signature that was prepared fails just where the signer does, with its error, or where
/// the signature value has no canonical form.
pub proof fn law_building_fails_for_a_reason(
    signer: &Box<dyn Signer>,
    v: InputsView,
    p: PreparedView,
    e: ErrorView,
)
    requires
        xades::may_build(signer, v, p, Err(e)),
    ensures
        signer.may_sign(p.canonical_info, Err(e)) || exists|text: Seq<char>|
            #[trigger] document::canonical_document(vstd::utf8::encode_utf8(text)) matches Err(
                message,
            ) && e == ErrorView::CanonicalizationError(message),
{
    reveal(xades::finished);
    let signed = choose|signed: Result<Seq<u8>, ErrorView>|
        #[trigger] signer.may_sign(p.canonical_info, signed) && Err::<BesView, ErrorView>(e)
            == xades::built(v, p, signed);
    if let Ok(signature) = signed {
        let text = xades::signature_value_element(
            xades::signature_value_id(v.index),
            crypto::base64_text(signature),
        );
        assert(document::canonical_document(vstd::utf8::encode_utf8(text)) is Err);
    }
}

proof fn lemma_prepared_properties(v: InputsView, p: PreparedView)
    requires
        xades::prepared(v) == Ok::<PreparedView, ErrorView>(p),
    ensures
        reading::is_markup(p.signed_properties),
{
    reveal(xades::prepared);
    lemma_properties(v, certificate::x509_certificate(v.certificate)->Ok_0);
}

/// Whether `after` is `before` with `block` put in right before the last place where `part` stands.
pub open spec fn is_put_before_last(
    before: Seq<char>,
    after: Seq<char>,
    part: Seq<char>,
    block: Seq<char>,
    at: int,
) -> bool {
    &&& text::occurs_at(before, part, at)
    &&& forall|later: int| at < later ==> !text::occurs_at(before, part, later)
    &&& after == before.take(at) + block + before.skip(at)
}

/// What the unsigned properties say of a timestamp: the whole token in Base64, and the method that the
/// signature value was brought into canonical form by.
pub open spec fn timestamp_says(id: Seq<char>, token: Seq<u8>) -> Seq<Mark> {
    reading::around(
        "xades:SignatureTimeStamp"@,
        xml::attribute("Id"@, id + "-T0"@),
        reading::algorithm(
            "ds:CanonicalizationMethod"@,
            "http://www.w3.org/TR/2001/REC-xml-c14n-20010315"@,
        ) + reading::says("xades:EncapsulatedTimeStamp"@, crypto::base64_text(token)),
    )
}

proof fn lemma_end_tags()
    ensures
        xml::end_tag("xades:QualifyingProperties"@) == "</xades:QualifyingProperties>"@,
        xml::end_tag("xades:UnsignedSignatureProperties"@)
            == "</xades:UnsignedSignatureProperties>"@,
{
    reveal_strlit("</");
    reveal_strlit(">");
    reveal_strlit("xades:QualifyingProperties");
    reveal_strlit("</xades:QualifyingProperties>");
    reveal_strlit("xades:UnsignedSignatureProperties");
    reveal_strlit("</xades:UnsignedSignatureProperties>");
    assert(xml::end_tag("xades:QualifyingProperties"@) =~= "</xades:QualifyingProperties>"@);
    assert(xml::end_tag("xades:UnsignedSignatureProperties"@)
        =~= "</xades:UnsignedSignatureProperties>"@);
}

/// A timestamp is put into a signature, whatever its document and however long the token: right before
/// the end of the qualifying properties stand unsigned properties that hold the whole token, from which
/// it reads back; nothing else changes. Where the end of the qualifying properties is missing, that is
/// the error.
pub proof fn law_timestamp_is_put_in(document: Seq<char>, id: Seq<char>, token: Seq<u8>)
    ensures
        match xades::upgraded_to_t(document, id, token) {
            Ok(upgraded) => exists|block: Seq<char>, at: int|
                #[trigger] is_put_before_last(
                    document,
                    upgraded,
                    "</xades:QualifyingProperties>"@,
                    block,
                    at,
                ) && reading::marks(block) == reading::around(
                    "xades:UnsignedProperties"@,
                    reading::none(),
                    reading::around(
                        "xades:UnsignedSignatureProperties"@,
                        reading::none(),
                        timestamp_says(id, token),
                    ),
                ),
            Err(e) => e == ErrorView::XmlStructureError(
                "BES XML missing </xades:QualifyingProperties>"@,
            ) && forall|at: int|
                !text::occurs_at(document, "</xades:QualifyingProperties>"@, at),
        },
        reading::bytes_of(crypto::base64_text(token)) == token,
{
    let end = "</xades:QualifyingProperties>"@;
    let method = xml::algorithm_element(
        "ds:CanonicalizationMethod"@,
        "http://www.w3.org/TR/2001/REC-xml-c14n-20010315"@,
    );
    let value = xml::text_element("xades:EncapsulatedTimeStamp"@, crypto::base64_text(token));
    let stamp = xml::element(
        "xades:SignatureTimeStamp"@,
        xml::attribute("Id"@, id + "-T0"@),
        method + value,
    );
    let inner = xml::element("xades:UnsignedSignatureProperties"@, seq![], stamp);
    let block = xml::element("xades:UnsignedProperties"@, seq![], inner);
    reading::law_base64_reads_back(token);
    reading::lemma_signature_names();
    reading::lemma_property_names();
    reading::lemma_attribute_names();
    reading::lemma_attribute("Id"@, id + "-T0"@);
    reading::lemma_algorithm_element(
        "ds:CanonicalizationMethod"@,
        "http://www.w3.org/TR/2001/REC-xml-c14n-20010315"@,
    );
    reading::lemma_text_element("xades:EncapsulatedTimeStamp"@, crypto::base64_text(token));
    reading::lemma_marks_in_a_row(method, value);
    reading::law_element_holds_its_content(
        "xades:SignatureTimeStamp"@,
        xml::attribute("Id"@, id + "-T0"@),
        method + value,
    );
    reading::lemma_plain_element("xades:UnsignedSignatureProperties"@, stamp);
    reading::lemma_plain_element("xades:UnsignedProperties"@, inner);
    lemma_end_tags();
    text::law_found_last(document, end);
    if let Ok(upgraded) = xades::upgraded_to_t(document, id, token) {
        let at = text::last_occurrence(document, end)->0;
        assert(is_put_before_last(document, upgraded, end, block, at));
    }
}

/// What the unsigned properties say of the issuer's certificate and the OCSP response: both whole, in
/// Base64.
pub open spec fn revocation_says(id: Seq<char>, issuer: Seq<u8>, response: Seq<u8>) -> Seq<Mark> {
    reading::around(
        "xades:CertificateValues"@,
        reading::none(),
        reading::says_with(
            "xades:EncapsulatedX509Certificate"@,
            xml::attribute("Id"@, id + "-CA-CERT"@),
            crypto::base64_text(issuer),
        ),
    ) + reading::around(
        "xades:RevocationValues"@,
        reading::none(),
        reading::around(
            "xades:OCSPValues"@,
            reading::none(),
            reading::says_with(
                "xades:EncapsulatedOCSPValue"@,
                xml::attribute("Id"@, text::with_first_replaced(id, 'S', 'N')),
                crypto::base64_text(response),
            ),
        ),
    )
}

/// The issuer's certificate and an OCSP response are put into a signature, whatever its document and
/// however long they are: right before the end of the unsigned signature properties, whole, so that
/// both read back; nothing else changes. Where that end is missing, that is the error.
pub proof fn law_revocation_data_are_put_in(
    document: Seq<char>,
    id: Seq<char>,
    issuer: Seq<u8>,
    response: Seq<u8>,
)
    ensures
        match xades::upgraded_to_lt(document, id, issuer, response) {
            Ok(upgraded) => exists|block: Seq<char>, at: int|
                #[trigger] is_put_before_last(
                    document,
                    upgraded,
                    "</xades:UnsignedSignatureProperties>"@,
                    block,
                    at,
                ) && reading::marks(block) == revocation_says(id, issuer, response),
            Err(e) => e == ErrorView::XmlStructureError(
                "T-level XML missing </xades:UnsignedSignatureProperties>"@,
            ) && forall|at: int|
                !text::occurs_at(document, "</xades:UnsignedSignatureProperties>"@, at),
        },
        reading::bytes_of(crypto::base64_text(issuer)) == issuer,
        reading::bytes_of(crypto::base64_text(response)) == response,
{
    let end = "</xades:UnsignedSignatureProperties>"@;
    let cert_id = xml::attribute("Id"@, id + "-CA-CERT"@);
    let value_id = xml::attribute("Id"@, text::with_first_replaced(id, 'S', 'N'));
    let cert = xml::element(
        "xades:EncapsulatedX509Certificate"@,
        cert_id,
        xml::escaped_text(crypto::base64_text(issuer)),
    );
    let value = xml::element(
        "xades:EncapsulatedOCSPValue"@,
        value_id,
        xml::escaped_text(crypto::base64_text(response)),
    );
    let values = xml::element("xades:OCSPValues"@, seq![], value);
    let first = xml::element("xades:CertificateValues"@, seq![], cert);
    let second = xml::element("xades:RevocationValues"@, seq![], values);
    reading::law_base64_reads_back(issuer);
    reading::law_base64_reads_back(response);
    reading::lemma_property_names();
    reading::lemma_attribute_names();
    reading::lemma_attribute("Id"@, id + "-CA-CERT"@);
    reading::lemma_attribute("Id"@, text::with_first_replaced(id, 'S', 'N'));
    reading::law_element_says_its_text(
        "xades:EncapsulatedX509Certificate"@,
        cert_id,
        crypto::base64_text(issuer),
    );
    reading::law_element_says_its_text(
        "xades:EncapsulatedOCSPValue"@,
        value_id,
        crypto::base64_text(response),
    );
    reading::lemma_plain_element("xades:CertificateValues"@, cert);
    reading::lemma_plain_element("xades:OCSPValues"@, value);
    reading::lemma_plain_element("xades:RevocationValues"@, values);
    reading::lemma_marks_in_a_row(first, second);
    lemma_end_tags();
    text::law_found_last(document, end);
    if let Ok(upgraded) = xades::upgraded_to_lt(document, id, issuer, response) {
        let at = text::last_occurrence(document, end)->0;
        assert(is_put_before_last(document, upgraded, end, first + second, at));
    }
}

} // verus!
