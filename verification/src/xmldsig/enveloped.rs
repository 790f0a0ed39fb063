//! What enveloping signatures say, and what they cover.

use vstd::prelude::*;

use super::envelope::{self, EnvelopeView, KeyNumbers};
use super::reading::Mark;
use super::{contents, document, keys, reading, xml, SignedInfoParts, Signer, SigningKeyType};
use crate::error::ErrorView;
use crate::{crypto, text};

verus! {

/// What key information says: the modulus and the exponent of the RSA key, where they are given.
pub open spec fn key_info_says(numbers: Option<KeyNumbers>) -> Seq<Mark> {
    let inside = match numbers {
        Some(n) => reading::around(
            "ds:RSAKeyValue"@,
            reading::none(),
            reading::says("ds:Modulus"@, n.modulus) + reading::says("ds:Exponent"@, n.exponent),
        ),
        None => seq![],
    };
    reading::around(
        "ds:KeyInfo"@,
        reading::none(),
        reading::around("ds:KeyValue"@, reading::none(), inside),
    )
}

/// Key information says the numbers of its key.
pub proof fn law_key_info_says_its_numbers(numbers: Option<KeyNumbers>)
    ensures
        reading::is_markup(envelope::key_info_element(numbers)),
        reading::marks(envelope::key_info_element(numbers)) == key_info_says(numbers),
{
    reading::lemma_signature_names();
    let rsa = match numbers {
        Some(n) => {
            let modulus = xml::text_element("ds:Modulus"@, n.modulus);
            let exponent = xml::text_element("ds:Exponent"@, n.exponent);
            reading::lemma_text_element("ds:Modulus"@, n.modulus);
            reading::lemma_text_element("ds:Exponent"@, n.exponent);
            reading::lemma_marks_in_a_row(modulus, exponent);
            reading::lemma_plain_element("ds:RSAKeyValue"@, modulus + exponent);
            xml::element("ds:RSAKeyValue"@, seq![], modulus + exponent)
        },
        None => {
            let none: Seq<char> = seq![];
            assert(reading::marks(none) =~= Seq::<Mark>::empty());
            none
        },
    };
    reading::lemma_plain_element("ds:KeyValue"@, rsa);
    reading::lemma_plain_element("ds:KeyInfo"@, xml::element("ds:KeyValue"@, seq![], rsa));
}

/// Whether `whole` is a text that says `marks` with `object` put in, as it stands, right before its last
/// tag, the end of a signature.
pub open spec fn says_around(
    whole: Seq<char>,
    head: Seq<char>,
    object: Seq<char>,
    marks: Seq<Mark>,
) -> bool {
    &&& whole == head + object + "</ds:Signature>"@
    &&& reading::marks(head + "</ds:Signature>"@) == marks
}

/// What an enveloping signature says besides its object.
pub open spec fn signature_says(
    xmlns_ds: Option<Seq<char>>,
    info: SignedInfoParts,
    value: Seq<char>,
    key_info: Seq<Mark>,
) -> Seq<Mark> {
    let namespace = match xmlns_ds {
        Some(uri) => xml::attribute("xmlns:ds"@, uri),
        None => seq![],
    };
    reading::around(
        "ds:Signature"@,
        namespace,
        contents::signed_info_says(info) + reading::says("ds:SignatureValue"@, value) + key_info,
    )
}

proof fn lemma_object_comes_last(attributes: Seq<char>, before: Seq<char>, object: Seq<char>)
    requires
        before.len() > 0,
    ensures
        xml::element("ds:Signature"@, attributes, before) == xml::start_tag(
            "ds:Signature"@,
            attributes,
        ) + before + "</ds:Signature>"@,
        xml::element("ds:Signature"@, attributes, before + object) == xml::start_tag(
            "ds:Signature"@,
            attributes,
        ) + before + object + "</ds:Signature>"@,
{
    let none: Seq<char> = seq![];
    let start = xml::start_tag("ds:Signature"@, attributes);
    let end = xml::end_tag("ds:Signature"@);
    reveal_strlit("</");
    reveal_strlit(">");
    reveal_strlit("ds:Signature");
    reveal_strlit("</ds:Signature>");
    assert(end =~= "</ds:Signature>"@);
    xml::lemma_element_around("ds:Signature"@, attributes, none, before, none);
    xml::lemma_element_around("ds:Signature"@, attributes, none, before, object);
    assert(none + before + none =~= before);
    assert(none + before + object =~= before + object);
    assert(start + none + before + (none + end) =~= start + before + end);
    assert(start + none + before + (object + end) =~= start + before + object + end);
}

/// An enveloping signature says its signed information, its value and its key information, and then
/// holds its object as it was given.
pub proof fn law_enveloping_signature_says_its_parts(
    xmlns_ds: Option<Seq<char>>,
    info: SignedInfoParts,
    value: Seq<char>,
    key_info: Seq<char>,
    object: Seq<char>,
)
    requires
        reading::is_markup(key_info),
    ensures
        exists|head: Seq<char>|
            #[trigger] says_around(
                envelope::signature_element(xmlns_ds, info, value, key_info, object),
                head,
                object,
                signature_says(xmlns_ds, info, value, reading::marks(key_info)),
            ),
{
    let namespace = xml::optional_attribute("xmlns:ds"@, xmlns_ds);
    let signed = super::signed_info_element(info);
    let written = xml::text_element("ds:SignatureValue"@, value);
    let before = signed + written + key_info;
    reading::lemma_signature_names();
    reading::lemma_attribute_names();
    reading::law_optional_attribute("xmlns:ds"@, xmlns_ds);
    contents::law_signed_info_says_its_parts(info);
    reading::lemma_text_element("ds:SignatureValue"@, value);
    reading::lemma_marks_in_a_row(signed, written);
    reading::lemma_marks_in_a_row(signed + written, key_info);
    reading::law_element_holds_its_content("ds:Signature"@, namespace, before);
    let whole = envelope::signature_element(xmlns_ds, info, value, key_info, object);
    let head = xml::start_tag("ds:Signature"@, namespace) + before;
    lemma_object_comes_last(namespace, before, object);
    assert(says_around(
        whole,
        head,
        object,
        signature_says(xmlns_ds, info, value, reading::marks(key_info)),
    ));
}

/// Whether signed information is about one object, named by its id, without transforms, with the Base64
/// text of a SHA-256 digest, and names RSA with SHA-256.
pub open spec fn is_about_object(info: SignedInfoParts, id: Seq<char>, digest: Seq<u8>) -> bool {
    &&& info.xmlns_asic is None
    &&& info.xmlns_ds == Some("http://www.w3.org/2000/09/xmldsig#"@)
    &&& info.xmlns_xades is None
    &&& info.canonicalization_method == "http://www.w3.org/TR/2001/REC-xml-c14n-20010315"@
    &&& info.signature_method == "http://www.w3.org/2001/04/xmldsig-more#rsa-sha256"@
    &&& info.references.len() == 1
    &&& info.references[0].id is None
    &&& info.references[0].reference_type is None
    &&& info.references[0].uri == "#"@ + id
    &&& info.references[0].transforms is None
    &&& info.references[0].digest_method == "http://www.w3.org/2001/04/xmlenc#sha256"@
    &&& info.references[0].digest_value == crypto::base64_text(digest)
}

/// Whether `found` is the object with an id in a text: it starts at the first place where the start of
/// such an object stands, and ends with the first end of an object from there on.
pub open spec fn is_object_in(whole: Seq<char>, id: Seq<char>, found: Seq<char>, at: int, end: int) -> bool {
    let start = "<ds:Object Id=\""@ + id + "\""@;
    &&& text::occurs_at(whole, start, at)
    &&& forall|i: int| 0 <= i < at ==> !text::occurs_at(whole, start, i)
    &&& 0 <= at <= end
    &&& text::occurs_at(whole, "</ds:Object>"@, end)
    &&& forall|i: int| at <= i < end ==> !text::occurs_at(whole, "</ds:Object>"@, i)
    &&& found == whole.subrange(at, end + 12)
}

/// The object is the first one with its id, up to its first end. Where there is none, or where it does
/// not end, that is the error.
pub proof fn law_first_object_is_taken(whole: Seq<char>, id: Seq<char>)
    ensures
        envelope::extracted_object(whole, id) matches Ok(found) ==> exists|at: int, end: int|
            #[trigger] is_object_in(whole, id, found, at, end),
        (forall|i: int| 0 <= i ==> !text::occurs_at(whole, "<ds:Object Id=\""@ + id + "\""@, i)) ==>
            envelope::extracted_object(whole, id) == Err::<Seq<char>, ErrorView>(
            ErrorView::GeneralError(
                "could not locate <ds:Object Id=\""@ + id + "\"> in serialised signature"@,
            ),
        ),
        envelope::extracted_object(whole, id) matches Err(e) ==> {
            ||| e == ErrorView::GeneralError(
                "could not locate <ds:Object Id=\""@ + id + "\"> in serialised signature"@,
            )
            ||| e == ErrorView::GeneralError(
                "<ds:Object> opened but never closed in serialised signature"@,
            )
        },
{
    let start = "<ds:Object Id=\""@ + id + "\""@;
    text::law_first_occurrence(whole, start, 0);
    if let Some(at) = text::first_occurrence(whole, start, 0) {
        text::law_first_occurrence(whole, "</ds:Object>"@, at);
        if let Some(end) = text::first_occurrence(whole, "</ds:Object>"@, at) {
            let found = envelope::extracted_object(whole, id)->Ok_0;
            assert(start == envelope::object_start(id));
            assert(found == whole.subrange(at, end + 12));
            assert(is_object_in(whole, id, found, at, end));
        }
    }
}

/// Whether the key information says the modulus and the exponent of an RSA private key, in Base64.
pub open spec fn names_key(key_info: Seq<char>, key: Seq<u8>) -> bool {
    keys::rsa_public_numbers(key) matches Ok((modulus, exponent)) && key_info
        == envelope::key_info_element(
        Some(
            KeyNumbers {
                modulus: crypto::base64_text(modulus),
                exponent: crypto::base64_text(exponent),
            },
        ),
    ) && reading::marks(key_info) == key_info_says(
        Some(
            KeyNumbers {
                modulus: crypto::base64_text(modulus),
                exponent: crypto::base64_text(exponent),
            },
        ),
    )
}

/// What is signed covers the object: the signed information holds the SHA-256 digest of the canonical
/// form of the object as it was given, the key information says the numbers of the signer's key, and
/// what the signer signs is the canonical form of the signed information. The object has to start with
/// its start tag, the id first, and to end with its only end tag.
pub proof fn law_what_is_signed_covers_the_object(
    object: Seq<char>,
    id: Seq<char>,
    signer: SigningKeyType,
    p: EnvelopeView,
)
    requires
        envelope::prepared_envelope(object, id, signer) == Ok::<EnvelopeView, ErrorView>(p),
        text::occurs_at(object, "<ds:Object Id=\""@ + id + "\""@, 0),
        text::first_occurrence(object, "</ds:Object>"@, 0) == Some(object.len() - 12),
    ensures
        signer matches SigningKeyType::Rsa(key) && names_key(p.key_info, key@),
        document::canonical_document(vstd::utf8::encode_utf8(object)) matches Ok(canonical)
            && is_about_object(p.info, id, crypto::sha256_digest(canonical)),
        document::canonical_document(vstd::utf8::encode_utf8(super::signed_info_element(p.info)))
            == Ok::<Seq<u8>, Seq<char>>(p.canonical_info),
{
    reveal(envelope::prepared_envelope);
    if let SigningKeyType::Rsa(key) = signer {
        let (modulus, exponent) = keys::rsa_public_numbers(key@)->Ok_0;
        let numbers = KeyNumbers {
            modulus: crypto::base64_text(modulus),
            exponent: crypto::base64_text(exponent),
        };
        law_key_info_says_its_numbers(Some(numbers));
        envelope::law_envelope_covers_its_object(
            object,
            id,
            signer.method_uri(),
            signer.digest_uri(),
            numbers,
        );
    }
}

/// Whether `found` is what is found of an object in the signature around it, before there are a digest
/// and a value.
pub open spec fn is_found_of(
    object: Seq<char>,
    id: Seq<char>,
    key_info: Seq<char>,
    found: Seq<char>,
) -> bool {
    envelope::extracted_object(
        envelope::declared_signature(
            envelope::object_info(
                id,
                seq![],
                "http://www.w3.org/2001/04/xmldsig-more#rsa-sha256"@,
                "http://www.w3.org/2001/04/xmlenc#sha256"@,
            ),
            seq![],
            key_info,
            object,
        ),
        id,
    ) == Ok::<Seq<char>, ErrorView>(found)
}

/// Whatever the object is, what is signed covers what is found of it in the signature, by the same rules
/// as above.
pub proof fn law_what_is_signed_covers_what_is_found(
    object: Seq<char>,
    id: Seq<char>,
    signer: SigningKeyType,
    p: EnvelopeView,
)
    requires
        envelope::prepared_envelope(object, id, signer) == Ok::<EnvelopeView, ErrorView>(p),
    ensures
        signer matches SigningKeyType::Rsa(key) && names_key(p.key_info, key@),
        exists|found: Seq<char>| #[trigger]
            is_found_of(object, id, p.key_info, found) && (document::canonical_document(
                vstd::utf8::encode_utf8(found),
            ) matches Ok(canonical) && is_about_object(
                p.info,
                id,
                crypto::sha256_digest(canonical),
            )),
        document::canonical_document(vstd::utf8::encode_utf8(super::signed_info_element(p.info)))
            == Ok::<Seq<u8>, Seq<char>>(p.canonical_info),
{
    reveal(envelope::prepared_envelope);
    if let SigningKeyType::Rsa(key) = signer {
        let (modulus, exponent) = keys::rsa_public_numbers(key@)->Ok_0;
        let numbers = KeyNumbers {
            modulus: crypto::base64_text(modulus),
            exponent: crypto::base64_text(exponent),
        };
        law_key_info_says_its_numbers(Some(numbers));
        let unsigned = envelope::declared_signature(
            envelope::object_info(id, seq![], signer.method_uri(), signer.digest_uri()),
            seq![],
            p.key_info,
            object,
        );
        let found = envelope::extracted_object(unsigned, id)->Ok_0;
        let canonical = document::canonical_document(vstd::utf8::encode_utf8(found))->Ok_0;
        assert(is_found_of(object, id, p.key_info, found));
        assert(is_about_object(p.info, id, crypto::sha256_digest(canonical)));
    }
}

/// A finished signature holds its object as it was given, and says the whole signature that the signer
/// made of the canonical signed information. Where the signer fails, its error is the outcome.
pub proof fn law_enveloping_signature_is_the_signers(
    object: Seq<char>,
    id: Seq<char>,
    signer: SigningKeyType,
    p: EnvelopeView,
    outcome: Result<Seq<char>, ErrorView>,
)
    requires
        envelope::prepared_envelope(object, id, signer) == Ok::<EnvelopeView, ErrorView>(p),
        envelope::may_envelop(signer, object, p, outcome),
    ensures
        outcome matches Err(e) ==> signer.may_sign(p.canonical_info, Err(e)),
        outcome matches Ok(whole) ==> exists|signature: Seq<u8>, head: Seq<char>|
            is_sealed(signer, p, signature) && #[trigger] says_around(
                whole,
                head,
                object,
                signature_says(
                    Some("http://www.w3.org/2000/09/xmldsig#"@),
                    p.info,
                    crypto::base64_text(signature),
                    reading::marks(p.key_info),
                ),
            ),
{
    law_what_is_signed_covers_what_is_found(object, id, signer, p);
    let signed = choose|signed: Result<Seq<u8>, ErrorView>|
        #[trigger] signer.may_sign(p.canonical_info, signed) && outcome == envelope::enveloped(
            object,
            p,
            signed,
        );
    if let SigningKeyType::Rsa(key) = signer {
        if let Ok(signature) = signed {
            let (modulus, exponent) = keys::rsa_public_numbers(key@)->Ok_0;
            let numbers = KeyNumbers {
                modulus: crypto::base64_text(modulus),
                exponent: crypto::base64_text(exponent),
            };
            law_key_info_says_its_numbers(Some(numbers));
            law_enveloping_signature_says_its_parts(
                Some("http://www.w3.org/2000/09/xmldsig#"@),
                p.info,
                crypto::base64_text(signature),
                p.key_info,
                object,
            );
            let whole = outcome->Ok_0;
            let said = signature_says(
                Some("http://www.w3.org/2000/09/xmldsig#"@),
                p.info,
                crypto::base64_text(signature),
                reading::marks(p.key_info),
            );
            let head = choose|head: Seq<char>| #[trigger] says_around(whole, head, object, said);
            assert(is_sealed(signer, p, signature));
            assert(says_around(whole, head, object, said));
        }
    }
}

/// Whether the signer may have made `signature` of the canonical signed information.
pub open spec fn is_sealed(signer: SigningKeyType, p: EnvelopeView, signature: Seq<u8>) -> bool {
    signer.may_sign(p.canonical_info, Ok(signature))
}

/// An object is signed with RSA keys only. An RSA key whose numbers cannot be read, an object that is not
/// found, and one that has no canonical form are errors.
pub proof fn law_enveloping_fails_for_a_reason(object: Seq<char>, id: Seq<char>, signer: SigningKeyType)
    ensures
        ({
            let prepared = envelope::prepared_envelope(object, id, signer);
            &&& !(signer is Rsa) ==> prepared == Err::<EnvelopeView, ErrorView>(
                ErrorView::UnsupportedError("Only RSA keys are supported for LHV Connect"@),
            )
            &&& signer matches SigningKeyType::Rsa(key) ==> {
                &&& keys::rsa_public_numbers(key@) matches Err(e) ==> prepared == Err::<
                    EnvelopeView,
                    ErrorView,
                >(ErrorView::KeyParsingError(e))
                &&& keys::rsa_public_numbers(key@) is Ok ==> (prepared matches Err(e) ==> e
                    is GeneralError || e is CanonicalizationError)
            }
        }),
{
    reveal(envelope::prepared_envelope);
}

/// A private key is read from PEM text in PKCS#8 where that works, and else in PKCS#1; where neither
/// works, the error tells why the second did not.
pub proof fn law_private_key_is_read_in_either_form(pem: Seq<char>)
    ensures
        ({
            let key = envelope::rsa_key_in_pem(pem);
            &&& keys::rsa_key_in_pkcs8_pem(pem) matches Ok(der) ==> key == Ok::<Seq<u8>, ErrorView>(
                der,
            )
            &&& keys::rsa_key_in_pkcs8_pem(pem) is Err ==> (keys::rsa_key_in_pkcs1_pem(
                pem,
            ) matches Ok(der) ==> key == Ok::<Seq<u8>, ErrorView>(der))
            &&& keys::rsa_key_in_pkcs8_pem(pem) is Err ==> (keys::rsa_key_in_pkcs1_pem(
                pem,
            ) matches Err(e) ==> key == Err::<Seq<u8>, ErrorView>(
                ErrorView::KeyParsingError("Failed to parse RSA private key: "@ + e),
            ))
        }),
{
}

} // verus!
