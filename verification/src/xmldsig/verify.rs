//! Checking XML signatures.

use vstd::prelude::*;

use super::document::{
    canonicalize_part, digest_of, parse_info, parse_nodes, same_digest, transform_external,
    transform_reference, utf8_text, ParsedReference, ParsedSignedInfo, SignedInfoView, XmlNode,
    XmlNodeView,
};
use super::keys::{verify_ecdsa, verify_k256, verify_rsa};
use super::{document, keys, PublicKeyType, PublicKeyView, Signer, SigningKeyType};
use crate::crypto::{self, base64_decode};
use crate::error::{self, ErrorView, SignatureError};
use crate::text::{self, concat2, concat3, concat4, remove_white_space, same_text};

verus! {

/// A signature found in a document.
pub struct LocatedSignature {
    /// The position of the `Signature` element among the nodes of the document.
    pub signature: usize,
    /// The position of its `SignedInfo` element.
    pub signed_info: usize,
    /// The text of its `SignatureValue` element.
    pub value_text: Option<String>,
    /// What its `SignedInfo` element says.
    pub info: ParsedSignedInfo,
}

/// A [`LocatedSignature`] as values.
pub struct LocatedView {
    pub signature: int,
    pub signed_info: int,
    pub value_text: Option<Seq<char>>,
    pub info: SignedInfoView,
}

impl View for LocatedSignature {
    type V = LocatedView;

    open spec fn view(&self) -> LocatedView {
        LocatedView {
            signature: self.signature as int,
            signed_info: self.signed_info as int,
            value_text: document::optional_text(self.value_text),
            info: self.info@,
        }
    }
}

/// What a resolver of external data answered for a reference, where it was asked.
pub type Answer = Option<Result<Seq<u8>, ErrorView>>;

/// Whether a node is an element with the given local name.
pub open spec fn is_named(node: XmlNodeView, name: Seq<char>) -> bool {
    node.is_element && node.name == name
}

/// The position, from `from` on, of the first element with the given local name.
pub open spec fn first_named(nodes: Seq<XmlNodeView>, name: Seq<char>, from: int) -> Option<int>
    decreases nodes.len() - from,
{
    if from < 0 || from >= nodes.len() {
        None
    } else if is_named(nodes[from], name) {
        Some(from)
    } else {
        first_named(nodes, name, from + 1)
    }
}

/// Whether a node is a child of the node at the position `parent`, and an element with the given
/// local name.
pub open spec fn is_named_child(node: XmlNodeView, parent: int, name: Seq<char>) -> bool {
    is_named(node, name) && (node.parent matches Some(p) && p == parent)
}

/// The position, from `from` on, of the first such child.
pub open spec fn first_named_child(
    nodes: Seq<XmlNodeView>,
    parent: int,
    name: Seq<char>,
    from: int,
) -> Option<int>
    decreases nodes.len() - from,
{
    if from < 0 || from >= nodes.len() {
        None
    } else if is_named_child(nodes[from], parent, name) {
        Some(from)
    } else {
        first_named_child(nodes, parent, name, from + 1)
    }
}

/// The first signature in the document `xml`: its `SignedInfo` and `SignatureValue` are the first
/// children of these names. Elements are told by their local names.
pub open spec fn located(xml: Seq<char>) -> Result<LocatedView, ErrorView> {
    match document::xml_nodes(xml) {
        Err(e) => Err(ErrorView::XmlStructureError(e)),
        Ok(nodes) => match first_named(nodes, "Signature"@, 0) {
            None => Err(ErrorView::MissingElement("Signature"@)),
            Some(signature) => match first_named_child(nodes, signature, "SignedInfo"@, 0) {
                None => Err(ErrorView::MissingElement("SignedInfo"@)),
                Some(signed_info) => match first_named_child(
                    nodes,
                    signature,
                    "SignatureValue"@,
                    0,
                ) {
                    None => Err(ErrorView::MissingElement("SignatureValue"@)),
                    Some(value) => match document::xml_signed_info(xml, signed_info) {
                        Err(e) => Err(ErrorView::XmlStructureError(e)),
                        Ok(info) => Ok(
                            LocatedView {
                                signature,
                                signed_info,
                                value_text: nodes[value].text,
                                info,
                            },
                        ),
                    },
                },
            },
        },
    }
}

/// Whether a URI names something in the same document: it starts with `#`.
pub open spec fn is_same_document(uri: Seq<char>) -> bool {
    uri.len() > 0 && uri[0] == '#'
}

/// The octets of the `index`th reference, or the error. Of a reference outside the document they
/// are what the answer of the resolver holds, with the reference's transforms, if it has any,
/// applied.
pub open spec fn octets_outcome(xml: Seq<char>, l: LocatedView, index: int, answer: Answer) -> Result<
    Seq<u8>,
    ErrorView,
> {
    let reference = l.info.references[index];
    match reference.uri {
        None => Err(ErrorView::MissingElement("Reference URI"@)),
        Some(uri) => if is_same_document(uri) {
            match document::uri_nodes(xml, uri) {
                Err(e) => Err(
                    ErrorView::ReferenceNotFound("ID lookup failed for "@ + uri + ": "@ + e),
                ),
                Ok(_) => match document::reference_octets(
                    xml,
                    l.signature,
                    l.signed_info,
                    index,
                    uri,
                    reference,
                ) {
                    Ok(octets) => Ok(octets),
                    Err(e) => Err(ErrorView::CanonicalizationError(e)),
                },
            }
        } else {
            match answer {
                None => Err(
                    ErrorView::ReferenceNotFound("External URI '"@ + uri + "' needs resolver"@),
                ),
                Some(Err(e)) => Err(e),
                Some(Ok(bytes)) => if reference.transforms.len() == 0 {
                    Ok(bytes)
                } else {
                    match document::external_octets(xml, l.signature, l.signed_info, index, bytes) {
                        Ok(octets) => Ok(octets),
                        Err(e) => Err(ErrorView::CanonicalizationError(e)),
                    }
                },
            }
        },
    }
}

/// What checking the `index`th reference comes to: its octets must have the digest it states.
pub open spec fn reference_outcome(
    xml: Seq<char>,
    l: LocatedView,
    index: int,
    answer: Answer,
) -> Result<(), ErrorView> {
    let reference = l.info.references[index];
    match octets_outcome(xml, l, index, answer) {
        Err(e) => Err(e),
        Ok(octets) => if document::digest_by(reference.digest_method, octets)
            == reference.digest_value {
            Ok(())
        } else {
            Err(ErrorView::DigestMismatch(reference.uri->0))
        },
    }
}

/// What checking the first references comes to, one for each answer: the first error counts.
pub open spec fn references_outcome(xml: Seq<char>, l: LocatedView, answers: Seq<Answer>) -> Result<
    (),
    ErrorView,
>
    decreases answers.len(),
{
    if answers.len() == 0 {
        Ok(())
    } else {
        match references_outcome(xml, l, answers.drop_last()) {
            Err(e) => Err(e),
            Ok(_) => reference_outcome(xml, l, answers.len() - 1, answers.last()),
        }
    }
}

/// Whether a signature over `data` holds under a key. With a secp256k1 key SHA-256 is the digest
/// that goes with it.
pub open spec fn key_check(
    key: PublicKeyView,
    method: Seq<char>,
    data: Seq<u8>,
    signature: Seq<u8>,
) -> Result<bool, Seq<char>> {
    match key {
        PublicKeyView::Rsa(info) => keys::rsa_check(method, info, data, signature),
        PublicKeyView::P256(info) => keys::ecdsa_check(method, info, data, signature),
        PublicKeyView::K256(info) => if method
            == "http://www.w3.org/2001/04/xmldsig-more#ecdsa-sha256"@ {
            keys::k256_check(info, data, signature)
        } else {
            keys::ecdsa_check(method, info, data, signature)
        },
    }
}

/// What checking the signature value comes to: the value, decoded, must be a signature under `key`
/// over the canonical `SignedInfo`.
pub open spec fn value_outcome(xml: Seq<char>, l: LocatedView, key: PublicKeyView) -> Result<
    (),
    ErrorView,
> {
    match document::canonical_form(xml, l.signed_info, l.info.c14n_method) {
        None => Err(
            ErrorView::UnsupportedError("Unsupported C14N URI: "@ + l.info.c14n_method),
        ),
        Some(Err(e)) => Err(ErrorView::CanonicalizationError(e)),
        Some(Ok(canonical)) => match l.value_text {
            None => Err(ErrorView::MissingElement("SignatureValue text content"@)),
            Some(text) => match crypto::base64_decoded(text::without_white_space(text)) {
                Err(e) => Err(ErrorView::Base64Error(e)),
                Ok(signature) => match key_check(
                    key,
                    l.info.signature_method,
                    canonical,
                    signature,
                ) {
                    Err(e) => Err(ErrorView::CryptoVerificationError(e)),
                    Ok(false) => Err(ErrorView::CryptoVerificationError("Signature mismatch"@)),
                    Ok(true) => Ok(()),
                },
            },
        },
    }
}

/// The text of a document and its signature, or the error where it is no text or holds none.
pub open spec fn signed_document(xml_data: Seq<u8>) -> Result<(Seq<char>, LocatedView), ErrorView> {
    if !vstd::utf8::valid_utf8(xml_data) {
        Err(ErrorView::StrUtf8Error(document::utf8_error(xml_data)))
    } else {
        let xml = vstd::utf8::decode_utf8(xml_data);
        match located(xml) {
            Err(e) => Err(e),
            Ok(l) => Ok((xml, l)),
        }
    }
}

/// What checking a signature comes to, once its references came to `references`.
pub open spec fn verdict(
    xml: Seq<char>,
    l: LocatedView,
    key: PublicKeyView,
    references: Result<(), ErrorView>,
) -> Result<(), ErrorView> {
    match references {
        Err(e) => Err(e),
        Ok(_) => value_outcome(xml, l, key),
    }
}

/// Whether a resolver gave `answer` for a reference with the given URI. It is asked about URIs
/// outside the document only.
pub open spec fn is_answer_of<F: Fn(&str) -> Result<Vec<u8>, SignatureError>>(
    resolver: Option<F>,
    uri: Option<Seq<char>>,
    answer: Answer,
) -> bool {
    match (resolver, uri) {
        (Some(f), Some(u)) => if is_same_document(u) {
            answer is None
        } else {
            exists|asked: &str, given: Result<Vec<u8>, SignatureError>|
                asked@ == u && #[trigger] call_ensures(f, (asked,), given) && answer == Some(
                    error::bytes_view(given),
                )
        },
        _ => answer is None,
    }
}

/// Whether a resolver gave these answers for the first references.
pub open spec fn are_answers_of<F: Fn(&str) -> Result<Vec<u8>, SignatureError>>(
    resolver: Option<F>,
    info: SignedInfoView,
    answers: Seq<Answer>,
) -> bool {
    &&& answers.len() <= info.references.len()
    &&& forall|i: int|
        0 <= i < answers.len() ==> is_answer_of(
            resolver,
            info.references[i].uri,
            #[trigger] answers[i],
        )
}

/// Whether checking a signature with the given answers comes to `outcome`. Where there are fewer
/// answers than references, the last answer is the one on which a reference failed.
pub open spec fn comes_to(
    xml: Seq<char>,
    l: LocatedView,
    key: PublicKeyView,
    answers: Seq<Answer>,
    outcome: Result<(), ErrorView>,
) -> bool {
    let references = references_outcome(xml, l, answers);
    &&& answers.len() == l.info.references.len() || references is Err
    &&& outcome == verdict(xml, l, key, references)
}

/// Whether checking a signature may come to `outcome`, with answers that the resolver gave.
pub open spec fn may_come_to<F: Fn(&str) -> Result<Vec<u8>, SignatureError>>(
    xml: Seq<char>,
    l: LocatedView,
    key: PublicKeyView,
    resolver: Option<F>,
    outcome: Result<(), ErrorView>,
) -> bool {
    exists|answers: Seq<Answer>|
        are_answers_of(resolver, l.info, answers) && #[trigger] comes_to(
            xml,
            l,
            key,
            answers,
            outcome,
        )
}

/// A located signature or the error, as values.
pub open spec fn located_view(r: Result<LocatedSignature, SignatureError>) -> Result<
    LocatedView,
    ErrorView,
> {
    match r {
        Ok(l) => Ok(l@),
        Err(e) => Err(e@),
    }
}

proof fn lemma_first_named_bounds(nodes: Seq<XmlNodeView>, name: Seq<char>, from: int)
    ensures
        first_named(nodes, name, from) matches Some(i) ==> 0 <= i < nodes.len(),
    decreases nodes.len() - from,
{
    if 0 <= from < nodes.len() && !is_named(nodes[from], name) {
        lemma_first_named_bounds(nodes, name, from + 1);
    }
}

proof fn lemma_first_named_child_bounds(
    nodes: Seq<XmlNodeView>,
    parent: int,
    name: Seq<char>,
    from: int,
)
    ensures
        first_named_child(nodes, parent, name, from) matches Some(i) ==> 0 <= i < nodes.len(),
    decreases nodes.len() - from,
{
    if 0 <= from < nodes.len() && !is_named_child(nodes[from], parent, name) {
        lemma_first_named_child_bounds(nodes, parent, name, from + 1);
    }
}

/// Where the references pass, each of them does: its octets are there and have the digest it
/// states.
pub proof fn law_passing_references_have_their_digests(
    xml: Seq<char>,
    l: LocatedView,
    answers: Seq<Answer>,
)
    requires
        references_outcome(xml, l, answers) is Ok,
    ensures
        forall|i: int|
            0 <= i < answers.len() ==> (octets_outcome(xml, l, i, #[trigger] answers[i]) matches Ok(
                octets,
            ) && document::digest_by(l.info.references[i].digest_method, octets)
                == l.info.references[i].digest_value),
    decreases answers.len(),
{
    if answers.len() > 0 {
        let before = answers.drop_last();
        law_passing_references_have_their_digests(xml, l, before);
        assert forall|i: int| 0 <= i < answers.len() implies (octets_outcome(
            xml,
            l,
            i,
            #[trigger] answers[i],
        ) matches Ok(octets) && document::digest_by(l.info.references[i].digest_method, octets)
            == l.info.references[i].digest_value) by {
            if i < before.len() {
                assert(before[i] == answers[i]);
            }
        }
    }
}

/// A reference whose octets have another digest than it states makes the check fail, and the error
/// names its URI; so the first such reference decides, whatever comes after it.
pub proof fn law_first_mismatch_decides(
    xml: Seq<char>,
    l: LocatedView,
    key: PublicKeyView,
    answers: Seq<Answer>,
)
    requires
        answers.len() > 0,
        references_outcome(xml, l, answers.drop_last()) is Ok,
        octets_outcome(xml, l, answers.len() - 1, answers.last()) matches Ok(octets)
            && document::digest_by(l.info.references[answers.len() - 1].digest_method, octets)
            != l.info.references[answers.len() - 1].digest_value,
    ensures
        comes_to(
            xml,
            l,
            key,
            answers,
            Err(ErrorView::DigestMismatch(l.info.references[answers.len() - 1].uri->0)),
        ),
{
}

/// What an external reference with a SHA-256 digest and without transforms comes to rests on that
/// digest alone: data with the digest that was recorded pass, and other data are refused.
pub proof fn law_recorded_digest_decides(
    xml: Seq<char>,
    l: LocatedView,
    index: int,
    uri: Seq<char>,
    recorded: Seq<u8>,
    content: Seq<u8>,
)
    ensures
        ({
            let reference = l.info.references[index];
            let sha256_uri = "http://www.w3.org/2001/04/xmlenc#sha256"@;
            &&& reference.uri == Some(uri)
            &&& !is_same_document(uri)
            &&& reference.transforms.len() == 0
            &&& reference.digest_method == sha256_uri
            &&& reference.digest_value == crypto::sha256_digest(recorded)
        }) ==> reference_outcome(xml, l, index, Some(Ok(content))) == if crypto::sha256_digest(
            content,
        ) == crypto::sha256_digest(recorded) {
            Ok::<(), ErrorView>(())
        } else {
            Err::<(), ErrorView>(ErrorView::DigestMismatch(uri))
        },
{
}

proof fn lemma_references_pass(xml: Seq<char>, l: LocatedView, answers: Seq<Answer>)
    requires
        forall|i: int|
            0 <= i < answers.len() ==> reference_outcome(xml, l, i, #[trigger] answers[i]) == Ok::<
                (),
                ErrorView,
            >(()),
    ensures
        references_outcome(xml, l, answers) == Ok::<(), ErrorView>(()),
    decreases answers.len(),
{
    if answers.len() > 0 {
        let before = answers.drop_last();
        assert forall|i: int| 0 <= i < before.len() implies reference_outcome(
            xml,
            l,
            i,
            #[trigger] before[i],
        ) == Ok::<(), ErrorView>(()) by {
            assert(before[i] == answers[i]);
        }
        lemma_references_pass(xml, l, before);
        assert(answers[answers.len() - 1] == answers.last());
    }
}

/// A signature is one over the data under the public half of its key, by the method that the key
/// names. Of an RSA key it is one by RSASSA-PKCS1-v1_5 with SHA-256, as long as the modulus; of a key
/// on a curve it has 64 bytes. The check holds, if it takes the key.
pub proof fn law_signature_fits_its_key(key: SigningKeyType, data: Seq<u8>, signature: Seq<u8>)
    requires
        key.may_sign(data, Ok(signature)),
    ensures
        match key {
            SigningKeyType::Rsa(der) => keys::rsa_public_numbers(der@) matches Ok(
                (modulus, exponent),
            ) && keys::is_rsa_signature(modulus, exponent, crypto::sha256_digest(data), signature),
            _ => signature.len() == 64,
        },
        key.public_key() matches Ok(public_key) ==> (key.is_checkable() ==> key_check(
            public_key,
            key.method_uri(),
            data,
            signature,
        ) == Ok::<bool, Seq<char>>(true)),
{
}

/// What a key signed, its public half accepts: where every reference has the digest it states, and
/// the signature value is what the key made of the canonical signed information, the check
/// succeeds. The key has to be one that the check takes.
pub proof fn law_own_signature_is_accepted(
    xml: Seq<char>,
    l: LocatedView,
    key: SigningKeyType,
    public_key: PublicKeyView,
    answers: Seq<Answer>,
    canonical: Seq<u8>,
    signature: Seq<u8>,
)
    ensures
        ({
            &&& answers.len() == l.info.references.len()
            &&& forall|i: int|
                0 <= i < answers.len() ==> reference_outcome(xml, l, i, #[trigger] answers[i])
                    == Ok::<(), ErrorView>(())
            &&& document::canonical_form(xml, l.signed_info, l.info.c14n_method) == Some(
                Ok::<Seq<u8>, Seq<char>>(canonical),
            )
            &&& l.value_text matches Some(value) && crypto::decodes_to(
                text::without_white_space(value),
                signature,
            )
            &&& l.info.signature_method == key.method_uri()
            &&& key.may_sign(canonical, Ok(signature))
            &&& key.public_key() == Ok::<PublicKeyView, ErrorView>(public_key)
            &&& key.is_checkable()
        }) ==> comes_to(xml, l, public_key, answers, Ok(())),
{
    if forall|i: int|
        0 <= i < answers.len() ==> reference_outcome(xml, l, i, #[trigger] answers[i]) == Ok::<
            (),
            ErrorView,
        >(()) {
        lemma_references_pass(xml, l, answers);
    }
}

/// Finds the first element with the given local name.
fn find_named(nodes: &Vec<XmlNode>, name: &str) -> (r: Option<usize>)
    ensures
        match r {
            Some(i) => i < nodes.len() && first_named(
                nodes@.map_values(|n: XmlNode| n@),
                name@,
                0,
            ) == Some(i as int),
            None => first_named(nodes@.map_values(|n: XmlNode| n@), name@, 0) is None,
        },
{
    let ghost view = nodes@.map_values(|n: XmlNode| n@);
    let mut i: usize = 0;
    while i < nodes.len()
        invariant
            i <= nodes.len(),
            view == nodes@.map_values(|n: XmlNode| n@),
            first_named(view, name@, 0) == first_named(view, name@, i as int),
        decreases nodes.len() - i,
    {
        assert(view[i as int] == nodes[i as int]@);
        if nodes[i].is_element && same_text(nodes[i].name.as_str(), name) {
            return Some(i);
        }
        i += 1;
    }
    None
}

/// Finds the first child with the given local name of the node at the position `parent`.
fn find_named_child(nodes: &Vec<XmlNode>, parent: usize, name: &str) -> (r: Option<usize>)
    ensures
        match r {
            Some(i) => i < nodes.len() && first_named_child(
                nodes@.map_values(|n: XmlNode| n@),
                parent as int,
                name@,
                0,
            ) == Some(i as int),
            None => first_named_child(
                nodes@.map_values(|n: XmlNode| n@),
                parent as int,
                name@,
                0,
            ) is None,
        },
{
    let ghost view = nodes@.map_values(|n: XmlNode| n@);
    let mut i: usize = 0;
    while i < nodes.len()
        invariant
            i <= nodes.len(),
            view == nodes@.map_values(|n: XmlNode| n@),
            first_named_child(view, parent as int, name@, 0) == first_named_child(
                view,
                parent as int,
                name@,
                i as int,
            ),
        decreases nodes.len() - i,
    {
        assert(view[i as int] == nodes[i as int]@);
        let is_child = match nodes[i].parent {
            Some(p) => p == parent,
            None => false,
        };
        if is_child && nodes[i].is_element && same_text(nodes[i].name.as_str(), name) {
            return Some(i);
        }
        i += 1;
    }
    None
}

/// Finds the first signature in the document `xml`.
pub fn locate_signature(xml: &str) -> (r: Result<LocatedSignature, SignatureError>)
    ensures
        located_view(r) == located(xml@),
        r matches Ok(l) ==> document::has_known_methods(l.info@),
{
    let nodes = match parse_nodes(xml) {
        Ok(nodes) => nodes,
        Err(e) => return Err(SignatureError::XmlStructureError(e)),
    };
    let signature = match find_named(&nodes, "Signature") {
        Some(i) => i,
        None => return Err(SignatureError::MissingElement("Signature".to_owned())),
    };
    let signed_info = match find_named_child(&nodes, signature, "SignedInfo") {
        Some(i) => i,
        None => return Err(SignatureError::MissingElement("SignedInfo".to_owned())),
    };
    let value = match find_named_child(&nodes, signature, "SignatureValue") {
        Some(i) => i,
        None => return Err(SignatureError::MissingElement("SignatureValue".to_owned())),
    };
    let info = match parse_info(xml, signed_info) {
        Ok(info) => info,
        Err(e) => return Err(SignatureError::XmlStructureError(e)),
    };
    let value_text = match &nodes[value].text {
        Some(t) => Some(t.clone()),
        None => None,
    };
    Ok(LocatedSignature { signature, signed_info, value_text, info })
}

/// Tells whether a URI names something in the same document.
pub fn names_same_document(uri: &str) -> (r: bool)
    ensures
        r == is_same_document(uri@),
{
    !uri.is_empty() && uri.get_char(0) == '#'
}

/// An answer as a value.
pub open spec fn answer_view(answer: Option<Result<Vec<u8>, SignatureError>>) -> Answer {
    match answer {
        Some(given) => Some(error::bytes_view(given)),
        None => None,
    }
}

/// Checks the `index`th reference of a signature that was located in `xml`, given what a resolver
/// of external data answered for it.
pub fn check_reference(
    xml: &str,
    signature: &LocatedSignature,
    index: usize,
    answer: Option<Result<Vec<u8>, SignatureError>>,
) -> (r: Result<(), SignatureError>)
    requires
        located(xml@) == Ok::<LocatedView, ErrorView>(signature@),
        document::has_known_methods(signature.info@),
        index < signature.info.references.len(),
    ensures
        error::unit_view(r) == reference_outcome(
            xml@,
            signature@,
            index as int,
            answer_view(answer),
        ),
{
    let reference: &ParsedReference = &signature.info.references[index];
    assert(signature@.info.references[index as int] == reference@);
    proof {
        let nodes = document::xml_nodes(xml@)->Ok_0;
        lemma_first_named_bounds(nodes, "Signature"@, 0);
        lemma_first_named_child_bounds(nodes, signature.signature as int, "SignedInfo"@, 0);
    }
    let uri = match &reference.uri {
        Some(uri) => uri.as_str(),
        None => return Err(SignatureError::MissingElement("Reference URI".to_owned())),
    };
    let octets = if names_same_document(uri) {
        match transform_reference(
            xml,
            signature.signature,
            signature.signed_info,
            index,
            uri,
            reference,
        ) {
            Ok(Ok(octets)) => octets,
            Ok(Err(e)) => return Err(SignatureError::CanonicalizationError(e)),
            Err(e) => return Err(
                SignatureError::ReferenceNotFound(
                    concat4("ID lookup failed for ", uri, ": ", e.as_str()),
                ),
            ),
        }
    } else {
        match answer {
            None => return Err(
                SignatureError::ReferenceNotFound(
                    concat3("External URI '", uri, "' needs resolver"),
                ),
            ),
            Some(Err(e)) => return Err(e),
            Some(Ok(bytes)) => {
                if reference.transforms.len() == 0 {
                    bytes
                } else {
                    match transform_external(
                        xml,
                        signature.signature,
                        signature.signed_info,
                        index,
                        bytes,
                    ) {
                        Ok(octets) => octets,
                        Err(e) => return Err(SignatureError::CanonicalizationError(e)),
                    }
                }
            },
        }
    };
    let digest = digest_of(reference.digest_method.as_str(), octets.as_slice());
    if !same_digest(digest.as_slice(), reference.digest_value.as_slice()) {
        return Err(SignatureError::DigestMismatch(uri.to_owned()));
    }
    Ok(())
}

/// Checks the signature value of a signature that was located in `xml`.
pub fn check_signature_value(
    xml: &str,
    signature: &LocatedSignature,
    public_key: &PublicKeyType,
) -> (r: Result<(), SignatureError>)
    requires
        located(xml@) == Ok::<LocatedView, ErrorView>(signature@),
        document::has_known_methods(signature.info@),
    ensures
        error::unit_view(r) == value_outcome(xml@, signature@, public_key@),
{
    proof {
        let nodes = document::xml_nodes(xml@)->Ok_0;
        lemma_first_named_bounds(nodes, "Signature"@, 0);
        lemma_first_named_child_bounds(nodes, signature.signature as int, "SignedInfo"@, 0);
    }
    let c14n_method = signature.info.c14n_method.as_str();
    let canonical = match canonicalize_part(xml, signature.signed_info, c14n_method) {
        None => return Err(
            SignatureError::UnsupportedError(concat2("Unsupported C14N URI: ", c14n_method)),
        ),
        Some(Err(e)) => return Err(SignatureError::CanonicalizationError(e)),
        Some(Ok(canonical)) => canonical,
    };
    let value_text = match &signature.value_text {
        Some(t) => t,
        None => return Err(
            SignatureError::MissingElement("SignatureValue text content".to_owned()),
        ),
    };
    let clean = remove_white_space(value_text.as_str());
    let value = match base64_decode(clean.as_str()) {
        Ok(value) => value,
        Err(e) => return Err(SignatureError::Base64Error(e)),
    };
    let method = signature.info.signature_method.as_str();
    let checked = match public_key {
        PublicKeyType::Rsa(info) => verify_rsa(
            method,
            info.as_slice(),
            canonical.as_slice(),
            value.as_slice(),
        ),
        PublicKeyType::P256(info) => verify_ecdsa(
            method,
            info.as_slice(),
            canonical.as_slice(),
            value.as_slice(),
        ),
        PublicKeyType::K256(info) => if same_text(
            method,
            "http://www.w3.org/2001/04/xmldsig-more#ecdsa-sha256",
        ) {
            verify_k256(info.as_slice(), canonical.as_slice(), value.as_slice())
        } else {
            verify_ecdsa(method, info.as_slice(), canonical.as_slice(), value.as_slice())
        },
    };
    match checked {
        Err(e) => Err(SignatureError::CryptoVerificationError(e)),
        Ok(holds) => if holds {
            Ok(())
        } else {
            Err(SignatureError::CryptoVerificationError("Signature mismatch".to_owned()))
        },
    }
}

/// Checks the first signature in an XML document: each of its references against the digest that
/// the signature states, and then the signature value under `public_key`. What a reference outside
/// the document names is asked of the resolver.
pub fn verify_signature<F>(
    xml_data: &[u8],
    public_key: &PublicKeyType,
    external_data_resolver: Option<F>,
) -> (r: Result<(), SignatureError>) where F: Fn(&str) -> Result<Vec<u8>, SignatureError>
    requires
        external_data_resolver matches Some(f) ==> forall|asked: &str| call_requires(f, (asked,)),
    ensures
        match signed_document(xml_data@) {
            Err(e) => error::unit_view(r) == Err::<(), ErrorView>(e),
            Ok((xml, l)) => may_come_to(
                xml,
                l,
                public_key@,
                external_data_resolver,
                error::unit_view(r),
            ),
        },
{
    let xml = match utf8_text(xml_data) {
        Ok(xml) => xml,
        Err(e) => return Err(SignatureError::StrUtf8Error(e)),
    };
    let signature = match locate_signature(xml) {
        Ok(signature) => signature,
        Err(e) => return Err(e),
    };
    let ghost l = signature@;
    let ghost mut answers: Seq<Answer> = seq![];
    let mut i: usize = 0;
    while i < signature.info.references.len()
        invariant
            i <= signature.info.references.len(),
            l == signature@,
            located(xml@) == Ok::<LocatedView, ErrorView>(l),
            document::has_known_methods(l.info),
            signed_document(xml_data@) == Ok::<(Seq<char>, LocatedView), ErrorView>((xml@, l)),
            external_data_resolver matches Some(f) ==> forall|asked: &str|
                call_requires(f, (asked,)),
            answers.len() == i,
            are_answers_of(external_data_resolver, l.info, answers),
            references_outcome(xml@, l, answers) is Ok,
        decreases signature.info.references.len() - i,
    {
        let reference: &ParsedReference = &signature.info.references[i];
        assert(l.info.references[i as int] == reference@);
        let answer = match (&external_data_resolver, &reference.uri) {
            (Some(resolver), Some(uri)) => {
                if names_same_document(uri.as_str()) {
                    None
                } else {
                    Some(resolver(uri.as_str()))
                }
            },
            _ => None,
        };
        let ghost before = answers;
        proof {
            answers = answers.push(answer_view(answer));
            assert(answers.drop_last() =~= before);
            assert(is_answer_of(
                external_data_resolver,
                l.info.references[i as int].uri,
                answers[i as int],
            ));
        }
        match check_reference(xml, &signature, i, answer) {
            Ok(()) => {},
            Err(e) => {
                let r = Err(e);
                assert(comes_to(xml@, l, public_key@, answers, error::unit_view(r)));
                return r;
            },
        }
        i += 1;
    }
    let r = check_signature_value(xml, &signature, public_key);
    assert(comes_to(xml@, l, public_key@, answers, error::unit_view(r)));
    r
}

/// Whether the check of a signature over `data` holds under a key, as told by the outside check that
/// goes with the key.
pub open spec fn holds_under(
    key: PublicKeyView,
    method: Seq<char>,
    data: Seq<u8>,
    signature: Seq<u8>,
) -> bool {
    match key {
        PublicKeyView::Rsa(info) => keys::rsa_check(method, info, data, signature) == Ok::<
            bool,
            Seq<char>,
        >(true),
        PublicKeyView::P256(info) => keys::ecdsa_check(method, info, data, signature) == Ok::<
            bool,
            Seq<char>,
        >(true),
        PublicKeyView::K256(info) => if method
            == "http://www.w3.org/2001/04/xmldsig-more#ecdsa-sha256"@ {
            keys::k256_check(info, data, signature) == Ok::<bool, Seq<char>>(true)
        } else {
            keys::ecdsa_check(method, info, data, signature) == Ok::<bool, Seq<char>>(true)
        },
    }
}

/// Whether the value of a signature holds: it is the text of its `SignatureValue` element without white
/// space, decoded, and a signature under the key, by the signature's method, over the canonical form of
/// its `SignedInfo` element.
pub open spec fn value_holds(
    xml: Seq<char>,
    l: LocatedView,
    key: PublicKeyView,
    canonical: Seq<u8>,
    signature: Seq<u8>,
) -> bool {
    &&& document::is_canonicalizable(xml, l.signed_info, l.info.c14n_method)
    &&& document::canonical_node(xml, l.signed_info, l.info.c14n_method) == Some(
        Ok::<Seq<u8>, Seq<char>>(canonical),
    )
    &&& l.value_text matches Some(value) && crypto::base64_decoded(
        value.filter(|c: char| !text::is_white_space(c)),
    ) == Ok::<Seq<u8>, Seq<char>>(signature)
    &&& holds_under(key, l.info.signature_method, canonical, signature)
}

/// Whether `octets` are what the `i`th reference is about: the part of the document that it names, or
/// what was answered for it, with its transforms applied.
pub open spec fn are_octets_of(
    xml: Seq<char>,
    l: LocatedView,
    i: int,
    answer: Answer,
    octets: Seq<u8>,
) -> bool {
    let reference = l.info.references[i];
    reference.uri matches Some(uri) && if uri.len() > 0 && uri[0] == '#' {
        &&& document::uri_nodes(xml, uri) is Ok
        &&& document::is_transformable(xml, l.signature, uri, reference)
        &&& document::same_document_octets(xml, l.signature, l.signed_info, i, uri) == Ok::<
            Seq<u8>,
            Seq<char>,
        >(octets)
    } else {
        answer matches Some(Ok(bytes)) && if reference.transforms.len() == 0 {
            octets == bytes
        } else {
            document::external_octets(xml, l.signature, l.signed_info, i, bytes) == Ok::<
                Seq<u8>,
                Seq<char>,
            >(octets)
        }
    }
}

/// Whether `digest` is the digest of `octets` by the method with the given URI.
pub open spec fn is_digest_of(method: Seq<char>, octets: Seq<u8>, digest: Seq<u8>) -> bool {
    if method == "http://www.w3.org/2001/04/xmlenc#sha256"@ {
        digest == crypto::sha256_digest(octets)
    } else if method == "http://www.w3.org/2000/09/xmldsig#sha1"@ {
        digest == crypto::sha1_digest(octets)
    } else {
        digest == document::other_digest(method, octets)
    }
}

/// Whether the `i`th reference holds: what it is about has the digest that it states.
pub open spec fn reference_holds(xml: Seq<char>, l: LocatedView, i: int, answer: Answer) -> bool {
    exists|octets: Seq<u8>|
        #[trigger] are_octets_of(xml, l, i, answer, octets) && is_digest_of(
            l.info.references[i].digest_method,
            octets,
            l.info.references[i].digest_value,
        )
}

/// A reference passes just where what it is about has the digest that it states.
pub proof fn law_reference_passes_where_it_holds(
    xml: Seq<char>,
    l: LocatedView,
    i: int,
    answer: Answer,
)
    ensures
        reference_outcome(xml, l, i, answer) is Ok <==> reference_holds(xml, l, i, answer),
{
    if let Ok(octets) = octets_outcome(xml, l, i, answer) {
        assert(are_octets_of(xml, l, i, answer, octets));
    }
}

/// Checking a signature succeeds just where every one of its references holds and its value is a
/// signature under the key over its signed information, however many references there are.
pub proof fn law_accepted_where_all_holds(
    xml: Seq<char>,
    l: LocatedView,
    key: PublicKeyView,
    answers: Seq<Answer>,
)
    ensures
        comes_to(xml, l, key, answers, Ok(())) <==> {
            &&& answers.len() == l.info.references.len()
            &&& forall|i: int|
                0 <= i < answers.len() ==> reference_holds(xml, l, i, #[trigger] answers[i])
            &&& exists|canonical: Seq<u8>, signature: Seq<u8>|
                value_holds(xml, l, key, canonical, signature)
        },
{
    let references = references_outcome(xml, l, answers);
    if references is Ok {
        law_passing_references_have_their_digests(xml, l, answers);
        assert forall|i: int| 0 <= i < answers.len() implies reference_holds(
            xml,
            l,
            i,
            #[trigger] answers[i],
        ) by {
            assert(octets_outcome(xml, l, i, answers[i]) is Ok);
            law_reference_passes_where_it_holds(xml, l, i, answers[i]);
        }
    }
    if forall|i: int|
        0 <= i < answers.len() ==> reference_holds(xml, l, i, #[trigger] answers[i]) {
        assert forall|i: int| 0 <= i < answers.len() implies reference_outcome(
            xml,
            l,
            i,
            #[trigger] answers[i],
        ) == Ok::<(), ErrorView>(()) by {
            assert(reference_holds(xml, l, i, answers[i]));
            law_reference_passes_where_it_holds(xml, l, i, answers[i]);
        }
        lemma_references_pass(xml, l, answers);
    }
    lemma_value_holds(xml, l, key);
}

proof fn lemma_value_holds(xml: Seq<char>, l: LocatedView, key: PublicKeyView)
    ensures
        value_outcome(xml, l, key) is Ok <==> exists|canonical: Seq<u8>, signature: Seq<u8>|
            value_holds(xml, l, key, canonical, signature),
{
    if value_outcome(xml, l, key) is Ok {
        let canonical = document::canonical_form(xml, l.signed_info, l.info.c14n_method)->0->Ok_0;
        let signature = crypto::base64_decoded(text::without_white_space(l.value_text->0))->Ok_0;
        assert(value_holds(xml, l, key, canonical, signature));
    }
}

/// Whether the resolver was asked for a URI and gave these bytes.
pub open spec fn was_given<F: Fn(&str) -> Result<Vec<u8>, SignatureError>>(
    resolver: Option<F>,
    uri: Seq<char>,
    bytes: Seq<u8>,
) -> bool {
    exists|asked: &str, given: Result<Vec<u8>, SignatureError>|
        resolver is Some && asked@ == uri && #[trigger] call_ensures(resolver->0, (asked,), given)
            && (given matches Ok(data) && data@ == bytes)
}

/// A document whose signature is accepted holds what it says: each reference into the document holds,
/// each other one holds for bytes that the resolver gave for its URI, and the value is a signature
/// under the key over the signed information.
pub proof fn law_accepted_document_holds<F: Fn(&str) -> Result<Vec<u8>, SignatureError>>(
    xml: Seq<char>,
    l: LocatedView,
    key: PublicKeyView,
    resolver: Option<F>,
)
    requires
        may_come_to(xml, l, key, resolver, Ok(())),
    ensures
        forall|i: int|
            0 <= i < l.info.references.len() ==> {
                let uri = (#[trigger] l.info.references[i]).uri;
                &&& uri is Some
                &&& if uri->0.len() > 0 && uri->0[0] == '#' {
                    reference_holds(xml, l, i, None)
                } else {
                    exists|bytes: Seq<u8>|
                        #[trigger] was_given(resolver, uri->0, bytes) && reference_holds(
                            xml,
                            l,
                            i,
                            Some(Ok(bytes)),
                        )
                }
            },
        exists|canonical: Seq<u8>, signature: Seq<u8>|
            value_holds(xml, l, key, canonical, signature),
{
    let answers = choose|answers: Seq<Answer>|
        are_answers_of(resolver, l.info, answers) && #[trigger] comes_to(
            xml,
            l,
            key,
            answers,
            Ok(()),
        );
    law_accepted_where_all_holds(xml, l, key, answers);
    assert forall|i: int| 0 <= i < l.info.references.len() implies {
        let uri = (#[trigger] l.info.references[i]).uri;
        &&& uri is Some
        &&& if uri->0.len() > 0 && uri->0[0] == '#' {
            reference_holds(xml, l, i, None)
        } else {
            exists|bytes: Seq<u8>|
                #[trigger] was_given(resolver, uri->0, bytes) && reference_holds(
                    xml,
                    l,
                    i,
                    Some(Ok(bytes)),
                )
        }
    } by {
        let uri = l.info.references[i].uri;
        assert(reference_holds(xml, l, i, answers[i]));
        assert(is_answer_of(resolver, uri, answers[i]));
        let octets = choose|octets: Seq<u8>|
            #[trigger] are_octets_of(xml, l, i, answers[i], octets) && is_digest_of(
                l.info.references[i].digest_method,
                octets,
                l.info.references[i].digest_value,
            );
        assert(are_octets_of(xml, l, i, answers[i], octets));
        if !(uri->0.len() > 0 && uri->0[0] == '#') {
            let bytes = answers[i]->0->Ok_0;
            let (asked, given) = choose|asked: &str, given: Result<Vec<u8>, SignatureError>|
                asked@ == uri->0 && #[trigger] call_ensures(resolver->0, (asked,), given)
                    && answers[i] == Some(error::bytes_view(given));
            assert(given is Ok);
            assert(was_given(resolver, uri->0, bytes));
            assert(answers[i] == Some(Ok::<Seq<u8>, ErrorView>(bytes)));
        }
    }
}

/// A value that is no signature under the key makes the check fail, whatever the references are: the
/// error is the outside check's, or tells of the mismatch.
pub proof fn law_other_value_is_refused(
    xml: Seq<char>,
    l: LocatedView,
    key: PublicKeyView,
    answers: Seq<Answer>,
    canonical: Seq<u8>,
    signature: Seq<u8>,
    outcome: Result<(), ErrorView>,
)
    requires
        references_outcome(xml, l, answers) is Ok,
        comes_to(xml, l, key, answers, outcome),
        document::is_canonicalizable(xml, l.signed_info, l.info.c14n_method),
        document::canonical_node(xml, l.signed_info, l.info.c14n_method) == Some(
            Ok::<Seq<u8>, Seq<char>>(canonical),
        ),
        l.value_text matches Some(value) && crypto::base64_decoded(
            value.filter(|c: char| !text::is_white_space(c)),
        ) == Ok::<Seq<u8>, Seq<char>>(signature),
        !holds_under(key, l.info.signature_method, canonical, signature),
    ensures
        outcome matches Err(ErrorView::CryptoVerificationError(message)) && match key {
            PublicKeyView::Rsa(info) => match keys::rsa_check(
                l.info.signature_method,
                info,
                canonical,
                signature,
            ) {
                Ok(_) => message == "Signature mismatch"@,
                Err(e) => message == e,
            },
            PublicKeyView::P256(info) => match keys::ecdsa_check(
                l.info.signature_method,
                info,
                canonical,
                signature,
            ) {
                Ok(_) => message == "Signature mismatch"@,
                Err(e) => message == e,
            },
            PublicKeyView::K256(info) => l.info.signature_method
                == "http://www.w3.org/2001/04/xmldsig-more#ecdsa-sha256"@ ==> match keys::k256_check(
                info,
                canonical,
                signature,
            ) {
                Ok(_) => message == "Signature mismatch"@,
                Err(e) => message == e,
            },
        },
{
}

/// The first reference that does not hold decides: its error is what the check comes to. A missing URI,
/// a part that the document does not hold, data that nobody gives, and another digest are each told.
pub proof fn law_first_failing_reference_is_told(
    xml: Seq<char>,
    l: LocatedView,
    key: PublicKeyView,
    answers: Seq<Answer>,
    outcome: Result<(), ErrorView>,
)
    requires
        answers.len() > 0,
        references_outcome(xml, l, answers.drop_last()) is Ok,
        !reference_holds(xml, l, answers.len() - 1, answers.last()),
        comes_to(xml, l, key, answers, outcome),
    ensures
        ({
            let i = answers.len() - 1;
            let answer = answers.last();
            outcome matches Err(e) && match l.info.references[i].uri {
                None => e == ErrorView::MissingElement("Reference URI"@),
                Some(uri) => if uri.len() > 0 && uri[0] == '#' {
                    match document::uri_nodes(xml, uri) {
                        Err(message) => e == ErrorView::ReferenceNotFound(
                            "ID lookup failed for "@ + uri + ": "@ + message,
                        ),
                        Ok(_) => e is CanonicalizationError || e == ErrorView::DigestMismatch(uri),
                    }
                } else {
                    match answer {
                        None => e == ErrorView::ReferenceNotFound(
                            "External URI '"@ + uri + "' needs resolver"@,
                        ),
                        Some(Err(given)) => e == given,
                        Some(Ok(bytes)) => if l.info.references[i].transforms.len() == 0 {
                            e == ErrorView::DigestMismatch(uri)
                        } else {
                            e is CanonicalizationError || e == ErrorView::DigestMismatch(uri)
                        },
                    }
                },
            }
        }),
{
    law_reference_passes_where_it_holds(xml, l, answers.len() - 1, answers.last());
}

/// The signature that is checked is the first one in the document: no element before it is called
/// `Signature`. Its signed information and its value are its first children of these names.
pub proof fn law_first_signature_is_checked(xml: Seq<char>, l: LocatedView)
    requires
        located(xml) == Ok::<LocatedView, ErrorView>(l),
    ensures
        document::xml_nodes(xml) matches Ok(nodes) && {
            &&& 0 <= l.signature < nodes.len()
            &&& nodes[l.signature].is_element && nodes[l.signature].name == "Signature"@
            &&& forall|i: int|
                0 <= i < l.signature ==> !((#[trigger] nodes[i]).is_element && nodes[i].name
                    == "Signature"@)
            &&& is_first_child(nodes, l.signature, "SignedInfo"@, l.signed_info)
            &&& exists|value: int|
                #[trigger] is_first_child(nodes, l.signature, "SignatureValue"@, value)
                    && l.value_text == nodes[value].text
            &&& document::xml_signed_info(xml, l.signed_info) == Ok::<SignedInfoView, Seq<char>>(
                l.info,
            )
        },
{
    let nodes = document::xml_nodes(xml)->Ok_0;
    lemma_first_named_is_first(nodes, "Signature"@, 0);
    lemma_first_child_is_first(nodes, l.signature, "SignedInfo"@, 0);
    lemma_first_child_is_first(nodes, l.signature, "SignatureValue"@, 0);
    let value = first_named_child(nodes, l.signature, "SignatureValue"@, 0)->0;
    assert(is_first_child(nodes, l.signature, "SignatureValue"@, value));
}

/// Whether the node at `i` is the first element with the given name whose parent is the one at
/// `parent`.
pub open spec fn is_first_child(nodes: Seq<XmlNodeView>, parent: int, name: Seq<char>, i: int) -> bool {
    &&& 0 <= i < nodes.len()
    &&& nodes[i].is_element
    &&& nodes[i].name == name
    &&& nodes[i].parent matches Some(p) && p == parent
    &&& forall|j: int|
        0 <= j < i ==> !((#[trigger] nodes[j]).is_element && nodes[j].name == name && (
        nodes[j].parent matches Some(p) && p == parent))
}

proof fn lemma_first_named_is_first(nodes: Seq<XmlNodeView>, name: Seq<char>, from: int)
    requires
        0 <= from,
    ensures
        first_named(nodes, name, from) matches Some(i) ==> from <= i < nodes.len() && is_named(
            nodes[i],
            name,
        ) && forall|j: int| from <= j < i ==> !is_named(#[trigger] nodes[j], name),
    decreases nodes.len() - from,
{
    if from < nodes.len() && !is_named(nodes[from], name) {
        lemma_first_named_is_first(nodes, name, from + 1);
    }
}

proof fn lemma_first_child_is_first(
    nodes: Seq<XmlNodeView>,
    parent: int,
    name: Seq<char>,
    from: int,
)
    requires
        0 <= from,
    ensures
        first_named_child(nodes, parent, name, from) matches Some(i) ==> from <= i < nodes.len()
            && is_named_child(nodes[i], parent, name) && forall|j: int|
            from <= j < i ==> !is_named_child(#[trigger] nodes[j], parent, name),
    decreases nodes.len() - from,
{
    if from < nodes.len() && !is_named_child(nodes[from], parent, name) {
        lemma_first_child_is_first(nodes, parent, name, from + 1);
    }
}

/// A document in which a signature, its signed information or its value is missing is refused, and the
/// error names what is missing first.
pub proof fn law_missing_parts_are_told(xml: Seq<char>, nodes: Seq<XmlNodeView>)
    requires
        document::xml_nodes(xml) == Ok::<Seq<XmlNodeView>, Seq<char>>(nodes),
    ensures
        (forall|i: int|
            0 <= i < nodes.len() ==> !((#[trigger] nodes[i]).is_element && nodes[i].name
                == "Signature"@)) ==> located(xml) == Err::<LocatedView, ErrorView>(
            ErrorView::MissingElement("Signature"@),
        ),
        located(xml) matches Err(e) ==> {
            ||| e == ErrorView::MissingElement("Signature"@)
            ||| e == ErrorView::MissingElement("SignedInfo"@)
            ||| e == ErrorView::MissingElement("SignatureValue"@)
            ||| exists|i: int|
                #[trigger] document::xml_signed_info(xml, i) matches Err(message) && e
                    == ErrorView::XmlStructureError(message)
        },
{
    lemma_first_named_is_first(nodes, "Signature"@, 0);
    if let Some(signature) = first_named(nodes, "Signature"@, 0) {
        if let Some(info) = first_named_child(nodes, signature, "SignedInfo"@, 0) {
            let said = document::xml_signed_info(xml, info);
        }
    }
}

/// A document is checked as the text that its bytes are in UTF-8; bytes that are no UTF-8 are refused.
pub proof fn law_document_is_read_as_utf8(xml_data: Seq<u8>)
    ensures
        vstd::utf8::valid_utf8(xml_data) ==> match located(vstd::utf8::decode_utf8(xml_data)) {
            Ok(l) => signed_document(xml_data) == Ok::<(Seq<char>, LocatedView), ErrorView>(
                (vstd::utf8::decode_utf8(xml_data), l),
            ),
            Err(e) => signed_document(xml_data) == Err::<(Seq<char>, LocatedView), ErrorView>(e),
        },
        !vstd::utf8::valid_utf8(xml_data) ==> (signed_document(xml_data) matches Err(e)
            && e is StrUtf8Error),
{
}

/// A signature whose value is missing, whose value is no Base64, or whose signed information has no
/// canonical form by a method that is known, is refused, and the error tells which.
pub proof fn law_unreadable_value_is_refused(
    xml: Seq<char>,
    l: LocatedView,
    key: PublicKeyView,
    answers: Seq<Answer>,
    outcome: Result<(), ErrorView>,
)
    requires
        references_outcome(xml, l, answers) is Ok,
        comes_to(xml, l, key, answers, outcome),
    ensures
        ({
            let canonical = document::canonical_form(xml, l.signed_info, l.info.c14n_method);
            &&& canonical is None ==> outcome == Err::<(), ErrorView>(
                ErrorView::UnsupportedError("Unsupported C14N URI: "@ + l.info.c14n_method),
            )
            &&& canonical matches Some(Err(e)) ==> outcome == Err::<(), ErrorView>(
                ErrorView::CanonicalizationError(e),
            )
            &&& canonical matches Some(Ok(bytes)) ==> {
                &&& l.value_text is None ==> outcome == Err::<(), ErrorView>(
                    ErrorView::MissingElement("SignatureValue text content"@),
                )
                &&& l.value_text matches Some(value) ==> (crypto::base64_decoded(
                    value.filter(|c: char| !text::is_white_space(c)),
                ) matches Err(e) ==> outcome == Err::<(), ErrorView>(ErrorView::Base64Error(e)))
            }
        }),
{
}

/// A document that holds is accepted: where each reference into the document holds, each other one holds
/// for whatever the resolver may give for its URI, and the value is a signature under the key, the
/// check succeeds and does not come to anything else.
pub proof fn law_holding_document_is_accepted<F: Fn(&str) -> Result<Vec<u8>, SignatureError>>(
    xml: Seq<char>,
    l: LocatedView,
    key: PublicKeyView,
    resolver: F,
    canonical: Seq<u8>,
    signature: Seq<u8>,
    outcome: Result<(), ErrorView>,
)
    requires
        may_come_to(xml, l, key, Some(resolver), outcome),
        value_holds(xml, l, key, canonical, signature),
        forall|i: int|
            0 <= i < l.info.references.len() ==> (#[trigger] l.info.references[i]).uri is Some,
        forall|i: int|
            0 <= i < l.info.references.len() && names_part((#[trigger] l.info.references[i]).uri->0)
                ==> reference_holds(xml, l, i, None),
        forall|i: int, asked: &str, given: Result<Vec<u8>, SignatureError>|
            #![trigger l.info.references[i], call_ensures(resolver, (asked,), given)]
            0 <= i < l.info.references.len() && !names_part(l.info.references[i].uri->0) && asked@
                == l.info.references[i].uri->0 && call_ensures(resolver, (asked,), given)
                ==> gives_what_holds(xml, l, i, given),
    ensures
        outcome == Ok::<(), ErrorView>(()),
{
    let answers = choose|answers: Seq<Answer>|
        are_answers_of(Some(resolver), l.info, answers) && #[trigger] comes_to(
            xml,
            l,
            key,
            answers,
            outcome,
        );
    assert forall|i: int| 0 <= i < answers.len() implies reference_outcome(
        xml,
        l,
        i,
        #[trigger] answers[i],
    ) == Ok::<(), ErrorView>(()) by {
        let uri = l.info.references[i].uri;
        assert(is_answer_of(Some(resolver), uri, answers[i]));
        assert(l.info.references[i].uri is Some);
        if !names_part(uri->0) {
            let (asked, given) = choose|asked: &str, given: Result<Vec<u8>, SignatureError>|
                asked@ == uri->0 && #[trigger] call_ensures(resolver, (asked,), given)
                    && answers[i] == Some(error::bytes_view(given));
            assert(gives_what_holds(xml, l, i, given));
        }
        assert(reference_holds(xml, l, i, answers[i]));
        law_reference_passes_where_it_holds(xml, l, i, answers[i]);
    }
    lemma_references_pass(xml, l, answers);
    lemma_value_holds(xml, l, key);
    assert(value_outcome(xml, l, key) is Ok);
}

/// Whether a resolver gave bytes for which the `i`th reference holds.
pub open spec fn gives_what_holds(
    xml: Seq<char>,
    l: LocatedView,
    i: int,
    given: Result<Vec<u8>, SignatureError>,
) -> bool {
    given matches Ok(data) && reference_holds(xml, l, i, Some(Ok(data@)))
}

/// Whether a URI names a part of the document: it starts with `#`.
pub open spec fn names_part(uri: Seq<char>) -> bool {
    uri.len() > 0 && uri[0] == '#'
}

/// A text that is no XML is refused with the parser's message.
pub proof fn law_other_text_is_refused(xml: Seq<char>)
    ensures
        document::xml_nodes(xml) matches Err(e) ==> located(xml) == Err::<LocatedView, ErrorView>(
            ErrorView::XmlStructureError(e),
        ),
{
}

} // verus!
