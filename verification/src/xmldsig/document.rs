//! Signed XML documents: their nodes, what their signature says, and the octets it covers.

use roxmltree::{Document, Node, NodeId, NS_XML_URI};
use vstd::prelude::*;
use xml_sec::c14n::{canonicalize, canonicalize_xml, C14nAlgorithm, C14nMode};
use xml_sec::xmldsig::digest::{compute_digest, constant_time_eq, DigestAlgorithm};
use xml_sec::xmldsig::parse::parse_signed_info;
use xml_sec::xmldsig::transforms::{
    execute_transforms, Transform, ENVELOPED_SIGNATURE_URI, XPATH_TRANSFORM_URI,
};
use xml_sec::xmldsig::types::TransformData;
use xml_sec::xmldsig::uri::UriReferenceResolver;

use super::keys;
use crate::crypto;
use crate::text::same_text;

verus! {

/// A node of an XML document.
#[derive(Debug, Clone)]
pub struct XmlNode {
    /// The position of the parent among the nodes of the document.
    pub parent: Option<usize>,
    pub is_element: bool,
    /// The local name of an element; empty for another node.
    pub name: String,
    /// The namespace of an element that has one.
    pub namespace: Option<String>,
    /// The text of a text node or comment, or the text that an element starts with.
    pub text: Option<String>,
    /// The value of an element's `xml:base` attribute.
    pub base: Option<String>,
}

/// An [`XmlNode`] as values.
pub struct XmlNodeView {
    pub parent: Option<usize>,
    pub is_element: bool,
    pub name: Seq<char>,
    pub namespace: Option<Seq<char>>,
    pub text: Option<Seq<char>>,
    pub base: Option<Seq<char>>,
}

/// A reference in the signed information of a signature.
#[derive(Debug, Clone)]
pub struct ParsedReference {
    pub uri: Option<String>,
    /// The URIs of the transforms.
    pub transforms: Vec<String>,
    /// The URI of the digest method.
    pub digest_method: String,
    pub digest_value: Vec<u8>,
}

/// A [`ParsedReference`] as values.
pub struct ReferenceView {
    pub uri: Option<Seq<char>>,
    pub transforms: Seq<Seq<char>>,
    pub digest_method: Seq<char>,
    pub digest_value: Seq<u8>,
}

/// The signed information of a signature.
#[derive(Debug, Clone)]
pub struct ParsedSignedInfo {
    /// The URI of the canonicalization method.
    pub c14n_method: String,
    /// The URI of the signature method.
    pub signature_method: String,
    pub references: Vec<ParsedReference>,
}

/// A [`ParsedSignedInfo`] as values.
pub struct SignedInfoView {
    pub c14n_method: Seq<char>,
    pub signature_method: Seq<char>,
    pub references: Seq<ReferenceView>,
}

/// Optional text as a value.
pub open spec fn optional_text(text: Option<String>) -> Option<Seq<char>> {
    match text {
        Some(t) => Some(t@),
        None => None,
    }
}

impl View for XmlNode {
    type V = XmlNodeView;

    open spec fn view(&self) -> XmlNodeView {
        XmlNodeView {
            parent: self.parent,
            is_element: self.is_element,
            name: self.name@,
            namespace: optional_text(self.namespace),
            text: optional_text(self.text),
            base: optional_text(self.base),
        }
    }
}

impl View for ParsedReference {
    type V = ReferenceView;

    open spec fn view(&self) -> ReferenceView {
        ReferenceView {
            uri: optional_text(self.uri),
            transforms: self.transforms@.map_values(|t: String| t@),
            digest_method: self.digest_method@,
            digest_value: self.digest_value@,
        }
    }
}

impl View for ParsedSignedInfo {
    type V = SignedInfoView;

    open spec fn view(&self) -> SignedInfoView {
        SignedInfoView {
            c14n_method: self.c14n_method@,
            signature_method: self.signature_method@,
            references: self.references@.map_values(|r: ParsedReference| r@),
        }
    }
}

/// The nodes of an XML document in document order, the document itself first, or the message of
/// the parser's error.
pub uninterp spec fn xml_nodes(xml: Seq<char>) -> Result<Seq<XmlNodeView>, Seq<char>>;

/// What the node at a position of an XML document says as `ds:SignedInfo`, or the message of the
/// parser's error.
pub uninterp spec fn xml_signed_info(xml: Seq<char>, node: int) -> Result<
    SignedInfoView,
    Seq<char>,
>;

/// For each node of an XML document, whether it belongs to what a URI that names a part of the
/// document stands for, or the message of the error where it stands for nothing.
pub uninterp spec fn uri_nodes(xml: Seq<char>, uri: Seq<char>) -> Result<Seq<bool>, Seq<char>>;

/// The octets of a reference into the same document: the `index`th one of the signed information at
/// `signed_info`, in the signature at `signature`. They are what the reference's transforms make of
/// the part of the document that `uri` names, or the message of the error.
pub uninterp spec fn same_document_octets(
    xml: Seq<char>,
    signature: int,
    signed_info: int,
    index: int,
    uri: Seq<char>,
) -> Result<Seq<u8>, Seq<char>>;

/// What the transforms of a reference, the `index`th one of the signed information at `signed_info`,
/// in the signature at `signature`, make of bytes from outside the document, or the message of the
/// error.
pub uninterp spec fn external_octets(
    xml: Seq<char>,
    signature: int,
    signed_info: int,
    index: int,
    bytes: Seq<u8>,
) -> Result<Seq<u8>, Seq<char>>;

/// The canonical form, by the method with the given URI, of the node at a position of an XML
/// document, or the message of the error; nothing for a method that is not known.
pub uninterp spec fn canonical_node(xml: Seq<char>, node: int, method: Seq<char>) -> Option<
    Result<Seq<u8>, Seq<char>>,
>;

/// The canonical form (inclusive, version 1.0, without comments) of an XML document, or the message
/// of the error.
pub uninterp spec fn canonical_document(xml: Seq<u8>) -> Result<Seq<u8>, Seq<char>>;

/// The digest of `data` by the digest method with the given URI, which is neither SHA-1 nor SHA-256.
pub uninterp spec fn other_digest(method: Seq<char>, data: Seq<u8>) -> Seq<u8>;

/// The message of the error for bytes that are no UTF-8.
pub uninterp spec fn utf8_error(bytes: Seq<u8>) -> Seq<char>;

/// Whether a digest method is one of those that digests can be computed with.
pub open spec fn is_known_digest(uri: Seq<char>) -> bool {
    ||| uri == "http://www.w3.org/2000/09/xmldsig#sha1"@
    ||| uri == "http://www.w3.org/2001/04/xmlenc#sha256"@
    ||| uri == "http://www.w3.org/2001/04/xmldsig-more#sha384"@
    ||| uri == "http://www.w3.org/2001/04/xmlenc#sha512"@
}

/// Whether the signature method and the digest methods are known.
pub open spec fn has_known_methods(info: SignedInfoView) -> bool {
    &&& keys::is_known_method(info.signature_method)
    &&& forall|i: int|
        0 <= i < info.references.len() ==> is_known_digest(
            (#[trigger] info.references[i]).digest_method,
        )
}

/// Whether a method or transform is canonical XML 1.1, with or without comments. It resolves the
/// `xml:base` value of an element against those of the elements around it.
pub open spec fn resolves_bases(uri: Seq<char>) -> bool {
    ||| uri == "http://www.w3.org/2006/12/xml-c14n11"@
    ||| uri == "http://www.w3.org/2006/12/xml-c14n11#WithComments"@
}

/// What the transforms of a reference do to a part of the document up to the first one that puts it
/// into canonical form, and by that one.
#[derive(Clone, Copy)]
pub struct TransformEffect {
    /// Whether the signature itself is removed.
    pub removes_signature: bool,
    /// Whether all signatures are removed.
    pub removes_signatures: bool,
    /// Whether `xml:base` values are resolved.
    pub resolves_bases: bool,
}

/// The effect of the transforms with the given URIs, from `from` on.
pub open spec fn effect_of(transforms: Seq<Seq<char>>, from: int) -> TransformEffect
    decreases transforms.len() - from,
{
    if from < 0 || from >= transforms.len() {
        TransformEffect {
            removes_signature: false,
            removes_signatures: false,
            resolves_bases: false,
        }
    } else if transforms[from] == "http://www.w3.org/2000/09/xmldsig#enveloped-signature"@ {
        TransformEffect { removes_signature: true, ..effect_of(transforms, from + 1) }
    } else if transforms[from] == "http://www.w3.org/TR/1999/REC-xpath-19991116"@ {
        TransformEffect { removes_signatures: true, ..effect_of(transforms, from + 1) }
    } else {
        TransformEffect {
            removes_signature: false,
            removes_signatures: false,
            resolves_bases: resolves_bases(transforms[from]),
        }
    }
}

/// Whether a node has an `xml:base` value that is not empty.
pub open spec fn has_base(node: XmlNodeView) -> bool {
    node.base matches Some(base) && base.len() > 0
}

/// Whether a node has an `xml:base` value that starts with a character outside ASCII.
pub open spec fn has_odd_base(node: XmlNodeView) -> bool {
    node.base matches Some(base) && base.len() > 0 && base[0] as int >= 0x80
}

/// Whether a node around the one at the position `i` has an `xml:base` value. A node stands behind
/// the nodes around it.
pub open spec fn has_base_around(nodes: Seq<XmlNodeView>, i: int) -> bool
    decreases i,
{
    0 <= i < nodes.len() && (nodes[i].parent matches Some(p) && p < i && (has_base(
        nodes[p as int],
    ) || has_base_around(nodes, p as int)))
}

/// Whether, for the node at the position `i`, a value that starts with a character outside ASCII is
/// to be resolved against another one: the node itself or one around it has such a value, and
/// a node further out has one too.
pub open spec fn meets_odd_base(nodes: Seq<XmlNodeView>, i: int) -> bool
    decreases i,
{
    0 <= i < nodes.len() && ((has_odd_base(nodes[i]) && has_base_around(nodes, i)) || (
    nodes[i].parent matches Some(p) && p < i && meets_odd_base(nodes, p as int)))
}

/// Whether the element at the position `i` belongs to a part of the document, given by whether each
/// node belongs to it, and the element around it does not.
pub open spec fn is_top(nodes: Seq<XmlNodeView>, members: Seq<bool>, i: int) -> bool {
    &&& 0 <= i < nodes.len()
    &&& i < members.len()
    &&& members[i]
    &&& nodes[i].is_element
    &&& !(nodes[i].parent matches Some(p) && p < nodes.len() && p < members.len()
        && nodes[p as int].is_element && members[p as int])
}

/// Whether a node is a `ds:Signature` element.
pub open spec fn is_signature_element(node: XmlNodeView) -> bool {
    &&& node.is_element
    &&& node.name == "Signature"@
    &&& node.namespace == Some("http://www.w3.org/2000/09/xmldsig#"@)
}

/// Whether the node at the position `i`, or one around it, is removed: the signature at `signature`,
/// or a signature at all.
pub open spec fn is_removed(
    nodes: Seq<XmlNodeView>,
    signature: int,
    effect: TransformEffect,
    i: int,
) -> bool
    decreases i,
{
    0 <= i < nodes.len() && ((effect.removes_signature && i == signature) || (
    effect.removes_signatures && is_signature_element(nodes[i])) || (nodes[i].parent matches Some(p)
        && p < i && is_removed(nodes, signature, effect, p as int)))
}

/// Whether a value that starts with a character outside ASCII is to be resolved for a part of the
/// document: for one of its outermost elements that is not removed.
pub open spec fn part_meets_odd_base(
    nodes: Seq<XmlNodeView>,
    members: Seq<bool>,
    signature: int,
    effect: TransformEffect,
) -> bool {
    exists|i: int| #[trigger]
        is_top(nodes, members, i) && !is_removed(nodes, signature, effect, i) && meets_odd_base(
            nodes,
            i,
        )
}

/// The message for an `xml:base` value that cannot be resolved.
pub open spec fn base_message() -> Seq<char> {
    "xml:base starts with a character outside ASCII"@
}

/// Whether the node at a position of an XML document can be put into canonical form by the method with
/// the given URI.
pub open spec fn is_canonicalizable(xml: Seq<char>, node: int, method: Seq<char>) -> bool {
    resolves_bases(method) ==> !(xml_nodes(xml) matches Ok(nodes) && meets_odd_base(nodes, node))
}

/// Whether the transforms of a reference, in the signature at `signature`, can be applied to what
/// `uri` names.
pub open spec fn is_transformable(
    xml: Seq<char>,
    signature: int,
    uri: Seq<char>,
    reference: ReferenceView,
) -> bool {
    let effect = effect_of(reference.transforms, 0);
    effect.resolves_bases ==> match (xml_nodes(xml), uri_nodes(xml, uri)) {
        (Ok(nodes), Ok(members)) => !part_meets_odd_base(nodes, members, signature, effect),
        _ => true,
    }
}

/// The canonical form, by the method with the given URI, of the node at a position of an XML
/// document, or the message of the error; nothing for a method that is not known.
pub open spec fn canonical_form(xml: Seq<char>, node: int, method: Seq<char>) -> Option<
    Result<Seq<u8>, Seq<char>>,
> {
    if is_canonicalizable(xml, node, method) {
        canonical_node(xml, node, method)
    } else {
        Some(Err(base_message()))
    }
}

/// The octets of a reference into the same document, as in [`same_document_octets`], or the message
/// of the error.
pub open spec fn reference_octets(
    xml: Seq<char>,
    signature: int,
    signed_info: int,
    index: int,
    uri: Seq<char>,
    reference: ReferenceView,
) -> Result<Seq<u8>, Seq<char>> {
    if is_transformable(xml, signature, uri, reference) {
        same_document_octets(xml, signature, signed_info, index, uri)
    } else {
        Err(base_message())
    }
}

/// Where no `xml:base` value of a document starts with a character outside ASCII, every node can be
/// put into canonical form by every method, and all transforms can be applied.
pub proof fn law_ascii_bases_are_resolved(
    xml: Seq<char>,
    nodes: Seq<XmlNodeView>,
    node: int,
    method: Seq<char>,
    signature: int,
    uri: Seq<char>,
    reference: ReferenceView,
)
    requires
        xml_nodes(xml) == Ok::<Seq<XmlNodeView>, Seq<char>>(nodes),
        forall|i: int| 0 <= i < nodes.len() ==> !has_odd_base(#[trigger] nodes[i]),
    ensures
        is_canonicalizable(xml, node, method),
        is_transformable(xml, signature, uri, reference),
{
    lemma_no_odd_base(nodes, node);
    assert forall|members: Seq<bool>, effect: TransformEffect| !(
    #[trigger] part_meets_odd_base(nodes, members, signature, effect)) by {
        assert forall|i: int| !(#[trigger] is_top(nodes, members, i) && meets_odd_base(nodes, i)) by {
            lemma_no_odd_base(nodes, i);
        }
    }
}

/// Whether the node at `a` stands around the one at `i`.
pub open spec fn is_around(nodes: Seq<XmlNodeView>, a: int, i: int) -> bool
    decreases i,
{
    0 <= i < nodes.len() && (nodes[i].parent matches Some(p) && p < i && (p == a || is_around(
        nodes,
        a,
        p as int,
    )))
}

/// Whether the `xml:base` value at `j` starts with a character outside ASCII, and the node at `k` stands
/// around that at `j` and has a value too.
pub open spec fn is_odd_inside(nodes: Seq<XmlNodeView>, j: int, k: int) -> bool {
    &&& 0 <= j < nodes.len()
    &&& nodes[j].base matches Some(base)
    &&& base.len() > 0
    &&& base[0] as int >= 0x80
    &&& is_around(nodes, k, j)
    &&& nodes[k].base matches Some(outer)
    &&& outer.len() > 0
}

proof fn lemma_base_around(nodes: Seq<XmlNodeView>, i: int)
    ensures
        has_base_around(nodes, i) <==> exists|k: int| #[trigger]
            is_around(nodes, k, i) && has_base(nodes[k]),
    decreases i,
{
    if 0 <= i < nodes.len() {
        if let Some(p) = nodes[i].parent {
            if p < i {
                lemma_base_around(nodes, p as int);
                assert(is_around(nodes, p as int, i));
                if has_base_around(nodes, p as int) {
                    let k = choose|k: int| #[trigger]
                        is_around(nodes, k, p as int) && has_base(nodes[k]);
                    assert(is_around(nodes, k, i));
                }
                if exists|k: int| #[trigger] is_around(nodes, k, i) && has_base(nodes[k]) {
                    let k = choose|k: int| #[trigger]
                        is_around(nodes, k, i) && has_base(nodes[k]);
                    assert(k == p || is_around(nodes, k, p as int));
                }
            }
        }
    }
}

/// A value outside ASCII is to be resolved for a node just where the node itself or one around it has
/// such a value, and a node further out has a value too.
pub proof fn law_odd_base_is_met_inside_another(nodes: Seq<XmlNodeView>, i: int)
    ensures
        meets_odd_base(nodes, i) <==> exists|j: int, k: int|
            (j == i || is_around(nodes, j, i)) && #[trigger] is_odd_inside(nodes, j, k),
    decreases i,
{
    if 0 <= i < nodes.len() {
        lemma_base_around(nodes, i);
        if has_odd_base(nodes[i]) && has_base_around(nodes, i) {
            let k = choose|k: int| #[trigger] is_around(nodes, k, i) && has_base(nodes[k]);
            assert(is_odd_inside(nodes, i, k));
        }
        if let Some(p) = nodes[i].parent {
            if p < i {
                law_odd_base_is_met_inside_another(nodes, p as int);
                if meets_odd_base(nodes, p as int) {
                    let (j, k) = choose|j: int, k: int|
                        (j == p || is_around(nodes, j, p as int)) && #[trigger] is_odd_inside(
                            nodes,
                            j,
                            k,
                        );
                    assert(is_around(nodes, j, i));
                }
            }
        }
        if exists|j: int, k: int|
            (j == i || is_around(nodes, j, i)) && #[trigger] is_odd_inside(nodes, j, k) {
            let (j, k) = choose|j: int, k: int|
                (j == i || is_around(nodes, j, i)) && #[trigger] is_odd_inside(nodes, j, k);
            if j == i {
                assert(is_around(nodes, k, i) && has_base(nodes[k]));
            } else {
                let p = nodes[i].parent->0 as int;
                assert(j == p || is_around(nodes, j, p));
            }
        }
    } else if exists|j: int, k: int|
        (j == i || is_around(nodes, j, i)) && #[trigger] is_odd_inside(nodes, j, k) {
        let (j, k) = choose|j: int, k: int|
            (j == i || is_around(nodes, j, i)) && #[trigger] is_odd_inside(nodes, j, k);
    }
}

/// A node for which such a value is to be resolved has no canonical form by canonical XML 1.1, and the
/// message tells why.
pub proof fn law_odd_base_is_refused(
    xml: Seq<char>,
    nodes: Seq<XmlNodeView>,
    i: int,
    j: int,
    k: int,
    method: Seq<char>,
)
    requires
        xml_nodes(xml) == Ok::<Seq<XmlNodeView>, Seq<char>>(nodes),
        j == i || is_around(nodes, j, i),
        is_odd_inside(nodes, j, k),
        method == "http://www.w3.org/2006/12/xml-c14n11"@ || method
            == "http://www.w3.org/2006/12/xml-c14n11#WithComments"@,
    ensures
        canonical_form(xml, i, method) == Some(
            Err::<Seq<u8>, Seq<char>>("xml:base starts with a character outside ASCII"@),
        ),
{
    law_odd_base_is_met_inside_another(nodes, i);
}

/// Whether a transform takes signatures out of a part of the document, which stays such a part.
pub open spec fn takes_signatures_out(uri: Seq<char>) -> bool {
    uri == "http://www.w3.org/2000/09/xmldsig#enveloped-signature"@ || uri
        == "http://www.w3.org/TR/1999/REC-xpath-19991116"@
}

/// Whether the transform at `i` is applied to a part of the document: all before it take signatures out.
pub open spec fn is_applied_to_part(transforms: Seq<Seq<char>>, i: int) -> bool {
    &&& 0 <= i < transforms.len()
    &&& forall|j: int| 0 <= j < i ==> takes_signatures_out(#[trigger] transforms[j])
}

proof fn lemma_effect(transforms: Seq<Seq<char>>, from: int)
    requires
        0 <= from,
        forall|j: int|
            0 <= j < from && j < transforms.len() ==> takes_signatures_out(
                #[trigger] transforms[j],
            ),
    ensures
        effect_of(transforms, from).removes_signature <==> exists|i: int| #[trigger]
            is_applied_to_part(transforms, i) && i >= from && transforms[i]
                == "http://www.w3.org/2000/09/xmldsig#enveloped-signature"@,
        effect_of(transforms, from).removes_signatures <==> exists|i: int| #[trigger]
            is_applied_to_part(transforms, i) && i >= from && transforms[i]
                == "http://www.w3.org/TR/1999/REC-xpath-19991116"@,
        effect_of(transforms, from).resolves_bases <==> exists|i: int| #[trigger]
            is_applied_to_part(transforms, i) && i >= from && (transforms[i]
                == "http://www.w3.org/2006/12/xml-c14n11"@ || transforms[i]
                == "http://www.w3.org/2006/12/xml-c14n11#WithComments"@),
    decreases transforms.len() - from,
{
    lemma_transforms_differ();
    if from < transforms.len() {
        assert(is_applied_to_part(transforms, from));
        if takes_signatures_out(transforms[from]) {
            lemma_effect(transforms, from + 1);
        } else {
            assert forall|i: int| #[trigger] is_applied_to_part(transforms, i) && i >= from implies i
                == from by {
                if i > from {
                    assert(takes_signatures_out(transforms[from]));
                }
            }
        }
    }
}

proof fn lemma_transforms_differ()
    ensures
        "http://www.w3.org/2000/09/xmldsig#enveloped-signature"@
            != "http://www.w3.org/TR/1999/REC-xpath-19991116"@,
        !resolves_bases("http://www.w3.org/2000/09/xmldsig#enveloped-signature"@),
        !resolves_bases("http://www.w3.org/TR/1999/REC-xpath-19991116"@),
{
    reveal_strlit("http://www.w3.org/2000/09/xmldsig#enveloped-signature");
    reveal_strlit("http://www.w3.org/TR/1999/REC-xpath-19991116");
    reveal_strlit("http://www.w3.org/2006/12/xml-c14n11");
    reveal_strlit("http://www.w3.org/2006/12/xml-c14n11#WithComments");
    assert("http://www.w3.org/2000/09/xmldsig#enveloped-signature"@.len() == 53);
    assert("http://www.w3.org/TR/1999/REC-xpath-19991116"@.len() == 44);
    assert("http://www.w3.org/2006/12/xml-c14n11"@.len() == 36);
    assert("http://www.w3.org/2006/12/xml-c14n11#WithComments"@.len() == 49);
}

/// What the transforms of a reference do to a part of the document is told by those that are applied to
/// it: the enveloped-signature transform takes the signature out, the XPath one all signatures, and
/// canonical XML 1.1 resolves `xml:base` values.
pub proof fn law_effect_is_that_of_the_transforms(transforms: Seq<Seq<char>>)
    ensures
        effect_of(transforms, 0).removes_signature <==> exists|i: int| #[trigger]
            is_applied_to_part(transforms, i) && transforms[i]
                == "http://www.w3.org/2000/09/xmldsig#enveloped-signature"@,
        effect_of(transforms, 0).removes_signatures <==> exists|i: int| #[trigger]
            is_applied_to_part(transforms, i) && transforms[i]
                == "http://www.w3.org/TR/1999/REC-xpath-19991116"@,
        effect_of(transforms, 0).resolves_bases <==> exists|i: int| #[trigger]
            is_applied_to_part(transforms, i) && (transforms[i]
                == "http://www.w3.org/2006/12/xml-c14n11"@ || transforms[i]
                == "http://www.w3.org/2006/12/xml-c14n11#WithComments"@),
{
    lemma_effect(transforms, 0);
}

/// Whether the node at `j` is taken out: it is the signature, or a signature where all are.
pub open spec fn is_taken_out(
    nodes: Seq<XmlNodeView>,
    signature: int,
    effect: TransformEffect,
    j: int,
) -> bool {
    &&& 0 <= j < nodes.len()
    &&& (effect.removes_signature && j == signature) || (effect.removes_signatures
        && nodes[j].is_element && nodes[j].name == "Signature"@ && nodes[j].namespace == Some(
        "http://www.w3.org/2000/09/xmldsig#"@,
    ))
}

/// A node goes with the signatures just where it, or a node around it, is taken out.
pub proof fn law_node_goes_with_its_signature(
    nodes: Seq<XmlNodeView>,
    signature: int,
    effect: TransformEffect,
    i: int,
)
    ensures
        is_removed(nodes, signature, effect, i) <==> exists|j: int|
            (j == i || is_around(nodes, j, i)) && #[trigger] is_taken_out(
                nodes,
                signature,
                effect,
                j,
            ),
    decreases i,
{
    if 0 <= i < nodes.len() {
        let own = (effect.removes_signature && i == signature) || (effect.removes_signatures
            && is_signature_element(nodes[i]));
        assert(own == is_taken_out(nodes, signature, effect, i));
        if let Some(p) = nodes[i].parent {
            if p < i {
                law_node_goes_with_its_signature(nodes, signature, effect, p as int);
                assert(is_around(nodes, p as int, i));
                if is_removed(nodes, signature, effect, p as int) {
                    let j = choose|j: int|
                        (j == p || is_around(nodes, j, p as int)) && #[trigger] is_taken_out(
                            nodes,
                            signature,
                            effect,
                            j,
                        );
                    assert(is_around(nodes, j, i));
                }
            }
        }
        if exists|j: int|
            (j == i || is_around(nodes, j, i)) && #[trigger] is_taken_out(
                nodes,
                signature,
                effect,
                j,
            ) {
            let j = choose|j: int|
                (j == i || is_around(nodes, j, i)) && #[trigger] is_taken_out(
                    nodes,
                    signature,
                    effect,
                    j,
                );
            if j != i {
                let p = nodes[i].parent->0 as int;
                assert(j == p || is_around(nodes, j, p));
            }
        }
    }
}

/// Canonical XML 1.1 alone resolves `xml:base` values: by any other method every node can be put into
/// canonical form, and transforms none of which is canonical XML 1.1 can always be applied.
pub proof fn law_other_methods_leave_bases(
    xml: Seq<char>,
    node: int,
    method: Seq<char>,
    signature: int,
    uri: Seq<char>,
    reference: ReferenceView,
)
    ensures
        method != "http://www.w3.org/2006/12/xml-c14n11"@ && method
            != "http://www.w3.org/2006/12/xml-c14n11#WithComments"@ ==> is_canonicalizable(
            xml,
            node,
            method,
        ),
        (forall|i: int|
            0 <= i < reference.transforms.len() ==> #[trigger] reference.transforms[i]
                != "http://www.w3.org/2006/12/xml-c14n11"@ && reference.transforms[i]
                != "http://www.w3.org/2006/12/xml-c14n11#WithComments"@) ==> is_transformable(
            xml,
            signature,
            uri,
            reference,
        ),
{
    if forall|i: int|
        0 <= i < reference.transforms.len() ==> #[trigger] reference.transforms[i]
            != "http://www.w3.org/2006/12/xml-c14n11"@ && reference.transforms[i]
            != "http://www.w3.org/2006/12/xml-c14n11#WithComments"@ {
        lemma_no_resolving(reference.transforms, 0);
    }
}

proof fn lemma_no_resolving(transforms: Seq<Seq<char>>, from: int)
    requires
        forall|i: int| 0 <= i < transforms.len() ==> !resolves_bases(#[trigger] transforms[i]),
    ensures
        !effect_of(transforms, from).resolves_bases,
    decreases transforms.len() - from,
{
    if 0 <= from < transforms.len() {
        lemma_no_resolving(transforms, from + 1);
    }
}

proof fn lemma_no_odd_base(nodes: Seq<XmlNodeView>, i: int)
    requires
        forall|j: int| 0 <= j < nodes.len() ==> !has_odd_base(#[trigger] nodes[j]),
    ensures
        !meets_odd_base(nodes, i),
    decreases i,
{
    if 0 <= i < nodes.len() {
        if let Some(p) = nodes[i].parent {
            if p < i {
                lemma_no_odd_base(nodes, p as int);
            }
        }
    }
}

/// Nodes or a message, as values.
pub open spec fn nodes_view(r: Result<Vec<XmlNode>, String>) -> Result<
    Seq<XmlNodeView>,
    Seq<char>,
> {
    match r {
        Ok(nodes) => Ok(nodes@.map_values(|n: XmlNode| n@)),
        Err(e) => Err(e@),
    }
}

/// Signed information or a message, as values.
pub open spec fn info_view(r: Result<ParsedSignedInfo, String>) -> Result<
    SignedInfoView,
    Seq<char>,
> {
    match r {
        Ok(info) => Ok(info@),
        Err(e) => Err(e@),
    }
}

/// Which nodes belong to a part, or a message, as values.
pub open spec fn members_view(r: Result<Vec<bool>, String>) -> Result<Seq<bool>, Seq<char>> {
    match r {
        Ok(members) => Ok(members@),
        Err(e) => Err(e@),
    }
}

/// Whether `r`, where it tells which nodes belong to a part, tells of each node.
pub open spec fn tells_of_each(
    r: Result<Vec<bool>, String>,
    nodes: Result<Seq<XmlNodeView>, Seq<char>>,
) -> bool {
    r matches Ok(members) ==> (nodes matches Ok(nodes) && members@.len() == nodes.len())
}

/// A canonical form, where the method is known, as values.
pub open spec fn canonical_view(r: Option<Result<Vec<u8>, String>>) -> Option<
    Result<Seq<u8>, Seq<char>>,
> {
    match r {
        Some(r) => Some(crypto::decoded_view(r)),
        None => None,
    }
}

/// Whether the methods in `r`, where it is signed information, are known.
pub open spec fn known_or_error(r: Result<ParsedSignedInfo, String>) -> bool {
    r matches Ok(info) ==> has_known_methods(info@)
}

/// Whether `text` is what `bytes` hold in UTF-8, or the error's message where they hold none.
pub open spec fn is_utf8_text(r: Result<&str, String>, bytes: Seq<u8>, message: Seq<char>) -> bool {
    match r {
        Ok(text) => vstd::utf8::valid_utf8(bytes) && text@ == vstd::utf8::decode_utf8(bytes),
        Err(e) => !vstd::utf8::valid_utf8(bytes) && e@ == message,
    }
}

/// Calls `std::str::from_utf8`. It gives the text where the bytes are valid UTF-8, and else an
/// error, kept as its message.
#[verifier::external_body]
pub(crate) fn utf8_text(bytes: &[u8]) -> (r: Result<&str, String>)
    ensures
        is_utf8_text(r, bytes@, utf8_error(bytes@)),
{
    std::str::from_utf8(bytes).map_err(|e| e.to_string())
}

/// Calls `roxmltree`'s `Document::parse` and hands out the nodes that `descendants` gives. They are
/// [`xml_nodes`], each at the position that is its id in the document; an error is its message. What
/// the nodes of a given text are is left open, also for a text that this library wrote.
#[verifier::external_body]
pub(crate) fn parse_nodes(xml: &str) -> (r: Result<Vec<XmlNode>, String>)
    ensures
        nodes_view(r) == xml_nodes(xml@),
{
    let document = Document::parse(xml).map_err(|e| e.to_string())?;
    Ok(document.descendants().map(|n| XmlNode {
        parent: n.parent().map(|p| p.id().get_usize()),
        is_element: n.is_element(),
        name: n.tag_name().name().to_string(),
        namespace: n.tag_name().namespace().map(|u| u.to_string()),
        text: n.text().map(|t| t.to_string()),
        base: n.attribute((NS_XML_URI, "base")).map(|b| b.to_string()),
    }).collect())
}

/// Calls `xml_sec`'s `parse_signed_info` on a node of the document. Its result is
/// [`xml_signed_info`], with each method and each transform given by its URI. The methods are ones
/// that `xml_sec` knows. An
/// error is its message. What is read from a given text is left open, also for a text that this
/// library wrote.
#[verifier::external_body]
pub(crate) fn parse_info(xml: &str, node: usize) -> (r: Result<ParsedSignedInfo, String>)
    requires
        xml_nodes(xml@) matches Ok(nodes) && node < nodes.len(),
    ensures
        info_view(r) == xml_signed_info(xml@, node as int),
        known_or_error(r),
{
    let document = Document::parse(xml).unwrap();
    let element = document.get_node(NodeId::from(node)).unwrap();
    let info = parse_signed_info(element).map_err(|e| e.to_string())?;
    Ok(ParsedSignedInfo {
        c14n_method: info.c14n_method.uri().to_string(),
        signature_method: info.signature_method.uri().to_string(),
        references: info.references.into_iter().map(|r| ParsedReference {
            transforms: r.transforms.into_iter().map(|t| match t {
                Transform::Enveloped => ENVELOPED_SIGNATURE_URI.to_string(),
                Transform::XpathExcludeAllSignatures => XPATH_TRANSFORM_URI.to_string(),
                Transform::C14n(method) => method.uri().to_string(),
            }).collect(),
            uri: r.uri, digest_method: r.digest_method.uri().to_string(), digest_value: r.digest_value,
        }).collect(),
    })
}

/// Calls `xml_sec`'s `UriReferenceResolver::dereference`, and `contains` of the node set that it gives
/// for each node that `descendants` gives. Its result is [`uri_nodes`], one for each of the nodes of
/// the document; an error is its message.
#[verifier::external_body]
fn dereference(xml: &str, uri: &str) -> (r: Result<Vec<bool>, String>)
    requires
        xml_nodes(xml@) is Ok,
    ensures
        members_view(r) == uri_nodes(xml@, uri@),
        tells_of_each(r, xml_nodes(xml@)),
{
    let document = Document::parse(xml).unwrap();
    let data = UriReferenceResolver::new(&document).dereference(uri).map_err(|e| e.to_string())?;
    let nodes = data.into_node_set().map_err(|e| e.to_string())?;
    Ok(document.descendants().map(|n| nodes.contains(n)).collect())
}

/// Calls `xml_sec`'s `execute_transforms` with the transforms of a reference of the signature, on
/// what `UriReferenceResolver::dereference` finds for the URI. Its result is
/// [`same_document_octets`]; an error is its message. Canonical XML 1.1 panics where it resolves an
/// `xml:base` value that starts with a character outside ASCII, which the requirement leaves out.
#[verifier::external_body]
fn transform_same_document(
    xml: &str,
    signature: usize,
    signed_info: usize,
    index: usize,
    uri: &str,
) -> (r: Result<Vec<u8>, String>)
    requires
        xml_nodes(xml@) matches Ok(nodes) && signature < nodes.len() && signed_info < nodes.len(),
        xml_signed_info(xml@, signed_info as int) matches Ok(info) && index < info.references.len()
            && is_transformable(xml@, signature as int, uri@, info.references[index as int]),
        uri_nodes(xml@, uri@) is Ok,
    ensures
        crypto::decoded_view(r) == same_document_octets(
            xml@,
            signature as int,
            signed_info as int,
            index as int,
            uri@,
        ),
{
    let document = Document::parse(xml).unwrap();
    let element = |id: usize| document.get_node(NodeId::from(id)).unwrap();
    let info = parse_signed_info(element(signed_info)).unwrap();
    let data = UriReferenceResolver::new(&document).dereference(uri).unwrap();
    execute_transforms(element(signature), data, &info.references[index].transforms)
        .map_err(|e| e.to_string())
}

/// Calls `xml_sec`'s `execute_transforms` with the transforms of a reference of the signature, on
/// bytes. Its result is [`external_octets`]; an error is its message.
#[verifier::external_body]
pub(crate) fn transform_external(
    xml: &str,
    signature: usize,
    signed_info: usize,
    index: usize,
    bytes: Vec<u8>,
) -> (r: Result<Vec<u8>, String>)
    requires
        xml_nodes(xml@) matches Ok(nodes) && signature < nodes.len() && signed_info < nodes.len(),
        xml_signed_info(xml@, signed_info as int) matches Ok(info) && index < info.references.len(),
    ensures
        crypto::decoded_view(r) == external_octets(
            xml@,
            signature as int,
            signed_info as int,
            index as int,
            bytes@,
        ),
{
    let document = Document::parse(xml).unwrap();
    let element = |id: usize| document.get_node(NodeId::from(id)).unwrap();
    let info = parse_signed_info(element(signed_info)).unwrap();
    let data = TransformData::Binary(bytes);
    execute_transforms(element(signature), data, &info.references[index].transforms)
        .map_err(|e| e.to_string())
}

/// Whether the node at the position `node` is the one at `top` or stands inside it, if the parents of
/// the nodes are given and no more than `steps` of them are followed.
pub open spec fn stands_inside(
    parents: Seq<Option<usize>>,
    node: int,
    top: int,
    steps: nat,
) -> bool
    decreases steps,
{
    node == top || (steps > 0 && 0 <= node < parents.len() && (parents[node] matches Some(parent)
        && stands_inside(parents, parent as int, top, (steps - 1) as nat)))
}

/// Tells whether the node at the position `node` is the one at `top` or stands inside it.
fn is_inside(parents: &Vec<Option<usize>>, node: usize, top: usize) -> (r: bool)
    ensures
        r == stands_inside(parents@, node as int, top as int, parents@.len()),
{
    let mut at = node;
    let mut steps = parents.len();
    while at != top
        invariant
            stands_inside(parents@, node as int, top as int, parents@.len()) == stands_inside(
                parents@,
                at as int,
                top as int,
                steps as nat,
            ),
        decreases steps,
    {
        if steps == 0 || at >= parents.len() {
            return false;
        }
        match parents[at] {
            Some(parent) => {
                at = parent;
            },
            None => return false,
        }
        steps -= 1;
    }
    true
}

/// Calls `xml_sec`'s `canonicalize` on a node of the document and what stands inside it, by the method
/// that `C14nAlgorithm::from_uri` gives for the URI. Its result is [`canonical_node`]; an error is
/// its message. Canonical XML 1.1 panics where it resolves an `xml:base` value that starts with a
/// character outside ASCII, which the requirement leaves out.
#[verifier::external_body]
fn canonicalize_node(xml: &str, node: usize, method: &str) -> (r: Option<
    Result<Vec<u8>, String>,
>)
    requires
        xml_nodes(xml@) matches Ok(nodes) && node < nodes.len(),
        is_canonicalizable(xml@, node as int, method@),
    ensures
        canonical_view(r) == canonical_node(xml@, node as int, method@),
{
    let algorithm = C14nAlgorithm::from_uri(method)?;
    let document = Document::parse(xml).unwrap();
    let parents: Vec<Option<usize>> =
        document.descendants().map(|n| n.parent().map(|p| p.id().get_usize())).collect();
    let within = |n: Node| is_inside(&parents, n.id().get_usize(), node);
    let mut out = Vec::new();
    Some(canonicalize(&document, Some(&within), &algorithm, &mut out)
        .map(|()| out).map_err(|e| e.to_string()))
}

/// Tells whether a method or transform resolves `xml:base` values.
fn is_resolving(uri: &str) -> (r: bool)
    ensures
        r == resolves_bases(uri@),
{
    same_text(uri, "http://www.w3.org/2006/12/xml-c14n11") || same_text(
        uri,
        "http://www.w3.org/2006/12/xml-c14n11#WithComments",
    )
}

/// Finds the effect of the transforms of a reference.
fn find_effect(reference: &ParsedReference) -> (r: TransformEffect)
    ensures
        r == effect_of(reference@.transforms, 0),
{
    let ghost transforms = reference@.transforms;
    let mut removes_signature = false;
    let mut removes_signatures = false;
    let mut i: usize = 0;
    while i < reference.transforms.len()
        invariant
            i <= reference.transforms.len() == transforms.len(),
            transforms == reference@.transforms,
            effect_of(transforms, 0) == (TransformEffect {
                removes_signature: removes_signature || effect_of(
                    transforms,
                    i as int,
                ).removes_signature,
                removes_signatures: removes_signatures || effect_of(
                    transforms,
                    i as int,
                ).removes_signatures,
                resolves_bases: effect_of(transforms, i as int).resolves_bases,
            }),
        decreases reference.transforms.len() - i,
    {
        assert(transforms[i as int] == reference.transforms[i as int]@);
        let uri = reference.transforms[i].as_str();
        if same_text(uri, "http://www.w3.org/2000/09/xmldsig#enveloped-signature") {
            removes_signature = true;
        } else if same_text(uri, "http://www.w3.org/TR/1999/REC-xpath-19991116") {
            removes_signatures = true;
        } else {
            let resolves_bases = is_resolving(uri);
            return TransformEffect { removes_signature, removes_signatures, resolves_bases };
        }
        i += 1;
    }
    TransformEffect { removes_signature, removes_signatures, resolves_bases: false }
}

/// Tells whether a node has an `xml:base` value, and whether that starts with a character outside
/// ASCII.
fn find_base(node: &XmlNode) -> (r: (bool, bool))
    ensures
        r == (has_base(node@), has_odd_base(node@)),
{
    match &node.base {
        Some(base) => {
            if base.as_str().is_empty() {
                (false, false)
            } else {
                (true, base.as_str().get_char(0) as u32 >= 0x80)
            }
        },
        None => (false, false),
    }
}

/// Tells whether a node around the one at the position `i` has an `xml:base` value.
fn find_base_around(nodes: &Vec<XmlNode>, i: usize) -> (r: bool)
    requires
        i < nodes.len(),
    ensures
        r == has_base_around(nodes@.map_values(|n: XmlNode| n@), i as int),
{
    let ghost views = nodes@.map_values(|n: XmlNode| n@);
    let mut at = i;
    loop
        invariant
            at < nodes.len(),
            views == nodes@.map_values(|n: XmlNode| n@),
            has_base_around(views, i as int) == has_base_around(views, at as int),
        decreases at,
    {
        assert(views[at as int] == nodes[at as int]@);
        match nodes[at].parent {
            Some(parent) => {
                if parent >= at {
                    return false;
                }
                assert(views[parent as int] == nodes[parent as int]@);
                if find_base(&nodes[parent]).0 {
                    return true;
                }
                at = parent;
            },
            None => return false,
        }
    }
}

/// Tells whether a value that starts with a character outside ASCII is to be resolved for the node at
/// the position `i`.
fn finds_odd_base(nodes: &Vec<XmlNode>, i: usize) -> (r: bool)
    requires
        i < nodes.len(),
    ensures
        r == meets_odd_base(nodes@.map_values(|n: XmlNode| n@), i as int),
{
    let ghost views = nodes@.map_values(|n: XmlNode| n@);
    let mut at = i;
    loop
        invariant
            at < nodes.len(),
            views == nodes@.map_values(|n: XmlNode| n@),
            meets_odd_base(views, i as int) == meets_odd_base(views, at as int),
        decreases at,
    {
        assert(views[at as int] == nodes[at as int]@);
        if find_base(&nodes[at]).1 && find_base_around(nodes, at) {
            return true;
        }
        match nodes[at].parent {
            Some(parent) => {
                if parent >= at {
                    return false;
                }
                at = parent;
            },
            None => return false,
        }
    }
}

/// Tells whether a node is a `ds:Signature` element.
fn names_signature(node: &XmlNode) -> (r: bool)
    ensures
        r == is_signature_element(node@),
{
    let in_namespace = match &node.namespace {
        Some(uri) => same_text(uri.as_str(), "http://www.w3.org/2000/09/xmldsig#"),
        None => false,
    };
    node.is_element && same_text(node.name.as_str(), "Signature") && in_namespace
}

/// Tells whether the node at the position `i`, or one around it, is removed.
fn finds_removal(nodes: &Vec<XmlNode>, signature: usize, effect: TransformEffect, i: usize) -> (r:
    bool)
    requires
        i < nodes.len(),
    ensures
        r == is_removed(
            nodes@.map_values(|n: XmlNode| n@),
            signature as int,
            effect,
            i as int,
        ),
{
    let ghost views = nodes@.map_values(|n: XmlNode| n@);
    let mut at = i;
    loop
        invariant
            at < nodes.len(),
            views == nodes@.map_values(|n: XmlNode| n@),
            is_removed(views, signature as int, effect, i as int) == is_removed(
                views,
                signature as int,
                effect,
                at as int,
            ),
        decreases at,
    {
        assert(views[at as int] == nodes[at as int]@);
        if effect.removes_signature && at == signature {
            return true;
        }
        if effect.removes_signatures && names_signature(&nodes[at]) {
            return true;
        }
        match nodes[at].parent {
            Some(parent) => {
                if parent >= at {
                    return false;
                }
                at = parent;
            },
            None => return false,
        }
    }
}

/// Tells whether a value that starts with a character outside ASCII is to be resolved for a part of
/// the document.
fn part_finds_odd_base(
    nodes: &Vec<XmlNode>,
    members: &Vec<bool>,
    signature: usize,
    effect: TransformEffect,
) -> (r: bool)
    requires
        nodes.len() == members.len(),
    ensures
        r == part_meets_odd_base(
            nodes@.map_values(|n: XmlNode| n@),
            members@,
            signature as int,
            effect,
        ),
{
    let ghost views = nodes@.map_values(|n: XmlNode| n@);
    let mut i: usize = 0;
    while i < nodes.len()
        invariant
            i <= nodes.len() == members.len(),
            views == nodes@.map_values(|n: XmlNode| n@),
            forall|j: int|
                #[trigger] is_top(views, members@, j) && j < i ==> is_removed(
                    views,
                    signature as int,
                    effect,
                    j,
                ) || !meets_odd_base(views, j),
        decreases nodes.len() - i,
    {
        assert(views[i as int] == nodes[i as int]@);
        let parent_belongs = match nodes[i].parent {
            Some(parent) => {
                if parent < nodes.len() {
                    assert(views[parent as int] == nodes[parent as int]@);
                    nodes[parent].is_element && members[parent]
                } else {
                    false
                }
            },
            None => false,
        };
        let top = members[i] && nodes[i].is_element && !parent_belongs;
        assert(top == is_top(views, members@, i as int));
        if top && !finds_removal(nodes, signature, effect, i) && finds_odd_base(nodes, i) {
            return true;
        }
        i += 1;
    }
    false
}

/// Puts the node at a position of an XML document into canonical form, by the method with the given
/// URI.
pub(crate) fn canonicalize_part(xml: &str, node: usize, method: &str) -> (r: Option<
    Result<Vec<u8>, String>,
>)
    requires
        xml_nodes(xml@) matches Ok(nodes) && node < nodes.len(),
    ensures
        canonical_view(r) == canonical_form(xml@, node as int, method@),
{
    if is_resolving(method) {
        if let Ok(nodes) = parse_nodes(xml) {
            if finds_odd_base(&nodes, node) {
                return Some(Err("xml:base starts with a character outside ASCII".to_owned()));
            }
        }
    }
    canonicalize_node(xml, node, method)
}

/// The octets of a reference into the same document, where the document holds what its URI names.
pub(crate) fn transform_reference(
    xml: &str,
    signature: usize,
    signed_info: usize,
    index: usize,
    uri: &str,
    reference: &ParsedReference,
) -> (r: Result<Result<Vec<u8>, String>, String>)
    requires
        xml_nodes(xml@) matches Ok(nodes) && signature < nodes.len() && signed_info < nodes.len(),
        xml_signed_info(xml@, signed_info as int) matches Ok(info) && index < info.references.len()
            && info.references[index as int] == reference@,
    ensures
        match r {
            Ok(octets) => uri_nodes(xml@, uri@) is Ok && crypto::decoded_view(octets)
                == reference_octets(
                xml@,
                signature as int,
                signed_info as int,
                index as int,
                uri@,
                reference@,
            ),
            Err(e) => uri_nodes(xml@, uri@) == Err::<Seq<bool>, Seq<char>>(e@),
        },
{
    let members = match dereference(xml, uri) {
        Ok(members) => members,
        Err(e) => return Err(e),
    };
    let effect = find_effect(reference);
    if effect.resolves_bases {
        if let Ok(nodes) = parse_nodes(xml) {
            if part_finds_odd_base(&nodes, &members, signature, effect) {
                return Ok(Err("xml:base starts with a character outside ASCII".to_owned()));
            }
        }
    }
    Ok(transform_same_document(xml, signature, signed_info, index, uri))
}

/// Calls `xml_sec`'s `canonicalize_xml` (inclusive, version 1.0, without comments). Its result is
/// [`canonical_document`]; an error is its message.
#[verifier::external_body]
pub(crate) fn canonicalize_document(xml: &[u8]) -> (r: Result<Vec<u8>, String>)
    ensures
        crypto::decoded_view(r) == canonical_document(xml@),
{
    let algorithm = C14nAlgorithm::new(C14nMode::Inclusive1_0, false);
    canonicalize_xml(xml, &algorithm).map_err(|e| e.to_string())
}

/// The digest of `data` by the digest method with the given URI, if `other` is the one by a method
/// that is neither SHA-1 nor SHA-256.
pub open spec fn digest_or(method: Seq<char>, data: Seq<u8>, other: Seq<u8>) -> Seq<u8> {
    if method == "http://www.w3.org/2001/04/xmlenc#sha256"@ {
        crypto::sha256_digest(data)
    } else if method == "http://www.w3.org/2000/09/xmldsig#sha1"@ {
        crypto::sha1_digest(data)
    } else {
        other
    }
}

/// The digest of `data` by the digest method with the given URI.
pub open spec fn digest_by(method: Seq<char>, data: Seq<u8>) -> Seq<u8> {
    digest_or(method, data, other_digest(method, data))
}

/// Calls `xml_sec`'s `compute_digest`, with the digest method given by its URI. For SHA-1 and SHA-256
/// it calls the functions of `sha1` and `sha2` that this library calls, so its result is
/// [`crypto::sha1_digest`] and [`crypto::sha256_digest`]; for another method it is [`other_digest`].
#[verifier::external_body]
pub(crate) fn digest_of(method: &str, data: &[u8]) -> (r: Vec<u8>)
    requires
        is_known_digest(method@),
    ensures
        r@ == digest_or(method@, data@, other_digest(method@, data@)),
{
    compute_digest(DigestAlgorithm::from_uri(method).unwrap(), data)
}

/// Calls `xml_sec`'s `constant_time_eq`. It tells whether the bytes are the same.
#[verifier::external_body]
pub(crate) fn same_digest(a: &[u8], b: &[u8]) -> (r: bool)
    ensures
        r == (a@ == b@),
{
    constant_time_eq(a, b)
}

} // verus!
