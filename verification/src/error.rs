//! The errors that signing and verification report.

use vstd::prelude::*;

use crate::text::{concat2, concat4};

verus! {

/// What went wrong while a signature was made or checked. Causes that come from
/// another library are kept as the text of their message.
#[derive(Debug, Clone)]
pub enum SignatureError {
    /// A key could not be loaded: the file's path and the cause.
    KeyLoadingError(String, String),
    KeyParsingError(String),
    XmlSerializationError(String),
    XmlParsingError(String),
    XmlDeserializationError(String),
    XmlStructureError(String),
    SigningError(String),
    VerificationError(String),
    CryptoVerificationError(String),
    /// The URI of the reference whose digest differs.
    DigestMismatch(String),
    Base64Error(String),
    Utf8Error(String),
    StrUtf8Error(String),
    IoError(String),
    UnsupportedError(String),
    /// The XML element or attribute that is missing.
    MissingElement(String),
    /// The URI for which no data was found.
    ReferenceNotFound(String),
    CanonicalizationError(String),
    GeneralError(String),
}

/// A [`SignatureError`] with its texts as character sequences.
pub enum ErrorView {
    KeyLoadingError(Seq<char>, Seq<char>),
    KeyParsingError(Seq<char>),
    XmlSerializationError(Seq<char>),
    XmlParsingError(Seq<char>),
    XmlDeserializationError(Seq<char>),
    XmlStructureError(Seq<char>),
    SigningError(Seq<char>),
    VerificationError(Seq<char>),
    CryptoVerificationError(Seq<char>),
    DigestMismatch(Seq<char>),
    Base64Error(Seq<char>),
    Utf8Error(Seq<char>),
    StrUtf8Error(Seq<char>),
    IoError(Seq<char>),
    UnsupportedError(Seq<char>),
    MissingElement(Seq<char>),
    ReferenceNotFound(Seq<char>),
    CanonicalizationError(Seq<char>),
    GeneralError(Seq<char>),
}

impl View for SignatureError {
    type V = ErrorView;

    open spec fn view(&self) -> ErrorView {
        match self {
            SignatureError::KeyLoadingError(path, e) => ErrorView::KeyLoadingError(path@, e@),
            SignatureError::KeyParsingError(e) => ErrorView::KeyParsingError(e@),
            SignatureError::XmlSerializationError(e) => ErrorView::XmlSerializationError(e@),
            SignatureError::XmlParsingError(e) => ErrorView::XmlParsingError(e@),
            SignatureError::XmlDeserializationError(e) => ErrorView::XmlDeserializationError(e@),
            SignatureError::XmlStructureError(e) => ErrorView::XmlStructureError(e@),
            SignatureError::SigningError(e) => ErrorView::SigningError(e@),
            SignatureError::VerificationError(e) => ErrorView::VerificationError(e@),
            SignatureError::CryptoVerificationError(e) => ErrorView::CryptoVerificationError(e@),
            SignatureError::DigestMismatch(uri) => ErrorView::DigestMismatch(uri@),
            SignatureError::Base64Error(e) => ErrorView::Base64Error(e@),
            SignatureError::Utf8Error(e) => ErrorView::Utf8Error(e@),
            SignatureError::StrUtf8Error(e) => ErrorView::StrUtf8Error(e@),
            SignatureError::IoError(e) => ErrorView::IoError(e@),
            SignatureError::UnsupportedError(e) => ErrorView::UnsupportedError(e@),
            SignatureError::MissingElement(e) => ErrorView::MissingElement(e@),
            SignatureError::ReferenceNotFound(e) => ErrorView::ReferenceNotFound(e@),
            SignatureError::CanonicalizationError(e) => ErrorView::CanonicalizationError(e@),
            SignatureError::GeneralError(e) => ErrorView::GeneralError(e@),
        }
    }
}

impl ErrorView {
    /// The message that describes the error to a user.
    pub open spec fn message(self) -> Seq<char> {
        match self {
            ErrorView::KeyLoadingError(path, e) => "Failed to load key from file '"@ + path
                + "': "@ + e,
            ErrorView::KeyParsingError(e) => "Failed to parse key: "@ + e,
            ErrorView::XmlSerializationError(e) => "Failed to serialize data to XML: "@ + e,
            ErrorView::XmlParsingError(e) => "Failed to parse XML: "@ + e,
            ErrorView::XmlDeserializationError(e) => "Failed to deserialize XML: "@ + e,
            ErrorView::XmlStructureError(e) => "XML structure error: "@ + e,
            ErrorView::SigningError(e) => "Failed to create signature: "@ + e,
            ErrorView::VerificationError(e) => "Signature verification failed: "@ + e,
            ErrorView::CryptoVerificationError(e) => "Cryptographic signature check failed: "@ + e,
            ErrorView::DigestMismatch(uri) => "Digest verification failed for reference URI '"@
                + uri + "'"@,
            ErrorView::Base64Error(e) => "Failed to encode/decode Base64: "@ + e,
            ErrorView::Utf8Error(e) => "Invalid UTF-8 sequence: "@ + e,
            ErrorView::StrUtf8Error(e) => "Invalid UTF-8 sequence: "@ + e,
            ErrorView::IoError(e) => "I/O error: "@ + e,
            ErrorView::UnsupportedError(e) => "Unsupported algorithm or key type: "@ + e,
            ErrorView::MissingElement(e) => "Missing required XML element or attribute: "@ + e,
            ErrorView::ReferenceNotFound(e) => "Could not find referenced data for URI: "@ + e,
            ErrorView::CanonicalizationError(e) => "Canonicalization error: "@ + e,
            ErrorView::GeneralError(e) => "General error: "@ + e,
        }
    }
}

impl SignatureError {
    /// The message that describes the error to a user.
    pub fn to_string(&self) -> (r: String)
        ensures
            r@ == self@.message(),
    {
        match self {
            SignatureError::KeyLoadingError(path, e) => concat4(
                "Failed to load key from file '",
                path.as_str(),
                "': ",
                e.as_str(),
            ),
            SignatureError::KeyParsingError(e) => concat2("Failed to parse key: ", e.as_str()),
            SignatureError::XmlSerializationError(e) => concat2(
                "Failed to serialize data to XML: ",
                e.as_str(),
            ),
            SignatureError::XmlParsingError(e) => concat2("Failed to parse XML: ", e.as_str()),
            SignatureError::XmlDeserializationError(e) => concat2(
                "Failed to deserialize XML: ",
                e.as_str(),
            ),
            SignatureError::XmlStructureError(e) => concat2("XML structure error: ", e.as_str()),
            SignatureError::SigningError(e) => concat2("Failed to create signature: ", e.as_str()),
            SignatureError::VerificationError(e) => concat2(
                "Signature verification failed: ",
                e.as_str(),
            ),
            SignatureError::CryptoVerificationError(e) => concat2(
                "Cryptographic signature check failed: ",
                e.as_str(),
            ),
            SignatureError::DigestMismatch(uri) => {
                let mut r = concat2(
                    "Digest verification failed for reference URI '",
                    uri.as_str(),
                );
                r.append("'");
                r
            },
            SignatureError::Base64Error(e) => concat2(
                "Failed to encode/decode Base64: ",
                e.as_str(),
            ),
            SignatureError::Utf8Error(e) => concat2("Invalid UTF-8 sequence: ", e.as_str()),
            SignatureError::StrUtf8Error(e) => concat2("Invalid UTF-8 sequence: ", e.as_str()),
            SignatureError::IoError(e) => concat2("I/O error: ", e.as_str()),
            SignatureError::UnsupportedError(e) => concat2(
                "Unsupported algorithm or key type: ",
                e.as_str(),
            ),
            SignatureError::MissingElement(e) => concat2(
                "Missing required XML element or attribute: ",
                e.as_str(),
            ),
            SignatureError::ReferenceNotFound(e) => concat2(
                "Could not find referenced data for URI: ",
                e.as_str(),
            ),
            SignatureError::CanonicalizationError(e) => concat2(
                "Canonicalization error: ",
                e.as_str(),
            ),
            SignatureError::GeneralError(e) => concat2("General error: ", e.as_str()),
        }
    }
}

/// The message for an error names its kind and then says what the error holds.
pub proof fn law_message_says_what_went_wrong(error: SignatureError)
    ensures
        error matches SignatureError::KeyLoadingError(path, e) ==> error@
            == ErrorView::KeyLoadingError(path@, e@) && error@.message()
            == "Failed to load key from file '"@ + path@ + "': "@ + e@,
        error matches SignatureError::DigestMismatch(uri) ==> error@ == ErrorView::DigestMismatch(
            uri@,
        ) && error@.message()
            == "Digest verification failed for reference URI '"@ + uri@ + "'"@,
        error matches SignatureError::KeyParsingError(e) ==> error@ == ErrorView::KeyParsingError(e@)
            && error@.message() == "Failed to parse key: "@ + e@,
        error matches SignatureError::XmlSerializationError(e) ==> error@ == ErrorView::XmlSerializationError(e@)
            && error@.message() == "Failed to serialize data to XML: "@ + e@,
        error matches SignatureError::XmlParsingError(e) ==> error@ == ErrorView::XmlParsingError(e@)
            && error@.message() == "Failed to parse XML: "@ + e@,
        error matches SignatureError::XmlDeserializationError(e) ==> error@ == ErrorView::XmlDeserializationError(e@)
            && error@.message() == "Failed to deserialize XML: "@ + e@,
        error matches SignatureError::XmlStructureError(e) ==> error@ == ErrorView::XmlStructureError(e@)
            && error@.message() == "XML structure error: "@ + e@,
        error matches SignatureError::SigningError(e) ==> error@ == ErrorView::SigningError(e@)
            && error@.message() == "Failed to create signature: "@ + e@,
        error matches SignatureError::VerificationError(e) ==> error@ == ErrorView::VerificationError(e@)
            && error@.message() == "Signature verification failed: "@ + e@,
        error matches SignatureError::CryptoVerificationError(e) ==> error@ == ErrorView::CryptoVerificationError(e@)
            && error@.message() == "Cryptographic signature check failed: "@ + e@,
        error matches SignatureError::Base64Error(e) ==> error@ == ErrorView::Base64Error(e@)
            && error@.message() == "Failed to encode/decode Base64: "@ + e@,
        error matches SignatureError::Utf8Error(e) ==> error@ == ErrorView::Utf8Error(e@)
            && error@.message() == "Invalid UTF-8 sequence: "@ + e@,
        error matches SignatureError::StrUtf8Error(e) ==> error@ == ErrorView::StrUtf8Error(e@)
            && error@.message() == "Invalid UTF-8 sequence: "@ + e@,
        error matches SignatureError::IoError(e) ==> error@ == ErrorView::IoError(e@)
            && error@.message() == "I/O error: "@ + e@,
        error matches SignatureError::UnsupportedError(e) ==> error@ == ErrorView::UnsupportedError(e@)
            && error@.message() == "Unsupported algorithm or key type: "@ + e@,
        error matches SignatureError::MissingElement(e) ==> error@ == ErrorView::MissingElement(e@)
            && error@.message() == "Missing required XML element or attribute: "@ + e@,
        error matches SignatureError::ReferenceNotFound(e) ==> error@ == ErrorView::ReferenceNotFound(e@)
            && error@.message() == "Could not find referenced data for URI: "@ + e@,
        error matches SignatureError::CanonicalizationError(e) ==> error@ == ErrorView::CanonicalizationError(e@)
            && error@.message() == "Canonicalization error: "@ + e@,
        error matches SignatureError::GeneralError(e) ==> error@ == ErrorView::GeneralError(e@)
            && error@.message() == "General error: "@ + e@,
{
}

/// A result that holds bytes, seen as values.
pub open spec fn bytes_view(r: Result<Vec<u8>, SignatureError>) -> Result<Seq<u8>, ErrorView> {
    match r {
        Ok(bytes) => Ok(bytes@),
        Err(e) => Err(e@),
    }
}

/// A result that holds text, seen as values.
pub open spec fn text_view(r: Result<String, SignatureError>) -> Result<Seq<char>, ErrorView> {
    match r {
        Ok(text) => Ok(text@),
        Err(e) => Err(e@),
    }
}

/// A result without a value, seen as a value.
pub open spec fn unit_view(r: Result<(), SignatureError>) -> Result<(), ErrorView> {
    match r {
        Ok(()) => Ok(()),
        Err(e) => Err(e@),
    }
}

/// The value of a result is the value of what it holds, or of its error.
pub proof fn law_results_as_values(
    bytes: Result<Vec<u8>, SignatureError>,
    text: Result<String, SignatureError>,
    unit: Result<(), SignatureError>,
)
    ensures
        bytes matches Ok(data) ==> bytes_view(bytes) == Ok::<Seq<u8>, ErrorView>(data@),
        bytes matches Err(e) ==> bytes_view(bytes) == Err::<Seq<u8>, ErrorView>(e@),
        text matches Ok(t) ==> text_view(text) == Ok::<Seq<char>, ErrorView>(t@),
        text matches Err(e) ==> text_view(text) == Err::<Seq<char>, ErrorView>(e@),
        unit is Ok ==> unit_view(unit) == Ok::<(), ErrorView>(()),
        unit matches Err(e) ==> unit_view(unit) == Err::<(), ErrorView>(e@),
{
}

} // verus!
