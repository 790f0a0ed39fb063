//! X.509 certificates, as far as signatures need them.

use vstd::prelude::*;
use x509_parser::prelude::{FromDer, X509Certificate};

verus! {

/// An attribute of a distinguished name.
#[derive(Debug, Clone)]
pub struct NameAttribute {
    /// The attribute's type, an object identifier in dotted notation.
    pub kind: String,
    /// The attribute's value, where it is a UTF-8 string.
    pub value: Option<String>,
}

/// The parts of a certificate that need no further decoding.
#[derive(Debug, Clone)]
pub struct CertificateFields {
    /// The issuer's distinguished name.
    pub issuer: String,
    /// The subject's distinguished name.
    pub subject: String,
    /// The serial number in decimal.
    pub serial: String,
    /// The serial number in hexadecimal, in upper case.
    pub serial_hex: String,
    /// The first second of the validity period, counted from 1970 in UTC.
    pub not_before: i64,
    /// The last second of the validity period, counted from 1970 in UTC.
    pub not_after: i64,
    /// The octets of the serial number.
    pub raw_serial: Vec<u8>,
    /// The subject's distinguished name in DER.
    pub raw_subject: Vec<u8>,
    /// The algorithm of the public key, an object identifier in dotted notation.
    pub key_algorithm: String,
    /// The octets of the public key.
    pub key: Vec<u8>,
}

/// A parsed certificate.
#[derive(Debug, Clone)]
pub struct Certificate {
    pub fields: CertificateFields,
    /// The parameters of the public key's algorithm, where there are any: an object
    /// identifier in dotted notation, or why they are none.
    pub key_parameters: Option<Result<String, String>>,
    /// The attributes of the subject's distinguished name, one group for each relative
    /// distinguished name.
    pub subject_attributes: Vec<Vec<NameAttribute>>,
}

/// A [`NameAttribute`] as values.
pub struct NameAttributeView {
    pub kind: Seq<char>,
    pub value: Option<Seq<char>>,
}

/// A [`Certificate`] as values.
pub struct CertificateView {
    pub issuer: Seq<char>,
    pub subject: Seq<char>,
    pub serial: Seq<char>,
    pub serial_hex: Seq<char>,
    pub not_before: i64,
    pub not_after: i64,
    pub raw_serial: Seq<u8>,
    pub raw_subject: Seq<u8>,
    pub key_algorithm: Seq<char>,
    pub key: Seq<u8>,
    pub key_parameters: Option<Result<Seq<char>, Seq<char>>>,
    pub subject_attributes: Seq<Seq<NameAttributeView>>,
}

impl View for NameAttribute {
    type V = NameAttributeView;

    open spec fn view(&self) -> NameAttributeView {
        NameAttributeView {
            kind: self.kind@,
            value: match self.value {
                Some(value) => Some(value@),
                None => None,
            },
        }
    }
}

/// The groups of attributes as values.
pub open spec fn attributes_view(groups: Seq<Vec<NameAttribute>>) -> Seq<Seq<NameAttributeView>> {
    groups.map_values(
        |group: Vec<NameAttribute>| group@.map_values(|a: NameAttribute| a@),
    )
}

/// The parameters of a key's algorithm as values.
pub open spec fn parameters_view(parameters: Option<Result<String, String>>) -> Option<
    Result<Seq<char>, Seq<char>>,
> {
    match parameters {
        None => None,
        Some(Ok(oid)) => Some(Ok(oid@)),
        Some(Err(e)) => Some(Err(e@)),
    }
}

impl View for Certificate {
    type V = CertificateView;

    open spec fn view(&self) -> CertificateView {
        CertificateView {
            issuer: self.fields.issuer@,
            subject: self.fields.subject@,
            serial: self.fields.serial@,
            serial_hex: self.fields.serial_hex@,
            not_before: self.fields.not_before,
            not_after: self.fields.not_after,
            raw_serial: self.fields.raw_serial@,
            raw_subject: self.fields.raw_subject@,
            key_algorithm: self.fields.key_algorithm@,
            key: self.fields.key@,
            key_parameters: parameters_view(self.key_parameters),
            subject_attributes: attributes_view(self.subject_attributes@),
        }
    }
}

/// The certificate at the start of `der`, or the message of the parser's error.
pub uninterp spec fn x509_certificate(der: Seq<u8>) -> Result<CertificateView, Seq<char>>;

/// Whether `r` holds the fields of `certificate`, or its error.
pub open spec fn has_fields_of(
    r: Result<CertificateFields, String>,
    certificate: Result<CertificateView, Seq<char>>,
) -> bool {
    match (r, certificate) {
        (Ok(f), Ok(c)) => {
            &&& f.issuer@ == c.issuer
            &&& f.subject@ == c.subject
            &&& f.serial@ == c.serial
            &&& f.serial_hex@ == c.serial_hex
            &&& f.not_before == c.not_before
            &&& f.not_after == c.not_after
            &&& f.raw_serial@ == c.raw_serial
            &&& f.raw_subject@ == c.raw_subject
            &&& f.key_algorithm@ == c.key_algorithm
            &&& f.key@ == c.key
        },
        (Err(e), Err(message)) => e@ == message,
        _ => false,
    }
}

/// Whether `r` holds the key parameters of `certificate`, or its error.
pub open spec fn has_parameters_of(
    r: Result<Option<Result<String, String>>, String>,
    certificate: Result<CertificateView, Seq<char>>,
) -> bool {
    match (r, certificate) {
        (Ok(parameters), Ok(c)) => parameters_view(parameters) == c.key_parameters,
        (Err(e), Err(message)) => e@ == message,
        _ => false,
    }
}

/// Whether `r` holds the subject's attributes of `certificate`, or its error.
pub open spec fn has_attributes_of(
    r: Result<Vec<Vec<NameAttribute>>, String>,
    certificate: Result<CertificateView, Seq<char>>,
) -> bool {
    match (r, certificate) {
        (Ok(groups), Ok(c)) => attributes_view(groups@) == c.subject_attributes,
        (Err(e), Err(message)) => e@ == message,
        _ => false,
    }
}

/// Calls `x509_parser`'s `X509Certificate::from_der` and hands out the fields that are text,
/// numbers and octets: they are those of [`x509_certificate`], and an error is its message.
#[verifier::external_body]
fn parse_fields(der: &[u8]) -> (r: Result<CertificateFields, String>)
    ensures
        has_fields_of(r, x509_certificate(der@)),
{
    let (_, c) = X509Certificate::from_der(der).map_err(|e| e.to_string())?;
    Ok(CertificateFields {
        issuer: c.issuer().to_string(),
        subject: c.subject().to_string(),
        serial: c.serial.to_string(),
        serial_hex: format!("{:X}", c.serial),
        not_before: c.validity().not_before.timestamp(),
        not_after: c.validity().not_after.timestamp(),
        raw_serial: c.raw_serial().to_vec(),
        raw_subject: c.subject().as_raw().to_vec(),
        key_algorithm: c.public_key().algorithm.algorithm.to_string(),
        key: c.public_key().subject_public_key.data.to_vec(),
    })
}

/// Calls `x509_parser`'s `X509Certificate::from_der` and hands out the parameters of the
/// public key's algorithm, read as an object identifier: they are those of
/// [`x509_certificate`], and an error is its message.
#[verifier::external_body]
fn parse_key_parameters(der: &[u8]) -> (r: Result<Option<Result<String, String>>, String>)
    ensures
        has_parameters_of(r, x509_certificate(der@)),
{
    let (_, c) = X509Certificate::from_der(der).map_err(|e| e.to_string())?;
    let parameters = c.public_key().algorithm.parameters.as_ref();
    Ok(parameters.map(|p| p.as_oid().map(|oid| oid.to_string()).map_err(|e| e.to_string())))
}

/// Calls `x509_parser`'s `X509Certificate::from_der` and hands out the attributes of the
/// subject's name: they are those of [`x509_certificate`], and an error is its message.
#[verifier::external_body]
fn parse_subject_attributes(der: &[u8]) -> (r: Result<Vec<Vec<NameAttribute>>, String>)
    ensures
        has_attributes_of(r, x509_certificate(der@)),
{
    let (_, c) = X509Certificate::from_der(der).map_err(|e| e.to_string())?;
    Ok(c.subject().iter().map(|rdn| rdn.iter().map(|a| NameAttribute {
        kind: a.attr_type().to_string(),
        value: a.attr_value().as_str().ok().map(|value| value.to_string()),
    }).collect()).collect())
}

/// A parsed certificate or a message, as values.
pub open spec fn certificate_view(r: Result<Certificate, String>) -> Result<
    CertificateView,
    Seq<char>,
> {
    match r {
        Ok(certificate) => Ok(certificate@),
        Err(e) => Err(e@),
    }
}

/// Parses the certificate at the start of `der`.
pub fn parse_certificate(der: &[u8]) -> (r: Result<Certificate, String>)
    ensures
        certificate_view(r) == x509_certificate(der@),
{
    let fields = match parse_fields(der) {
        Ok(fields) => fields,
        Err(e) => return Err(e),
    };
    let key_parameters = match parse_key_parameters(der) {
        Ok(parameters) => parameters,
        Err(e) => return Err(e),
    };
    let subject_attributes = match parse_subject_attributes(der) {
        Ok(attributes) => attributes,
        Err(e) => return Err(e),
    };
    Ok(Certificate { fields, key_parameters, subject_attributes })
}

} // verus!
