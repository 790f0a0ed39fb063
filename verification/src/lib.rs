//! BDOC / ASiC-E containers with digital signatures.
//!
//! * [`digidoc`]: writing, reading and validating containers.
//! * [`xmldsig`]: XML signatures, among them the XAdES signatures of containers.
//! * [`pki`]: timestamps and OCSP responses, which take a signature beyond the basic profile.
//! * [`certificate`], [`crypto`], [`time`], [`text`], [`error`]: what these rest on.
//!
//! The library does no input or output. It lays out archives as lists of entries, takes the contents
//! of archives that were read, and takes the replies of servers.

pub mod certificate;
pub mod crypto;
pub mod digidoc;
pub mod error;
pub mod pki;
pub mod text;
pub mod time;
pub mod xmldsig;

pub use crate::digidoc::{
    DigiDocBuilder, DigiDocFile, DigiDocProductionPlace, DigiDocReader, DigiDocSignatureInfo,
    DigiDocSignerInfo, DigiDocSignerInput, DigiDocValidationResult,
};
pub use crate::error::SignatureError;
pub use crate::time::Timestamp;
pub use crate::xmldsig::{
    build_xades_basic_signature, sign_enveloping, verify_signature, PublicKeyType, Signer,
    SigningKeyType,
};
