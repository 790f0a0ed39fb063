//! BDOC / ASiC-E containers.
//!
//! A container is a ZIP archive that holds
//!
//! * a file `mimetype` with the text `application/vnd.etsi.asic-e+zip`,
//! * the data files, and
//! * under `META-INF/` a `manifest.xml` that lists the data files, and one `signatures*.xml` for
//!   each signature, numbered from zero.
//!
//! Every file is signed but `mimetype` and those under `META-INF/`.
//!
//! The [`builder`] writes containers, the [`reader`] reads and validates them. The [`records`] are
//! what the XML documents of a container say, and [`prefixes`] makes those documents ready for
//! reading. What [`layout`] and [`reports`] state is what a container holds, and what a report on it
//! says.

pub mod builder;
pub mod layout;
pub mod prefixes;
pub mod reader;
pub mod records;
pub mod reports;

pub use builder::{
    ContainerEntry, DigiDocBuilder, DigiDocProductionPlace, DigiDocSignature, DigiDocSignerInput,
    SigningStep,
};
pub use prefixes::strip_tag_prefixes;
pub use reader::{
    ContainerContents, DigiDocReader, DigiDocSignatureInfo, DigiDocSignerInfo,
    DigiDocValidationResult, SignatureDocument,
};

use vstd::prelude::*;

use crate::xmldsig::xades::FileView;

verus! {

/// A data file of a container.
#[derive(Debug, Clone)]
pub struct DigiDocFile {
    pub name: String,
    pub content: Vec<u8>,
    pub mime_type: String,
}

impl View for DigiDocFile {
    type V = FileView;

    open spec fn view(&self) -> FileView {
        FileView { uri: self.name@, mime_type: self.mime_type@, content: self.content@ }
    }
}

} // verus!
