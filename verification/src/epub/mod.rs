//! EPUB packaging: the documents inside the archive and the cover's file
//! extension.

pub mod cover;
pub mod package;
