//! Turns a compiled executable and a set of declared resources into a
//! Debian-style package artifact: staged file layout, control and checksum
//! manifests, and the outer container archive, together with the category
//! classifier used to validate package metadata.
pub mod archive;
pub mod category;
pub mod deb_bundle;
pub mod file;
pub mod image;
pub mod settings;
pub mod text;
