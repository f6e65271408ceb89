//! The settings record one assembly run reads: plain values only, immutable
//! for the duration of the run.
use vstd::prelude::*;

verus! {

/// Everything the package assembly pipeline needs to know about the project
/// being bundled.
pub struct Settings {
    /// The display name of the bundle; spaces allowed.
    pub bundle_name: String,
    /// The name of the compiled binary.
    pub binary_name: String,
    /// The version string, verbatim.
    pub version: String,
    /// The target architecture token (for example `x86_64`).
    pub binary_arch: String,
    /// The authors, joined with commas into the maintainer field.
    pub authors: Vec<String>,
    /// The homepage URL; an empty string omits the field.
    pub homepage: String,
    /// The one-line description; placeholder text if blank.
    pub short_description: String,
    /// The long description; placeholder text if blank.
    pub long_description: String,
    /// Dependency constraint strings, in order.
    pub debian_dependencies: Vec<String>,
    /// Paths of the declared resource files, in order.
    pub resource_files: Vec<String>,
}

} // verus!
