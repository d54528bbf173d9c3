use vstd::prelude::*;

verus! {

#[verifier::external_type_specification]
#[verifier::external_body]
pub struct ExScanError(yaml_rust::ScanError);

/// Why a configuration could not be had or used.
#[derive(Debug)]
pub enum ConfigError {
    /// The configuration file could not be read; holds the reason.
    Io(String),
    /// The text is not a well-formed YAML document.
    YamlScan(yaml_rust::ScanError),
    /// The text has longer lines or more brackets than the loader accepts.
    TooDeep,
    /// The document has no `mappings` table.
    MissingMappings,
    /// The document has no `style` table.
    MissingStyle,
    /// The style names a size that is not one of the nine levels; holds the name as written.
    InvalidFontSize(String),
    /// None of the places to look for the configuration directory is known.
    SmartPath,
    /// There are no mappings, so no entry can be shown.
    EmptyMappings,
}

} // verus!
