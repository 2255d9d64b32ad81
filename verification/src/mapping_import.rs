//! Checks on an exported button-mapping file before it replaces the saved
//! mapping: its size, its format version, and the mapping's normal form.
use vstd::prelude::*;
use crate::hotkey::{spec_chord_error_message, KeyChordError};
use crate::send_input::{normalization_result, ButtonMappings};
use crate::text::push_decimal;

verus! {

/// The format version written into exported mapping files.
pub const BUTTON_MAPPING_EXPORT_VERSION: u32 = 1;

/// Largest mapping file accepted for import, in bytes (1 MiB).
pub const MAX_BUTTON_MAPPING_IMPORT_BYTES: u64 = 1048576;

/// Why an exported mapping file is refused.
#[derive(Debug, Clone, Copy, PartialEq, Eq, Structural)]
pub enum MappingImportError {
    /// The file is larger than `MAX_BUTTON_MAPPING_IMPORT_BYTES`.
    TooLarge,
    /// The file was written in another format version.
    UnsupportedVersion { version: u32 },
    /// The mapping holds a chord that cannot be injected.
    InvalidMapping { reason: KeyChordError },
}

/// Whether a file of `byte_len` bytes may be read for import at all.
pub fn import_size_allowed(byte_len: u64) -> (b: bool)
    ensures
        b == (byte_len <= MAX_BUTTON_MAPPING_IMPORT_BYTES),
{
    byte_len <= MAX_BUTTON_MAPPING_IMPORT_BYTES
}

/// What importing answers for a file of `byte_len` bytes whose content names
/// `format_version` and holds `mappings`: the size is checked first, then
/// the version, then the mapping is normalized.
pub open spec fn import_result(
    byte_len: u64,
    format_version: u32,
    mappings: ButtonMappings,
    r: Result<ButtonMappings, MappingImportError>,
) -> bool {
    if byte_len > MAX_BUTTON_MAPPING_IMPORT_BYTES {
        r == Err::<ButtonMappings, MappingImportError>(MappingImportError::TooLarge)
    } else if format_version != BUTTON_MAPPING_EXPORT_VERSION {
        r == Err::<ButtonMappings, MappingImportError>(
            MappingImportError::UnsupportedVersion { version: format_version },
        )
    } else {
        match r {
            Ok(x) => normalization_result(mappings, Ok(x)),
            Err(MappingImportError::InvalidMapping { reason }) => normalization_result(
                mappings,
                Err(reason),
            ),
            Err(_) => false,
        }
    }
}

/// The mapping an exported file brings in, normalized, or why the file is
/// refused. Nothing is to be saved unless this answers `Ok`.
pub fn check_mapping_import(byte_len: u64, format_version: u32, mappings: ButtonMappings) -> (r:
    Result<ButtonMappings, MappingImportError>)
    ensures
        import_result(byte_len, format_version, mappings, r),
{
    if !import_size_allowed(byte_len) {
        return Err(MappingImportError::TooLarge);
    }
    if format_version != BUTTON_MAPPING_EXPORT_VERSION {
        return Err(MappingImportError::UnsupportedVersion { version: format_version });
    }
    match mappings.normalized() {
        Ok(x) => Ok(x),
        Err(reason) => Err(MappingImportError::InvalidMapping { reason }),
    }
}

/// The message shown for a refused import.
pub open spec fn spec_import_error_message(e: MappingImportError) -> Seq<char> {
    match e {
        MappingImportError::TooLarge => "按键映射配置文件过大"@,
        MappingImportError::UnsupportedVersion { version } => "不支持的按键映射配置版本："@
            + crate::text::decimal(version as nat),
        MappingImportError::InvalidMapping { reason } => "按键映射无效："@
            + spec_chord_error_message(reason),
    }
}

impl MappingImportError {
    /// The message shown for this error.
    pub fn message(&self) -> (s: String)
        ensures
            s@ == spec_import_error_message(*self),
    {
        match self {
            MappingImportError::TooLarge => String::from_str("按键映射配置文件过大"),
            MappingImportError::UnsupportedVersion { version } => {
                let mut s = String::from_str("不支持的按键映射配置版本：");
                push_decimal(&mut s, *version as u128);
                s
            },
            MappingImportError::InvalidMapping { reason } => {
                let mut s = String::from_str("按键映射无效：");
                let detail = reason.message();
                s.append(detail.as_str());
                s
            },
        }
    }
}

} // verus!
