//! Structural errors: each carries a stable, distinct message.

use vstd::prelude::*;

verus! {

/// A structural failure that aborts a run: the payload cannot be read at
/// all, or the caller did not opt in to a differential payload.
#[derive(Clone, Copy, Debug, PartialEq, Eq, Structural)]
pub enum PayloadError {
    /// The file does not begin with the payload magic.
    BadMagic,
    /// The header names a major version other than 2.
    UnsupportedVersion(u64),
    /// Fewer bytes than the fixed header needs.
    TruncatedHeader,
    /// The manifest or metadata signature runs past the end of the file.
    TruncatedManifest,
    /// The manifest bytes did not decode.
    ManifestDecode,
    /// A differential payload without the differential option.
    DifferentialNotEnabled,
}

impl PayloadError {
    /// The stable message for this error.
    pub open spec fn spec_message(self) -> Seq<char> {
        match self {
            PayloadError::BadMagic => "Invalid payload file: magic 'CrAU' not found"@,
            PayloadError::UnsupportedVersion(_) => "Unsupported payload version"@,
            PayloadError::TruncatedHeader => "Payload header is truncated"@,
            PayloadError::TruncatedManifest => (
            "Payload manifest or metadata signature is truncated"@),
            PayloadError::ManifestDecode => "Failed to decode payload manifest"@,
            PayloadError::DifferentialNotEnabled => (
            "This appears to be a differential OTA package. Use --diff argument and provide the original partitions directory with --old <path>"@),
        }
    }

    /// Render the stable message.
    pub fn message(&self) -> (r: String)
        ensures
            r@ == self.spec_message(),
    {
        match self {
            PayloadError::BadMagic => "Invalid payload file: magic 'CrAU' not found".to_owned(),
            PayloadError::UnsupportedVersion(_) => "Unsupported payload version".to_owned(),
            PayloadError::TruncatedHeader => "Payload header is truncated".to_owned(),
            PayloadError::TruncatedManifest => (
            "Payload manifest or metadata signature is truncated".to_owned()),
            PayloadError::ManifestDecode => "Failed to decode payload manifest".to_owned(),
            PayloadError::DifferentialNotEnabled => (
            "This appears to be a differential OTA package. Use --diff argument and provide the original partitions directory with --old <path>".to_owned()),
        }
    }

    /// A number that identifies the variant alone, for stating that
    /// messages tell variants apart.
    pub open spec fn variant_index(self) -> int {
        match self {
            PayloadError::BadMagic => 0,
            PayloadError::UnsupportedVersion(_) => 1,
            PayloadError::TruncatedHeader => 2,
            PayloadError::TruncatedManifest => 3,
            PayloadError::ManifestDecode => 4,
            PayloadError::DifferentialNotEnabled => 5,
        }
    }
}

/// Errors of different variants carry different messages: the message
/// alone identifies what went wrong.
pub proof fn lemma_error_messages_distinct(a: PayloadError, b: PayloadError)
    requires
        a.spec_message() == b.spec_message(),
    ensures
        a.variant_index() == b.variant_index(),
{
    reveal_strlit("Invalid payload file: magic 'CrAU' not found");
    reveal_strlit("Unsupported payload version");
    reveal_strlit("Payload header is truncated");
    reveal_strlit("Payload manifest or metadata signature is truncated");
    reveal_strlit("Failed to decode payload manifest");
    reveal_strlit(
        "This appears to be a differential OTA package. Use --diff argument and provide the original partitions directory with --old <path>",
    );
    let s1 = "Invalid payload file: magic 'CrAU' not found"@;
    let s2 = "Unsupported payload version"@;
    let s3 = "Payload header is truncated"@;
    let s4 = "Payload manifest or metadata signature is truncated"@;
    let s5 = "Failed to decode payload manifest"@;
    let s6 =
        "This appears to be a differential OTA package. Use --diff argument and provide the original partitions directory with --old <path>"@;
    assert(s1[0] == 'I' && s2[0] == 'U' && s3[0] == 'P' && s4[0] == 'P' && s5[0] == 'F' && s6[0]
        == 'T');
    assert(s3[8] == 'h' && s4[8] == 'm');
}

} // verus!
