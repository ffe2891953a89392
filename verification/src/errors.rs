use vstd::prelude::*;
use vstd::string::StringExecFns;

verus! {

/// The failure kinds the pipeline can surface.
///
/// Every error is detected at the component boundary where it occurs and is
/// propagated unchanged; no component retries or substitutes a default.
#[derive(Debug, PartialEq, Eq)]
pub enum BottleError {
    /// The target path does not exist.
    NotFound,
    /// The output path already exists and overwriting was not requested;
    /// carries the conflicting path.
    WouldOverwrite(String),
    /// The target could not be read.
    UnreadableInput,
    /// A malformed or truncated archive (tar or gzip stream) was rejected.
    CorruptArchive,
    /// The ciphertext is structurally invalid or was not produced for the
    /// given identity.
    DecryptionFailed,
    /// Producing the output (archive or file bytes) failed.
    WriteFailed,
}

impl BottleError {
    /// The error as text for reporting, naming the conflicting path where
    /// there is one.
    pub fn describe(&self) -> (r: String)
        ensures
            match self {
                BottleError::NotFound => r@ == "target path does not exist"@,
                BottleError::WouldOverwrite(p) => r@ == "would overwrite existing "@ + p@,
                BottleError::UnreadableInput => r@ == "unable to read the target"@,
                BottleError::CorruptArchive => r@ == "malformed or truncated archive"@,
                BottleError::DecryptionFailed => r@
                    == "ciphertext is invalid or was made for another identity"@,
                BottleError::WriteFailed => r@ == "unable to produce the output"@,
            },
    {
        match self {
            BottleError::NotFound => String::from_str("target path does not exist"),
            BottleError::WouldOverwrite(p) => {
                let mut out = String::from_str("would overwrite existing ");
                out.append(p.as_str());
                out
            },
            BottleError::UnreadableInput => String::from_str("unable to read the target"),
            BottleError::CorruptArchive => String::from_str("malformed or truncated archive"),
            BottleError::DecryptionFailed => String::from_str(
                "ciphertext is invalid or was made for another identity",
            ),
            BottleError::WriteFailed => String::from_str("unable to produce the output"),
        }
    }
}

} // verus!
