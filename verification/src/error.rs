use vstd::prelude::*;
use vstd::string::StringExecFns;

verus! {

/// The closed taxonomy of infrastructural failures.  A comparison outcome is
/// a boolean, never an error: these arise only from the artifact store or a
/// codec.  Each carries the underlying cause's message and, where useful, the
/// paths involved.
#[derive(Debug)]
pub enum ExpectError {
    /// The top-level expect directory for the owning source file is absent:
    /// the project's expect-test layout was never initialized there.
    ExpectDirNotFound(String),
    /// The per-test subdirectory could not be created (cause, path).
    CreateSubDir(String, String),
    /// The actual-results file could not be created, written or flushed.
    WriteActual(String),
    /// The actual file could not be copied over the missing expected file
    /// (cause, from, to).
    CopyActual(String, String, String),
    /// The expected-results file could not be opened or read (cause, path).
    ReadExpected(String, String),
    /// The expected-results file could not be decoded into a value.
    DeserializeExpected(String),
}

impl ExpectError {
    /// The report shown to the person running the test: what failed, on
    /// which paths, and the underlying cause.
    pub open spec fn message_spec(&self) -> Seq<char> {
        match self {
            ExpectError::ExpectDirNotFound(path) => "Failed to run test. Expect directory not found:\n"@
                + path@,
            ExpectError::CreateSubDir(cause, path) => "Failed to run test. Could not create test results directory: "@
                + path@ + "\n"@ + cause@,
            ExpectError::WriteActual(cause) => "Failed to run test. Could not write actual results file.\n"@
                + cause@,
            ExpectError::CopyActual(cause, from, to) => "Failed to run test. Could not copy actual results file.\nFrom: "@
                + from@ + "\nTo: "@ + to@ + "\n"@ + cause@,
            ExpectError::ReadExpected(cause, path) => "Failed to run test. Could not read expected results file: "@
                + path@ + "\n"@ + cause@,
            ExpectError::DeserializeExpected(cause) => "Failed to run test. Could not deserialize expected results file.\n"@
                + cause@,
        }
    }

    /// The report, as [`ExpectError::message_spec`] gives it.
    pub fn message(&self) -> (r: String)
        ensures
            r@ == self.message_spec(),
    {
        match self {
            ExpectError::ExpectDirNotFound(path) => {
                "Failed to run test. Expect directory not found:\n".to_owned().concat(
                    path.as_str(),
                )
            },
            ExpectError::CreateSubDir(cause, path) => {
                "Failed to run test. Could not create test results directory: ".to_owned().concat(
                    path.as_str(),
                ).concat("\n").concat(cause.as_str())
            },
            ExpectError::WriteActual(cause) => {
                "Failed to run test. Could not write actual results file.\n".to_owned().concat(
                    cause.as_str(),
                )
            },
            ExpectError::CopyActual(cause, from, to) => {
                "Failed to run test. Could not copy actual results file.\nFrom: ".to_owned().concat(
                    from.as_str(),
                ).concat("\nTo: ").concat(to.as_str()).concat("\n").concat(cause.as_str())
            },
            ExpectError::ReadExpected(cause, path) => {
                "Failed to run test. Could not read expected results file: ".to_owned().concat(
                    path.as_str(),
                ).concat("\n").concat(cause.as_str())
            },
            ExpectError::DeserializeExpected(cause) => {
                "Failed to run test. Could not deserialize expected results file.\n".to_owned()
                    .concat(cause.as_str())
            },
        }
    }
}

} // verus!
