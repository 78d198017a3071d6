//! The ways in which compilation, donor inspection and assembly fail.
//! Every one of them is fatal to the step that reports it.

use vstd::prelude::*;
use vstd::string::*;

verus! {

/// A field that a manifest cannot do without.
#[derive(Clone, Copy, Debug, PartialEq, Eq, Structural)]
pub enum MandatoryField {
    /// The module reference, given by `FROM`.
    Source,
}

/// Why a manifest text does not compile.
#[derive(Clone, Copy, Debug, PartialEq, Eq, Structural)]
pub enum CompileError {
    /// The text is not a sequence of well-formed directives.
    SyntaxError,
    /// A mandatory field is absent or empty.
    MissingMandatoryField(MandatoryField),
    /// The manifest's path names no file, so it has no containing directory.
    InvalidManifestLocation,
}

/// Why a donor executable yields no stub.
#[derive(Clone, Copy, Debug, PartialEq, Eq, Structural)]
pub enum InspectError {
    /// No file stands at the donor's path.
    DonorNotFound,
    /// The donor exists and its bytes cannot be had.
    DonorUnreadable,
}

/// Why no polyglot executable is assembled.
#[derive(Clone, Copy, Debug, PartialEq, Eq, Structural)]
pub enum AssembleError {
    /// The manifest lacks a mandatory field.
    MissingMandatoryField(MandatoryField),
    /// No file stands at the donor's path.
    DonorNotFound,
    /// The donor exists and its bytes cannot be had.
    DonorUnreadable,
    /// The module named by the manifest cannot be read.
    ModulePayloadUnreadable,
    /// The output could not be written as a stub followed by its archive.
    OutputWriteFailure,
}

/// The file that a failed assembly is reported with.
#[derive(Clone, Copy, Debug, PartialEq, Eq, Structural)]
pub enum Subject {
    /// The manifest.
    Manifest,
    /// The donor executable.
    Donor,
    /// The module that the manifest names.
    Module,
    /// The output.
    Output,
}

/// A condition worth reporting that does not stop the assembly.
#[derive(Clone, Copy, Debug, PartialEq, Eq, Structural)]
pub enum Diagnostic {
    /// The platform cannot mark the output executable; the operator has to.
    PermissionApplicationUnsupported,
}

impl MandatoryField {
    /// The name under which the field is reported.
    pub open spec fn spec_name(self) -> Seq<char> {
        match self {
            MandatoryField::Source => "source"@,
        }
    }

    /// The name under which the field is reported.
    pub fn name(&self) -> (r: String)
        ensures
            r@ == self.spec_name(),
    {
        match self {
            MandatoryField::Source => String::from_str("source"),
        }
    }
}

impl InspectError {
    /// The assembly failure that an inspection failure amounts to.
    pub open spec fn spec_into_assemble(self) -> AssembleError {
        match self {
            InspectError::DonorNotFound => AssembleError::DonorNotFound,
            InspectError::DonorUnreadable => AssembleError::DonorUnreadable,
        }
    }

    /// The assembly failure that an inspection failure amounts to.
    pub fn into_assemble(self) -> (r: AssembleError)
        ensures
            r == self.spec_into_assemble(),
    {
        match self {
            InspectError::DonorNotFound => AssembleError::DonorNotFound,
            InspectError::DonorUnreadable => AssembleError::DonorUnreadable,
        }
    }
}

impl CompileError {
    /// What went wrong, in words: the contract that the manifest breaks.
    pub open spec fn spec_describe(self) -> Seq<char> {
        match self {
            CompileError::SyntaxError => "the manifest has invalid syntax"@,
            CompileError::MissingMandatoryField(field) => "the manifest lacks the mandatory field "@
                + field.spec_name(),
            CompileError::InvalidManifestLocation => "the manifest's path names no file in a directory"@,
        }
    }

    /// What went wrong, in words.
    pub fn describe(&self) -> (r: String)
        ensures
            r@ == self.spec_describe(),
    {
        match self {
            CompileError::SyntaxError => String::from_str("the manifest has invalid syntax"),
            CompileError::MissingMandatoryField(field) => {
                let mut text = String::from_str("the manifest lacks the mandatory field ");
                let name = field.name();
                text.append(name.as_str());
                text
            },
            CompileError::InvalidManifestLocation => String::from_str(
                "the manifest's path names no file in a directory",
            ),
        }
    }
}

impl AssembleError {
    /// The file that the failure is about, and is reported with.
    pub open spec fn spec_subject(self) -> Subject {
        match self {
            AssembleError::MissingMandatoryField(_) => Subject::Manifest,
            AssembleError::DonorNotFound => Subject::Donor,
            AssembleError::DonorUnreadable => Subject::Donor,
            AssembleError::ModulePayloadUnreadable => Subject::Module,
            AssembleError::OutputWriteFailure => Subject::Output,
        }
    }

    /// The file that the failure is about, and is reported with.
    pub fn subject(&self) -> (r: Subject)
        ensures
            r == self.spec_subject(),
    {
        match self {
            AssembleError::MissingMandatoryField(_) => Subject::Manifest,
            AssembleError::DonorNotFound => Subject::Donor,
            AssembleError::DonorUnreadable => Subject::Donor,
            AssembleError::ModulePayloadUnreadable => Subject::Module,
            AssembleError::OutputWriteFailure => Subject::Output,
        }
    }

    /// What went wrong, in words: the contract that the assembly breaks.
    pub open spec fn spec_describe(self) -> Seq<char> {
        match self {
            AssembleError::MissingMandatoryField(field) => "the manifest lacks the mandatory field "@
                + field.spec_name(),
            AssembleError::DonorNotFound => "the donor executable does not exist"@,
            AssembleError::DonorUnreadable => "the donor executable cannot be read"@,
            AssembleError::ModulePayloadUnreadable => "the module cannot be read"@,
            AssembleError::OutputWriteFailure => "the output cannot be written"@,
        }
    }

    /// What went wrong, in words.
    pub fn describe(&self) -> (r: String)
        ensures
            r@ == self.spec_describe(),
    {
        match self {
            AssembleError::MissingMandatoryField(field) => {
                let mut text = String::from_str("the manifest lacks the mandatory field ");
                let name = field.name();
                text.append(name.as_str());
                text
            },
            AssembleError::DonorNotFound => String::from_str("the donor executable does not exist"),
            AssembleError::DonorUnreadable => String::from_str(
                "the donor executable cannot be read",
            ),
            AssembleError::ModulePayloadUnreadable => String::from_str("the module cannot be read"),
            AssembleError::OutputWriteFailure => String::from_str("the output cannot be written"),
        }
    }
}

impl Diagnostic {
    /// The command that the operator is told to run on the output at
    /// `output_path`.
    pub open spec fn spec_remedy(self, output_path: Seq<char>) -> Seq<char> {
        match self {
            Diagnostic::PermissionApplicationUnsupported => "chmod +x "@ + output_path,
        }
    }

    /// The command that the operator is told to run on the output at
    /// `output_path`.
    pub fn remedy(&self, output_path: &str) -> (r: String)
        ensures
            r@ == self.spec_remedy(output_path@),
    {
        match self {
            Diagnostic::PermissionApplicationUnsupported => {
                let mut text = String::from_str("chmod +x ");
                text.append(output_path);
                text
            },
        }
    }
}

} // verus!
