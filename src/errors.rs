//! Error taxonomy and diagnostics.

use vstd::prelude::*;
use crate::ids::Path;
use crate::text::joined;

verus! {

pub enum ProjectError {
    ProjectNotFound,
}

#[derive(Clone, Copy, Debug, PartialEq, Eq, Structural)]
pub enum ModuleError {
    ModuleNotFound,
    CannotReadFile,
}

impl ModuleError {
    /// Human-readable text of the error.
    pub fn message(&self) -> (r: &'static str)
        ensures
            *self == ModuleError::ModuleNotFound ==> r@ == "Module not found"@,
            *self == ModuleError::CannotReadFile ==> r@ == "Cannot read file"@,
    {
        match self {
            ModuleError::ModuleNotFound => "Module not found",
            ModuleError::CannotReadFile => "Cannot read file",
        }
    }
}

/// Stable kind tag of a diagnostic.
#[derive(Clone, Copy, Debug, PartialEq, Eq, Structural)]
pub enum ErrorKind {
    SourceNotFound,
    UnreadableFile,
    ParseError,
    MixedFileContent,
    DuplicateDefinition,
    UnresolvedImport,
    AmbiguousImport,
    UnknownSymbol,
    IllegalStrictQpu,
    InvalidModifierArity,
}

/// The stable tag of an error kind: the kind's own name.
pub open spec fn kind_tag(k: ErrorKind) -> Seq<char> {
    match k {
        ErrorKind::SourceNotFound => "SourceNotFound"@,
        ErrorKind::UnreadableFile => "UnreadableFile"@,
        ErrorKind::ParseError => "ParseError"@,
        ErrorKind::MixedFileContent => "MixedFileContent"@,
        ErrorKind::DuplicateDefinition => "DuplicateDefinition"@,
        ErrorKind::UnresolvedImport => "UnresolvedImport"@,
        ErrorKind::AmbiguousImport => "AmbiguousImport"@,
        ErrorKind::UnknownSymbol => "UnknownSymbol"@,
        ErrorKind::IllegalStrictQpu => "IllegalStrictQpu"@,
        ErrorKind::InvalidModifierArity => "InvalidModifierArity"@,
    }
}

impl ErrorKind {
    pub fn tag(&self) -> (r: &'static str)
        ensures
            r@ == kind_tag(*self),
    {
        match self {
            ErrorKind::SourceNotFound => "SourceNotFound",
            ErrorKind::UnreadableFile => "UnreadableFile",
            ErrorKind::ParseError => "ParseError",
            ErrorKind::MixedFileContent => "MixedFileContent",
            ErrorKind::DuplicateDefinition => "DuplicateDefinition",
            ErrorKind::UnresolvedImport => "UnresolvedImport",
            ErrorKind::AmbiguousImport => "AmbiguousImport",
            ErrorKind::UnknownSymbol => "UnknownSymbol",
            ErrorKind::IllegalStrictQpu => "IllegalStrictQpu",
            ErrorKind::InvalidModifierArity => "InvalidModifierArity",
        }
    }
}

/// A typed error: its kind, the module it concerns and the offending name
/// (empty where there is none).
pub struct Diagnostic {
    pub kind: ErrorKind,
    pub module: Path,
    pub detail: String,
}

impl View for Diagnostic {
    type V = (ErrorKind, Seq<Seq<char>>, Seq<char>);

    open spec fn view(&self) -> (ErrorKind, Seq<Seq<char>>, Seq<char>) {
        (self.kind, self.module@, self.detail@)
    }
}

impl Diagnostic {
    pub fn new(kind: ErrorKind, module: Path, detail: String) -> (r: Diagnostic)
        ensures
            r@ == (kind, module@, detail@),
    {
        Diagnostic { kind, module, detail }
    }

    /// `<module path>: <ErrorKind>: <detail>`.
    pub fn to_string(&self) -> (r: String)
        ensures
            r@ == joined(self.module@, seq!['.']) + seq![':', ' '] + kind_tag(self.kind) + seq![
                ':',
                ' ',
            ] + self.detail@,
    {
        let mut r = self.module.to_string();
        proof {
            reveal_strlit(": ");
        }
        r.append(": ");
        r.append(self.kind.tag());
        r.append(": ");
        r.append(self.detail.as_str());
        proof {
            assert(": "@ =~= seq![':', ' ']);
        }
        r
    }
}

} // verus!
