//! The errors that end a compilation.

use crate::json::required;
use vstd::prelude::*;

verus! {

/// Why a document could not be built. Each of these ends the compilation:
/// no partial document comes back.
#[derive(Debug, Clone, Copy, PartialEq, Eq, Structural)]
pub enum CompileError {
    /// The text is not a URI.
    UriParseError,
    /// The URI's scheme is not `vless`.
    UnsupportedScheme,
    /// The link lacks its server, its port or its credential.
    MissingIdentityField,
    /// REALITY is switched on without its public key or its short id.
    IncompleteSecurityConfig,
    /// A section refers to a tag that no entry carries.
    UnresolvedTagReference,
}

impl CompileError {
    /// The text of `message`.
    pub open spec fn text(self) -> Seq<char> {
        match self {
            CompileError::UriParseError => "malformed URI"@,
            CompileError::UnsupportedScheme => "unsupported scheme"@,
            CompileError::MissingIdentityField => "Not configurated required fields"@,
            CompileError::IncompleteSecurityConfig => "Security = reality, but it doesnt configurated"@,
            CompileError::UnresolvedTagReference => "unresolved tag reference"@,
        }
    }

    /// A line that says what went wrong.
    pub fn message(&self) -> (r: String)
        ensures
            r@ == self.text(),
    {
        match self {
            CompileError::UriParseError => "malformed URI".to_owned(),
            CompileError::UnsupportedScheme => "unsupported scheme".to_owned(),
            CompileError::MissingIdentityField => "Not configurated required fields".to_owned(),
            CompileError::IncompleteSecurityConfig => "Security = reality, but it doesnt configurated".to_owned(),
            CompileError::UnresolvedTagReference => "unresolved tag reference".to_owned(),
        }
    }
}

} // verus!
