//! The errors of this crate.

use vstd::prelude::*;

verus! {

/// What was wrong with a text.
#[derive(Clone, Copy, Debug, PartialEq, Eq, Structural)]
pub enum ErrorKind {
    /// A colour holds a character that is no hexadecimal digit.
    InvalidChar,
    /// A colour has one character where the two digits of its alpha should be.
    InsufficientAlpha,
    /// A colour goes on after its alpha.
    TrailingCharacters,
    /// A corner of a face has nothing before its first `/`: it names no
    /// vertex.
    MissingVertexIndex,
    /// A corner of a face names its vertex by something that is no index.
    InvalidVertexIndex,
    /// A mesh file holds no vertex, so it has no centre.
    NoVertices,
}

/// A failure to read a colour or a mesh.
#[derive(Clone, Copy, Debug, PartialEq, Eq, Structural)]
pub struct Error {
    pub kind: ErrorKind,
}

/// The error of the given kind.
pub fn io_error(kind: ErrorKind) -> (err: Error)
    ensures
        err.kind == kind,
{
    Error { kind }
}

impl Error {
    /// The text that `message` returns.
    pub open spec fn spec_message(&self) -> Seq<char> {
        match self.kind {
            ErrorKind::InvalidChar => "Invalid char"@,
            ErrorKind::InsufficientAlpha => "Insufficient data to calculate alpha"@,
            ErrorKind::TrailingCharacters => "Trailing characters found"@,
            ErrorKind::MissingVertexIndex => "Missing vertex index"@,
            ErrorKind::InvalidVertexIndex => "Invalid vertex index"@,
            ErrorKind::NoVertices => "No vertices"@,
        }
    }

    /// A line of text for the user.
    pub fn message(&self) -> (text: String)
        ensures
            text@ == self.spec_message(),
    {
        match self.kind {
            ErrorKind::InvalidChar => "Invalid char".to_owned(),
            ErrorKind::InsufficientAlpha => "Insufficient data to calculate alpha".to_owned(),
            ErrorKind::TrailingCharacters => "Trailing characters found".to_owned(),
            ErrorKind::MissingVertexIndex => "Missing vertex index".to_owned(),
            ErrorKind::InvalidVertexIndex => "Invalid vertex index".to_owned(),
            ErrorKind::NoVertices => "No vertices".to_owned(),
        }
    }
}

} // verus!
