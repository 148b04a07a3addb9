//! The error type shared by the whole toolkit.

use vstd::prelude::*;

verus! {

/// Everything that can go wrong while building shaders or compiling geometry.
#[derive(Debug, PartialEq, Eq)]
pub enum TrdlError {
    /// Reading a shader source failed; the payload is the reader's message.
    ShaderIo(String),
    /// A shader source held an interior NUL.
    NullString,
    /// The shader compiler rejected a source; the payload is its log.
    CompileError(String),
    /// The shader compiler failed without a usable log.
    InvalidCompileError,
    /// The linker rejected the program; the payload is its log.
    LinkError(String),
    /// The linker failed without a usable log.
    InvalidLinkError,
    /// A polygon had fewer than three vertices.
    NotEnoughVertices,
    /// Ear clipping ran out of ears, or a segment had no length.
    NonSimplePolygon,
    /// A path had neither a stroke nor anything to fill.
    NoVisibleGeometry,
    /// An arc with a vanishing radius, which is drawn as a straight line.
    ArcToIsLineTo,
}

impl TrdlError {
    /// The text that [`TrdlError::description`] returns.
    pub open spec fn description_text(self) -> Seq<char> {
        match self {
            TrdlError::ShaderIo(message) => message@,
            TrdlError::NullString => "Shader string was null"@,
            TrdlError::CompileError(message) => message@,
            TrdlError::InvalidCompileError => "An error occurred during shader compile"@,
            TrdlError::LinkError(message) => message@,
            TrdlError::InvalidLinkError => "An error occurred during shader program link"@,
            TrdlError::NotEnoughVertices => "A polygon must have 3 or more points"@,
            TrdlError::NonSimplePolygon => "Error triangulating polygon, is it non-simple?"@,
            TrdlError::NoVisibleGeometry => "Either the stroke or fill (or both) must be set"@,
            TrdlError::ArcToIsLineTo => "One of the radii is 0, so this is just a line"@,
        }
    }

    /// A human-readable account of the error: the carried message where there is
    /// one, a fixed sentence otherwise.
    pub fn description(&self) -> (text: String)
        ensures
            text@ == self.description_text(),
    {
        match self {
            TrdlError::ShaderIo(message) => message.clone(),
            TrdlError::NullString => "Shader string was null".to_owned(),
            TrdlError::CompileError(message) => message.clone(),
            TrdlError::InvalidCompileError => "An error occurred during shader compile".to_owned(),
            TrdlError::LinkError(message) => message.clone(),
            TrdlError::InvalidLinkError => "An error occurred during shader program link".to_owned(),
            TrdlError::NotEnoughVertices => "A polygon must have 3 or more points".to_owned(),
            TrdlError::NonSimplePolygon => "Error triangulating polygon, is it non-simple?".to_owned(),
            TrdlError::NoVisibleGeometry => "Either the stroke or fill (or both) must be set".to_owned(),
            TrdlError::ArcToIsLineTo => "One of the radii is 0, so this is just a line".to_owned(),
        }
    }

    /// The message of the underlying failure, for the one variant that wraps one.
    pub fn cause(&self) -> (inner: Option<String>)
        ensures
            inner matches Some(message) ==> self matches TrdlError::ShaderIo(m) && m@ == message@,
            inner is None ==> !(self is ShaderIo),
    {
        match self {
            TrdlError::ShaderIo(message) => Some(message.clone()),
            _ => None,
        }
    }
}

} // verus!
