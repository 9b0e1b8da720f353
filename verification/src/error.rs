//! What can go wrong while a document is loaded.

use vstd::prelude::*;

verus! {

/// Why the parser refused a document or a material library.
#[derive(Debug, Clone, Copy, PartialEq, Eq, Structural)]
pub enum LoadFailure {
    /// A file could not be opened.
    OpenFileFailed,
    /// A line could not be read.
    ReadError,
    /// A character has no place in the format.
    UnrecognizedCharacter,
    /// A position has a component that is no number.
    PositionParseError,
    /// The weight of a position is zero.
    ScalingByZeroError,
    /// A vertex colour has too many or too few components.
    ColorParseError,
    /// A normal has a component that is no number.
    NormalParseError,
    /// A texture coordinate has a component that is no number.
    TexcoordParseError,
    /// A face has a reference that cannot be read.
    FaceParseError,
    /// A statement about a material cannot be read.
    MaterialParseError,
    /// A material has no name.
    InvalidObjectName,
    /// A polygon has too few vertices to be split into triangles.
    InvalidPolygon,
    /// A face refers to a position that does not exist.
    FaceVertexOutOfBounds,
    /// A face refers to a texture coordinate that does not exist.
    FaceTexCoordOutOfBounds,
    /// A face refers to a normal that does not exist.
    FaceNormalOutOfBounds,
    /// A face refers to a vertex colour that does not exist.
    FaceColorOutOfBounds,
    /// The load options exclude each other.
    InvalidLoadOptionConfig,
    /// Anything else.
    GenericFailure,
}

/// Why the arrays of a mesh cannot be put together.
#[derive(Debug, Clone, Copy, PartialEq, Eq, Structural)]
pub enum MeshFault {
    /// The index array is no list of triangles: its length is no multiple of 3.
    NotTriangles,
    /// An index points at a vertex that the mesh does not hold.
    IndexOutOfRange,
    /// The index of the normals or of the texture coordinates names another
    /// number of corners than the index of the positions.
    AttributeCount,
    /// The mesh has more vertices than a 32-bit index can tell apart.
    TooManyVertices,
}

/// The kinds of failure that a caller can tell apart.
#[derive(Debug, Clone, Copy, PartialEq, Eq, Structural)]
pub enum ErrorKind {
    /// The input is no text.
    Encoding,
    /// A numeric token is malformed.
    NumericParse,
    /// A face has too few vertices, or references of different forms.
    MalformedFace,
    /// A face refers to an element that its pool does not hold.
    IndexOutOfRange,
    /// Bytes could not be read.
    Io,
    /// A material library could not be loaded.
    MaterialLoad,
    /// The path of a texture cannot be resolved.
    TextureResolution,
    /// The document is refused for another reason.
    InvalidFile,
}

/// An error of the loaders.
#[derive(Debug, Clone, PartialEq, Eq)]
pub enum ObjError {
    /// The document is not UTF-8 text.
    EncodingError,
    /// A numeric token on the line, counted from 1, is malformed.
    NumericParseError { line: usize },
    /// A face on the line, counted from 1, has fewer than three vertices, a
    /// reference without a position or with more than three parts, or
    /// references of different forms.
    MalformedFaceError { line: usize },
    /// A face on the line, counted from 1, refers to an element that its pool
    /// does not hold at that line.
    IndexOutOfRangeError { line: usize },
    /// The parser refused the document.
    InvalidFile(LoadFailure),
    /// The arrays that the parser gave cannot be put together to a mesh.
    InvalidMesh(MeshFault),
    /// The material libraries of the document `document` could not be
    /// loaded. `library` is the first library that the document asks for and
    /// the host has not read, where there is one.
    MaterialLoadError { document: String, library: Option<String>, cause: LoadFailure },
    /// The path of a texture has no file name with an extension.
    TextureResolutionError { path: String },
}

/// What an `ObjError` holds.
pub enum ObjErrorView {
    EncodingError,
    NumericParseError { line: usize },
    MalformedFaceError { line: usize },
    IndexOutOfRangeError { line: usize },
    InvalidFile(LoadFailure),
    InvalidMesh(MeshFault),
    MaterialLoadError { document: Seq<char>, library: Option<Seq<char>>, cause: LoadFailure },
    TextureResolutionError { path: Seq<char> },
}

impl View for ObjError {
    type V = ObjErrorView;

    open spec fn view(&self) -> ObjErrorView {
        match *self {
            ObjError::EncodingError => ObjErrorView::EncodingError,
            ObjError::NumericParseError { line } => ObjErrorView::NumericParseError { line },
            ObjError::MalformedFaceError { line } => ObjErrorView::MalformedFaceError { line },
            ObjError::IndexOutOfRangeError { line } => ObjErrorView::IndexOutOfRangeError { line },
            ObjError::InvalidFile(f) => ObjErrorView::InvalidFile(f),
            ObjError::InvalidMesh(f) => ObjErrorView::InvalidMesh(f),
            ObjError::MaterialLoadError { document, library, cause } => {
                ObjErrorView::MaterialLoadError {
                    document: document@,
                    library: match library {
                        Some(l) => Some(l@),
                        None => None,
                    },
                    cause,
                }
            },
            ObjError::TextureResolutionError { path } => ObjErrorView::TextureResolutionError {
                path: path@,
            },
        }
    }
}

/// The kind of failure that `f` stands for.
pub open spec fn load_failure_kind(f: LoadFailure) -> ErrorKind {
    match f {
        LoadFailure::OpenFileFailed | LoadFailure::ReadError => ErrorKind::Io,
        LoadFailure::PositionParseError
        | LoadFailure::ScalingByZeroError
        | LoadFailure::ColorParseError
        | LoadFailure::NormalParseError
        | LoadFailure::TexcoordParseError => ErrorKind::NumericParse,
        LoadFailure::FaceParseError | LoadFailure::InvalidPolygon => ErrorKind::MalformedFace,
        LoadFailure::FaceVertexOutOfBounds
        | LoadFailure::FaceTexCoordOutOfBounds
        | LoadFailure::FaceNormalOutOfBounds
        | LoadFailure::FaceColorOutOfBounds => ErrorKind::IndexOutOfRange,
        LoadFailure::MaterialParseError | LoadFailure::InvalidObjectName => ErrorKind::MaterialLoad,
        LoadFailure::UnrecognizedCharacter
        | LoadFailure::InvalidLoadOptionConfig
        | LoadFailure::GenericFailure => ErrorKind::InvalidFile,
    }
}

/// The kind of failure that `f` stands for.
pub open spec fn mesh_fault_kind(f: MeshFault) -> ErrorKind {
    match f {
        MeshFault::NotTriangles | MeshFault::AttributeCount => ErrorKind::MalformedFace,
        MeshFault::IndexOutOfRange => ErrorKind::IndexOutOfRange,
        MeshFault::TooManyVertices => ErrorKind::InvalidFile,
    }
}

impl ObjError {
    /// The kind of failure that the error stands for.
    pub open spec fn spec_kind(&self) -> ErrorKind {
        match *self {
            ObjError::EncodingError => ErrorKind::Encoding,
            ObjError::NumericParseError { .. } => ErrorKind::NumericParse,
            ObjError::MalformedFaceError { .. } => ErrorKind::MalformedFace,
            ObjError::IndexOutOfRangeError { .. } => ErrorKind::IndexOutOfRange,
            ObjError::InvalidFile(f) => load_failure_kind(f),
            ObjError::InvalidMesh(f) => mesh_fault_kind(f),
            ObjError::MaterialLoadError { .. } => ErrorKind::MaterialLoad,
            ObjError::TextureResolutionError { .. } => ErrorKind::TextureResolution,
        }
    }

    /// The kind of failure that the error stands for.
    #[verifier::when_used_as_spec(spec_kind)]
    pub fn kind(&self) -> (k: ErrorKind)
        ensures
            k == self.spec_kind(),
    {
        match self {
            ObjError::EncodingError => ErrorKind::Encoding,
            ObjError::NumericParseError { .. } => ErrorKind::NumericParse,
            ObjError::MalformedFaceError { .. } => ErrorKind::MalformedFace,
            ObjError::IndexOutOfRangeError { .. } => ErrorKind::IndexOutOfRange,
            ObjError::InvalidFile(f) => match f {
                LoadFailure::OpenFileFailed | LoadFailure::ReadError => ErrorKind::Io,
                LoadFailure::PositionParseError
                | LoadFailure::ScalingByZeroError
                | LoadFailure::ColorParseError
                | LoadFailure::NormalParseError
                | LoadFailure::TexcoordParseError => ErrorKind::NumericParse,
                LoadFailure::FaceParseError | LoadFailure::InvalidPolygon => ErrorKind::MalformedFace,
                LoadFailure::FaceVertexOutOfBounds
                | LoadFailure::FaceTexCoordOutOfBounds
                | LoadFailure::FaceNormalOutOfBounds
                | LoadFailure::FaceColorOutOfBounds => ErrorKind::IndexOutOfRange,
                LoadFailure::MaterialParseError | LoadFailure::InvalidObjectName => ErrorKind::MaterialLoad,
                LoadFailure::UnrecognizedCharacter
                | LoadFailure::InvalidLoadOptionConfig
                | LoadFailure::GenericFailure => ErrorKind::InvalidFile,
            },
            ObjError::InvalidMesh(f) => match f {
                MeshFault::NotTriangles | MeshFault::AttributeCount => ErrorKind::MalformedFace,
                MeshFault::IndexOutOfRange => ErrorKind::IndexOutOfRange,
                MeshFault::TooManyVertices => ErrorKind::InvalidFile,
            },
            ObjError::MaterialLoadError { .. } => ErrorKind::MaterialLoad,
            ObjError::TextureResolutionError { .. } => ErrorKind::TextureResolution,
        }
    }
}

} // verus!
