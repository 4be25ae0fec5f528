//! The ways in which an invocation can fail.

use vstd::prelude::*;
use vstd::string::StringExecFns;

verus! {

/// Why an invocation gave no result.
#[derive(Clone, Copy, Debug, PartialEq, Eq, Structural)]
pub enum OcrError {
    /// No engine location is set, or nothing could be started there.
    EngineNotInstalled,
    /// The image has neither a path nor any pixels.
    ImageNotFound,
    /// The image's path does not end in the extension of a known format.
    ImageFormat,
    /// The file that the engine should have written could not be read.
    ArtifactReadFailure,
    /// A line of the box file holds a coordinate that is not a 32-bit
    /// integer, or more coordinates than one column can hold.
    CoordinateParseFailure,
    /// What the engine printed is not UTF-8 text.
    DiagnosticDecodeFailure,
}

impl OcrError {
    /// Errors that are found before the engine runs leave the caller with an
    /// empty result; the others end the call.
    pub open spec fn fatal(self) -> bool {
        self is ArtifactReadFailure || self is CoordinateParseFailure
            || self is DiagnosticDecodeFailure
    }

    /// Whether the error ends the call.
    pub fn is_fatal(&self) -> (r: bool)
        ensures
            r == self.fatal(),
    {
        match self {
            OcrError::EngineNotInstalled => false,
            OcrError::ImageNotFound => false,
            OcrError::ImageFormat => false,
            OcrError::ArtifactReadFailure => true,
            OcrError::CoordinateParseFailure => true,
            OcrError::DiagnosticDecodeFailure => true,
        }
    }

    /// The error in words.
    pub open spec fn message(self) -> Seq<char> {
        match self {
            OcrError::EngineNotInstalled => "Tesseract is not installed."@,
            OcrError::ImageNotFound => "Image not found."@,
            OcrError::ImageFormat => "Image format not within the list of allowed image formats."@,
            OcrError::ArtifactReadFailure => "File reading error. Filename does not exist."@,
            OcrError::CoordinateParseFailure => "A box coordinate is not an integer."@,
            OcrError::DiagnosticDecodeFailure => "The output of the engine is not UTF-8 text."@,
        }
    }

    /// The error in words.
    pub fn to_string(&self) -> (r: String)
        ensures
            r@ == self.message(),
    {
        match self {
            OcrError::EngineNotInstalled => String::from_str("Tesseract is not installed."),
            OcrError::ImageNotFound => String::from_str("Image not found."),
            OcrError::ImageFormat => String::from_str(
                "Image format not within the list of allowed image formats.",
            ),
            OcrError::ArtifactReadFailure => String::from_str(
                "File reading error. Filename does not exist.",
            ),
            OcrError::CoordinateParseFailure => String::from_str(
                "A box coordinate is not an integer.",
            ),
            OcrError::DiagnosticDecodeFailure => String::from_str(
                "The output of the engine is not UTF-8 text.",
            ),
        }
    }
}

} // verus!
