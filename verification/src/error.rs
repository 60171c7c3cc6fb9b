//! The single error value a load reports.

use crate::asset::Semantic;
use vstd::prelude::*;
use vstd::string::*;

verus! {

/// Part of the asset format that the importer recognises but does not carry out.
#[derive(Debug, Clone, Copy, PartialEq, Eq, Structural)]
pub enum Feature {
    /// A buffer stored in the binary chunk of the asset file.
    EmbeddedBuffer,
    /// An image stored in a buffer view.
    EmbeddedImage,
    /// A camera with an orthographic projection.
    OrthographicCamera,
    /// A node transform given as a raw matrix.
    MatrixTransform,
    /// Vertex data stored interleaved in one strided buffer.
    InterleavedLayout,
}

/// Why a load failed. Every variant ends the load.
#[derive(Debug)]
pub enum Error {
    /// The index accessor is not a scalar of 16- or 32-bit unsigned integers.
    UnsupportedIndicesFormat,
    /// The attribute's semantic is not one the importer recognises.
    UnsupportedSemantic(Semantic),
    /// No vertex format stores the accessor's component type and shape.
    UnsupportedDataTypeOrDimensions,
    /// Some attribute views of one primitive are strided and some are not.
    UnsupportedBufferLayout,
    /// The image has an unknown extension, colour type or bit depth.
    UnsupportedImageFormat,
    /// An accessor has no buffer view behind it.
    UnsupportedSparseStorage,
    /// A byte range lies outside its buffer or does not divide into elements.
    CorruptBufferView,
    /// A packed buffer whose length is not the vertex size times the count.
    InvalidVertexData,
    /// A reference inside the asset points past the end of its table.
    MalformedAsset,
    /// A perspective camera without an aspect ratio or a far plane.
    IncompleteCamera,
    /// The asset asks for something that is recognised and not carried out.
    Unimplemented(Feature),
}

/// The decimal digit `d` as text.
pub open spec fn digit_text(d: nat) -> Seq<char> {
    if d == 0 {
        "0"@
    } else if d == 1 {
        "1"@
    } else if d == 2 {
        "2"@
    } else if d == 3 {
        "3"@
    } else if d == 4 {
        "4"@
    } else if d == 5 {
        "5"@
    } else if d == 6 {
        "6"@
    } else if d == 7 {
        "7"@
    } else if d == 8 {
        "8"@
    } else {
        "9"@
    }
}

/// The number in decimal notation, without leading zeros.
pub open spec fn decimal_text(n: nat) -> Seq<char>
    decreases n,
{
    if n < 10 {
        digit_text(n)
    } else {
        decimal_text(n / 10) + digit_text(n % 10)
    }
}

/// The name of the semantic, with its set index in brackets where it has
/// one.
pub open spec fn semantic_text(semantic: Semantic) -> Seq<char> {
    match semantic {
        Semantic::Positions => "Positions"@,
        Semantic::Normals => "Normals"@,
        Semantic::Tangents => "Tangents"@,
        Semantic::Colors(set) => "Colors("@ + decimal_text(set as nat) + ")"@,
        Semantic::TexCoords(set) => "TexCoords("@ + decimal_text(set as nat) + ")"@,
        Semantic::Joints(set) => "Joints("@ + decimal_text(set as nat) + ")"@,
        Semantic::Weights(set) => "Weights("@ + decimal_text(set as nat) + ")"@,
    }
}

fn digit(d: u32) -> (text: &'static str)
    requires
        d < 10,
    ensures
        text@ == digit_text(d as nat),
{
    if d == 0 {
        "0"
    } else if d == 1 {
        "1"
    } else if d == 2 {
        "2"
    } else if d == 3 {
        "3"
    } else if d == 4 {
        "4"
    } else if d == 5 {
        "5"
    } else if d == 6 {
        "6"
    } else if d == 7 {
        "7"
    } else if d == 8 {
        "8"
    } else {
        "9"
    }
}

/// Writes the number in decimal notation.
pub fn decimal(n: u32) -> (text: String)
    ensures
        text@ == decimal_text(n as nat),
    decreases n,
{
    if n < 10 {
        String::from_str(digit(n))
    } else {
        let mut text = decimal(n / 10);
        text.append(digit(n % 10));
        text
    }
}

/// Writes the name of the semantic.
pub fn semantic_name(semantic: Semantic) -> (text: String)
    ensures
        text@ == semantic_text(semantic),
{
    let (name, set) = match semantic {
        Semantic::Positions => {
            return String::from_str("Positions");
        },
        Semantic::Normals => {
            return String::from_str("Normals");
        },
        Semantic::Tangents => {
            return String::from_str("Tangents");
        },
        Semantic::Colors(set) => ("Colors(", set),
        Semantic::TexCoords(set) => ("TexCoords(", set),
        Semantic::Joints(set) => ("Joints(", set),
        Semantic::Weights(set) => ("Weights(", set),
    };
    let mut text = String::from_str(name);
    let number = decimal(set);
    text.append(number.as_str());
    text.append(")");
    text
}

impl Error {
    /// What went wrong, in words.
    pub open spec fn reason(&self) -> Seq<char> {
        match self {
            Error::UnsupportedIndicesFormat => "The indices format is not supported"@,
            Error::UnsupportedSemantic(semantic) => "The semantic "@ + semantic_text(*semantic)
                + " is not supported"@,
            Error::UnsupportedDataTypeOrDimensions => "The data type or Dimensions are not supported"@,
            Error::UnsupportedBufferLayout => "The buffer layout is not supported"@,
            Error::UnsupportedImageFormat => "The image format is not supported"@,
            Error::UnsupportedSparseStorage => "The sparse feature is not supported"@,
            Error::CorruptBufferView => "A buffer view does not fit its buffer"@,
            Error::InvalidVertexData => "The vertex data does not fit its attributes"@,
            Error::MalformedAsset => "A reference points outside the asset"@,
            Error::IncompleteCamera => "The camera lacks an aspect ratio or a far plane"@,
            Error::Unimplemented(Feature::EmbeddedBuffer) => "Embedded buffers are not supported"@,
            Error::Unimplemented(Feature::EmbeddedImage) => "Embedded images are not supported"@,
            Error::Unimplemented(Feature::OrthographicCamera) => "Orthographic cameras are not supported"@,
            Error::Unimplemented(Feature::MatrixTransform) => "Matrix transforms are not supported"@,
            Error::Unimplemented(Feature::InterleavedLayout) => "Interleaved vertex data is not supported"@,
        }
    }

    /// The message shown to the user: a fixed opening, then the reason.
    pub open spec fn spec_message(&self) -> Seq<char> {
        "Loading GLTF file failed: "@ + self.reason()
    }

    /// The message shown to the user. An unsupported semantic is named.
    pub fn message(&self) -> (text: String)
        ensures
            text@ == self.spec_message(),
    {
        let mut text = String::from_str("Loading GLTF file failed: ");
        let reason = match self {
            Error::UnsupportedSemantic(semantic) => {
                let name = semantic_name(*semantic);
                text.append("The semantic ");
                text.append(name.as_str());
                text.append(" is not supported");
                assert(text@ =~= self.spec_message());
                return text;
            },
            Error::UnsupportedIndicesFormat => "The indices format is not supported",
            Error::UnsupportedDataTypeOrDimensions => "The data type or Dimensions are not supported",
            Error::UnsupportedBufferLayout => "The buffer layout is not supported",
            Error::UnsupportedImageFormat => "The image format is not supported",
            Error::UnsupportedSparseStorage => "The sparse feature is not supported",
            Error::CorruptBufferView => "A buffer view does not fit its buffer",
            Error::InvalidVertexData => "The vertex data does not fit its attributes",
            Error::MalformedAsset => "A reference points outside the asset",
            Error::IncompleteCamera => "The camera lacks an aspect ratio or a far plane",
            Error::Unimplemented(Feature::EmbeddedBuffer) => "Embedded buffers are not supported",
            Error::Unimplemented(Feature::EmbeddedImage) => "Embedded images are not supported",
            Error::Unimplemented(Feature::OrthographicCamera) => "Orthographic cameras are not supported",
            Error::Unimplemented(Feature::MatrixTransform) => "Matrix transforms are not supported",
            Error::Unimplemented(Feature::InterleavedLayout) => "Interleaved vertex data is not supported",
        };
        text.append(reason);
        text
    }
}

/// The error of the first step that has one, for steps taken in order.
pub open spec fn first_error(steps: Seq<Option<Error>>) -> Option<Error>
    decreases steps.len(),
{
    if steps.len() == 0 {
        None
    } else if steps[0].is_some() {
        steps[0]
    } else {
        first_error(steps.drop_first())
    }
}

/// Where the steps before `i` have no error and step `i` has one, that is
/// the first error.
pub proof fn lemma_first_error_at(steps: Seq<Option<Error>>, i: int)
    requires
        0 <= i < steps.len(),
        steps[i].is_some(),
        forall|j: int| 0 <= j < i ==> steps[j].is_none(),
    ensures
        first_error(steps) == steps[i],
    decreases i,
{
    if i > 0 {
        let rest = steps.drop_first();
        assert(rest[i - 1] == steps[i]);
        assert forall|j: int| 0 <= j < i - 1 implies rest[j].is_none() by {
            assert(rest[j] == steps[j + 1]);
        }
        lemma_first_error_at(rest, i - 1);
    }
}

/// Where no step has an error, there is no first error.
pub proof fn lemma_first_error_none(steps: Seq<Option<Error>>)
    requires
        forall|j: int| 0 <= j < steps.len() ==> steps[j].is_none(),
    ensures
        first_error(steps).is_none(),
    decreases steps.len(),
{
    if steps.len() > 0 {
        let rest = steps.drop_first();
        assert forall|j: int| 0 <= j < rest.len() implies rest[j].is_none() by {
            assert(rest[j] == steps[j + 1]);
        }
        lemma_first_error_none(rest);
    }
}

/// Where there is no first error, no step has an error.
pub proof fn lemma_no_first_error(steps: Seq<Option<Error>>, i: int)
    requires
        first_error(steps).is_none(),
        0 <= i < steps.len(),
    ensures
        steps[i].is_none(),
    decreases i,
{
    if i > 0 {
        let rest = steps.drop_first();
        assert(rest[i - 1] == steps[i]);
        lemma_no_first_error(rest, i - 1);
    }
}

} // verus!
