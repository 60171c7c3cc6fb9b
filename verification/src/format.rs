//! Vertex formats and the mapping from accessor element descriptions to them.

use crate::error::Error;
use vstd::prelude::*;

verus! {

/// Component type of the elements an accessor describes.
#[derive(Debug, Clone, Copy, PartialEq, Eq, Structural)]
pub enum DataType {
    /// Signed 8-bit integer.
    I8,
    /// Unsigned 8-bit integer.
    U8,
    /// Signed 16-bit integer.
    I16,
    /// Unsigned 16-bit integer.
    U16,
    /// Unsigned 32-bit integer.
    U32,
    /// 32-bit IEEE single.
    F32,
}

/// Shape of the elements an accessor describes.
#[derive(Debug, Clone, Copy, PartialEq, Eq, Structural)]
pub enum Dimensions {
    Scalar,
    Vec2,
    Vec3,
    Vec4,
    Mat2,
    Mat3,
    Mat4,
}

impl DataType {
    /// Width of one component in bytes.
    pub open spec fn width(self) -> nat {
        match self {
            DataType::I8 | DataType::U8 => 1,
            DataType::I16 | DataType::U16 => 2,
            DataType::U32 | DataType::F32 => 4,
        }
    }
}

impl Dimensions {
    /// Number of components in one element.
    pub open spec fn components(self) -> nat {
        match self {
            Dimensions::Scalar => 1,
            Dimensions::Vec2 => 2,
            Dimensions::Vec3 => 3,
            Dimensions::Vec4 | Dimensions::Mat2 => 4,
            Dimensions::Mat3 => 9,
            Dimensions::Mat4 => 16,
        }
    }
}

/// Closed set of vertex attribute formats.
#[derive(Debug, Clone, Copy, PartialEq, Eq, Hash, Structural)]
pub enum VertexFormat {
    /// Two unsigned bytes (u8). `uvec2` in shaders.
    Uint8x2,
    /// Four unsigned bytes (u8). `uvec4` in shaders.
    Uint8x4,
    /// Two signed bytes (i8). `ivec2` in shaders.
    Sint8x2,
    /// Four signed bytes (i8). `ivec4` in shaders.
    Sint8x4,
    /// Two unsigned bytes (u8). [0, 255] converted to [0, 1] `vec2` in shaders.
    Unorm8x2,
    /// Four unsigned bytes (u8). [0, 255] converted to [0, 1] `vec4` in shaders.
    Unorm8x4,
    /// Two signed bytes (i8). [-127, 127] converted to [-1, 1] `vec2` in shaders.
    Snorm8x2,
    /// Four signed bytes (i8). [-127, 127] converted to [-1, 1] `vec4` in shaders.
    Snorm8x4,
    /// Two unsigned shorts (u16). `uvec2` in shaders.
    Uint16x2,
    /// Four unsigned shorts (u16). `uvec4` in shaders.
    Uint16x4,
    /// Two signed shorts (i16). `ivec2` in shaders.
    Sint16x2,
    /// Four signed shorts (i16). `ivec4` in shaders.
    Sint16x4,
    /// Two unsigned shorts (u16). [0, 65535] converted to [0, 1] `vec2` in shaders.
    Unorm16x2,
    /// Four unsigned shorts (u16). [0, 65535] converted to [0, 1] `vec4` in shaders.
    Unorm16x4,
    /// Two signed shorts (i16). [-32767, 32767] converted to [-1, 1] `vec2` in shaders.
    Snorm16x2,
    /// Four signed shorts (i16). [-32767, 32767] converted to [-1, 1] `vec4` in shaders.
    Snorm16x4,
    /// Two half-precision values. `vec2` in shaders.
    Float16x2,
    /// Four half-precision values. `vec4` in shaders.
    Float16x4,
    /// One single-precision value. `float` in shaders.
    Float32,
    /// Two single-precision values. `vec2` in shaders.
    Float32x2,
    /// Three single-precision values. `vec3` in shaders.
    Float32x3,
    /// Four single-precision values. `vec4` in shaders.
    Float32x4,
    /// One unsigned int (u32). `uint` in shaders.
    Uint32,
    /// Two unsigned ints (u32). `uvec2` in shaders.
    Uint32x2,
    /// Three unsigned ints (u32). `uvec3` in shaders.
    Uint32x3,
    /// Four unsigned ints (u32). `uvec4` in shaders.
    Uint32x4,
    /// One signed int (i32). `int` in shaders.
    Sint32,
    /// Two signed ints (i32). `ivec2` in shaders.
    Sint32x2,
    /// Three signed ints (i32). `ivec3` in shaders.
    Sint32x3,
    /// Four signed ints (i32). `ivec4` in shaders.
    Sint32x4,
    /// One double-precision value. `double` in shaders.
    Float64,
    /// Two double-precision values. `dvec2` in shaders.
    Float64x2,
    /// Three double-precision values. `dvec3` in shaders.
    Float64x3,
    /// Four double-precision values. `dvec4` in shaders.
    Float64x4,
}

impl VertexFormat {
    /// Byte size of one element of the format.
    pub open spec fn spec_size(&self) -> u64 {
        match self {
            Self::Uint8x2 | Self::Sint8x2 | Self::Unorm8x2 | Self::Snorm8x2 => 2,
            Self::Uint8x4
            | Self::Sint8x4
            | Self::Unorm8x4
            | Self::Snorm8x4
            | Self::Uint16x2
            | Self::Sint16x2
            | Self::Unorm16x2
            | Self::Snorm16x2
            | Self::Float16x2
            | Self::Float32
            | Self::Uint32
            | Self::Sint32 => 4,
            Self::Uint16x4
            | Self::Sint16x4
            | Self::Unorm16x4
            | Self::Snorm16x4
            | Self::Float16x4
            | Self::Float32x2
            | Self::Uint32x2
            | Self::Sint32x2
            | Self::Float64 => 8,
            Self::Float32x3 | Self::Uint32x3 | Self::Sint32x3 => 12,
            Self::Float32x4 | Self::Uint32x4 | Self::Sint32x4 | Self::Float64x2 => 16,
            Self::Float64x3 => 24,
            Self::Float64x4 => 32,
        }
    }

    /// The format that stores elements of the given component type and shape,
    /// where there is one.
    pub open spec fn spec_try_from_gltf(data_type: DataType, dimensions: Dimensions) -> Option<
        VertexFormat,
    > {
        match (data_type, dimensions) {
            (DataType::I8, Dimensions::Vec2) => Some(VertexFormat::Sint8x2),
            (DataType::I8, Dimensions::Vec4) => Some(VertexFormat::Sint8x4),
            (DataType::U8, Dimensions::Vec2) => Some(VertexFormat::Uint8x2),
            (DataType::U8, Dimensions::Vec4) => Some(VertexFormat::Uint8x4),
            (DataType::I16, Dimensions::Vec2) => Some(VertexFormat::Sint16x2),
            (DataType::I16, Dimensions::Vec4) => Some(VertexFormat::Sint16x4),
            (DataType::U16, Dimensions::Vec2) => Some(VertexFormat::Uint16x2),
            (DataType::U16, Dimensions::Vec4) => Some(VertexFormat::Uint16x4),
            (DataType::U32, Dimensions::Scalar) => Some(VertexFormat::Uint32),
            (DataType::U32, Dimensions::Vec2) => Some(VertexFormat::Uint32x2),
            (DataType::U32, Dimensions::Vec3) => Some(VertexFormat::Uint32x3),
            (DataType::U32, Dimensions::Vec4) => Some(VertexFormat::Uint32x4),
            (DataType::F32, Dimensions::Scalar) => Some(VertexFormat::Float32),
            (DataType::F32, Dimensions::Vec2) => Some(VertexFormat::Float32x2),
            (DataType::F32, Dimensions::Vec3) => Some(VertexFormat::Float32x3),
            (DataType::F32, Dimensions::Vec4) => Some(VertexFormat::Float32x4),
            _ => None,
        }
    }

    /// Returns the byte size of the format.
    #[verifier::when_used_as_spec(spec_size)]
    pub fn size(&self) -> (bytes: u64)
        ensures
            bytes == self.spec_size(),
            2 <= bytes <= 32,
    {
        match self {
            Self::Uint8x2 | Self::Sint8x2 | Self::Unorm8x2 | Self::Snorm8x2 => 2,
            Self::Uint8x4
            | Self::Sint8x4
            | Self::Unorm8x4
            | Self::Snorm8x4
            | Self::Uint16x2
            | Self::Sint16x2
            | Self::Unorm16x2
            | Self::Snorm16x2
            | Self::Float16x2
            | Self::Float32
            | Self::Uint32
            | Self::Sint32 => 4,
            Self::Uint16x4
            | Self::Sint16x4
            | Self::Unorm16x4
            | Self::Snorm16x4
            | Self::Float16x4
            | Self::Float32x2
            | Self::Uint32x2
            | Self::Sint32x2
            | Self::Float64 => 8,
            Self::Float32x3 | Self::Uint32x3 | Self::Sint32x3 => 12,
            Self::Float32x4 | Self::Uint32x4 | Self::Sint32x4 | Self::Float64x2 => 16,
            Self::Float64x3 => 24,
            Self::Float64x4 => 32,
        }
    }

    /// Maps an accessor's component type and shape to the vertex format that
    /// stores it. Pairs without a format give `None`; nothing is defaulted.
    pub fn try_from_gltf(data_type: DataType, dimensions: Dimensions) -> (format: Option<Self>)
        ensures
            format == Self::spec_try_from_gltf(data_type, dimensions),
            format.is_some() <==> Self::supported(data_type, dimensions),
    {
        match data_type {
            DataType::I8 => match dimensions {
                Dimensions::Vec2 => Some(Self::Sint8x2),
                Dimensions::Vec4 => Some(Self::Sint8x4),
                _ => None,
            },
            DataType::U8 => match dimensions {
                Dimensions::Vec2 => Some(Self::Uint8x2),
                Dimensions::Vec4 => Some(Self::Uint8x4),
                _ => None,
            },
            DataType::I16 => match dimensions {
                Dimensions::Vec2 => Some(Self::Sint16x2),
                Dimensions::Vec4 => Some(Self::Sint16x4),
                _ => None,
            },
            DataType::U16 => match dimensions {
                Dimensions::Vec2 => Some(Self::Uint16x2),
                Dimensions::Vec4 => Some(Self::Uint16x4),
                _ => None,
            },
            DataType::U32 => match dimensions {
                Dimensions::Scalar => Some(Self::Uint32),
                Dimensions::Vec2 => Some(Self::Uint32x2),
                Dimensions::Vec3 => Some(Self::Uint32x3),
                Dimensions::Vec4 => Some(Self::Uint32x4),
                _ => None,
            },
            DataType::F32 => match dimensions {
                Dimensions::Scalar => Some(Self::Float32),
                Dimensions::Vec2 => Some(Self::Float32x2),
                Dimensions::Vec3 => Some(Self::Float32x3),
                Dimensions::Vec4 => Some(Self::Float32x4),
                _ => None,
            },
        }
    }

    /// The pairs of component type and shape that have a vertex format:
    /// 8- and 16-bit integers as two- or four-component vectors, 32-bit
    /// components as scalars or vectors of two to four.
    pub open spec fn supported(data_type: DataType, dimensions: Dimensions) -> bool {
        match data_type {
            DataType::I8 | DataType::U8 | DataType::I16 | DataType::U16 => dimensions
                == Dimensions::Vec2 || dimensions == Dimensions::Vec4,
            DataType::U32 | DataType::F32 => dimensions == Dimensions::Scalar || dimensions
                == Dimensions::Vec2 || dimensions == Dimensions::Vec3 || dimensions
                == Dimensions::Vec4,
        }
    }

    /// A mapped format occupies exactly one component width per component of
    /// the element shape.
    pub proof fn lemma_mapped_size(data_type: DataType, dimensions: Dimensions)
        requires
            Self::supported(data_type, dimensions),
        ensures
            Self::spec_try_from_gltf(data_type, dimensions).is_some(),
            Self::spec_try_from_gltf(data_type, dimensions).unwrap().spec_size()
                == data_type.width() * dimensions.components(),
    {
        let width = data_type.width();
        let components = dimensions.components();
        if components == 1 {
            assert(width * components == width);
        } else if components == 2 {
            assert(width * components == width + width);
        } else if components == 3 {
            assert(width * components == width + width + width);
        } else {
            assert(width * components == width + width + width + width);
        }
    }
}

/// Maps an accessor's component type and shape to its vertex format. A pair
/// without a format is an error; there is no fallback format.
pub fn map_format(data_type: DataType, dimensions: Dimensions) -> (mapped: Result<
    VertexFormat,
    Error,
>)
    ensures
        match mapped {
            Ok(format) => VertexFormat::spec_try_from_gltf(data_type, dimensions) == Some(format),
            Err(error) => {
                &&& error == Error::UnsupportedDataTypeOrDimensions
                &&& !VertexFormat::supported(data_type, dimensions)
            },
        },
        mapped.is_ok() <==> VertexFormat::supported(data_type, dimensions),
{
    match VertexFormat::try_from_gltf(data_type, dimensions) {
        Some(format) => Ok(format),
        None => Err(Error::UnsupportedDataTypeOrDimensions),
    }
}

} // verus!
