use elikar_scene::asset::Semantic;
use elikar_scene::error::Error;
use elikar_scene::format::{map_format, DataType, Dimensions, VertexFormat};
use elikar_scene::mesh::{map_semantic, Attribute};

const ALL_TYPES: [DataType; 6] = [
    DataType::I8,
    DataType::U8,
    DataType::I16,
    DataType::U16,
    DataType::U32,
    DataType::F32,
];

const ALL_DIMENSIONS: [Dimensions; 7] = [
    Dimensions::Scalar,
    Dimensions::Vec2,
    Dimensions::Vec3,
    Dimensions::Vec4,
    Dimensions::Mat2,
    Dimensions::Mat3,
    Dimensions::Mat4,
];

#[test]
fn maps_single_precision_vec3() {
    assert_eq!(
        VertexFormat::try_from_gltf(DataType::F32, Dimensions::Vec3),
        Some(VertexFormat::Float32x3)
    );
    assert_eq!(VertexFormat::Float32x3.size(), 12);
}

#[test]
fn maps_every_supported_pair() {
    let table = [
        (DataType::I8, Dimensions::Vec2, VertexFormat::Sint8x2),
        (DataType::I8, Dimensions::Vec4, VertexFormat::Sint8x4),
        (DataType::U8, Dimensions::Vec2, VertexFormat::Uint8x2),
        (DataType::U8, Dimensions::Vec4, VertexFormat::Uint8x4),
        (DataType::I16, Dimensions::Vec2, VertexFormat::Sint16x2),
        (DataType::I16, Dimensions::Vec4, VertexFormat::Sint16x4),
        (DataType::U16, Dimensions::Vec2, VertexFormat::Uint16x2),
        (DataType::U16, Dimensions::Vec4, VertexFormat::Uint16x4),
        (DataType::U32, Dimensions::Scalar, VertexFormat::Uint32),
        (DataType::U32, Dimensions::Vec2, VertexFormat::Uint32x2),
        (DataType::U32, Dimensions::Vec3, VertexFormat::Uint32x3),
        (DataType::U32, Dimensions::Vec4, VertexFormat::Uint32x4),
        (DataType::F32, Dimensions::Scalar, VertexFormat::Float32),
        (DataType::F32, Dimensions::Vec2, VertexFormat::Float32x2),
        (DataType::F32, Dimensions::Vec3, VertexFormat::Float32x3),
        (DataType::F32, Dimensions::Vec4, VertexFormat::Float32x4),
    ];
    for (data_type, dimensions, format) in table {
        assert_eq!(VertexFormat::try_from_gltf(data_type, dimensions), Some(format));
    }
}

#[test]
fn rejects_every_other_pair() {
    let mut supported = 0;
    let mut rejected = 0;
    for data_type in ALL_TYPES {
        for dimensions in ALL_DIMENSIONS {
            let narrow = matches!(
                data_type,
                DataType::I8 | DataType::U8 | DataType::I16 | DataType::U16
            );
            let expected = if narrow {
                matches!(dimensions, Dimensions::Vec2 | Dimensions::Vec4)
            } else {
                matches!(
                    dimensions,
                    Dimensions::Scalar | Dimensions::Vec2 | Dimensions::Vec3 | Dimensions::Vec4
                )
            };
            let mapped = VertexFormat::try_from_gltf(data_type, dimensions);
            assert_eq!(mapped.is_some(), expected);
            if expected {
                supported += 1;
            } else {
                rejected += 1;
            }
        }
    }
    assert_eq!(supported, 16);
    assert_eq!(rejected, 26);
}

#[test]
fn rejects_matrices_and_narrow_scalars() {
    assert_eq!(VertexFormat::try_from_gltf(DataType::F32, Dimensions::Mat4), None);
    assert_eq!(VertexFormat::try_from_gltf(DataType::U8, Dimensions::Scalar), None);
    assert_eq!(VertexFormat::try_from_gltf(DataType::I16, Dimensions::Vec3), None);
    assert_eq!(VertexFormat::try_from_gltf(DataType::U16, Dimensions::Scalar), None);
}

#[test]
fn mapped_size_is_width_times_components() {
    let width = |t: DataType| match t {
        DataType::I8 | DataType::U8 => 1u64,
        DataType::I16 | DataType::U16 => 2,
        DataType::U32 | DataType::F32 => 4,
    };
    let components = |d: Dimensions| match d {
        Dimensions::Scalar => 1u64,
        Dimensions::Vec2 => 2,
        Dimensions::Vec3 => 3,
        Dimensions::Vec4 | Dimensions::Mat2 => 4,
        Dimensions::Mat3 => 9,
        Dimensions::Mat4 => 16,
    };
    for data_type in ALL_TYPES {
        for dimensions in ALL_DIMENSIONS {
            if let Some(format) = VertexFormat::try_from_gltf(data_type, dimensions) {
                assert_eq!(format.size(), width(data_type) * components(dimensions));
            }
        }
    }
}

#[test]
fn sizes_of_all_formats() {
    let table = [
        (VertexFormat::Uint8x2, 2),
        (VertexFormat::Uint8x4, 4),
        (VertexFormat::Sint8x2, 2),
        (VertexFormat::Sint8x4, 4),
        (VertexFormat::Unorm8x2, 2),
        (VertexFormat::Unorm8x4, 4),
        (VertexFormat::Snorm8x2, 2),
        (VertexFormat::Snorm8x4, 4),
        (VertexFormat::Uint16x2, 4),
        (VertexFormat::Uint16x4, 8),
        (VertexFormat::Sint16x2, 4),
        (VertexFormat::Sint16x4, 8),
        (VertexFormat::Unorm16x2, 4),
        (VertexFormat::Unorm16x4, 8),
        (VertexFormat::Snorm16x2, 4),
        (VertexFormat::Snorm16x4, 8),
        (VertexFormat::Float16x2, 4),
        (VertexFormat::Float16x4, 8),
        (VertexFormat::Float32, 4),
        (VertexFormat::Float32x2, 8),
        (VertexFormat::Float32x3, 12),
        (VertexFormat::Float32x4, 16),
        (VertexFormat::Uint32, 4),
        (VertexFormat::Uint32x2, 8),
        (VertexFormat::Uint32x3, 12),
        (VertexFormat::Uint32x4, 16),
        (VertexFormat::Sint32, 4),
        (VertexFormat::Sint32x2, 8),
        (VertexFormat::Sint32x3, 12),
        (VertexFormat::Sint32x4, 16),
        (VertexFormat::Float64, 8),
        (VertexFormat::Float64x2, 16),
        (VertexFormat::Float64x3, 24),
        (VertexFormat::Float64x4, 32),
    ];
    for (format, size) in table {
        assert_eq!(format.size(), size);
        assert!(2 <= format.size() && format.size() <= 32);
    }
}

#[test]
fn maps_recognised_semantics() {
    assert_eq!(
        Attribute::try_from_gltf_semantic(Semantic::Positions),
        Some(Attribute::Positions)
    );
    assert_eq!(
        Attribute::try_from_gltf_semantic(Semantic::Normals),
        Some(Attribute::Normals)
    );
    assert_eq!(
        Attribute::try_from_gltf_semantic(Semantic::Tangents),
        Some(Attribute::Tangents)
    );
    assert_eq!(
        Attribute::try_from_gltf_semantic(Semantic::Colors(2)),
        Some(Attribute::Color(2))
    );
    assert_eq!(
        Attribute::try_from_gltf_semantic(Semantic::TexCoords(7)),
        Some(Attribute::TexCoords(7))
    );
}

#[test]
fn rejects_skinning_semantics() {
    assert_eq!(Attribute::try_from_gltf_semantic(Semantic::Joints(0)), None);
    assert_eq!(Attribute::try_from_gltf_semantic(Semantic::Weights(0)), None);
    assert_eq!(Attribute::try_from_gltf_semantic(Semantic::Weights(3)), None);
}

#[test]
fn map_format_reports_pairs_without_a_format() {
    assert!(matches!(
        map_format(DataType::U16, Dimensions::Vec4),
        Ok(VertexFormat::Uint16x4)
    ));
    assert!(matches!(
        map_format(DataType::U8, Dimensions::Scalar),
        Err(Error::UnsupportedDataTypeOrDimensions)
    ));
    for data_type in ALL_TYPES {
        for dimensions in ALL_DIMENSIONS {
            match map_format(data_type, dimensions) {
                Ok(format) => assert_eq!(
                    VertexFormat::try_from_gltf(data_type, dimensions),
                    Some(format)
                ),
                Err(error) => {
                    assert!(matches!(error, Error::UnsupportedDataTypeOrDimensions));
                    assert_eq!(VertexFormat::try_from_gltf(data_type, dimensions), None);
                }
            }
        }
    }
}

#[test]
fn map_semantic_names_what_it_rejects() {
    assert!(matches!(map_semantic(Semantic::Normals), Ok(Attribute::Normals)));
    assert!(matches!(
        map_semantic(Semantic::TexCoords(3)),
        Ok(Attribute::TexCoords(3))
    ));
    assert!(matches!(
        map_semantic(Semantic::Joints(3)),
        Err(Error::UnsupportedSemantic(Semantic::Joints(3)))
    ));
    assert!(matches!(
        map_semantic(Semantic::Weights(0)),
        Err(Error::UnsupportedSemantic(Semantic::Weights(0)))
    ));
}
