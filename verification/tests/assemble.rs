use elikar_scene::assemble::{assemble_separate, check_regions, AttributeSource};
use elikar_scene::asset::{Accessor, BufferView, Mode, Primitive, Semantic};
use elikar_scene::error::{Error, Feature};
use elikar_scene::format::{DataType, Dimensions, VertexFormat};
use elikar_scene::layout::{classify_layout, BufferLayout};
use elikar_scene::loader::{describe, load_primitive, resolve_attributes};
use elikar_scene::mesh::{Assembly, Attribute, Indices};

fn view(buffer: usize, offset: usize, length: usize, stride: Option<usize>) -> BufferView {
    BufferView { buffer, offset, length, stride }
}

fn accessor(
    data_type: DataType,
    dimensions: Dimensions,
    count: usize,
    view: Option<BufferView>,
) -> Accessor {
    Accessor { data_type, dimensions, count, view }
}

fn primitive(attributes: Vec<(Semantic, Accessor)>) -> Primitive {
    Primitive { mode: Mode::Triangles, indices: None, attributes }
}

/// Positions in the first buffer, texture coordinates in the second, both
/// after some bytes that belong to neither.
fn position_uv_buffers(count: usize) -> Vec<Vec<u8>> {
    let mut positions = vec![0xEEu8; 4];
    for i in 0..count * 12 {
        positions.push((i % 251) as u8);
    }
    let mut coordinates = vec![0xDDu8; 8];
    for i in 0..count * 8 {
        coordinates.push(100 + (i % 97) as u8);
    }
    vec![positions, coordinates]
}

fn position_uv_sources(count: usize) -> Vec<AttributeSource> {
    vec![
        AttributeSource {
            kind: Attribute::Positions,
            format: VertexFormat::Float32x3,
            view: view(0, 4, count * 12, None),
        },
        AttributeSource {
            kind: Attribute::TexCoords(0),
            format: VertexFormat::Float32x2,
            view: view(1, 8, count * 8, None),
        },
    ]
}

#[test]
fn packed_vertices_read_back_as_the_arrays() {
    for count in [0usize, 1, 2, 5, 33] {
        let buffers = position_uv_buffers(count);
        let data = assemble_separate(&position_uv_sources(count), &buffers, count).unwrap();
        assert_eq!(data.len(), count * (12 + 8));
        for vertex in 0..count {
            for k in 0..12 {
                assert_eq!(data[vertex * 20 + k], buffers[0][4 + vertex * 12 + k]);
            }
            for k in 0..8 {
                assert_eq!(data[vertex * 20 + 12 + k], buffers[1][8 + vertex * 8 + k]);
            }
        }
    }
}

#[test]
fn packs_vertex_by_vertex() {
    let buffers = vec![vec![1u8, 2, 3, 4, 5, 6, 7, 8, 10, 11, 20, 21, 30, 31, 40, 41]];
    let sources = vec![
        AttributeSource {
            kind: Attribute::Color(0),
            format: VertexFormat::Unorm8x4,
            view: view(0, 0, 8, None),
        },
        AttributeSource {
            kind: Attribute::TexCoords(1),
            format: VertexFormat::Uint8x2,
            view: view(0, 10, 4, None),
        },
    ];
    let data = assemble_separate(&sources, &buffers, 2).unwrap();
    assert_eq!(data, vec![1, 2, 3, 4, 20, 21, 5, 6, 7, 8, 30, 31]);
}

#[test]
fn packs_nothing_without_attributes() {
    let buffers: Vec<Vec<u8>> = Vec::new();
    assert_eq!(assemble_separate(&Vec::new(), &buffers, 7).unwrap(), Vec::<u8>::new());
}

#[test]
fn rejects_arrays_that_are_too_short() {
    let buffers = position_uv_buffers(3);
    let mut sources = position_uv_sources(3);
    sources[1].view.length = 23;
    assert!(!check_regions(&sources, &buffers, 3));
    assert!(matches!(
        assemble_separate(&sources, &buffers, 3),
        Err(Error::CorruptBufferView)
    ));
    assert!(check_regions(&sources, &buffers, 2));
    assert_eq!(assemble_separate(&sources, &buffers, 2).unwrap().len(), 40);
}

#[test]
fn rejects_arrays_outside_their_buffer() {
    let buffers = position_uv_buffers(3);
    let mut sources = position_uv_sources(3);
    sources[0].view.offset = 5;
    assert!(matches!(
        assemble_separate(&sources, &buffers, 3),
        Err(Error::CorruptBufferView)
    ));
    let mut sources = position_uv_sources(3);
    sources[0].view.buffer = 2;
    assert!(matches!(
        assemble_separate(&sources, &buffers, 3),
        Err(Error::CorruptBufferView)
    ));
    let sources = position_uv_sources(3);
    assert!(matches!(
        assemble_separate(&sources, &buffers, usize::MAX),
        Err(Error::CorruptBufferView)
    ));
}

#[test]
fn classifies_separate_arrays() {
    let p = primitive(vec![
        (
            Semantic::Positions,
            accessor(DataType::F32, Dimensions::Vec3, 1, Some(view(0, 0, 12, None))),
        ),
        (
            Semantic::Normals,
            accessor(DataType::F32, Dimensions::Vec3, 1, Some(view(0, 12, 12, None))),
        ),
    ]);
    assert!(matches!(classify_layout(&p), Ok(BufferLayout::Separate)));
    assert!(matches!(classify_layout(&primitive(Vec::new())), Ok(BufferLayout::Separate)));
}

#[test]
fn classifies_interleaved_memory() {
    let p = primitive(vec![
        (
            Semantic::Positions,
            accessor(DataType::F32, Dimensions::Vec3, 1, Some(view(0, 0, 24, Some(24)))),
        ),
        (
            Semantic::Normals,
            accessor(DataType::F32, Dimensions::Vec3, 1, Some(view(0, 0, 24, Some(24)))),
        ),
    ]);
    assert!(matches!(classify_layout(&p), Ok(BufferLayout::Interleaved)));
}

#[test]
fn rejects_mixed_layouts() {
    let strided = accessor(DataType::F32, Dimensions::Vec3, 1, Some(view(0, 0, 12, Some(12))));
    let plain = accessor(DataType::F32, Dimensions::Vec3, 1, Some(view(0, 0, 12, None)));
    let first_strided = primitive(vec![(Semantic::Positions, strided), (Semantic::Normals, plain)]);
    assert!(matches!(
        classify_layout(&first_strided),
        Err(Error::UnsupportedBufferLayout)
    ));
    let last_strided = primitive(vec![
        (Semantic::Positions, plain),
        (Semantic::Normals, plain),
        (Semantic::Tangents, strided),
    ]);
    assert!(matches!(
        classify_layout(&last_strided),
        Err(Error::UnsupportedBufferLayout)
    ));
    let buffers = vec![vec![0u8; 64]];
    assert!(matches!(
        load_primitive(&first_strided, &buffers),
        Err(Error::UnsupportedBufferLayout)
    ));
    assert!(matches!(
        load_primitive(&last_strided, &buffers),
        Err(Error::UnsupportedBufferLayout)
    ));
}

#[test]
fn classifier_rejects_sparse_attributes() {
    let sparse = accessor(DataType::F32, Dimensions::Vec3, 1, None);
    let strided = accessor(DataType::F32, Dimensions::Vec3, 1, Some(view(0, 0, 12, Some(12))));
    let plain = accessor(DataType::F32, Dimensions::Vec3, 1, Some(view(0, 0, 12, None)));
    let p = primitive(vec![
        (Semantic::Positions, strided),
        (Semantic::Normals, plain),
        (Semantic::Tangents, sparse),
    ]);
    assert!(matches!(classify_layout(&p), Err(Error::UnsupportedSparseStorage)));
}

#[test]
fn resolves_attributes_in_order() {
    let p = primitive(vec![
        (
            Semantic::TexCoords(1),
            accessor(DataType::U16, Dimensions::Vec2, 4, Some(view(3, 8, 16, None))),
        ),
        (
            Semantic::Colors(0),
            accessor(DataType::U8, Dimensions::Vec4, 4, Some(view(0, 0, 16, None))),
        ),
    ]);
    let sources = resolve_attributes(&p).unwrap();
    assert_eq!(
        sources,
        vec![
            AttributeSource {
                kind: Attribute::TexCoords(1),
                format: VertexFormat::Uint16x2,
                view: view(3, 8, 16, None),
            },
            AttributeSource {
                kind: Attribute::Color(0),
                format: VertexFormat::Uint8x4,
                view: view(0, 0, 16, None),
            },
        ]
    );
    assert_eq!(
        describe(&sources),
        vec![
            (Attribute::TexCoords(1), VertexFormat::Uint16x2),
            (Attribute::Color(0), VertexFormat::Uint8x4),
        ]
    );
}

#[test]
fn first_attribute_at_fault_decides() {
    let good = accessor(DataType::F32, Dimensions::Vec3, 1, Some(view(0, 0, 12, None)));
    let unmapped = accessor(DataType::U8, Dimensions::Vec3, 1, Some(view(0, 0, 3, None)));
    let sparse = accessor(DataType::F32, Dimensions::Vec3, 1, None);

    let joints_first = primitive(vec![(Semantic::Joints(0), unmapped), (Semantic::Normals, sparse)]);
    assert!(matches!(
        resolve_attributes(&joints_first),
        Err(Error::UnsupportedSemantic(Semantic::Joints(0)))
    ));
    let format_first = primitive(vec![
        (Semantic::Positions, good),
        (Semantic::Normals, unmapped),
        (Semantic::Weights(0), good),
    ]);
    assert!(matches!(
        resolve_attributes(&format_first),
        Err(Error::UnsupportedDataTypeOrDimensions)
    ));
    let sparse_first = primitive(vec![(Semantic::Positions, sparse), (Semantic::Weights(2), good)]);
    assert!(matches!(
        resolve_attributes(&sparse_first),
        Err(Error::UnsupportedSparseStorage)
    ));
    let sparse_and_unmapped = primitive(vec![(
        Semantic::Positions,
        accessor(DataType::I16, Dimensions::Mat2, 1, None),
    )]);
    assert!(matches!(
        resolve_attributes(&sparse_and_unmapped),
        Err(Error::UnsupportedDataTypeOrDimensions)
    ));
}

#[test]
fn loads_a_triangle() {
    let mut bytes = Vec::new();
    for i in 0..36u8 {
        bytes.push(i);
    }
    let buffers = vec![bytes.clone()];
    let p = primitive(vec![(
        Semantic::Positions,
        accessor(DataType::F32, Dimensions::Vec3, 3, Some(view(0, 0, 36, None))),
    )]);
    let mut resource = load_primitive(&p, &buffers).unwrap();
    assert_eq!(resource.assembly(), Assembly::Triangles);
    assert!(resource.has());
    let (indices, vertices) = resource.fetch().unwrap();
    assert!(indices.is_none());
    assert_eq!(vertices.count(), 3);
    assert_eq!(vertices.data().len(), 36);
    assert_eq!(vertices.data(), bytes.as_slice());
    assert_eq!(
        vertices.attributes(),
        [(Attribute::Positions, VertexFormat::Float32x3)].as_slice()
    );
}

#[test]
fn loads_an_indexed_line_strip() {
    let mut bytes = vec![0u8; 48];
    for (i, byte) in bytes.iter_mut().enumerate() {
        *byte = i as u8;
    }
    bytes.extend_from_slice(&[0, 0, 1, 0, 2, 0, 0, 0]);
    let buffers = vec![bytes];
    let p = Primitive {
        mode: Mode::LineStrip,
        indices: Some(accessor(
            DataType::U16,
            Dimensions::Scalar,
            4,
            Some(view(0, 48, 8, None)),
        )),
        attributes: vec![
            (
                Semantic::Positions,
                accessor(DataType::F32, Dimensions::Vec3, 2, Some(view(0, 0, 24, None))),
            ),
            (
                Semantic::TexCoords(0),
                accessor(DataType::F32, Dimensions::Vec2, 2, Some(view(0, 24, 16, None))),
            ),
        ],
    };
    let mut resource = load_primitive(&p, &buffers).unwrap();
    assert_eq!(resource.assembly(), Assembly::LineStrip);
    let (indices, vertices) = resource.fetch().unwrap();
    assert!(matches!(indices, Some(Indices::U16(ref v)) if v == &vec![0, 1, 2, 0]));
    assert_eq!(vertices.count(), 2);
    assert_eq!(vertices.data().len(), 40);
    let expected: Vec<u8> = (0u8..12).chain(24..32).chain(12..24).chain(32..40).collect();
    assert_eq!(vertices.data(), expected.as_slice());
}

#[test]
fn vertex_count_is_that_of_the_last_attribute() {
    let buffers = vec![vec![7u8; 64]];
    let p = primitive(vec![
        (
            Semantic::Positions,
            accessor(DataType::F32, Dimensions::Vec3, 5, Some(view(0, 0, 36, None))),
        ),
        (
            Semantic::Normals,
            accessor(DataType::F32, Dimensions::Vec3, 2, Some(view(0, 36, 24, None))),
        ),
    ]);
    let mut resource = load_primitive(&p, &buffers).unwrap();
    let (_, vertices) = resource.fetch().unwrap();
    assert_eq!(vertices.count(), 2);
    assert_eq!(vertices.data().len(), 48);
}

#[test]
fn primitive_errors_come_in_order() {
    let buffers = vec![vec![0u8; 64]];
    let good = accessor(DataType::F32, Dimensions::Vec3, 2, Some(view(0, 0, 24, None)));
    let strided = accessor(DataType::F32, Dimensions::Vec3, 2, Some(view(0, 0, 24, Some(12))));
    let too_short = accessor(DataType::F32, Dimensions::Vec3, 2, Some(view(0, 0, 23, None)));
    let bad_indices = accessor(DataType::F32, Dimensions::Scalar, 1, Some(view(0, 0, 4, None)));

    let indices_before_attributes = Primitive {
        mode: Mode::Points,
        indices: Some(bad_indices),
        attributes: vec![(Semantic::Joints(0), good)],
    };
    assert!(matches!(
        load_primitive(&indices_before_attributes, &buffers),
        Err(Error::UnsupportedIndicesFormat)
    ));
    let attributes_before_layout = primitive(vec![
        (Semantic::Positions, strided),
        (Semantic::Normals, good),
        (Semantic::Joints(1), good),
    ]);
    assert!(matches!(
        load_primitive(&attributes_before_layout, &buffers),
        Err(Error::UnsupportedSemantic(Semantic::Joints(1)))
    ));
    let interleaved = primitive(vec![(Semantic::Positions, strided), (Semantic::Normals, strided)]);
    assert!(matches!(
        load_primitive(&interleaved, &buffers),
        Err(Error::Unimplemented(Feature::InterleavedLayout))
    ));
    let short = primitive(vec![(Semantic::Positions, too_short)]);
    assert!(matches!(load_primitive(&short, &buffers), Err(Error::CorruptBufferView)));
}
