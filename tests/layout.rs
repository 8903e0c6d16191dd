use nuklear_backend_wgpu::layout::{
    format_size_of, layout_fits, vertex_layout, VertexAttribute, VertexFormat, VertexSemantic, VERTEX_STRIDE,
};

#[test]
fn standard_layout_offsets() {
    let layout = vertex_layout();
    let offsets: Vec<(VertexSemantic, u32)> = layout.iter().map(|a| (a.semantic, a.offset)).collect();
    assert_eq!(offsets, vec![(VertexSemantic::Position, 0), (VertexSemantic::TexCoord, 8), (VertexSemantic::Color, 16)]);
    assert_eq!(VERTEX_STRIDE, 20);
    assert!(layout_fits(&layout, VERTEX_STRIDE));
}

#[test]
fn format_sizes() {
    assert_eq!(format_size_of(VertexFormat::Float2), 8);
    assert_eq!(format_size_of(VertexFormat::B8G8R8A8), 4);
}

#[test]
fn layout_past_stride_does_not_fit() {
    assert!(!layout_fits(&vertex_layout(), 19));
}

#[test]
fn overlapping_attributes_do_not_fit() {
    let attrs = vec![
        VertexAttribute { semantic: VertexSemantic::Position, format: VertexFormat::Float2, offset: 0 },
        VertexAttribute { semantic: VertexSemantic::Color, format: VertexFormat::B8G8R8A8, offset: 4 },
    ];
    assert!(!layout_fits(&attrs, 20));
    assert!(layout_fits(&Vec::new(), 0));
}
