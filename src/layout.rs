//! The vertex layout the GUI toolkit writes its geometry in: position, texture
//! coordinate and packed color, each at a fixed byte offset within a vertex.

use vstd::prelude::*;

verus! {

/// What a vertex attribute holds.
#[derive(Clone, Copy, Debug, PartialEq, Eq, Structural)]
pub enum VertexSemantic {
    Position,
    TexCoord,
    Color,
}

/// How a vertex attribute is stored.
#[derive(Clone, Copy, Debug, PartialEq, Eq, Structural)]
pub enum VertexFormat {
    /// Two 32-bit floats.
    Float2,
    /// Four bytes: blue, green, red, alpha.
    B8G8R8A8,
}

/// One attribute of the vertex layout and where it starts within a vertex.
#[derive(Clone, Copy, Debug, PartialEq, Eq, Structural)]
pub struct VertexAttribute {
    pub semantic: VertexSemantic,
    pub format: VertexFormat,
    pub offset: u32,
}

/// Bytes from one vertex to the next.
pub const VERTEX_STRIDE: u32 = 20;

/// Bytes an attribute of format `f` takes.
pub open spec fn format_size(f: VertexFormat) -> int {
    match f {
        VertexFormat::Float2 => 8,
        VertexFormat::B8G8R8A8 => 4,
    }
}

/// The layout this backend's vertices have.
pub open spec fn standard_layout() -> Seq<VertexAttribute> {
    seq![
        VertexAttribute { semantic: VertexSemantic::Position, format: VertexFormat::Float2, offset: 0 },
        VertexAttribute { semantic: VertexSemantic::TexCoord, format: VertexFormat::Float2, offset: 8 },
        VertexAttribute { semantic: VertexSemantic::Color, format: VertexFormat::B8G8R8A8, offset: 16 },
    ]
}

/// Byte just past attribute `a`.
pub open spec fn attribute_end(a: VertexAttribute) -> int {
    a.offset + format_size(a.format)
}

/// Attribute `i` of `attrs` ends at or before the offset of the one after it.
pub open spec fn ends_before_next(attrs: Seq<VertexAttribute>, i: int) -> bool {
    attribute_end(attrs[i]) <= attrs[i + 1].offset
}

/// Each attribute lies within a vertex of `stride` bytes and ends at or before
/// the offset of the attribute after it.
pub open spec fn layout_fits_spec(attrs: Seq<VertexAttribute>, stride: int) -> bool {
    &&& forall|i: int| 0 <= i < attrs.len() ==> #[trigger] attribute_end(attrs[i]) <= stride
    &&& forall|i: int| 0 <= i < attrs.len() - 1 ==> #[trigger] ends_before_next(attrs, i)
}

/// Bytes an attribute of format `f` takes.
pub fn format_size_of(f: VertexFormat) -> (r: u32)
    ensures
        r == format_size(f),
{
    match f {
        VertexFormat::Float2 => 8,
        VertexFormat::B8G8R8A8 => 4,
    }
}

/// The layout this backend's vertices have; it fits the vertex stride.
pub fn vertex_layout() -> (r: Vec<VertexAttribute>)
    ensures
        r@ == standard_layout(),
        layout_fits_spec(r@, VERTEX_STRIDE as int),
{
    let r = vec![
        VertexAttribute { semantic: VertexSemantic::Position, format: VertexFormat::Float2, offset: 0 },
        VertexAttribute { semantic: VertexSemantic::TexCoord, format: VertexFormat::Float2, offset: 8 },
        VertexAttribute { semantic: VertexSemantic::Color, format: VertexFormat::B8G8R8A8, offset: 16 },
    ];
    assert(r@ == standard_layout());
    assert(ends_before_next(r@, 0) && ends_before_next(r@, 1));
    r
}

/// Whether `attrs` lie in order, without overlap, within a vertex of `stride`
/// bytes.
pub fn layout_fits(attrs: &Vec<VertexAttribute>, stride: u32) -> (r: bool)
    ensures
        r == layout_fits_spec(attrs@, stride as int),
{
    let mut i: usize = 0;
    while i < attrs.len()
        invariant
            i <= attrs@.len(),
            forall|j: int| 0 <= j < i ==> #[trigger] attribute_end(attrs@[j]) <= stride,
            forall|j: int|
                0 <= j < i && j < attrs@.len() - 1 ==> #[trigger] ends_before_next(attrs@, j),
        decreases attrs@.len() - i,
    {
        let a = attrs[i];
        let end = a.offset as u64 + format_size_of(a.format) as u64;
        assert(end == attribute_end(attrs@[i as int]));
        if end > stride as u64 {
            return false;
        }
        if i + 1 < attrs.len() && end > attrs[i + 1].offset as u64 {
            assert(!ends_before_next(attrs@, i as int));
            return false;
        }
        i = i + 1;
    }
    true
}

} // verus!
