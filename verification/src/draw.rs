//! The draw list: the geometry that one frame hands to the renderer.

use vstd::prelude::*;
use crate::geometry::{Point, Texel};

verus! {

/// Most quads that one draw list holds. With this bound every vertex has a
/// 32-bit index and both buffers have a length that fits the address space.
pub const MAX_QUADS: usize = 0x1000_0000;

/// A colour with eight bits per channel, `255` standing for full intensity.
#[derive(Clone, Copy, Debug, PartialEq, Eq, Structural)]
pub struct Color {
    pub r: u8,
    pub g: u8,
    pub b: u8,
}

/// One corner of a triangle: where it lies in the window, which texel of the
/// atlas it samples, and its colour.
#[derive(Clone, Copy, Debug, PartialEq, Eq, Structural)]
pub struct Vertex {
    pub pos: Point,
    pub uv: Texel,
    pub color: Color,
}

/// An axis-aligned textured rectangle of one colour, given by two opposite
/// corners in the window and the matching corners in the atlas.
#[derive(Clone, Copy, Debug, PartialEq, Eq, Structural)]
pub struct Quad {
    pub min: Point,
    pub max: Point,
    pub uv_min: Texel,
    pub uv_max: Texel,
    pub color: Color,
}

/// The vertex and index buffers of one frame. The order of the vertices is
/// the order in which they are drawn; the indices come in triples, one per
/// triangle.
#[derive(Debug)]
pub struct DrawList {
    pub vtx_buf: Vec<Vertex>,
    pub idx_buf: Vec<u32>,
}

/// The mathematical content of a draw list.
#[verifier::ext_equal]
pub struct DrawListView {
    pub vertices: Seq<Vertex>,
    pub indices: Seq<u32>,
}

impl Quad {
    /// The four corners, clockwise from the top-left one.
    pub open spec fn vertices(self) -> Seq<Vertex> {
        seq![
            Vertex { pos: self.min, uv: self.uv_min, color: self.color },
            Vertex {
                pos: Point { x: self.max.x, y: self.min.y },
                uv: Texel { u: self.uv_max.u, v: self.uv_min.v },
                color: self.color,
            },
            Vertex { pos: self.max, uv: self.uv_max, color: self.color },
            Vertex {
                pos: Point { x: self.min.x, y: self.max.y },
                uv: Texel { u: self.uv_min.u, v: self.uv_max.v },
                color: self.color,
            },
        ]
    }

    /// The two triangles of a quad whose first corner has index `base`.
    pub open spec fn indices(base: int) -> Seq<u32> {
        seq![
            base as u32,
            (base + 1) as u32,
            (base + 2) as u32,
            base as u32,
            (base + 2) as u32,
            (base + 3) as u32,
        ]
    }
}

impl DrawListView {
    /// The list without geometry.
    pub open spec fn empty() -> DrawListView {
        DrawListView { vertices: Seq::empty(), indices: Seq::empty() }
    }

    /// The number of quads in a well-formed list.
    pub open spec fn quads(self) -> int {
        self.vertices.len() as int / 4
    }

    /// A list is well formed when it is a sequence of whole quads: four
    /// vertices and six indices each, every triangle of a quad made of that
    /// quad's own corners, and no more quads than the list can hold.
    pub open spec fn wf(self) -> bool {
        &&& self.vertices.len() % 4 == 0
        &&& self.quads() <= MAX_QUADS
        &&& self.indices.len() == 6 * self.quads()
        &&& forall|q: int|
            0 <= q < self.quads() ==> #[trigger] self.indices.subrange(6 * q, 6 * q + 6)
                == Quad::indices(4 * q)
    }

    /// Whether one more quad fits.
    pub open spec fn has_room(self) -> bool {
        self.quads() < MAX_QUADS
    }

    /// The list after one more quad, which is dropped when the list is full.
    pub open spec fn with_quad(self, quad: Quad) -> DrawListView {
        if self.has_room() {
            DrawListView {
                vertices: self.vertices + quad.vertices(),
                indices: self.indices + Quad::indices(self.vertices.len() as int),
            }
        } else {
            self
        }
    }
}

/// Adding a quad keeps a list well formed.
pub proof fn lemma_with_quad_wf(list: DrawListView, quad: Quad)
    requires
        list.wf(),
    ensures
        list.with_quad(quad).wf(),
        list.with_quad(quad).quads() == if list.has_room() {
            list.quads() + 1
        } else {
            list.quads()
        },
{
    if list.has_room() {
        let next = list.with_quad(quad);
        let n = list.quads();
        assert(next.vertices.len() == list.vertices.len() + 4);
        assert(next.quads() == n + 1);
        assert forall|q: int| 0 <= q < next.quads() implies #[trigger] next.indices.subrange(
            6 * q,
            6 * q + 6,
        ) == Quad::indices(4 * q) by {
            if q < n {
                assert(list.indices.subrange(6 * q, 6 * q + 6) == Quad::indices(4 * q));
                assert(next.indices.subrange(6 * q, 6 * q + 6) =~= list.indices.subrange(
                    6 * q,
                    6 * q + 6,
                ));
            } else {
                assert(next.indices.subrange(6 * q, 6 * q + 6) =~= Quad::indices(4 * n));
            }
        }
    }
}

/// Every index of a well-formed list names one of its vertices.
pub proof fn law_indices_name_vertices(list: DrawListView, i: int)
    requires
        list.wf(),
        0 <= i < list.indices.len(),
    ensures
        list.indices[i] < list.vertices.len(),
{
    let q = i / 6;
    let k = i % 6;
    assert(0 <= q < list.quads());
    let chunk = list.indices.subrange(6 * q, 6 * q + 6);
    assert(chunk == Quad::indices(4 * q));
    assert(chunk[k] == list.indices[i]);
    assert(4 * q + 3 < list.vertices.len());
    assert(4 * q + 3 <= u32::MAX);
}

impl View for DrawList {
    type V = DrawListView;

    open spec fn view(&self) -> DrawListView {
        DrawListView { vertices: self.vtx_buf@, indices: self.idx_buf@ }
    }
}

impl DrawList {
    /// A list without geometry.
    pub fn new() -> (list: DrawList)
        ensures
            list@ == DrawListView::empty(),
            list@.wf(),
    {
        let list = DrawList { vtx_buf: Vec::new(), idx_buf: Vec::new() };
        assert(list@.quads() == 0);
        list
    }

    /// Appends the two triangles of `quad`. A list that already holds
    /// `MAX_QUADS` quads stays as it is.
    pub fn push_quad(&mut self, quad: Quad)
        requires
            old(self)@.wf(),
        ensures
            final(self)@ == old(self)@.with_quad(quad),
            final(self)@.wf(),
    {
        proof {
            lemma_with_quad_wf(self@, quad);
        }
        let count: usize = self.vtx_buf.len();
        if count / 4 < MAX_QUADS {
            let base: u32 = count as u32;
            self.vtx_buf.push(Vertex { pos: quad.min, uv: quad.uv_min, color: quad.color });
            self.vtx_buf.push(
                Vertex {
                    pos: Point { x: quad.max.x, y: quad.min.y },
                    uv: Texel { u: quad.uv_max.u, v: quad.uv_min.v },
                    color: quad.color,
                },
            );
            self.vtx_buf.push(Vertex { pos: quad.max, uv: quad.uv_max, color: quad.color });
            self.vtx_buf.push(
                Vertex {
                    pos: Point { x: quad.min.x, y: quad.max.y },
                    uv: Texel { u: quad.uv_min.u, v: quad.uv_max.v },
                    color: quad.color,
                },
            );
            self.idx_buf.push(base);
            self.idx_buf.push(base + 1);
            self.idx_buf.push(base + 2);
            self.idx_buf.push(base);
            self.idx_buf.push(base + 2);
            self.idx_buf.push(base + 3);
            assert(self.vtx_buf@ =~= old(self).vtx_buf@ + quad.vertices());
            assert(self.idx_buf@ =~= old(self).idx_buf@ + Quad::indices(count as int));
        }
    }
}

} // verus!
