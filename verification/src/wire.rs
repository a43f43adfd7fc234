//! The byte layout that the renderer reads.
//!
//! Every number is four bytes, least significant byte first. A vertex is 28
//! bytes: the position in pixels at offset 0 and the texture coordinate in
//! texels at offset 8, two single-precision numbers each, and the colour at
//! offset 16, three single-precision numbers between zero and one. The
//! constants are the screen size in pixels, two single-precision numbers.
//! An index is one 32-bit unsigned integer.

use vstd::prelude::*;
use crate::binary32::{
    bits_of_channel, bits_of_int, channel_bits, int_bits, uint_bits,
};
use crate::draw::Vertex;
use crate::geometry::Extent;

verus! {

/// Bytes of one vertex.
pub const VERTEX_STRIDE: usize = 28;

/// Bytes of the constants.
pub const CONSTS_SIZE: usize = 8;

/// What the shaders need besides the geometry: the size of the screen in
/// pixels, width first.
#[derive(Clone, Copy, Debug, PartialEq, Eq, Structural)]
pub struct Consts {
    pub screen_size: Extent,
}

/// The four bytes of a 32-bit word, least significant byte first.
pub open spec fn le_bytes(word: u32) -> Seq<u8> {
    seq![
        (word % 0x100) as u8,
        (word / 0x100 % 0x100) as u8,
        (word / 0x1_0000 % 0x100) as u8,
        (word / 0x100_0000) as u8,
    ]
}

/// The word that four bytes stand for, least significant byte first.
pub open spec fn word_of(bytes: Seq<u8>) -> int {
    bytes[0] + 0x100 * bytes[1] + 0x1_0000 * bytes[2] + 0x100_0000 * bytes[3]
}

/// Appends the four bytes of a word.
pub fn put_word(out: &mut Vec<u8>, word: u32)
    ensures
        final(out)@ == old(out)@ + le_bytes(word),
{
    out.push((word % 0x100) as u8);
    out.push((word / 0x100 % 0x100) as u8);
    out.push((word / 0x1_0000 % 0x100) as u8);
    out.push((word / 0x100_0000) as u8);
    assert(out@ =~= old(out)@ + le_bytes(word));
}

/// A value with a fixed byte layout.
pub trait Wire {
    /// The bytes of the value.
    spec fn wire(&self) -> Seq<u8>;

    /// Appends the bytes of the value.
    fn put(&self, out: &mut Vec<u8>)
        ensures
            final(out)@ == old(out)@ + self.wire(),
    ;
}

impl Wire for u8 {
    open spec fn wire(&self) -> Seq<u8> {
        seq![*self]
    }

    fn put(&self, out: &mut Vec<u8>) {
        out.push(*self);
        assert(out@ =~= old(out)@ + self.wire());
    }
}

impl Wire for u32 {
    open spec fn wire(&self) -> Seq<u8> {
        le_bytes(*self)
    }

    fn put(&self, out: &mut Vec<u8>) {
        put_word(out, *self);
    }
}

impl Wire for Vertex {
    open spec fn wire(&self) -> Seq<u8> {
        le_bytes(bits_of_int(self.pos.x as int)) + le_bytes(bits_of_int(self.pos.y as int))
            + le_bytes(bits_of_int(self.uv.u as int)) + le_bytes(bits_of_int(self.uv.v as int))
            + le_bytes(bits_of_channel(self.color.r)) + le_bytes(bits_of_channel(self.color.g))
            + le_bytes(bits_of_channel(self.color.b))
    }

    fn put(&self, out: &mut Vec<u8>) {
        put_word(out, int_bits(self.pos.x));
        put_word(out, int_bits(self.pos.y));
        put_word(out, uint_bits(self.uv.u));
        put_word(out, uint_bits(self.uv.v));
        put_word(out, channel_bits(self.color.r));
        put_word(out, channel_bits(self.color.g));
        put_word(out, channel_bits(self.color.b));
        assert(out@ =~= old(out)@ + self.wire());
    }
}

impl Wire for Consts {
    open spec fn wire(&self) -> Seq<u8> {
        le_bytes(bits_of_int(self.screen_size.w as int)) + le_bytes(
            bits_of_int(self.screen_size.h as int),
        )
    }

    fn put(&self, out: &mut Vec<u8>) {
        put_word(out, uint_bits(self.screen_size.w));
        put_word(out, uint_bits(self.screen_size.h));
        assert(out@ =~= old(out)@ + self.wire());
    }
}

/// The bytes of the first `n` values, one after the other.
pub open spec fn wire_upto<T: Wire>(items: Seq<T>, n: int) -> Seq<u8>
    decreases n,
{
    if n <= 0 {
        Seq::empty()
    } else {
        wire_upto(items, n - 1) + items[n - 1].wire()
    }
}

/// The bytes of a sequence of values, one after the other.
pub open spec fn wire_all<T: Wire>(items: Seq<T>) -> Seq<u8> {
    wire_upto(items, items.len() as int)
}

/// The bytes of one value.
pub fn cast<T: Wire>(t: &T) -> (bytes: Vec<u8>)
    ensures
        bytes@ == t.wire(),
{
    let mut bytes: Vec<u8> = Vec::new();
    t.put(&mut bytes);
    assert(bytes@ =~= t.wire());
    bytes
}

/// The bytes of a slice of values, in the order of the slice.
pub fn cast_slice<T: Wire>(t: &[T]) -> (bytes: Vec<u8>)
    ensures
        bytes@ == wire_all(t@),
{
    let mut bytes: Vec<u8> = Vec::new();
    let mut i: usize = 0;
    while i < t.len()
        invariant
            i <= t@.len(),
            bytes@ == wire_upto(t@, i as int),
        decreases t@.len() - i,
    {
        t[i].put(&mut bytes);
        i = i + 1;
    }
    bytes
}

/// The bytes of a word stand for the word again.
pub proof fn law_word_round_trip(word: u32)
    ensures
        le_bytes(word).len() == 4,
        word_of(le_bytes(word)) == word,
{
}

/// A vertex takes 28 bytes: the position at offset 0, the texture
/// coordinate at offset 8 and the colour at offset 16.
pub proof fn law_vertex_layout(vertex: Vertex)
    ensures
        vertex.wire().len() == VERTEX_STRIDE,
        vertex.wire().subrange(0, 4) == le_bytes(bits_of_int(vertex.pos.x as int)),
        vertex.wire().subrange(4, 8) == le_bytes(bits_of_int(vertex.pos.y as int)),
        vertex.wire().subrange(8, 12) == le_bytes(bits_of_int(vertex.uv.u as int)),
        vertex.wire().subrange(12, 16) == le_bytes(bits_of_int(vertex.uv.v as int)),
        vertex.wire().subrange(16, 20) == le_bytes(bits_of_channel(vertex.color.r)),
        vertex.wire().subrange(20, 24) == le_bytes(bits_of_channel(vertex.color.g)),
        vertex.wire().subrange(24, 28) == le_bytes(bits_of_channel(vertex.color.b)),
{
    let w = vertex.wire();
    assert(w.subrange(0, 4) =~= le_bytes(bits_of_int(vertex.pos.x as int)));
    assert(w.subrange(4, 8) =~= le_bytes(bits_of_int(vertex.pos.y as int)));
    assert(w.subrange(8, 12) =~= le_bytes(bits_of_int(vertex.uv.u as int)));
    assert(w.subrange(12, 16) =~= le_bytes(bits_of_int(vertex.uv.v as int)));
    assert(w.subrange(16, 20) =~= le_bytes(bits_of_channel(vertex.color.r)));
    assert(w.subrange(20, 24) =~= le_bytes(bits_of_channel(vertex.color.g)));
    assert(w.subrange(24, 28) =~= le_bytes(bits_of_channel(vertex.color.b)));
}

/// The constants take eight bytes: the width of the screen at offset 0 and
/// its height at offset 4.
pub proof fn law_consts_layout(consts: Consts)
    ensures
        consts.wire().len() == CONSTS_SIZE,
        consts.wire().subrange(0, 4) == le_bytes(bits_of_int(consts.screen_size.w as int)),
        consts.wire().subrange(4, 8) == le_bytes(bits_of_int(consts.screen_size.h as int)),
{
    let c = consts.wire();
    assert(c.subrange(0, 4) =~= le_bytes(bits_of_int(consts.screen_size.w as int)));
    assert(c.subrange(4, 8) =~= le_bytes(bits_of_int(consts.screen_size.h as int)));
}

/// In the bytes of a vertex buffer, the vertex at index `i` takes the 28
/// bytes from offset `28 * i` on.
pub proof fn law_vertex_stride(vertices: Seq<Vertex>, i: int)
    requires
        0 <= i < vertices.len(),
    ensures
        wire_all(vertices).len() == VERTEX_STRIDE * vertices.len(),
        wire_all(vertices).subrange(VERTEX_STRIDE * i, VERTEX_STRIDE * i + VERTEX_STRIDE)
            == vertices[i].wire(),
{
    lemma_stride_upto(vertices, vertices.len() as int, i);
}

/// The same of the first `n` vertices.
proof fn lemma_stride_upto(vertices: Seq<Vertex>, n: int, i: int)
    requires
        0 <= i < n <= vertices.len(),
    ensures
        wire_upto(vertices, n).len() == VERTEX_STRIDE * n,
        wire_upto(vertices, n).subrange(VERTEX_STRIDE * i, VERTEX_STRIDE * i + VERTEX_STRIDE)
            == vertices[i].wire(),
    decreases n,
{
    law_vertex_layout(vertices[n - 1]);
    let all = wire_upto(vertices, n);
    let front = wire_upto(vertices, n - 1);
    if i < n - 1 {
        lemma_stride_upto(vertices, n - 1, i);
        assert(all.subrange(VERTEX_STRIDE * i, VERTEX_STRIDE * i + VERTEX_STRIDE)
            =~= front.subrange(VERTEX_STRIDE * i, VERTEX_STRIDE * i + VERTEX_STRIDE));
    } else {
        if n > 1 {
            lemma_stride_upto(vertices, n - 1, 0);
        }
        assert(all.subrange(VERTEX_STRIDE * i, VERTEX_STRIDE * i + VERTEX_STRIDE)
            =~= vertices[i].wire());
    }
}

/// In the bytes of an index buffer, the index at position `i` takes the four
/// bytes from offset `4 * i` on.
pub proof fn law_index_stride(indices: Seq<u32>, i: int)
    requires
        0 <= i < indices.len(),
    ensures
        wire_all(indices).len() == 4 * indices.len(),
        wire_all(indices).subrange(4 * i, 4 * i + 4) == le_bytes(indices[i]),
{
    lemma_index_upto(indices, indices.len() as int, i);
}

/// The same of the first `n` indices.
proof fn lemma_index_upto(indices: Seq<u32>, n: int, i: int)
    requires
        0 <= i < n <= indices.len(),
    ensures
        wire_upto(indices, n).len() == 4 * n,
        wire_upto(indices, n).subrange(4 * i, 4 * i + 4) == le_bytes(indices[i]),
    decreases n,
{
    let all = wire_upto(indices, n);
    let front = wire_upto(indices, n - 1);
    if i < n - 1 {
        lemma_index_upto(indices, n - 1, i);
        assert(all.subrange(4 * i, 4 * i + 4) =~= front.subrange(4 * i, 4 * i + 4));
    } else {
        if n > 1 {
            lemma_index_upto(indices, n - 1, 0);
        }
        assert(all.subrange(4 * i, 4 * i + 4) =~= le_bytes(indices[i]));
    }
}

} // verus!
