//! The vertex buffers of a frame, layer by layer.
use vstd::prelude::*;

verus! {

/// How much of a vertex buffer is filled.
#[derive(Debug, Clone, Copy, PartialEq, Eq, Structural)]
pub struct VertexIndexCount {
    pub vertex_count: usize,
    pub index_count: usize,
}

/// A layer has three vertex buffers: backgrounds, text, and the cursor and other
/// sprites above the text.
#[derive(Debug, Clone, Copy)]
pub struct RenderLayer {
    pub vb: [VertexIndexCount; 3],
}

/// One vertex buffer of one layer.
#[derive(Debug, Clone, Copy, PartialEq, Eq, Structural)]
pub struct Slot {
    pub layer: usize,
    pub idx: usize,
}

pub open spec fn slot_at(layer: int, idx: int) -> Slot {
    Slot { layer: layer as usize, idx: idx as usize }
}

/// Whether there is anything to draw in buffer `idx` of layer `layer`.
pub open spec fn has_vertices(layers: Seq<RenderLayer>, layer: int, idx: int) -> bool {
    layers[layer].vb[idx].vertex_count > 0
}

/// Of the buffers from `first` up to `end` of each layer, drawn layer by layer, one
/// that comes before buffer `idx` of layer `layer` has something to draw.
pub open spec fn drawn_before(
    layers: Seq<RenderLayer>,
    first: int,
    end: int,
    layer: int,
    idx: int,
) -> bool {
    exists|l: int, i: int|
        {
            &&& 0 <= l
            &&& first <= i < end
            &&& l < layer || l == layer && i < idx
            &&& #[trigger] has_vertices(layers, l, i)
        }
}

/// What was drawn before a buffer and the buffer itself is what was drawn before the
/// next buffer of the layer.
pub(crate) proof fn lemma_drawn_before_next_buffer(
    layers: Seq<RenderLayer>,
    first: int,
    end: int,
    layer: int,
    idx: int,
)
    requires
        0 <= layer,
        first <= idx < end,
    ensures
        drawn_before(layers, first, end, layer, idx + 1) == (drawn_before(
            layers,
            first,
            end,
            layer,
            idx,
        ) || has_vertices(layers, layer, idx)),
{
    if has_vertices(layers, layer, idx) {
        assert(drawn_before(layers, first, end, layer, idx + 1));
    }
}

/// What was drawn up to the end of a layer is what was drawn before the next layer.
pub(crate) proof fn lemma_drawn_before_next_layer(
    layers: Seq<RenderLayer>,
    first: int,
    end: int,
    layer: int,
)
    requires
        0 <= layer,
    ensures
        drawn_before(layers, first, end, layer, end) == drawn_before(
            layers,
            first,
            end,
            layer + 1,
            first,
        ),
{
}

} // verus!
