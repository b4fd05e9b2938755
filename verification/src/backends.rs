//! What the two ways to draw a frame have in common.
use crate::layers::{drawn_before, has_vertices, slot_at, RenderLayer, Slot};
use crate::opengl::{buffer_steps, frame_steps, steps_before, GliumStep};
use crate::webgpu::{
    buffer_commands, content_commands, frame_commands, post_process_commands, single_pass,
    GpuCommand, Texture,
};
use vstd::prelude::*;

verus! {

/// What is done with a vertex buffer.
pub enum Use {
    Draw(Slot),
    NextIndex(Slot),
}

/// What WebGPU commands do with the vertex buffers, in order.
pub open spec fn webgpu_uses(commands: Seq<GpuCommand>) -> Seq<Use>
    decreases commands.len(),
{
    if commands.len() == 0 {
        seq![]
    } else {
        let earlier = webgpu_uses(commands.drop_last());
        match commands.last() {
            GpuCommand::DrawBuffer { slot, .. } => earlier.push(Use::Draw(slot)),
            GpuCommand::NextIndex { slot } => earlier.push(Use::NextIndex(slot)),
            _ => earlier,
        }
    }
}

/// What OpenGL steps do with the vertex buffers, in order.
pub open spec fn opengl_uses(steps: Seq<GliumStep>) -> Seq<Use>
    decreases steps.len(),
{
    if steps.len() == 0 {
        seq![]
    } else {
        let earlier = opengl_uses(steps.drop_last());
        match steps.last() {
            GliumStep::DrawBuffer { slot, .. } => earlier.push(Use::Draw(slot)),
            GliumStep::NextIndex { slot } => earlier.push(Use::NextIndex(slot)),
            GliumStep::ClearColor => earlier,
        }
    }
}

proof fn lemma_webgpu_concat(first: Seq<GpuCommand>, second: Seq<GpuCommand>)
    ensures
        webgpu_uses(first + second) == webgpu_uses(first) + webgpu_uses(second),
    decreases second.len(),
{
    if second.len() == 0 {
        assert(first + second == first);
        assert(webgpu_uses(second) == Seq::<Use>::empty());
    } else {
        assert((first + second).drop_last() == first + second.drop_last());
        lemma_webgpu_concat(first, second.drop_last());
    }
}

proof fn lemma_opengl_concat(first: Seq<GliumStep>, second: Seq<GliumStep>)
    ensures
        opengl_uses(first + second) == opengl_uses(first) + opengl_uses(second),
    decreases second.len(),
{
    if second.len() == 0 {
        assert(first + second == first);
        assert(opengl_uses(second) == Seq::<Use>::empty());
    } else {
        assert((first + second).drop_last() == first + second.drop_last());
        lemma_opengl_concat(first, second.drop_last());
    }
}

/// What both do with one vertex buffer.
pub open spec fn buffer_uses(layers: Seq<RenderLayer>, layer: int, idx: int) -> Seq<Use> {
    let slot = slot_at(layer, idx);
    if has_vertices(layers, layer, idx) {
        seq![Use::Draw(slot), Use::NextIndex(slot)]
    } else {
        seq![Use::NextIndex(slot)]
    }
}

proof fn lemma_webgpu_buffer(
    layers: Seq<RenderLayer>,
    layer: int,
    idx: int,
    target: Texture,
    cleared: bool,
)
    ensures
        webgpu_uses(buffer_commands(layers, layer, idx, target, cleared))
            == buffer_uses(layers, layer, idx),
{
    let commands = buffer_commands(layers, layer, idx, target, cleared);
    reveal_with_fuel(webgpu_uses, 3);
    if has_vertices(layers, layer, idx) {
        assert(commands.drop_last().drop_last() == Seq::<GpuCommand>::empty());
    } else {
        assert(commands.drop_last() == Seq::<GpuCommand>::empty());
    }
    assert(webgpu_uses(commands) =~= buffer_uses(layers, layer, idx));
}

proof fn lemma_opengl_buffer(layers: Seq<RenderLayer>, layer: int, idx: int, subpixel: bool)
    ensures
        opengl_uses(buffer_steps(layers, layer, idx, subpixel)) == buffer_uses(
            layers,
            layer,
            idx,
        ),
{
    let steps = buffer_steps(layers, layer, idx, subpixel);
    reveal_with_fuel(opengl_uses, 3);
    if has_vertices(layers, layer, idx) {
        assert(steps.drop_last().drop_last() == Seq::<GliumStep>::empty());
    } else {
        assert(steps.drop_last() == Seq::<GliumStep>::empty());
    }
    assert(opengl_uses(steps) =~= buffer_uses(layers, layer, idx));
}

/// What both do with the first `n` layers.
proof fn lemma_layers_alike(layers: Seq<RenderLayer>, n: nat, target: Texture, subpixel: bool)
    ensures
        webgpu_uses(single_pass(layers, n, target)) == opengl_uses(
            steps_before(layers, n as int, 0, subpixel),
        ),
    decreases n,
{
    if n == 0 {
        assert(webgpu_uses(single_pass(layers, n, target)) == Seq::<Use>::empty());
        assert(opengl_uses(steps_before(layers, 0, 0, subpixel)) == Seq::<
            Use,
        >::empty());
    } else {
        let l = n - 1;
        lemma_layers_alike(layers, l as nat, target, subpixel);

        let c0 = drawn_before(layers, 0, 3, l, 0);
        let c1 = drawn_before(layers, 0, 3, l, 1);
        let c2 = drawn_before(layers, 0, 3, l, 2);
        let first = buffer_commands(layers, l, 0, target, c0);
        let second = buffer_commands(layers, l, 1, target, c1);
        let third = buffer_commands(layers, l, 2, target, c2);
        lemma_webgpu_concat(
            single_pass(layers, l as nat, target),
            first + second + third,
        );
        lemma_webgpu_concat(first + second, third);
        lemma_webgpu_concat(first, second);
        lemma_webgpu_buffer(layers, l, 0, target, c0);
        lemma_webgpu_buffer(layers, l, 1, target, c1);
        lemma_webgpu_buffer(layers, l, 2, target, c2);

        let before = steps_before(layers, l, 0, subpixel);
        let after_first = steps_before(layers, l, 1, subpixel);
        let after_second = steps_before(layers, l, 2, subpixel);
        lemma_opengl_concat(before, buffer_steps(layers, l, 0, subpixel));
        lemma_opengl_concat(after_first, buffer_steps(layers, l, 1, subpixel));
        lemma_opengl_concat(after_second, buffer_steps(layers, l, 2, subpixel));
        lemma_opengl_buffer(layers, l, 0, subpixel);
        lemma_opengl_buffer(layers, l, 1, subpixel);
        lemma_opengl_buffer(layers, l, 2, subpixel);
        assert(steps_before(layers, n as int, 0, subpixel)
            == steps_before(layers, l, 3, subpixel));
        assert(steps_before(layers, l, 3, subpixel) == after_second
            + buffer_steps(layers, l, 2, subpixel));
        assert(after_second == after_first + buffer_steps(layers, l, 1, subpixel));
        assert(after_first == before + buffer_steps(layers, l, 0, subpixel));
    }
}

/// Without post-processing both backends draw the same vertex buffers, and move on
/// from the same ones, in the same order.
pub proof fn law_backends_use_buffers_alike(layers: Seq<RenderLayer>, subpixel: bool)
    ensures
        webgpu_uses(frame_commands(layers, None, None)) == opengl_uses(
            frame_steps(layers, subpixel),
        ),
{
    let content = content_commands(layers, None, None);
    let shaders = post_process_commands(None);
    let end = seq![GpuCommand::Submit, GpuCommand::Present];
    lemma_webgpu_concat(content + shaders, end);
    lemma_webgpu_concat(content, shaders);
    lemma_layers_alike(layers, layers.len(), Texture::Surface, subpixel);
    let clear = seq![GliumStep::ClearColor];
    lemma_opengl_concat(
        clear,
        steps_before(layers, layers.len() as int, 0, subpixel),
    );
    reveal_with_fuel(webgpu_uses, 3);
    reveal_with_fuel(opengl_uses, 2);
    assert(end.drop_last().drop_last() == Seq::<GpuCommand>::empty());
    assert(clear.drop_last() == Seq::<GliumStep>::empty());
    assert(webgpu_uses(end) == Seq::<Use>::empty());
    assert(webgpu_uses(shaders) == Seq::<Use>::empty());
    assert(opengl_uses(clear) == Seq::<Use>::empty());
}

} // verus!
