//! The commands that draw a frame with WebGPU.
use crate::layers::{
    drawn_before, has_vertices, lemma_drawn_before_next_buffer, lemma_drawn_before_next_layer,
    slot_at, RenderLayer, Slot,
};
use crate::ping_pong::{ping_pong_targets, read_source, write_target, ReadSource, WriteTarget};
use vstd::prelude::*;

verus! {

/// A chain of post-processing shaders.
#[derive(Debug, Clone, Copy, PartialEq, Eq, Structural)]
pub enum Chain {
    /// Works on the backgrounds alone, before any text is drawn.
    Background,
    /// Works on the complete picture.
    Final,
}

/// The textures of a frame.
#[derive(Debug, Clone, Copy, PartialEq, Eq, Structural)]
pub enum Texture {
    /// What is presented on the screen.
    Surface,
    /// Where the picture that a chain works on is rendered.
    Intermediate(Chain),
    /// The second texture of a chain.
    PingPong(Chain),
    /// What the passes of a chain see of the previous frame.
    PrevFrame(Chain),
    /// The picture that a chain works on, as it was before the chain's first pass.
    Kept(Chain),
}

/// What becomes of the old contents of a target when a buffer is drawn to it.
#[derive(Debug, Clone, Copy, PartialEq, Eq, Structural)]
pub enum LoadOp {
    /// The target becomes transparent black first.
    Clear,
    /// The buffer is drawn over what is there.
    Load,
}

/// One step of drawing a frame.
#[derive(Debug, Clone, Copy, PartialEq, Eq, Structural)]
pub enum GpuCommand {
    /// Draw the indices below `index_end` of a vertex buffer.
    DrawBuffer { slot: Slot, target: Texture, load: LoadOp, index_end: u32 },
    /// Move on to the next of the vertex buffers that take turns in a slot.
    NextIndex { slot: Slot },
    /// Hand the frame's uniform to the passes of a chain.
    WriteUniform { chain: Chain },
    /// Clear `write` and run shader number `pipeline` of a chain.
    ShaderPass { chain: Chain, pipeline: usize, read: Texture, write: Texture },
    /// Copy a texture.
    CopyTexture { from: Texture, to: Texture },
    /// Submit what was encoded.
    Submit,
    /// Show the surface.
    Present,
}

/// Where buffers are drawn: with final post-processing to the texture that it works
/// on, without it straight to the surface.
pub open spec fn main_render_target(post: Option<usize>) -> Texture {
    if post is Some {
        Texture::Intermediate(Chain::Final)
    } else {
        Texture::Surface
    }
}

/// Draws one vertex buffer, if it holds anything, and moves on to the next.
pub open spec fn buffer_commands(
    layers: Seq<RenderLayer>,
    layer: int,
    idx: int,
    target: Texture,
    cleared: bool,
) -> Seq<GpuCommand> {
    let slot = slot_at(layer, idx);
    let advance = seq![GpuCommand::NextIndex { slot }];
    if has_vertices(layers, layer, idx) {
        let load = if cleared {
            LoadOp::Load
        } else {
            LoadOp::Clear
        };
        let index_end = layers[layer].vb[idx].index_count as u32;
        seq![GpuCommand::DrawBuffer { slot, target, load, index_end }] + advance
    } else {
        advance
    }
}

/// All three buffers of a layer. The first buffer of the frame that holds anything
/// clears the target.
pub open spec fn single_pass_layer(
    layers: Seq<RenderLayer>,
    layer: int,
    target: Texture,
) -> Seq<GpuCommand> {
    buffer_commands(layers, layer, 0, target, drawn_before(layers, 0, 3, layer, 0))
        + buffer_commands(layers, layer, 1, target, drawn_before(layers, 0, 3, layer, 1))
        + buffer_commands(layers, layer, 2, target, drawn_before(layers, 0, 3, layer, 2))
}

/// All buffers of the first `n` layers.
pub open spec fn single_pass(layers: Seq<RenderLayer>, n: nat, target: Texture) -> Seq<GpuCommand>
    decreases n,
{
    if n == 0 {
        seq![]
    } else {
        single_pass(layers, (n - 1) as nat, target) + single_pass_layer(layers, n - 1, target)
    }
}

/// The background buffer of a layer. The other two move on without being drawn.
pub open spec fn background_layer(layers: Seq<RenderLayer>, layer: int) -> Seq<GpuCommand> {
    buffer_commands(
        layers,
        layer,
        0,
        Texture::Intermediate(Chain::Background),
        drawn_before(layers, 0, 1, layer, 0),
    ) + seq![
        GpuCommand::NextIndex { slot: slot_at(layer, 1) },
        GpuCommand::NextIndex { slot: slot_at(layer, 2) },
    ]
}

/// The background buffers of the first `n` layers.
pub open spec fn background_pass(layers: Seq<RenderLayer>, n: nat) -> Seq<GpuCommand>
    decreases n,
{
    if n == 0 {
        seq![]
    } else {
        background_pass(layers, (n - 1) as nat) + background_layer(layers, n - 1)
    }
}

/// The text and cursor buffers of a layer, over what the target shows.
pub open spec fn text_layer(
    layers: Seq<RenderLayer>,
    layer: int,
    target: Texture,
) -> Seq<GpuCommand> {
    buffer_commands(layers, layer, 1, target, true)
        + buffer_commands(layers, layer, 2, target, true)
}

/// The text and cursor buffers of the first `n` layers.
pub open spec fn text_pass(layers: Seq<RenderLayer>, n: nat, target: Texture) -> Seq<GpuCommand>
    decreases n,
{
    if n == 0 {
        seq![]
    } else {
        text_pass(layers, (n - 1) as nat, target) + text_layer(layers, n - 1, target)
    }
}

/// The texture of `chain` that a pass reads.
pub open spec fn read_texture(chain: Chain, source: ReadSource) -> Texture {
    match source {
        ReadSource::Intermediate => Texture::Intermediate(chain),
        ReadSource::PingPong => Texture::PingPong(chain),
    }
}

/// The texture that a pass of `chain` writes, where `output` is what the chain's last
/// pass writes to.
pub open spec fn write_texture(chain: Chain, target: WriteTarget, output: Texture) -> Texture {
    match target {
        WriteTarget::Intermediate => Texture::Intermediate(chain),
        WriteTarget::PingPong => Texture::PingPong(chain),
        WriteTarget::Surface => output,
    }
}

/// Pass `index` of the `count` passes of a chain.
pub open spec fn chain_pass(chain: Chain, index: int, count: int, output: Texture) -> GpuCommand {
    GpuCommand::ShaderPass {
        chain,
        pipeline: index as usize,
        read: read_texture(chain, read_source(index)),
        write: write_texture(chain, write_target(index, count), output),
    }
}

/// The first `done` of the `count` passes of a chain.
pub open spec fn chain_passes(
    chain: Chain,
    done: nat,
    count: int,
    output: Texture,
) -> Seq<GpuCommand> {
    Seq::new(done, |index: int| chain_pass(chain, index, count, output))
}

/// Hands the uniform to a chain, then runs all of its passes.
pub open spec fn chain_commands(chain: Chain, count: usize, output: Texture) -> Seq<GpuCommand> {
    seq![GpuCommand::WriteUniform { chain }]
        + chain_passes(chain, count as nat, count as int, output)
}

/// What the background chain sees of this frame in the next one is copied before
/// text is drawn, and only from a texture that can be copied from.
pub open spec fn background_feedback(post: Option<usize>) -> Seq<GpuCommand> {
    if post is Some {
        seq![
            GpuCommand::CopyTexture {
                from: Texture::Intermediate(Chain::Final),
                to: Texture::PrevFrame(Chain::Background),
            },
        ]
    } else {
        seq![]
    }
}

/// Renders the picture that final post-processing works on, or that is shown.
pub open spec fn content_commands(
    layers: Seq<RenderLayer>,
    background: Option<usize>,
    post: Option<usize>,
) -> Seq<GpuCommand> {
    let target = main_render_target(post);
    match background {
        Some(count) => {
            background_pass(layers, layers.len())
                + chain_commands(Chain::Background, count, target)
                + background_feedback(post)
                + text_pass(layers, layers.len(), target)
        },
        None => single_pass(layers, layers.len(), target),
    }
}

/// Runs final post-processing. The complete picture is set aside before the first pass,
/// since passes write over it, and handed to the next frame after the last one, since
/// passes see what they were handed of the previous frame.
pub open spec fn post_process_commands(post: Option<usize>) -> Seq<GpuCommand> {
    match post {
        Some(count) => {
            seq![
                GpuCommand::CopyTexture {
                    from: Texture::Intermediate(Chain::Final),
                    to: Texture::Kept(Chain::Final),
                },
            ] + chain_commands(Chain::Final, count, Texture::Surface) + seq![
                GpuCommand::CopyTexture {
                    from: Texture::Kept(Chain::Final),
                    to: Texture::PrevFrame(Chain::Final),
                },
            ]
        },
        None => seq![],
    }
}

/// All commands of a frame. `background` and `post` are the number of shaders of the
/// two chains, where there is such a chain.
pub open spec fn frame_commands(
    layers: Seq<RenderLayer>,
    background: Option<usize>,
    post: Option<usize>,
) -> Seq<GpuCommand> {
    content_commands(layers, background, post) + post_process_commands(post) + seq![
        GpuCommand::Submit,
        GpuCommand::Present,
    ]
}

/// Appends the commands for one vertex buffer. `cleared` says whether the target has
/// been cleared.
fn draw_vb(
    commands: &mut Vec<GpuCommand>,
    layers: &Vec<RenderLayer>,
    layer: usize,
    idx: usize,
    target: Texture,
    cleared: &mut bool,
)
    requires
        layer < layers@.len(),
        idx < 3,
    ensures
        final(commands)@ == old(commands)@
            + buffer_commands(layers@, layer as int, idx as int, target, *old(cleared)),
        *final(cleared) == (*old(cleared) || has_vertices(layers@, layer as int, idx as int)),
{
    let slot = Slot { layer, idx };
    let counts = layers[layer].vb[idx];
    if counts.vertex_count > 0 {
        let load = if *cleared {
            LoadOp::Load
        } else {
            LoadOp::Clear
        };
        *cleared = true;
        let index_end: u32 = #[verifier::truncate] (counts.index_count as u32);
        commands.push(GpuCommand::DrawBuffer { slot, target, load, index_end });
    }
    commands.push(GpuCommand::NextIndex { slot });
}

/// Appends all buffers of one layer.
fn draw_single_pass_layer(
    commands: &mut Vec<GpuCommand>,
    layers: &Vec<RenderLayer>,
    layer: usize,
    target: Texture,
    cleared: &mut bool,
)
    requires
        layer < layers@.len(),
        *old(cleared) == drawn_before(layers@, 0, 3, layer as int, 0),
    ensures
        final(commands)@ == old(commands)@ + single_pass_layer(layers@, layer as int, target),
        *final(cleared) == drawn_before(layers@, 0, 3, layer + 1, 0),
{
    proof {
        lemma_drawn_before_next_buffer(layers@, 0, 3, layer as int, 0);
        lemma_drawn_before_next_buffer(layers@, 0, 3, layer as int, 1);
        lemma_drawn_before_next_buffer(layers@, 0, 3, layer as int, 2);
        lemma_drawn_before_next_layer(layers@, 0, 3, layer as int);
    }
    draw_vb(commands, layers, layer, 0, target, cleared);
    draw_vb(commands, layers, layer, 1, target, cleared);
    draw_vb(commands, layers, layer, 2, target, cleared);
}

/// Appends all buffers of all layers.
fn draw_single_pass(commands: &mut Vec<GpuCommand>, layers: &Vec<RenderLayer>, target: Texture)
    ensures
        final(commands)@ == old(commands)@ + single_pass(layers@, layers@.len(), target),
{
    let mut cleared = false;
    let mut layer: usize = 0;
    while layer < layers.len()
        invariant
            layer <= layers@.len(),
            cleared == drawn_before(layers@, 0, 3, layer as int, 0),
            commands@ == old(commands)@ + single_pass(layers@, layer as nat, target),
        decreases layers@.len() - layer,
    {
        draw_single_pass_layer(commands, layers, layer, target, &mut cleared);
        layer += 1;
    }
}

/// Appends the background buffers of all layers.
fn draw_background_pass(commands: &mut Vec<GpuCommand>, layers: &Vec<RenderLayer>)
    ensures
        final(commands)@ == old(commands)@ + background_pass(layers@, layers@.len()),
{
    let target = Texture::Intermediate(Chain::Background);
    let mut cleared = false;
    let mut layer: usize = 0;
    while layer < layers.len()
        invariant
            layer <= layers@.len(),
            target == Texture::Intermediate(Chain::Background),
            cleared == drawn_before(layers@, 0, 1, layer as int, 0),
            commands@ == old(commands)@ + background_pass(layers@, layer as nat),
        decreases layers@.len() - layer,
    {
        draw_vb(commands, layers, layer, 0, target, &mut cleared);
        // The other two are drawn after the background chain has run.
        commands.push(GpuCommand::NextIndex { slot: Slot { layer, idx: 1 } });
        commands.push(GpuCommand::NextIndex { slot: Slot { layer, idx: 2 } });
        proof {
            lemma_drawn_before_next_buffer(layers@, 0, 1, layer as int, 0);
            lemma_drawn_before_next_layer(layers@, 0, 1, layer as int);
        }
        layer += 1;
    }
}

/// Appends the text and cursor buffers of all layers.
fn draw_text_pass(commands: &mut Vec<GpuCommand>, layers: &Vec<RenderLayer>, target: Texture)
    ensures
        final(commands)@ == old(commands)@ + text_pass(layers@, layers@.len(), target),
{
    let mut cleared = true;
    let mut layer: usize = 0;
    while layer < layers.len()
        invariant
            layer <= layers@.len(),
            cleared,
            commands@ == old(commands)@ + text_pass(layers@, layer as nat, target),
        decreases layers@.len() - layer,
    {
        draw_vb(commands, layers, layer, 1, target, &mut cleared);
        draw_vb(commands, layers, layer, 2, target, &mut cleared);
        layer += 1;
    }
}

/// Appends the uniform and the passes of a chain.
fn run_chain(commands: &mut Vec<GpuCommand>, chain: Chain, count: usize, output: Texture)
    ensures
        final(commands)@ == old(commands)@ + chain_commands(chain, count, output),
{
    commands.push(GpuCommand::WriteUniform { chain });
    let ghost start = commands@;
    let mut index: usize = 0;
    while index < count
        invariant
            index <= count,
            commands@ == start + chain_passes(chain, index as nat, count as int, output),
        decreases count - index,
    {
        let (source, target) = ping_pong_targets(index, count);
        let read = match source {
            ReadSource::Intermediate => Texture::Intermediate(chain),
            ReadSource::PingPong => Texture::PingPong(chain),
        };
        let write = match target {
            WriteTarget::Surface => output,
            WriteTarget::PingPong => Texture::PingPong(chain),
            WriteTarget::Intermediate => Texture::Intermediate(chain),
        };
        commands.push(GpuCommand::ShaderPass { chain, pipeline: index, read, write });
        index += 1;
    }
}

/// All commands of a frame, in order. `background` and `post` are the number of
/// shaders of the two chains, where there is such a chain.
pub fn plan_commands(
    layers: &Vec<RenderLayer>,
    background: Option<usize>,
    post: Option<usize>,
) -> (commands: Vec<GpuCommand>)
    ensures
        commands@ == frame_commands(layers@, background, post),
{
    let mut commands: Vec<GpuCommand> = Vec::new();
    let target = if post.is_some() {
        Texture::Intermediate(Chain::Final)
    } else {
        Texture::Surface
    };
    match background {
        Some(count) => {
            // Backgrounds, then their shaders, then text and cursor
            draw_background_pass(&mut commands, layers);
            run_chain(&mut commands, Chain::Background, count, target);
            if post.is_some() {
                commands.push(
                    GpuCommand::CopyTexture {
                        from: Texture::Intermediate(Chain::Final),
                        to: Texture::PrevFrame(Chain::Background),
                    },
                );
            }
            draw_text_pass(&mut commands, layers, target);
        },
        None => {
            draw_single_pass(&mut commands, layers, target);
        },
    }
    assert(commands@ == content_commands(layers@, background, post));
    match post {
        Some(count) => {
            // Shaders write over the picture, and see the previous one until they are done
            commands.push(
                GpuCommand::CopyTexture {
                    from: Texture::Intermediate(Chain::Final),
                    to: Texture::Kept(Chain::Final),
                },
            );
            run_chain(&mut commands, Chain::Final, count, Texture::Surface);
            commands.push(
                GpuCommand::CopyTexture {
                    from: Texture::Kept(Chain::Final),
                    to: Texture::PrevFrame(Chain::Final),
                },
            );
        },
        None => {},
    }
    commands.push(GpuCommand::Submit);
    commands.push(GpuCommand::Present);
    commands
}

} // verus!
