//! Which textures a frame needs, and when it is submitted.
use crate::layers::{drawn_before, RenderLayer};
use crate::webgpu::{
    background_feedback, background_layer, background_pass, buffer_commands, chain_commands,
    chain_passes, content_commands, frame_commands, main_render_target, post_process_commands,
    single_pass, text_layer, text_pass, Chain, GpuCommand, Texture,
};
use vstd::prelude::*;

verus! {

/// Whether a command reads or writes a texture.
pub open spec fn touches(command: GpuCommand, texture: Texture) -> bool {
    match command {
        GpuCommand::DrawBuffer { target, .. } => texture == target,
        GpuCommand::ShaderPass { chain, read, write, .. } => {
            ||| texture == read
            ||| texture == write
            ||| texture == Texture::PrevFrame(chain)
        },
        GpuCommand::CopyTexture { from, to } => texture == from || texture == to,
        _ => false,
    }
}

/// The number of shaders of a chain, where there is such a chain.
pub open spec fn shaders_of(
    chain: Chain,
    background: Option<usize>,
    post: Option<usize>,
) -> Option<usize> {
    match chain {
        Chain::Background => background,
        Chain::Final => post,
    }
}

/// Whether there has to be such a texture: a chain has its own textures, and a second
/// one to alternate with from two shaders on.
pub open spec fn is_provided(
    texture: Texture,
    background: Option<usize>,
    post: Option<usize>,
) -> bool {
    match texture {
        Texture::Surface => true,
        Texture::Intermediate(chain) => shaders_of(chain, background, post) is Some,
        Texture::PrevFrame(chain) => shaders_of(chain, background, post) is Some,
        Texture::Kept(chain) => shaders_of(chain, background, post) is Some,
        Texture::PingPong(chain) => shaders_of(chain, background, post) matches Some(shaders)
            && shaders >= 2,
    }
}

/// Whether all textures that commands touch are provided.
pub open spec fn all_provided(
    commands: Seq<GpuCommand>,
    background: Option<usize>,
    post: Option<usize>,
) -> bool {
    forall|i: int, texture: Texture|
        0 <= i < commands.len() && #[trigger] touches(commands[i], texture) ==> is_provided(
            texture,
            background,
            post,
        )
}

/// Whether commands neither submit nor present anything.
pub open spec fn none_submits(commands: Seq<GpuCommand>) -> bool {
    forall|i: int|
        0 <= i < commands.len() ==> (#[trigger] commands[i]) != GpuCommand::Submit && commands[i]
            != GpuCommand::Present
}

proof fn lemma_concat(
    first: Seq<GpuCommand>,
    second: Seq<GpuCommand>,
    background: Option<usize>,
    post: Option<usize>,
)
    requires
        all_provided(first, background, post),
        all_provided(second, background, post),
    ensures
        all_provided(first + second, background, post),
        none_submits(first) && none_submits(second) ==> none_submits(first + second),
{
    assert forall|i: int, texture: Texture|
        0 <= i < (first + second).len() && #[trigger] touches(
            (first + second)[i],
            texture,
        ) implies is_provided(texture, background, post) by {
        if i < first.len() {
            assert(touches(first[i], texture));
        } else {
            assert(touches(second[i - first.len()], texture));
        }
    }
}

proof fn lemma_buffer(
    layers: Seq<RenderLayer>,
    layer: int,
    idx: int,
    target: Texture,
    cleared: bool,
    background: Option<usize>,
    post: Option<usize>,
)
    requires
        is_provided(target, background, post),
    ensures
        all_provided(
            buffer_commands(layers, layer, idx, target, cleared),
            background,
            post,
        ),
        none_submits(buffer_commands(layers, layer, idx, target, cleared)),
{
}

proof fn lemma_single_pass(
    layers: Seq<RenderLayer>,
    n: nat,
    target: Texture,
    background: Option<usize>,
    post: Option<usize>,
)
    requires
        is_provided(target, background, post),
    ensures
        all_provided(single_pass(layers, n, target), background, post),
        none_submits(single_pass(layers, n, target)),
    decreases n,
{
    if n > 0 {
        let l = n - 1;
        let c0 = drawn_before(layers, 0, 3, l, 0);
        let c1 = drawn_before(layers, 0, 3, l, 1);
        let c2 = drawn_before(layers, 0, 3, l, 2);
        let earlier = single_pass(layers, l as nat, target);
        let first = buffer_commands(layers, l, 0, target, c0);
        let second = buffer_commands(layers, l, 1, target, c1);
        let third = buffer_commands(layers, l, 2, target, c2);
        lemma_single_pass(layers, l as nat, target, background, post);
        lemma_buffer(layers, l, 0, target, c0, background, post);
        lemma_buffer(layers, l, 1, target, c1, background, post);
        lemma_buffer(layers, l, 2, target, c2, background, post);
        lemma_concat(first, second, background, post);
        lemma_concat(first + second, third, background, post);
        lemma_concat(earlier, first + second + third, background, post);
    }
}

proof fn lemma_background_pass(
    layers: Seq<RenderLayer>,
    n: nat,
    background: Option<usize>,
    post: Option<usize>,
)
    requires
        background is Some,
    ensures
        all_provided(background_pass(layers, n), background, post),
        none_submits(background_pass(layers, n)),
    decreases n,
{
    if n > 0 {
        let earlier = background_pass(layers, (n - 1) as nat);
        lemma_background_pass(layers, (n - 1) as nat, background, post);
        lemma_concat(
            earlier,
            background_layer(layers, n - 1),
            background,
            post,
        );
    }
}

proof fn lemma_text_pass(
    layers: Seq<RenderLayer>,
    n: nat,
    target: Texture,
    background: Option<usize>,
    post: Option<usize>,
)
    requires
        is_provided(target, background, post),
    ensures
        all_provided(text_pass(layers, n, target), background, post),
        none_submits(text_pass(layers, n, target)),
    decreases n,
{
    if n > 0 {
        let earlier = text_pass(layers, (n - 1) as nat, target);
        lemma_text_pass(layers, (n - 1) as nat, target, background, post);
        lemma_concat(
            earlier,
            text_layer(layers, n - 1, target),
            background,
            post,
        );
    }
}

proof fn lemma_chain(
    chain: Chain,
    count: usize,
    output: Texture,
    background: Option<usize>,
    post: Option<usize>,
)
    requires
        shaders_of(chain, background, post) == Some(count),
        is_provided(output, background, post),
    ensures
        all_provided(chain_commands(chain, count, output), background, post),
        none_submits(chain_commands(chain, count, output)),
{
    let passes = chain_passes(chain, count as nat, count as int, output);
    lemma_concat(seq![GpuCommand::WriteUniform { chain }], passes, background, post);
}

/// What all commands of a frame but the last two have in common.
proof fn lemma_frame(layers: Seq<RenderLayer>, background: Option<usize>, post: Option<usize>)
    ensures
        ({
            let commands = content_commands(layers, background, post)
                + post_process_commands(post);
            all_provided(commands, background, post) && none_submits(commands)
        }),
{
    let target = main_render_target(post);
    let content = content_commands(layers, background, post);
    let shaders = post_process_commands(post);
    match background {
        Some(count) => {
            let backgrounds = background_pass(layers, layers.len());
            let chain = chain_commands(Chain::Background, count, target);
            let feedback = background_feedback(post);
            let text = text_pass(layers, layers.len(), target);
            lemma_background_pass(layers, layers.len(), background, post);
            lemma_chain(Chain::Background, count, target, background, post);
            lemma_text_pass(layers, layers.len(), target, background, post);
            lemma_concat(backgrounds, chain, background, post);
            lemma_concat(backgrounds + chain, feedback, background, post);
            lemma_concat(backgrounds + chain + feedback, text, background, post);
        },
        None => {
            lemma_single_pass(layers, layers.len(), target, background, post);
        },
    }
    if let Some(count) = post {
        let chain = chain_commands(Chain::Final, count, Texture::Surface);
        let keep = GpuCommand::CopyTexture {
            from: Texture::Intermediate(Chain::Final),
            to: Texture::Kept(Chain::Final),
        };
        let hand_on = GpuCommand::CopyTexture {
            from: Texture::Kept(Chain::Final),
            to: Texture::PrevFrame(Chain::Final),
        };
        lemma_chain(Chain::Final, count, Texture::Surface, background, post);
        lemma_concat(seq![keep], chain, background, post);
        lemma_concat(seq![keep] + chain, seq![hand_on], background, post);
    }
    lemma_concat(content, shaders, background, post);
}

/// A frame touches no texture but the surface and those that its chains have: a chain
/// that is not there is not drawn for, and only a chain of two or more shaders needs
/// a second texture to alternate with.
pub proof fn law_frame_touches_only_provided_textures(
    layers: Seq<RenderLayer>,
    background: Option<usize>,
    post: Option<usize>,
)
    ensures
        all_provided(frame_commands(layers, background, post), background, post),
{
    lemma_frame(layers, background, post);
    lemma_concat(
        content_commands(layers, background, post)
            + post_process_commands(post),
        seq![GpuCommand::Submit, GpuCommand::Present],
        background,
        post,
    );
}

/// A frame is submitted once, when all else is done, and then presented.
pub proof fn law_frame_ends_by_presenting(
    layers: Seq<RenderLayer>,
    background: Option<usize>,
    post: Option<usize>,
)
    ensures
        ({
            let commands = frame_commands(layers, background, post);
            &&& commands.len() >= 2
            &&& none_submits(commands.take(commands.len() - 2))
            &&& commands[commands.len() - 2] == GpuCommand::Submit
            &&& commands.last() == GpuCommand::Present
        }),
{
    lemma_frame(layers, background, post);
    let commands = frame_commands(layers, background, post);
    assert(commands.take(commands.len() - 2) == content_commands(
        layers,
        background,
        post,
    ) + post_process_commands(post));
}

} // verus!
