//! Which commands a WebGPU frame consists of, and in what order they come.
use crate::layers::{drawn_before, has_vertices, slot_at, RenderLayer, Slot};
use crate::webgpu::{
    background_feedback, background_pass, buffer_commands, chain_commands, chain_pass, chain_passes,
    content_commands, frame_commands, main_render_target, post_process_commands, single_pass,
    text_pass, Chain, GpuCommand, LoadOp, Texture,
};
use vstd::prelude::*;

verus! {

/// All buffers before `slot` are empty. With background post-processing only the
/// backgrounds come before a background.
pub open spec fn nothing_before(layers: Seq<RenderLayer>, background: bool, slot: Slot) -> bool {
    forall|l: int, k: int|
        {
            &&& 0 <= l
            &&& 0 <= k < 3
            &&& background ==> k == 0
            &&& l < slot.layer || l == slot.layer && k < slot.idx
        } ==> (#[trigger] layers[l].vb[k]).vertex_count == 0
}

/// The place of a command in a frame. Commands that move on from a vertex buffer have
/// none.
pub open spec fn stage(command: GpuCommand, background: bool) -> int {
    match command {
        GpuCommand::DrawBuffer { slot, .. } => if background && slot.idx == 0 {
            0
        } else {
            4
        },
        GpuCommand::WriteUniform { chain: Chain::Background } => 1,
        GpuCommand::ShaderPass { chain: Chain::Background, .. } => 2,
        GpuCommand::CopyTexture { to: Texture::PrevFrame(Chain::Background), .. } => 3,
        GpuCommand::CopyTexture { to: Texture::Kept(_), .. } => 5,
        GpuCommand::WriteUniform { chain: Chain::Final } => 6,
        GpuCommand::ShaderPass { chain: Chain::Final, .. } => 7,
        GpuCommand::CopyTexture { .. } => 8,
        GpuCommand::Submit => 9,
        GpuCommand::Present => 10,
        GpuCommand::NextIndex { .. } => 11,
    }
}

/// One command may come before another: its place is earlier, or it draws an earlier
/// layer, or an earlier buffer of the layer, or it is an earlier pass.
pub open spec fn may_precede(first: GpuCommand, second: GpuCommand, background: bool) -> bool {
    ||| first is NextIndex
    ||| second is NextIndex
    ||| stage(first, background) < stage(second, background)
    ||| stage(first, background) == stage(second, background) && match (first, second) {
        (
            GpuCommand::DrawBuffer { slot: a, .. },
            GpuCommand::DrawBuffer { slot: b, .. },
        ) => a.layer < b.layer || a.layer == b.layer && a.idx < b.idx,
        (
            GpuCommand::ShaderPass { pipeline: a, .. },
            GpuCommand::ShaderPass { pipeline: b, .. },
        ) => a < b,
        _ => false,
    }
}

/// Commands come in order: none of them repeats, and none comes too late.
pub open spec fn in_order(commands: Seq<GpuCommand>, background: bool) -> bool {
    forall|i: int, j: int|
        0 <= i < j < commands.len() ==> may_precede(
            #[trigger] commands[i],
            #[trigger] commands[j],
            background,
        )
}

proof fn lemma_contains_concat(
    first: Seq<GpuCommand>,
    second: Seq<GpuCommand>,
    command: GpuCommand,
)
    ensures
        (first + second).contains(command) <==> first.contains(command) || second.contains(
            command,
        ),
{
    let both = first + second;
    if first.contains(command) {
        let i = choose|i: int| 0 <= i < first.len() && first[i] == command;
        assert(both[i] == command);
    }
    if second.contains(command) {
        let i = choose|i: int| 0 <= i < second.len() && second[i] == command;
        assert(both[first.len() + i] == command);
    }
    if both.contains(command) {
        let i = choose|i: int| 0 <= i < both.len() && both[i] == command;
        if i < first.len() {
            assert(first[i] == command);
        } else {
            assert(second[i - first.len()] == command);
        }
    }
}

proof fn lemma_contains_one(only: GpuCommand, command: GpuCommand)
    ensures
        seq![only].contains(command) <==> only == command,
{
    assert(seq![only][0] == only);
}

proof fn lemma_index_end(count: usize)
    ensures
        (count as u32) as int == count as int % 0x1_0000_0000,
{
    let wide = count as u64;
    assert(wide as u32 == wide % 0x1_0000_0000u64) by (bit_vector);
    assert((count as u64) as u32 == count as u32) by (bit_vector);
}

/// The draw command of one buffer.
spec fn is_draw(
    layers: Seq<RenderLayer>,
    layer: int,
    idx: int,
    target: Texture,
    cleared: bool,
    command: GpuCommand,
) -> bool {
    &&& has_vertices(layers, layer, idx)
    &&& command == GpuCommand::DrawBuffer {
        slot: slot_at(layer, idx),
        target,
        load: if cleared {
            LoadOp::Load
        } else {
            LoadOp::Clear
        },
        index_end: layers[layer].vb[idx].index_count as u32,
    }
}

proof fn lemma_buffer_contains(
    layers: Seq<RenderLayer>,
    layer: int,
    idx: int,
    target: Texture,
    cleared: bool,
    command: GpuCommand,
)
    ensures
        buffer_commands(layers, layer, idx, target, cleared).contains(command) <==> {
            ||| command == (GpuCommand::NextIndex { slot: slot_at(layer, idx) })
            ||| is_draw(layers, layer, idx, target, cleared, command)
        },
{
    let commands = buffer_commands(layers, layer, idx, target, cleared);
    if has_vertices(layers, layer, idx) {
        assert(commands == seq![commands[0]] + seq![commands[1]]);
        lemma_contains_concat(seq![commands[0]], seq![commands[1]], command);
        lemma_contains_one(commands[0], command);
        lemma_contains_one(commands[1], command);
    } else {
        lemma_contains_one(commands[0], command);
    }
}

/// A command of the buffers from `first` up to `end` of the first `n` layers.
spec fn is_pass_command(
    layers: Seq<RenderLayer>,
    first: int,
    end: int,
    n: int,
    target: Texture,
    fresh: bool,
    command: GpuCommand,
) -> bool {
    match command {
        GpuCommand::DrawBuffer { slot, .. } => {
            &&& slot.layer < n
            &&& first <= slot.idx < end
            &&& is_draw(
                layers,
                slot.layer as int,
                slot.idx as int,
                target,
                !fresh || drawn_before(layers, first, end, slot.layer as int, slot.idx as int),
                command,
            )
        },
        _ => false,
    }
}

proof fn lemma_single_pass_contains(
    layers: Seq<RenderLayer>,
    n: nat,
    target: Texture,
    command: GpuCommand,
)
    requires
        n <= layers.len() <= usize::MAX,
    ensures
        single_pass(layers, n, target).contains(command) <==> {
            ||| is_pass_command(layers, 0, 3, n as int, target, true, command)
            ||| command matches GpuCommand::NextIndex { slot } && slot.layer < n && slot.idx < 3
        },
    decreases n,
{
    if n == 0 {
        assert(single_pass(layers, n, target) == Seq::<GpuCommand>::empty());
    } else {
        let l = n - 1;
        let c0 = drawn_before(layers, 0, 3, l, 0);
        let c1 = drawn_before(layers, 0, 3, l, 1);
        let c2 = drawn_before(layers, 0, 3, l, 2);
        let earlier = single_pass(layers, l as nat, target);
        let first = buffer_commands(layers, l, 0, target, c0);
        let second = buffer_commands(layers, l, 1, target, c1);
        let third = buffer_commands(layers, l, 2, target, c2);
        lemma_single_pass_contains(layers, l as nat, target, command);
        lemma_contains_concat(earlier, first + second + third, command);
        lemma_contains_concat(first + second, third, command);
        lemma_contains_concat(first, second, command);
        lemma_buffer_contains(layers, l, 0, target, c0, command);
        lemma_buffer_contains(layers, l, 1, target, c1, command);
        lemma_buffer_contains(layers, l, 2, target, c2, command);
    }
}

proof fn lemma_background_pass_contains(layers: Seq<RenderLayer>, n: nat, command: GpuCommand)
    requires
        n <= layers.len() <= usize::MAX,
    ensures
        background_pass(layers, n).contains(command) <==> {
            ||| is_pass_command(
                layers,
                0,
                1,
                n as int,
                Texture::Intermediate(Chain::Background),
                true,
                command,
            )
            ||| command matches GpuCommand::NextIndex { slot } && slot.layer < n && slot.idx < 3
        },
    decreases n,
{
    if n == 0 {
        assert(background_pass(layers, n) == Seq::<GpuCommand>::empty());
    } else {
        let l = n - 1;
        let target = Texture::Intermediate(Chain::Background);
        let cleared = drawn_before(layers, 0, 1, l, 0);
        let earlier = background_pass(layers, l as nat);
        let draw = buffer_commands(layers, l, 0, target, cleared);
        let text = GpuCommand::NextIndex { slot: slot_at(l, 1) };
        let cursor = GpuCommand::NextIndex { slot: slot_at(l, 2) };
        lemma_background_pass_contains(layers, l as nat, command);
        lemma_contains_concat(earlier, draw + seq![text, cursor], command);
        lemma_contains_concat(draw, seq![text, cursor], command);
        assert(seq![text, cursor] == seq![text] + seq![cursor]);
        lemma_contains_concat(seq![text], seq![cursor], command);
        lemma_contains_one(text, command);
        lemma_contains_one(cursor, command);
        lemma_buffer_contains(layers, l, 0, target, cleared, command);
    }
}

proof fn lemma_text_pass_contains(
    layers: Seq<RenderLayer>,
    n: nat,
    target: Texture,
    command: GpuCommand,
)
    requires
        n <= layers.len() <= usize::MAX,
    ensures
        text_pass(layers, n, target).contains(command) <==> {
            ||| is_pass_command(layers, 1, 3, n as int, target, false, command)
            ||| command matches GpuCommand::NextIndex { slot } && slot.layer < n && 1 <= slot.idx
                < 3
        },
    decreases n,
{
    if n == 0 {
        assert(text_pass(layers, n, target) == Seq::<GpuCommand>::empty());
    } else {
        let l = n - 1;
        let earlier = text_pass(layers, l as nat, target);
        let text = buffer_commands(layers, l, 1, target, true);
        let cursor = buffer_commands(layers, l, 2, target, true);
        lemma_text_pass_contains(layers, l as nat, target, command);
        lemma_contains_concat(earlier, text + cursor, command);
        lemma_contains_concat(text, cursor, command);
        lemma_buffer_contains(layers, l, 1, target, true, command);
        lemma_buffer_contains(layers, l, 2, target, true, command);
    }
}

proof fn lemma_chain_contains(chain: Chain, count: usize, output: Texture, command: GpuCommand)
    ensures
        chain_commands(chain, count, output).contains(command) <==> {
            ||| command == (GpuCommand::WriteUniform { chain })
            ||| command matches GpuCommand::ShaderPass { pipeline, .. } && pipeline < count
                && command == chain_pass(chain, pipeline as int, count as int, output)
        },
{
    let uniform = GpuCommand::WriteUniform { chain };
    let passes = chain_passes(chain, count as nat, count as int, output);
    lemma_contains_concat(seq![uniform], passes, command);
    lemma_contains_one(uniform, command);
    if passes.contains(command) {
        let i = choose|i: int| 0 <= i < passes.len() && passes[i] == command;
        assert(command == chain_pass(chain, i, count as int, output));
    }
    if let GpuCommand::ShaderPass { pipeline, .. } = command {
        if pipeline < count && command == chain_pass(
            chain,
            pipeline as int,
            count as int,
            output,
        ) {
            assert(passes[pipeline as int] == command);
        }
    }
}

proof fn lemma_content_contains(
    layers: Seq<RenderLayer>,
    background: Option<usize>,
    post: Option<usize>,
    command: GpuCommand,
)
    requires
        layers.len() <= usize::MAX,
    ensures
        ({
            let n = layers.len() as int;
            let target = main_render_target(post);
            content_commands(layers, background, post).contains(command) <==> match background {
                Some(count) => {
                    ||| background_pass(layers, layers.len()).contains(command)
                    ||| chain_commands(Chain::Background, count, target).contains(command)
                    ||| background_feedback(post).contains(command)
                    ||| text_pass(layers, layers.len(), target).contains(command)
                },
                None => single_pass(layers, layers.len(), target).contains(command),
            }
        }),
{
    if let Some(count) = background {
        let target = main_render_target(post);
        let backgrounds = background_pass(layers, layers.len());
        let chain = chain_commands(Chain::Background, count, target);
        let feedback = background_feedback(post);
        let text = text_pass(layers, layers.len(), target);
        lemma_contains_concat(backgrounds + chain + feedback, text, command);
        lemma_contains_concat(backgrounds + chain, feedback, command);
        lemma_contains_concat(backgrounds, chain, command);
    }
}

proof fn lemma_nothing_before(layers: Seq<RenderLayer>, background: bool, slot: Slot)
    requires
        background ==> slot.idx == 0,
        slot.idx < 3,
    ensures
        nothing_before(layers, background, slot) <==> !drawn_before(
            layers,
            0,
            if background {
                1
            } else {
                3
            },
            slot.layer as int,
            slot.idx as int,
        ),
{
    let end: int = if background {
        1
    } else {
        3
    };
    if drawn_before(layers, 0, end, slot.layer as int, slot.idx as int) {
        let (l, i) = choose|l: int, i: int|
            {
                &&& 0 <= l
                &&& 0 <= i < end
                &&& l < slot.layer || l == slot.layer && i < slot.idx
                &&& #[trigger] has_vertices(layers, l, i)
            };
        assert(layers[l].vb[i].vertex_count != 0);
        assert(!nothing_before(layers, background, slot));
    } else {
        assert forall|l: int, k: int|
            {
                &&& 0 <= l
                &&& 0 <= k < 3
                &&& background ==> k == 0
                &&& l < slot.layer || l == slot.layer && k < slot.idx
            } implies (#[trigger] layers[l].vb[k]).vertex_count == 0 by {
            assert(!has_vertices(layers, l, k));
        }
    }
}

/// What a frame does, command by command.
///
/// * It draws each buffer that holds anything, in full, and no other: backgrounds to
///   the background chain's texture where there is such a chain, all else to the
///   final chain's texture, or to the surface where there is no final chain. The
///   first buffer drawn to a texture clears it, but text is drawn over what the
///   background chain has left.
/// * It moves on from every buffer.
/// * Each chain that is there is handed the uniform. Each of its shaders runs, those
///   with an even number from the intermediate texture, the others from the second
///   one. The last shader writes to where the rest of the frame is drawn, or to the
///   surface, any other one to the texture that it does not read.
/// * It copies what the chains are to see of this frame in the next one.
/// * It submits and presents.
pub proof fn law_what_a_frame_does(
    layers: Seq<RenderLayer>,
    background: Option<usize>,
    post: Option<usize>,
    command: GpuCommand,
)
    requires
        layers.len() <= usize::MAX,
    ensures
        frame_commands(layers, background, post).contains(command) <==> match command {
            GpuCommand::DrawBuffer { slot, target, load, index_end } => {
                &&& slot.layer < layers.len()
                &&& slot.idx < 3
                &&& layers[slot.layer as int].vb[slot.idx as int].vertex_count > 0
                &&& index_end == layers[slot.layer as int].vb[slot.idx as int].index_count as int
                    % 0x1_0000_0000
                &&& target == (if background is Some && slot.idx == 0 {
                    Texture::Intermediate(Chain::Background)
                } else if post is Some {
                    Texture::Intermediate(Chain::Final)
                } else {
                    Texture::Surface
                })
                &&& load == LoadOp::Clear <==> {
                    &&& background is Some ==> slot.idx == 0
                    &&& nothing_before(layers, background is Some, slot)
                }
            },
            GpuCommand::NextIndex { slot } => slot.layer < layers.len() && slot.idx < 3,
            GpuCommand::WriteUniform { chain: Chain::Background } => background is Some,
            GpuCommand::WriteUniform { chain: Chain::Final } => post is Some,
            GpuCommand::ShaderPass { chain, pipeline, read, write } => {
                let shaders = match chain {
                    Chain::Background => background,
                    Chain::Final => post,
                };
                let output = if chain == Chain::Background && post is Some {
                    Texture::Intermediate(Chain::Final)
                } else {
                    Texture::Surface
                };
                &&& shaders is Some
                &&& pipeline < shaders->Some_0
                &&& read == (if pipeline as int % 2 == 0 {
                    Texture::Intermediate(chain)
                } else {
                    Texture::PingPong(chain)
                })
                &&& write == (if pipeline == shaders->Some_0 - 1 {
                    output
                } else if pipeline as int % 2 == 0 {
                    Texture::PingPong(chain)
                } else {
                    Texture::Intermediate(chain)
                })
            },
            GpuCommand::CopyTexture { from, to } => post is Some && {
                ||| background is Some && from == Texture::Intermediate(Chain::Final) && to
                    == Texture::PrevFrame(Chain::Background)
                ||| from == Texture::Intermediate(Chain::Final) && to == Texture::Kept(
                    Chain::Final,
                )
                ||| from == Texture::Kept(Chain::Final) && to == Texture::PrevFrame(Chain::Final)
            },
            GpuCommand::Submit => true,
            GpuCommand::Present => true,
        },
{
    let target = main_render_target(post);
    let content = content_commands(layers, background, post);
    let shaders = post_process_commands(post);
    let end = seq![GpuCommand::Submit, GpuCommand::Present];
    lemma_contains_concat(content + shaders, end, command);
    lemma_contains_concat(content, shaders, command);
    assert(end == seq![GpuCommand::Submit] + seq![GpuCommand::Present]);
    lemma_contains_concat(seq![GpuCommand::Submit], seq![GpuCommand::Present], command);
    lemma_contains_one(GpuCommand::Submit, command);
    lemma_contains_one(GpuCommand::Present, command);
    if let Some(count) = post {
        let chain = chain_commands(Chain::Final, count, Texture::Surface);
        let keep = GpuCommand::CopyTexture {
            from: Texture::Intermediate(Chain::Final),
            to: Texture::Kept(Chain::Final),
        };
        let hand_on = GpuCommand::CopyTexture {
            from: Texture::Kept(Chain::Final),
            to: Texture::PrevFrame(Chain::Final),
        };
        lemma_contains_concat(seq![keep] + chain, seq![hand_on], command);
        lemma_contains_concat(seq![keep], chain, command);
        lemma_contains_one(keep, command);
        lemma_contains_one(hand_on, command);
        lemma_chain_contains(Chain::Final, count, Texture::Surface, command);
    }
    lemma_content_contains(layers, background, post, command);
    match background {
        Some(count) => {
            lemma_background_pass_contains(layers, layers.len(), command);
            lemma_chain_contains(Chain::Background, count, target, command);
            lemma_text_pass_contains(layers, layers.len(), target, command);
            if post is Some {
                lemma_contains_one(background_feedback(post)[0], command);
            }
        },
        None => {
            lemma_single_pass_contains(layers, layers.len(), target, command);
        },
    }
    if let GpuCommand::DrawBuffer { slot, .. } = command {
        if slot.layer < layers.len() && slot.idx < 3 {
            lemma_index_end(layers[slot.layer as int].vb[slot.idx as int].index_count);
            if background is None || slot.idx == 0 {
                lemma_nothing_before(layers, background is Some, slot);
            }
        }
    }
}

proof fn lemma_order_concat(first: Seq<GpuCommand>, second: Seq<GpuCommand>, background: bool)
    requires
        in_order(first, background),
        in_order(second, background),
        forall|a: GpuCommand, b: GpuCommand|
            first.contains(a) && second.contains(b) ==> #[trigger] may_precede(a, b, background),
    ensures
        in_order(first + second, background),
{
    let both = first + second;
    assert forall|i: int, j: int| 0 <= i < j < both.len() implies may_precede(
        #[trigger] both[i],
        #[trigger] both[j],
        background,
    ) by {
        if j < first.len() {
            assert(both[i] == first[i] && both[j] == first[j]);
        } else if i >= first.len() {
            assert(both[i] == second[i - first.len()] && both[j] == second[j - first.len()]);
        } else {
            assert(first.contains(first[i]));
            assert(second.contains(second[j - first.len()]));
        }
    }
}

proof fn lemma_buffer_order(
    layers: Seq<RenderLayer>,
    layer: int,
    idx: int,
    target: Texture,
    cleared: bool,
    background: bool,
)
    ensures
        in_order(buffer_commands(layers, layer, idx, target, cleared), background),
{
}

proof fn lemma_single_pass_order(layers: Seq<RenderLayer>, n: nat, target: Texture)
    requires
        n <= layers.len() <= usize::MAX,
    ensures
        in_order(single_pass(layers, n, target), false),
    decreases n,
{
    if n > 0 {
        let l = n - 1;
        let c0 = drawn_before(layers, 0, 3, l, 0);
        let c1 = drawn_before(layers, 0, 3, l, 1);
        let c2 = drawn_before(layers, 0, 3, l, 2);
        let earlier = single_pass(layers, l as nat, target);
        let first = buffer_commands(layers, l, 0, target, c0);
        let second = buffer_commands(layers, l, 1, target, c1);
        let third = buffer_commands(layers, l, 2, target, c2);
        lemma_single_pass_order(layers, l as nat, target);
        lemma_buffer_order(layers, l, 0, target, c0, false);
        lemma_buffer_order(layers, l, 1, target, c1, false);
        lemma_buffer_order(layers, l, 2, target, c2, false);
        assert forall|a: GpuCommand, b: GpuCommand|
            first.contains(a) && second.contains(b) implies #[trigger] may_precede(a, b, false) by {
            lemma_buffer_contains(layers, l, 0, target, c0, a);
            lemma_buffer_contains(layers, l, 1, target, c1, b);
        }
        lemma_order_concat(first, second, false);
        assert forall|a: GpuCommand, b: GpuCommand|
            (first + second).contains(a) && third.contains(b) implies #[trigger] may_precede(
            a,
            b,
            false,
        ) by {
            lemma_contains_concat(first, second, a);
            lemma_buffer_contains(layers, l, 0, target, c0, a);
            lemma_buffer_contains(layers, l, 1, target, c1, a);
            lemma_buffer_contains(layers, l, 2, target, c2, b);
        }
        lemma_order_concat(first + second, third, false);
        assert forall|a: GpuCommand, b: GpuCommand|
            earlier.contains(a) && (first + second + third).contains(
                b,
            ) implies #[trigger] may_precede(a, b, false) by {
            lemma_single_pass_contains(layers, l as nat, target, a);
            lemma_contains_concat(first + second, third, b);
            lemma_contains_concat(first, second, b);
            lemma_buffer_contains(layers, l, 0, target, c0, b);
            lemma_buffer_contains(layers, l, 1, target, c1, b);
            lemma_buffer_contains(layers, l, 2, target, c2, b);
        }
        lemma_order_concat(earlier, first + second + third, false);
    }
}

proof fn lemma_background_pass_order(layers: Seq<RenderLayer>, n: nat)
    requires
        n <= layers.len() <= usize::MAX,
    ensures
        in_order(background_pass(layers, n), true),
    decreases n,
{
    if n > 0 {
        let l = n - 1;
        let target = Texture::Intermediate(Chain::Background);
        let cleared = drawn_before(layers, 0, 1, l, 0);
        let earlier = background_pass(layers, l as nat);
        let draw = buffer_commands(layers, l, 0, target, cleared);
        let text = GpuCommand::NextIndex { slot: slot_at(l, 1) };
        let cursor = GpuCommand::NextIndex { slot: slot_at(l, 2) };
        let rest = seq![text, cursor];
        lemma_background_pass_order(layers, l as nat);
        lemma_buffer_order(layers, l, 0, target, cleared, true);
        lemma_order_concat(draw, rest, true);
        assert forall|a: GpuCommand, b: GpuCommand|
            earlier.contains(a) && (draw + rest).contains(b) implies #[trigger] may_precede(
            a,
            b,
            true,
        ) by {
            lemma_background_pass_contains(layers, l as nat, a);
            lemma_contains_concat(draw, rest, b);
            lemma_buffer_contains(layers, l, 0, target, cleared, b);
        }
        lemma_order_concat(earlier, draw + rest, true);
    }
}

proof fn lemma_text_pass_order(layers: Seq<RenderLayer>, n: nat, target: Texture)
    requires
        n <= layers.len() <= usize::MAX,
    ensures
        in_order(text_pass(layers, n, target), true),
    decreases n,
{
    if n > 0 {
        let l = n - 1;
        let earlier = text_pass(layers, l as nat, target);
        let text = buffer_commands(layers, l, 1, target, true);
        let cursor = buffer_commands(layers, l, 2, target, true);
        lemma_text_pass_order(layers, l as nat, target);
        lemma_buffer_order(layers, l, 1, target, true, true);
        lemma_buffer_order(layers, l, 2, target, true, true);
        assert forall|a: GpuCommand, b: GpuCommand|
            text.contains(a) && cursor.contains(b) implies #[trigger] may_precede(a, b, true) by {
            lemma_buffer_contains(layers, l, 1, target, true, a);
            lemma_buffer_contains(layers, l, 2, target, true, b);
        }
        lemma_order_concat(text, cursor, true);
        assert forall|a: GpuCommand, b: GpuCommand|
            earlier.contains(a) && (text + cursor).contains(b) implies #[trigger] may_precede(
            a,
            b,
            true,
        ) by {
            lemma_text_pass_contains(layers, l as nat, target, a);
            lemma_contains_concat(text, cursor, b);
            lemma_buffer_contains(layers, l, 1, target, true, b);
            lemma_buffer_contains(layers, l, 2, target, true, b);
        }
        lemma_order_concat(earlier, text + cursor, true);
    }
}

proof fn lemma_chain_order(chain: Chain, count: usize, output: Texture, background: bool)
    ensures
        in_order(chain_commands(chain, count, output), background),
{
    let commands = chain_commands(chain, count, output);
    let passes = chain_passes(chain, count as nat, count as int, output);
    assert forall|i: int, j: int| 0 <= i < j < commands.len() implies may_precede(
        #[trigger] commands[i],
        #[trigger] commands[j],
        background,
    ) by {
        assert(commands[j] == passes[j - 1]);
        if i > 0 {
            assert(commands[i] == passes[i - 1]);
        }
    }
}

proof fn lemma_content_order(
    layers: Seq<RenderLayer>,
    background: Option<usize>,
    post: Option<usize>,
)
    requires
        layers.len() <= usize::MAX,
    ensures
        in_order(content_commands(layers, background, post), background is Some),
{
    let target = main_render_target(post);
    match background {
        Some(count) => {
            let backgrounds = background_pass(layers, layers.len());
            let chain = chain_commands(Chain::Background, count, target);
            let feedback = background_feedback(post);
            let text = text_pass(layers, layers.len(), target);
            lemma_background_pass_order(layers, layers.len());
            lemma_chain_order(Chain::Background, count, target, true);
            lemma_text_pass_order(layers, layers.len(), target);
            assert forall|a: GpuCommand, b: GpuCommand|
                backgrounds.contains(a) && chain.contains(b) implies #[trigger] may_precede(
                a,
                b,
                true,
            ) by {
                lemma_background_pass_contains(layers, layers.len(), a);
                lemma_chain_contains(Chain::Background, count, target, b);
            }
            lemma_order_concat(backgrounds, chain, true);
            assert forall|a: GpuCommand, b: GpuCommand|
                (backgrounds + chain).contains(a) && feedback.contains(
                    b,
                ) implies #[trigger] may_precede(a, b, true) by {
                lemma_contains_concat(backgrounds, chain, a);
                lemma_background_pass_contains(layers, layers.len(), a);
                lemma_chain_contains(Chain::Background, count, target, a);
                if post is Some {
                    lemma_contains_one(feedback[0], b);
                }
            }
            lemma_order_concat(backgrounds + chain, feedback, true);
            assert forall|a: GpuCommand, b: GpuCommand|
                (backgrounds + chain + feedback).contains(a) && text.contains(
                    b,
                ) implies #[trigger] may_precede(a, b, true) by {
                lemma_contains_concat(backgrounds + chain, feedback, a);
                lemma_contains_concat(backgrounds, chain, a);
                lemma_background_pass_contains(layers, layers.len(), a);
                lemma_chain_contains(Chain::Background, count, target, a);
                if post is Some {
                    lemma_contains_one(feedback[0], a);
                }
                lemma_text_pass_contains(layers, layers.len(), target, b);
            }
            lemma_order_concat(backgrounds + chain + feedback, text, true);
        },
        None => {
            lemma_single_pass_order(layers, layers.len(), target);
        },
    }
}

proof fn lemma_post_process_order(post: Option<usize>, background: bool)
    ensures
        in_order(post_process_commands(post), background),
        forall|a: GpuCommand| #[trigger]
            post_process_commands(post).contains(a) ==> 5 <= stage(a, background) <= 8
                && a !is DrawBuffer,
{
    if let Some(count) = post {
        let chain = chain_commands(Chain::Final, count, Texture::Surface);
        let keep = GpuCommand::CopyTexture {
            from: Texture::Intermediate(Chain::Final),
            to: Texture::Kept(Chain::Final),
        };
        let hand_on = GpuCommand::CopyTexture {
            from: Texture::Kept(Chain::Final),
            to: Texture::PrevFrame(Chain::Final),
        };
        lemma_chain_order(Chain::Final, count, Texture::Surface, background);
        assert forall|a: GpuCommand, b: GpuCommand|
            seq![keep].contains(a) && chain.contains(b) implies #[trigger] may_precede(
            a,
            b,
            background,
        ) by {
            lemma_contains_one(keep, a);
            lemma_chain_contains(Chain::Final, count, Texture::Surface, b);
        }
        lemma_order_concat(seq![keep], chain, background);
        assert forall|a: GpuCommand, b: GpuCommand|
            (seq![keep] + chain).contains(a) && seq![hand_on].contains(
                b,
            ) implies #[trigger] may_precede(a, b, background) by {
            lemma_contains_concat(seq![keep], chain, a);
            lemma_contains_one(keep, a);
            lemma_chain_contains(Chain::Final, count, Texture::Surface, a);
            lemma_contains_one(hand_on, b);
        }
        lemma_order_concat(seq![keep] + chain, seq![hand_on], background);
        assert forall|a: GpuCommand| #[trigger]
            post_process_commands(post).contains(a) implies 5 <= stage(a, background) <= 8
            && a !is DrawBuffer by {
            lemma_contains_concat(seq![keep] + chain, seq![hand_on], a);
            lemma_contains_concat(seq![keep], chain, a);
            lemma_contains_one(keep, a);
            lemma_contains_one(hand_on, a);
            lemma_chain_contains(Chain::Final, count, Texture::Surface, a);
        }
    }
}

/// The order of a frame. Where backgrounds have a chain of their own: backgrounds, that
/// chain's uniform, its shaders, and what it is to see of this frame in the next one.
/// Then all other buffers, and at last the final chain: its picture is set aside, it is
/// handed the uniform, its shaders run, and the picture is handed to the next frame.
/// Buffers are drawn layer by layer, and shaders run by number. Nothing but moving on
/// from a vertex buffer is done twice.
pub proof fn law_order_of_a_frame(
    layers: Seq<RenderLayer>,
    background: Option<usize>,
    post: Option<usize>,
)
    requires
        layers.len() <= usize::MAX,
    ensures
        in_order(frame_commands(layers, background, post), background is Some),
{
    let apart = background is Some;
    let content = content_commands(layers, background, post);
    let shaders = post_process_commands(post);
    let end = seq![GpuCommand::Submit, GpuCommand::Present];
    lemma_content_order(layers, background, post);
    lemma_post_process_order(post, apart);
    assert forall|a: GpuCommand| #[trigger] content.contains(a) implies a is NextIndex || stage(
        a,
        apart,
    ) <= 4 by {
        lemma_content_contains(layers, background, post, a);
        let target = main_render_target(post);
        match background {
            Some(count) => {
                lemma_background_pass_contains(layers, layers.len(), a);
                lemma_chain_contains(Chain::Background, count, target, a);
                lemma_text_pass_contains(layers, layers.len(), target, a);
                if post is Some {
                    lemma_contains_one(background_feedback(post)[0], a);
                }
            },
            None => {
                lemma_single_pass_contains(layers, layers.len(), target, a);
            },
        }
    }
    lemma_order_concat(content, shaders, apart);
    assert forall|a: GpuCommand, b: GpuCommand|
        (content + shaders).contains(a) && end.contains(b) implies #[trigger] may_precede(
        a,
        b,
        apart,
    ) by {
        lemma_contains_concat(content, shaders, a);
    }
    lemma_order_concat(content + shaders, end, apart);
}

/// Each chain that is there is handed this frame's uniform exactly once, before any of
/// its shaders runs, however many shaders it has. A chain that is not there is not.
pub proof fn law_uniform_precedes_shaders(
    layers: Seq<RenderLayer>,
    background: Option<usize>,
    post: Option<usize>,
    chain: Chain,
)
    requires
        layers.len() <= usize::MAX,
    ensures
        ({
            let commands = frame_commands(layers, background, post);
            let uniform = GpuCommand::WriteUniform { chain };
            if chain == Chain::Background && background is Some || chain == Chain::Final && post
                is Some {
                exists|i: int|
                    {
                        &&& 0 <= i < commands.len()
                        &&& #[trigger] commands[i] == uniform
                        &&& forall|j: int|
                            0 <= j < commands.len() && j != i ==> #[trigger] commands[j] != uniform
                        &&& forall|j: int|
                            0 <= j < commands.len() && (#[trigger] commands[j] matches
                                GpuCommand::ShaderPass { chain: other, .. } && other == chain)
                                ==> i < j
                    }
            } else {
                forall|j: int|
                    0 <= j < commands.len() ==> #[trigger] commands[j] != uniform && !(
                    commands[j] matches GpuCommand::ShaderPass { chain: other, .. } && other
                        == chain)
            }
        }),
{
    let commands = frame_commands(layers, background, post);
    let uniform = GpuCommand::WriteUniform { chain };
    law_what_a_frame_does(layers, background, post, uniform);
    law_order_of_a_frame(layers, background, post);
    if chain == Chain::Background && background is Some || chain == Chain::Final && post is Some {
        let i = choose|i: int| 0 <= i < commands.len() && commands[i] == uniform;
        assert(commands[i] == uniform);
        assert forall|j: int| 0 <= j < commands.len() && j != i implies #[trigger] commands[j]
            != uniform by {
            if j < i {
                assert(may_precede(commands[j], commands[i], background is Some));
            } else {
                assert(may_precede(commands[i], commands[j], background is Some));
            }
        }
        assert forall|j: int|
            0 <= j < commands.len() && (#[trigger] commands[j] matches GpuCommand::ShaderPass {
                chain: other,
                ..
            } && other == chain) implies i < j by {
            if j < i {
                assert(may_precede(commands[j], commands[i], background is Some));
            }
        }
    } else {
        assert forall|j: int| 0 <= j < commands.len() implies #[trigger] commands[j] != uniform
            && !(commands[j] matches GpuCommand::ShaderPass { chain: other, .. } && other
            == chain) by {
            assert(commands.contains(commands[j]));
            law_what_a_frame_does(layers, background, post, commands[j]);
        }
    }
}

} // verus!
