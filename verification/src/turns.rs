//! How often a frame draws each vertex buffer, and how often it moves on from it.
use crate::layers::{drawn_before, has_vertices, slot_at, RenderLayer, Slot};
use crate::webgpu::{
    background_feedback, background_pass, buffer_commands, chain_commands, chain_pass, chain_passes,
    content_commands, frame_commands, main_render_target, post_process_commands, single_pass,
    text_pass, Chain, GpuCommand, Texture,
};
use vstd::prelude::*;

verus! {

/// How often `commands` draw from a slot.
pub open spec fn draws(commands: Seq<GpuCommand>, slot: Slot) -> nat
    decreases commands.len(),
{
    if commands.len() == 0 {
        0
    } else {
        let earlier = draws(commands.drop_last(), slot);
        match commands.last() {
            GpuCommand::DrawBuffer { slot: drawn, .. } if drawn == slot => earlier + 1,
            _ => earlier,
        }
    }
}

/// How often `commands` move on to the next vertex buffer of a slot.
pub open spec fn advances(commands: Seq<GpuCommand>, slot: Slot) -> nat
    decreases commands.len(),
{
    if commands.len() == 0 {
        0
    } else {
        let earlier = advances(commands.drop_last(), slot);
        match commands.last() {
            GpuCommand::NextIndex { slot: left } if left == slot => earlier + 1,
            _ => earlier,
        }
    }
}

/// 1 where something is to be drawn, 0 where nothing is.
pub open spec fn once_if_filled(layers: Seq<RenderLayer>, layer: int, idx: int) -> nat {
    if layers[layer].vb[idx].vertex_count > 0 {
        1
    } else {
        0
    }
}

/// Commands that follow one another.
proof fn lemma_concat(first: Seq<GpuCommand>, second: Seq<GpuCommand>, slot: Slot)
    ensures
        draws(first + second, slot) == draws(first, slot) + draws(second, slot),
        advances(first + second, slot) == advances(first, slot) + advances(second, slot),
    decreases second.len(),
{
    if second.len() == 0 {
        assert(first + second == first);
    } else {
        assert((first + second).drop_last() == first + second.drop_last());
        lemma_concat(first, second.drop_last(), slot);
    }
}

/// A single command.
proof fn lemma_one(command: GpuCommand, slot: Slot)
    ensures
        draws(seq![command], slot) == (match command {
            GpuCommand::DrawBuffer { slot: drawn, .. } if drawn == slot => 1nat,
            _ => 0nat,
        }),
        advances(seq![command], slot) == (match command {
            GpuCommand::NextIndex { slot: left } if left == slot => 1nat,
            _ => 0nat,
        }),
{
    assert(seq![command].drop_last() == Seq::<GpuCommand>::empty());
    reveal_with_fuel(draws, 2);
    reveal_with_fuel(advances, 2);
}

/// The commands of one vertex buffer.
proof fn lemma_buffer(
    layers: Seq<RenderLayer>,
    layer: int,
    idx: int,
    target: Texture,
    cleared: bool,
    slot: Slot,
)
    ensures
        ({
            let commands = buffer_commands(layers, layer, idx, target, cleared);
            let this = slot_at(layer, idx) == slot;
            &&& draws(commands, slot) == (if this {
                once_if_filled(layers, layer, idx)
            } else {
                0
            })
            &&& advances(commands, slot) == (if this {
                1nat
            } else {
                0
            })
        }),
{
    let commands = buffer_commands(layers, layer, idx, target, cleared);
    if has_vertices(layers, layer, idx) {
        assert(commands == seq![commands[0]] + seq![commands[1]]);
        lemma_concat(seq![commands[0]], seq![commands[1]], slot);
        lemma_one(commands[0], slot);
        lemma_one(commands[1], slot);
    } else {
        lemma_one(commands[0], slot);
    }
}

/// Drawing all buffers of the first `n` layers.
proof fn lemma_single_pass(
    layers: Seq<RenderLayer>,
    n: nat,
    target: Texture,
    layer: int,
    idx: int,
)
    requires
        n <= layers.len() <= usize::MAX,
        0 <= layer < layers.len(),
        0 <= idx < 3,
    ensures
        ({
            let commands = single_pass(layers, n, target);
            let slot = slot_at(layer, idx);
            &&& draws(commands, slot) == (if layer < n {
                once_if_filled(layers, layer, idx)
            } else {
                0
            })
            &&& advances(commands, slot) == (if layer < n {
                1nat
            } else {
                0
            })
        }),
    decreases n,
{
    if n > 0 {
        let l = n - 1;
        let slot = slot_at(layer, idx);
        let c0 = drawn_before(layers, 0, 3, l, 0);
        let c1 = drawn_before(layers, 0, 3, l, 1);
        let c2 = drawn_before(layers, 0, 3, l, 2);
        let earlier = single_pass(layers, l as nat, target);
        let first = buffer_commands(layers, l, 0, target, c0);
        let second = buffer_commands(layers, l, 1, target, c1);
        let third = buffer_commands(layers, l, 2, target, c2);
        lemma_single_pass(layers, l as nat, target, layer, idx);
        lemma_concat(earlier, first + second + third, slot);
        lemma_concat(first + second, third, slot);
        lemma_concat(first, second, slot);
        lemma_buffer(layers, l, 0, target, c0, slot);
        lemma_buffer(layers, l, 1, target, c1, slot);
        lemma_buffer(layers, l, 2, target, c2, slot);
    }
}

/// Drawing the backgrounds of the first `n` layers.
proof fn lemma_background_pass(layers: Seq<RenderLayer>, n: nat, layer: int, idx: int)
    requires
        n <= layers.len() <= usize::MAX,
        0 <= layer < layers.len(),
        0 <= idx < 3,
    ensures
        ({
            let commands = background_pass(layers, n);
            let slot = slot_at(layer, idx);
            &&& draws(commands, slot) == (if layer < n && idx == 0 {
                once_if_filled(layers, layer, idx)
            } else {
                0
            })
            &&& advances(commands, slot) == (if layer < n {
                1nat
            } else {
                0
            })
        }),
    decreases n,
{
    if n > 0 {
        let l = n - 1;
        let slot = slot_at(layer, idx);
        let target = Texture::Intermediate(Chain::Background);
        let cleared = drawn_before(layers, 0, 1, l, 0);
        let earlier = background_pass(layers, l as nat);
        let draw = buffer_commands(layers, l, 0, target, cleared);
        let text = GpuCommand::NextIndex { slot: slot_at(l, 1) };
        let cursor = GpuCommand::NextIndex { slot: slot_at(l, 2) };
        lemma_background_pass(layers, l as nat, layer, idx);
        lemma_concat(earlier, draw + seq![text, cursor], slot);
        lemma_concat(draw, seq![text, cursor], slot);
        lemma_buffer(layers, l, 0, target, cleared, slot);
        assert(seq![text, cursor] == seq![text] + seq![cursor]);
        lemma_concat(seq![text], seq![cursor], slot);
        lemma_one(text, slot);
        lemma_one(cursor, slot);
    }
}

/// Drawing text and cursor of the first `n` layers.
proof fn lemma_text_pass(layers: Seq<RenderLayer>, n: nat, target: Texture, layer: int, idx: int)
    requires
        n <= layers.len() <= usize::MAX,
        0 <= layer < layers.len(),
        0 <= idx < 3,
    ensures
        ({
            let commands = text_pass(layers, n, target);
            let slot = slot_at(layer, idx);
            &&& draws(commands, slot) == (if layer < n && idx != 0 {
                once_if_filled(layers, layer, idx)
            } else {
                0
            })
            &&& advances(commands, slot) == (if layer < n && idx != 0 {
                1nat
            } else {
                0
            })
        }),
    decreases n,
{
    if n > 0 {
        let l = n - 1;
        let slot = slot_at(layer, idx);
        let earlier = text_pass(layers, l as nat, target);
        let text = buffer_commands(layers, l, 1, target, true);
        let cursor = buffer_commands(layers, l, 2, target, true);
        lemma_text_pass(layers, l as nat, target, layer, idx);
        lemma_concat(earlier, text + cursor, slot);
        lemma_concat(text, cursor, slot);
        lemma_buffer(layers, l, 1, target, true, slot);
        lemma_buffer(layers, l, 2, target, true, slot);
    }
}

/// Passes of a chain touch no vertex buffer.
proof fn lemma_passes(chain: Chain, done: nat, count: int, output: Texture, slot: Slot)
    ensures
        draws(chain_passes(chain, done, count, output), slot) == 0,
        advances(chain_passes(chain, done, count, output), slot) == 0,
    decreases done,
{
    let passes = chain_passes(chain, done, count, output);
    if done > 0 {
        let earlier = chain_passes(chain, (done - 1) as nat, count, output);
        assert(passes.drop_last() == earlier);
        assert(passes.last() == chain_pass(chain, done - 1, count, output));
        lemma_passes(chain, (done - 1) as nat, count, output, slot);
    }
}

/// A whole chain touches no vertex buffer.
proof fn lemma_chain(chain: Chain, count: usize, output: Texture, slot: Slot)
    ensures
        draws(chain_commands(chain, count, output), slot) == 0,
        advances(chain_commands(chain, count, output), slot) == 0,
{
    let uniform = GpuCommand::WriteUniform { chain };
    let passes = chain_passes(chain, count as nat, count as int, output);
    lemma_concat(seq![uniform], passes, slot);
    lemma_one(uniform, slot);
    lemma_passes(chain, count as nat, count as int, output, slot);
}

/// What the commands before final post-processing do with a vertex buffer.
proof fn lemma_content(
    layers: Seq<RenderLayer>,
    background: Option<usize>,
    post: Option<usize>,
    layer: int,
    idx: int,
)
    requires
        layers.len() <= usize::MAX,
        0 <= layer < layers.len(),
        0 <= idx < 3,
    ensures
        ({
            let commands = content_commands(layers, background, post);
            let slot = slot_at(layer, idx);
            &&& draws(commands, slot) == once_if_filled(layers, layer, idx)
            &&& advances(commands, slot) == (if background is Some && idx != 0 {
                2nat
            } else {
                1
            })
        }),
{
    let slot = slot_at(layer, idx);
    let target = main_render_target(post);
    match background {
        Some(count) => {
            let backgrounds = background_pass(layers, layers.len());
            let chain = chain_commands(Chain::Background, count, target);
            let feedback = background_feedback(post);
            let text = text_pass(layers, layers.len(), target);
            lemma_concat(backgrounds + chain + feedback, text, slot);
            lemma_concat(backgrounds + chain, feedback, slot);
            lemma_concat(backgrounds, chain, slot);
            lemma_background_pass(layers, layers.len(), layer, idx);
            lemma_chain(Chain::Background, count, target, slot);
            if post is Some {
                lemma_one(feedback[0], slot);
            }
            lemma_text_pass(layers, layers.len(), target, layer, idx);
        },
        None => {
            lemma_single_pass(layers, layers.len(), target, layer, idx);
        },
    }
}

/// What a frame does with a vertex buffer.
proof fn lemma_frame(
    layers: Seq<RenderLayer>,
    background: Option<usize>,
    post: Option<usize>,
    layer: int,
    idx: int,
)
    requires
        layers.len() <= usize::MAX,
        0 <= layer < layers.len(),
        0 <= idx < 3,
    ensures
        ({
            let commands = frame_commands(layers, background, post);
            let slot = slot_at(layer, idx);
            &&& draws(commands, slot) == once_if_filled(layers, layer, idx)
            &&& advances(commands, slot) == (if background is Some && idx != 0 {
                2nat
            } else {
                1
            })
        }),
{
    let slot = slot_at(layer, idx);
    let content = content_commands(layers, background, post);
    let shaders = post_process_commands(post);
    lemma_concat(content + shaders, seq![GpuCommand::Submit, GpuCommand::Present], slot);
    lemma_concat(content, shaders, slot);
    lemma_content(layers, background, post, layer, idx);
    if let Some(count) = post {
        let chain = chain_commands(Chain::Final, count, Texture::Surface);
        let keep = GpuCommand::CopyTexture {
            from: Texture::Intermediate(Chain::Final),
            to: Texture::Kept(Chain::Final),
        };
        let hand_on = GpuCommand::CopyTexture {
            from: Texture::Kept(Chain::Final),
            to: Texture::PrevFrame(Chain::Final),
        };
        lemma_concat(seq![keep] + chain, seq![hand_on], slot);
        lemma_concat(seq![keep], chain, slot);
        lemma_chain(Chain::Final, count, Texture::Surface, slot);
        lemma_one(keep, slot);
        lemma_one(hand_on, slot);
    }
    assert(seq![GpuCommand::Submit, GpuCommand::Present] == seq![GpuCommand::Submit] + seq![
        GpuCommand::Present,
    ]);
    lemma_concat(seq![GpuCommand::Submit], seq![GpuCommand::Present], slot);
    lemma_one(GpuCommand::Submit, slot);
    lemma_one(GpuCommand::Present, slot);
}

/// Whatever post-processing there is, a frame draws every vertex buffer that holds
/// anything exactly once, and no other.
pub proof fn law_every_filled_buffer_is_drawn_once(
    layers: Seq<RenderLayer>,
    background: Option<usize>,
    post: Option<usize>,
    layer: int,
    idx: int,
)
    requires
        layers.len() <= usize::MAX,
        0 <= layer < layers.len(),
        0 <= idx < 3,
    ensures
        draws(
            frame_commands(layers, background, post),
            Slot { layer: layer as usize, idx: idx as usize },
        ) == once_if_filled(layers, layer, idx),
{
    lemma_frame(layers, background, post, layer, idx);
}

/// Without background post-processing every slot moves on by one vertex buffer.
pub proof fn law_every_slot_moves_on_once(
    layers: Seq<RenderLayer>,
    post: Option<usize>,
    layer: int,
    idx: int,
)
    requires
        layers.len() <= usize::MAX,
        0 <= layer < layers.len(),
        0 <= idx < 3,
    ensures
        advances(
            frame_commands(layers, None, post),
            Slot { layer: layer as usize, idx: idx as usize },
        ) == 1,
{
    lemma_frame(layers, None, post, layer, idx);
}

/// With background post-processing the background slots move on by one vertex
/// buffer and the others by two: once with the backgrounds, before they are drawn,
/// and once when they are drawn.
pub proof fn law_text_slots_move_on_twice(
    layers: Seq<RenderLayer>,
    background: usize,
    post: Option<usize>,
    layer: int,
    idx: int,
)
    requires
        layers.len() <= usize::MAX,
        0 <= layer < layers.len(),
        0 <= idx < 3,
    ensures
        ({
            let slot = Slot { layer: layer as usize, idx: idx as usize };
            let target = main_render_target(post);
            let backgrounds = background_pass(layers, layers.len());
            let text = text_pass(layers, layers.len(), target);
            let frame = frame_commands(layers, Some(background), post);
            &&& advances(backgrounds, slot) == 1
            &&& advances(text, slot) == (if idx == 0 {
                0nat
            } else {
                1
            })
            &&& advances(frame, slot) == (if idx == 0 {
                1nat
            } else {
                2
            })
        }),
{
    lemma_background_pass(layers, layers.len(), layer, idx);
    lemma_text_pass(layers, layers.len(), main_render_target(post), layer, idx);
    lemma_frame(layers, Some(background), post, layer, idx);
}

/// Whether a command draws from a slot.
pub open spec fn draws_from(command: GpuCommand, slot: Slot) -> bool {
    command matches GpuCommand::DrawBuffer { slot: drawn, .. } && drawn == slot
}

/// Wherever `commands` draw from a slot, the slot has moved on `turn` times before.
pub open spec fn drawn_at_turn(commands: Seq<GpuCommand>, slot: Slot, turn: nat) -> bool {
    forall|i: int|
        0 <= i < commands.len() && #[trigger] draws_from(commands[i], slot) ==> advances(
            commands.take(i),
            slot,
        ) == turn
}

/// Commands that never draw from a slot do so at any turn.
proof fn lemma_never_drawn(commands: Seq<GpuCommand>, slot: Slot, turn: nat)
    requires
        draws(commands, slot) == 0,
    ensures
        drawn_at_turn(commands, slot, turn),
    decreases commands.len(),
{
    if commands.len() > 0 {
        let front = commands.drop_last();
        lemma_never_drawn(front, slot, turn);
        assert forall|i: int|
            0 <= i < commands.len() && #[trigger] draws_from(commands[i], slot) implies advances(
            commands.take(i),
            slot,
        ) == turn by {
            if i < front.len() {
                assert(draws_from(front[i], slot));
                assert(commands.take(i) == front.take(i));
            }
        }
    }
}

/// Commands that follow one another.
proof fn lemma_turn_concat(
    first: Seq<GpuCommand>,
    second: Seq<GpuCommand>,
    slot: Slot,
    turn: nat,
    second_turn: nat,
)
    requires
        drawn_at_turn(first, slot, turn),
        drawn_at_turn(second, slot, second_turn),
        draws(second, slot) == 0 || turn == advances(first, slot) + second_turn,
    ensures
        drawn_at_turn(first + second, slot, turn),
{
    let both = first + second;
    if draws(second, slot) == 0 {
        lemma_never_drawn(second, slot, second_turn + 1);
    }
    assert forall|i: int|
        0 <= i < both.len() && #[trigger] draws_from(both[i], slot) implies advances(
        both.take(i),
        slot,
    ) == turn by {
        if i < first.len() {
            assert(draws_from(first[i], slot));
            assert(both.take(i) == first.take(i));
        } else {
            let j = i - first.len();
            assert(draws_from(second[j], slot));
            assert(both.take(i) == first + second.take(j));
            lemma_concat(first, second.take(j), slot);
        }
    }
}

/// A vertex buffer is drawn before its slot moves on.
proof fn lemma_buffer_turn(
    layers: Seq<RenderLayer>,
    layer: int,
    idx: int,
    target: Texture,
    cleared: bool,
    slot: Slot,
)
    ensures
        drawn_at_turn(buffer_commands(layers, layer, idx, target, cleared), slot, 0),
{
    let commands = buffer_commands(layers, layer, idx, target, cleared);
    assert(commands.take(0) == Seq::<GpuCommand>::empty());
}

/// Drawing all buffers of the first `n` layers.
proof fn lemma_single_pass_turn(
    layers: Seq<RenderLayer>,
    n: nat,
    target: Texture,
    layer: int,
    idx: int,
)
    requires
        n <= layers.len() <= usize::MAX,
        0 <= layer < layers.len(),
        0 <= idx < 3,
    ensures
        drawn_at_turn(single_pass(layers, n, target), slot_at(layer, idx), 0),
    decreases n,
{
    if n > 0 {
        let l = n - 1;
        let slot = slot_at(layer, idx);
        let c0 = drawn_before(layers, 0, 3, l, 0);
        let c1 = drawn_before(layers, 0, 3, l, 1);
        let c2 = drawn_before(layers, 0, 3, l, 2);
        let earlier = single_pass(layers, l as nat, target);
        let first = buffer_commands(layers, l, 0, target, c0);
        let second = buffer_commands(layers, l, 1, target, c1);
        let third = buffer_commands(layers, l, 2, target, c2);
        lemma_single_pass_turn(layers, l as nat, target, layer, idx);
        lemma_single_pass(layers, l as nat, target, layer, idx);
        lemma_buffer(layers, l, 0, target, c0, slot);
        lemma_buffer(layers, l, 1, target, c1, slot);
        lemma_buffer(layers, l, 2, target, c2, slot);
        lemma_buffer_turn(layers, l, 0, target, c0, slot);
        lemma_buffer_turn(layers, l, 1, target, c1, slot);
        lemma_buffer_turn(layers, l, 2, target, c2, slot);
        lemma_concat(first, second, slot);
        lemma_concat(first + second, third, slot);
        lemma_turn_concat(first, second, slot, 0, 0);
        lemma_turn_concat(first + second, third, slot, 0, 0);
        lemma_turn_concat(earlier, first + second + third, slot, 0, 0);
    }
}

/// Drawing the backgrounds of the first `n` layers.
proof fn lemma_background_pass_turn(layers: Seq<RenderLayer>, n: nat, layer: int)
    requires
        n <= layers.len() <= usize::MAX,
        0 <= layer < layers.len(),
    ensures
        drawn_at_turn(background_pass(layers, n), slot_at(layer, 0), 0),
    decreases n,
{
    if n > 0 {
        let l = n - 1;
        let slot = slot_at(layer, 0);
        let target = Texture::Intermediate(Chain::Background);
        let cleared = drawn_before(layers, 0, 1, l, 0);
        let earlier = background_pass(layers, l as nat);
        let draw = buffer_commands(layers, l, 0, target, cleared);
        let rest = seq![
            GpuCommand::NextIndex { slot: slot_at(l, 1) },
            GpuCommand::NextIndex { slot: slot_at(l, 2) },
        ];
        lemma_background_pass_turn(layers, l as nat, layer);
        lemma_background_pass(layers, l as nat, layer, 0);
        lemma_buffer(layers, l, 0, target, cleared, slot);
        lemma_buffer_turn(layers, l, 0, target, cleared, slot);
        assert(rest == seq![rest[0]] + seq![rest[1]]);
        lemma_concat(seq![rest[0]], seq![rest[1]], slot);
        lemma_one(rest[0], slot);
        lemma_one(rest[1], slot);
        lemma_never_drawn(rest, slot, 0);
        lemma_turn_concat(draw, rest, slot, 0, 0);
        lemma_concat(draw, rest, slot);
        lemma_turn_concat(earlier, draw + rest, slot, 0, 0);
    }
}

/// Drawing text and cursor of the first `n` layers.
proof fn lemma_text_pass_turn(
    layers: Seq<RenderLayer>,
    n: nat,
    target: Texture,
    layer: int,
    idx: int,
)
    requires
        n <= layers.len() <= usize::MAX,
        0 <= layer < layers.len(),
        1 <= idx < 3,
    ensures
        drawn_at_turn(text_pass(layers, n, target), slot_at(layer, idx), 0),
    decreases n,
{
    if n > 0 {
        let l = n - 1;
        let slot = slot_at(layer, idx);
        let earlier = text_pass(layers, l as nat, target);
        let text = buffer_commands(layers, l, 1, target, true);
        let cursor = buffer_commands(layers, l, 2, target, true);
        lemma_text_pass_turn(layers, l as nat, target, layer, idx);
        lemma_text_pass(layers, l as nat, target, layer, idx);
        lemma_buffer(layers, l, 1, target, true, slot);
        lemma_buffer(layers, l, 2, target, true, slot);
        lemma_buffer_turn(layers, l, 1, target, true, slot);
        lemma_buffer_turn(layers, l, 2, target, true, slot);
        lemma_concat(text, cursor, slot);
        lemma_turn_concat(text, cursor, slot, 0, 0);
        lemma_turn_concat(earlier, text + cursor, slot, 0, 0);
    }
}

/// Which of the vertex buffers that take turns in a slot a frame draws: the one that
/// is up when the frame begins, but for text and cursor the next one where there is
/// background post-processing, since their slots have moved on with the backgrounds.
pub proof fn law_which_buffer_is_drawn(
    layers: Seq<RenderLayer>,
    background: Option<usize>,
    post: Option<usize>,
    layer: int,
    idx: int,
)
    requires
        layers.len() <= usize::MAX,
        0 <= layer < layers.len(),
        0 <= idx < 3,
    ensures
        drawn_at_turn(
            frame_commands(layers, background, post),
            Slot { layer: layer as usize, idx: idx as usize },
            if background is Some && idx != 0 {
                1
            } else {
                0
            },
        ),
{
    let slot = slot_at(layer, idx);
    let turn: nat = if background is Some && idx != 0 {
        1
    } else {
        0
    };
    let target = main_render_target(post);
    let content = content_commands(layers, background, post);
    let shaders = post_process_commands(post);
    let end = seq![GpuCommand::Submit, GpuCommand::Present];
    match background {
        Some(count) => {
            let backgrounds = background_pass(layers, layers.len());
            let chain = chain_commands(Chain::Background, count, target);
            let feedback = background_feedback(post);
            let text = text_pass(layers, layers.len(), target);
            lemma_background_pass(layers, layers.len(), layer, idx);
            lemma_chain(Chain::Background, count, target, slot);
            lemma_text_pass(layers, layers.len(), target, layer, idx);
            if post is Some {
                lemma_one(feedback[0], slot);
            }
            if idx == 0 {
                lemma_background_pass_turn(layers, layers.len(), layer);
                lemma_never_drawn(text, slot, 0);
            } else {
                lemma_never_drawn(backgrounds, slot, 1);
                lemma_text_pass_turn(layers, layers.len(), target, layer, idx);
            }
            lemma_never_drawn(chain, slot, 0);
            lemma_never_drawn(feedback, slot, 0);
            lemma_concat(backgrounds, chain, slot);
            lemma_concat(backgrounds + chain, feedback, slot);
            lemma_turn_concat(backgrounds, chain, slot, turn, 0);
            lemma_turn_concat(backgrounds + chain, feedback, slot, turn, 0);
            lemma_turn_concat(backgrounds + chain + feedback, text, slot, turn, 0);
        },
        None => {
            lemma_single_pass_turn(layers, layers.len(), target, layer, idx);
        },
    }
    lemma_content(layers, background, post, layer, idx);
    lemma_frame(layers, background, post, layer, idx);
    lemma_concat(content + shaders, end, slot);
    lemma_concat(content, shaders, slot);
    lemma_never_drawn(shaders, slot, 0);
    lemma_never_drawn(end, slot, 0);
    lemma_turn_concat(content, shaders, slot, turn, 0);
    lemma_turn_concat(content + shaders, end, slot, turn, 0);
}

} // verus!
