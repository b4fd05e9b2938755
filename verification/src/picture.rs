//! What the commands of a frame make of the textures.
//!
//! A texture's contents are written down as the steps that led to them, so that it
//! can be stated which picture a frame ends up showing.
use crate::layers::{
    drawn_before, has_vertices, lemma_drawn_before_next_buffer, lemma_drawn_before_next_layer,
    slot_at, RenderLayer, Slot,
};
use crate::webgpu::{
    background_feedback, background_pass, buffer_commands, chain_commands, chain_pass, chain_passes,
    content_commands, frame_commands, main_render_target, post_process_commands, single_pass,
    text_pass, Chain, GpuCommand, LoadOp, Texture,
};
use vstd::prelude::*;

verus! {

/// The contents of a texture.
pub enum Picture {
    /// Transparent black.
    Blank,
    /// A vertex buffer drawn over another picture.
    Drawn { under: Box<Picture>, slot: Slot, index_end: u32 },
    /// What shader number `pipeline` of a chain made of a picture and of what its
    /// chain was given of the previous frame.
    Shaded { chain: Chain, pipeline: usize, source: Box<Picture>, previous: Box<Picture> },
}

/// The contents of the textures after a command.
pub open spec fn apply(
    command: GpuCommand,
    textures: Map<Texture, Picture>,
) -> Map<Texture, Picture> {
    match command {
        GpuCommand::DrawBuffer { slot, target, load, index_end } => {
            let under = match load {
                LoadOp::Clear => Picture::Blank,
                LoadOp::Load => textures[target],
            };
            textures.insert(target, Picture::Drawn { under: Box::new(under), slot, index_end })
        },
        GpuCommand::ShaderPass { chain, pipeline, read, write } => textures.insert(
            write,
            Picture::Shaded {
                chain,
                pipeline,
                source: Box::new(textures[read]),
                previous: Box::new(textures[Texture::PrevFrame(chain)]),
            },
        ),
        GpuCommand::CopyTexture { from, to } => textures.insert(to, textures[from]),
        _ => textures,
    }
}

/// The contents of the textures after some commands.
pub open spec fn run(
    commands: Seq<GpuCommand>,
    textures: Map<Texture, Picture>,
) -> Map<Texture, Picture>
    decreases commands.len(),
{
    if commands.len() == 0 {
        textures
    } else {
        apply(commands.last(), run(commands.drop_last(), textures))
    }
}

/// Of the buffers from `first` up to `end` of each layer, drawn layer by layer, those
/// that come before buffer `idx` of layer `layer`, drawn over `base`.
pub open spec fn painted(
    layers: Seq<RenderLayer>,
    first: int,
    end: int,
    layer: int,
    idx: int,
    base: Picture,
) -> Picture
    decreases layer, idx - first,
{
    if first < idx {
        let under = painted(layers, first, end, layer, idx - 1, base);
        if layers[layer].vb[idx - 1].vertex_count > 0 {
            Picture::Drawn {
                under: Box::new(under),
                slot: Slot { layer: layer as usize, idx: (idx - 1) as usize },
                index_end: layers[layer].vb[idx - 1].index_count as u32,
            }
        } else {
            under
        }
    } else if 0 < layer {
        painted(layers, first, end, layer - 1, end, base)
    } else {
        base
    }
}

/// Like [`painted`], but over a blank picture. Where nothing is drawn, the target
/// keeps its old picture.
pub open spec fn freshly_painted(
    layers: Seq<RenderLayer>,
    first: int,
    end: int,
    layer: int,
    idx: int,
    old_picture: Picture,
) -> Picture {
    let fresh = painted(layers, first, end, layer, idx, Picture::Blank);
    if fresh == Picture::Blank {
        old_picture
    } else {
        fresh
    }
}

/// What the first `passes` shaders of a chain make of a picture, one after the other.
pub open spec fn shaded(
    chain: Chain,
    passes: nat,
    source: Picture,
    previous: Picture,
) -> Picture
    decreases passes,
{
    if passes == 0 {
        source
    } else {
        Picture::Shaded {
            chain,
            pipeline: (passes - 1) as usize,
            source: Box::new(shaded(chain, (passes - 1) as nat, source, previous)),
            previous: Box::new(previous),
        }
    }
}

/// The backgrounds of all layers, as the background chain finds them.
pub open spec fn background_picture(
    layers: Seq<RenderLayer>,
    textures: Map<Texture, Picture>,
) -> Picture {
    freshly_painted(
        layers,
        0,
        1,
        layers.len() as int,
        0,
        textures[Texture::Intermediate(Chain::Background)],
    )
}

/// The backgrounds after the background chain, as text is drawn over them. A chain
/// without shaders leaves the main render target as it was.
pub open spec fn shaded_background(
    layers: Seq<RenderLayer>,
    shaders: usize,
    post: Option<usize>,
    textures: Map<Texture, Picture>,
) -> Picture {
    if shaders == 0 {
        textures[if post is Some {
            Texture::Intermediate(Chain::Final)
        } else {
            Texture::Surface
        }]
    } else {
        shaded(
            Chain::Background,
            shaders as nat,
            background_picture(layers, textures),
            textures[Texture::PrevFrame(Chain::Background)],
        )
    }
}

/// The complete picture, before final post-processing.
pub open spec fn content_picture(
    layers: Seq<RenderLayer>,
    background: Option<usize>,
    post: Option<usize>,
    textures: Map<Texture, Picture>,
) -> Picture {
    match background {
        Some(shaders) => painted(
            layers,
            1,
            3,
            layers.len() as int,
            1,
            shaded_background(layers, shaders, post, textures),
        ),
        None => freshly_painted(
            layers,
            0,
            3,
            layers.len() as int,
            0,
            textures[if post is Some {
                Texture::Intermediate(Chain::Final)
            } else {
                Texture::Surface
            }],
        ),
    }
}

/// Commands that follow one another.
proof fn lemma_run_concat(
    first: Seq<GpuCommand>,
    second: Seq<GpuCommand>,
    textures: Map<Texture, Picture>,
)
    ensures
        run(first + second, textures) == run(second, run(first, textures)),
    decreases second.len(),
{
    if second.len() == 0 {
        assert(first + second == first);
    } else {
        assert((first + second).drop_last() == first + second.drop_last());
        lemma_run_concat(first, second.drop_last(), textures);
    }
}

/// A single command.
proof fn lemma_run_one(command: GpuCommand, textures: Map<Texture, Picture>)
    ensures
        run(seq![command], textures) == apply(command, textures),
{
    assert(seq![command].drop_last() == Seq::<GpuCommand>::empty());
    reveal_with_fuel(run, 2);
}

/// What the commands of one vertex buffer do.
proof fn lemma_run_buffer(
    layers: Seq<RenderLayer>,
    layer: int,
    idx: int,
    target: Texture,
    cleared: bool,
    textures: Map<Texture, Picture>,
)
    ensures
        run(buffer_commands(layers, layer, idx, target, cleared), textures) == (
        if has_vertices(layers, layer, idx) {
            textures.insert(
                target,
                Picture::Drawn {
                    under: Box::new(
                        if cleared {
                            textures[target]
                        } else {
                            Picture::Blank
                        },
                    ),
                    slot: slot_at(layer, idx),
                    index_end: layers[layer].vb[idx].index_count as u32,
                },
            )
        } else {
            textures
        }),
{
    let slot = slot_at(layer, idx);
    let advance = GpuCommand::NextIndex { slot };
    if has_vertices(layers, layer, idx) {
        let draw = GpuCommand::DrawBuffer {
            slot,
            target,
            load: if cleared {
                LoadOp::Load
            } else {
                LoadOp::Clear
            },
            index_end: layers[layer].vb[idx].index_count as u32,
        };
        lemma_run_concat(seq![draw], seq![advance], textures);
        lemma_run_one(draw, textures);
        lemma_run_one(advance, run(seq![draw], textures));
    } else {
        lemma_run_one(advance, textures);
    }
}

/// Only the target changes, and it shows `picture`.
pub open spec fn only_target_changes(
    before: Map<Texture, Picture>,
    after: Map<Texture, Picture>,
    target: Texture,
    picture: Picture,
) -> bool {
    &&& after[target] == picture
    &&& forall|other: Texture| other != target ==> #[trigger] after[other] == before[other]
}

/// One more buffer of a pass that clears its target.
proof fn lemma_run_fresh_buffer(
    layers: Seq<RenderLayer>,
    first: int,
    end: int,
    layer: int,
    idx: int,
    target: Texture,
    start: Map<Texture, Picture>,
    textures: Map<Texture, Picture>,
)
    requires
        0 <= layer,
        first <= idx < end,
        only_target_changes(
            start,
            textures,
            target,
            freshly_painted(layers, first, end, layer, idx, start[target]),
        ),
    ensures
        only_target_changes(
            start,
            run(
                buffer_commands(
                    layers,
                    layer,
                    idx,
                    target,
                    drawn_before(layers, first, end, layer, idx),
                ),
                textures,
            ),
            target,
            freshly_painted(layers, first, end, layer, idx + 1, start[target]),
        ),
{
    let cleared = drawn_before(layers, first, end, layer, idx);
    lemma_run_buffer(layers, layer, idx, target, cleared, textures);
    lemma_drawn_before_next_buffer(layers, first, end, layer, idx);
    if cleared {
        lemma_painted_something(layers, first, end, layer, idx);
    } else {
        lemma_painted_nothing(layers, first, end, layer, idx, Picture::Blank);
    }
    if has_vertices(layers, layer, idx) {
        lemma_painted_something(layers, first, end, layer, idx + 1);
    }
}

/// Where nothing is drawn, the base shows.
proof fn lemma_painted_nothing(
    layers: Seq<RenderLayer>,
    first: int,
    end: int,
    layer: int,
    idx: int,
    base: Picture,
)
    requires
        0 <= layer,
        first <= idx <= end,
        !drawn_before(layers, first, end, layer, idx),
    ensures
        painted(layers, first, end, layer, idx, base) == base,
    decreases layer, idx - first,
{
    if first < idx {
        lemma_drawn_before_next_buffer(layers, first, end, layer, idx - 1);
        lemma_painted_nothing(layers, first, end, layer, idx - 1, base);
    } else if 0 < layer {
        lemma_drawn_before_next_layer(layers, first, end, layer - 1);
        lemma_painted_nothing(layers, first, end, layer - 1, end, base);
    }
}

/// Where something is drawn, the picture is no longer blank.
proof fn lemma_painted_something(
    layers: Seq<RenderLayer>,
    first: int,
    end: int,
    layer: int,
    idx: int,
)
    requires
        0 <= layer,
        first <= idx <= end,
        drawn_before(layers, first, end, layer, idx),
    ensures
        painted(layers, first, end, layer, idx, Picture::Blank) != Picture::Blank,
    decreases layer, idx - first,
{
    if first < idx {
        lemma_drawn_before_next_buffer(layers, first, end, layer, idx - 1);
        if !has_vertices(layers, layer, idx - 1) {
            lemma_painted_something(layers, first, end, layer, idx - 1);
        }
    } else if 0 < layer {
        lemma_drawn_before_next_layer(layers, first, end, layer - 1);
        lemma_painted_something(layers, first, end, layer - 1, end);
    }
}

/// The end of a layer is the start of the next one.
proof fn lemma_painted_next_layer(
    layers: Seq<RenderLayer>,
    first: int,
    end: int,
    layer: int,
    base: Picture,
)
    requires
        0 <= layer,
    ensures
        painted(layers, first, end, layer + 1, first, base) == painted(
            layers,
            first,
            end,
            layer,
            end,
            base,
        ),
        freshly_painted(layers, first, end, layer + 1, first, base) == freshly_painted(
            layers,
            first,
            end,
            layer,
            end,
            base,
        ),
{
    lemma_drawn_before_next_layer(layers, first, end, layer);
}

/// What drawing all buffers of the first `n` layers does.
proof fn lemma_run_single_pass(
    layers: Seq<RenderLayer>,
    n: nat,
    target: Texture,
    textures: Map<Texture, Picture>,
)
    ensures
        only_target_changes(
            textures,
            run(single_pass(layers, n, target), textures),
            target,
            freshly_painted(layers, 0, 3, n as int, 0, textures[target]),
        ),
    decreases n,
{
    if n > 0 {
        let l = n - 1;
        let earlier = single_pass(layers, l as nat, target);
        let first = buffer_commands(
            layers,
            l,
            0,
            target,
            drawn_before(layers, 0, 3, l, 0),
        );
        let second = buffer_commands(
            layers,
            l,
            1,
            target,
            drawn_before(layers, 0, 3, l, 1),
        );
        let third = buffer_commands(
            layers,
            l,
            2,
            target,
            drawn_before(layers, 0, 3, l, 2),
        );
        lemma_run_single_pass(layers, l as nat, target, textures);
        let t0 = run(earlier, textures);
        lemma_run_concat(earlier, first + second + third, textures);
        lemma_run_concat(first + second, third, t0);
        lemma_run_concat(first, second, t0);
        lemma_run_fresh_buffer(layers, 0, 3, l, 0, target, textures, t0);
        let t1 = run(first, t0);
        lemma_run_fresh_buffer(layers, 0, 3, l, 1, target, textures, t1);
        let t2 = run(second, t1);
        lemma_run_fresh_buffer(layers, 0, 3, l, 2, target, textures, t2);
        lemma_painted_next_layer(layers, 0, 3, l, textures[target]);
    }
}

/// What drawing the backgrounds of the first `n` layers does.
proof fn lemma_run_background_pass(
    layers: Seq<RenderLayer>,
    n: nat,
    textures: Map<Texture, Picture>,
)
    ensures
        only_target_changes(
            textures,
            run(background_pass(layers, n), textures),
            Texture::Intermediate(Chain::Background),
            freshly_painted(
                layers,
                0,
                1,
                n as int,
                0,
                textures[Texture::Intermediate(Chain::Background)],
            ),
        ),
    decreases n,
{
    if n > 0 {
        let l = n - 1;
        let target = Texture::Intermediate(Chain::Background);
        let earlier = background_pass(layers, l as nat);
        let draw = buffer_commands(
            layers,
            l,
            0,
            target,
            drawn_before(layers, 0, 1, l, 0),
        );
        let text = GpuCommand::NextIndex { slot: slot_at(l, 1) };
        let cursor = GpuCommand::NextIndex { slot: slot_at(l, 2) };
        lemma_run_background_pass(layers, l as nat, textures);
        let t0 = run(earlier, textures);
        lemma_run_concat(earlier, draw + seq![text, cursor], textures);
        lemma_run_concat(draw, seq![text, cursor], t0);
        lemma_run_fresh_buffer(layers, 0, 1, l, 0, target, textures, t0);
        let t1 = run(draw, t0);
        assert(seq![text, cursor] == seq![text] + seq![cursor]);
        lemma_run_concat(seq![text], seq![cursor], t1);
        lemma_run_one(text, t1);
        lemma_run_one(cursor, t1);
        lemma_painted_next_layer(layers, 0, 1, l, textures[target]);
    }
}

/// What drawing text and cursor of the first `n` layers does.
proof fn lemma_run_text_pass(
    layers: Seq<RenderLayer>,
    n: nat,
    target: Texture,
    textures: Map<Texture, Picture>,
)
    ensures
        only_target_changes(
            textures,
            run(text_pass(layers, n, target), textures),
            target,
            painted(layers, 1, 3, n as int, 1, textures[target]),
        ),
    decreases n,
{
    if n > 0 {
        let l = n - 1;
        let earlier = text_pass(layers, l as nat, target);
        let text = buffer_commands(layers, l, 1, target, true);
        let cursor = buffer_commands(layers, l, 2, target, true);
        lemma_run_text_pass(layers, l as nat, target, textures);
        let t0 = run(earlier, textures);
        lemma_run_concat(earlier, text + cursor, textures);
        lemma_run_concat(text, cursor, t0);
        lemma_run_buffer(layers, l, 1, target, true, t0);
        let t1 = run(text, t0);
        lemma_run_buffer(layers, l, 2, target, true, t1);
        assert(painted(layers, 1, 3, l, 2, textures[target]) == t1[target]);
        lemma_painted_next_layer(layers, 1, 3, l, textures[target]);
    }
}

/// The number of shaders whose work the intermediate texture shows after a chain's
/// first `done` passes, not counting the one that writes the chain's output: passes
/// write the ping-pong texture and the intermediate texture in turn.
spec fn shaders_in_intermediate(done: nat) -> nat {
    (done / 2) * 2
}

/// What the first `done` of the `count` passes of a chain do.
proof fn lemma_run_passes(
    chain: Chain,
    done: nat,
    count: usize,
    output: Texture,
    textures: Map<Texture, Picture>,
)
    requires
        done <= count,
        output != Texture::Intermediate(chain),
        output != Texture::PingPong(chain),
        output != Texture::PrevFrame(chain),
    ensures
        ({
            let after = run(
                chain_passes(chain, done, count as int, output),
                textures,
            );
            let source = textures[Texture::Intermediate(chain)];
            let previous = textures[Texture::PrevFrame(chain)];
            let inner = if done == count && done > 0 {
                (done - 1) as nat
            } else {
                done
            };
            &&& after[Texture::Intermediate(chain)] == shaded(
                chain,
                shaders_in_intermediate(inner),
                source,
                previous,
            )
            &&& inner > 0 ==> after[Texture::PingPong(chain)] == shaded(
                chain,
                if inner % 2 == 1 {
                    inner
                } else {
                    (inner - 1) as nat
                },
                source,
                previous,
            )
            &&& after[output] == (if done == count && done > 0 {
                shaded(chain, done, source, previous)
            } else {
                textures[output]
            })
            &&& forall|other: Texture|
                other != Texture::Intermediate(chain) && other != Texture::PingPong(chain) && other
                    != output ==> #[trigger] after[other] == textures[other]
        }),
    decreases done,
{
    let passes = chain_passes(chain, done, count as int, output);
    if done == 0 {
        assert(passes == Seq::<GpuCommand>::empty());
    } else {
        let earlier = chain_passes(chain, (done - 1) as nat, count as int, output);
        assert(passes.drop_last() == earlier);
        assert(passes.last() == chain_pass(chain, done - 1, count as int, output));
        lemma_run_passes(chain, (done - 1) as nat, count, output, textures);
    }
}

/// What a whole chain does: its output shows the work of all its shaders, and only its
/// two textures change besides.
proof fn lemma_run_chain(
    chain: Chain,
    count: usize,
    output: Texture,
    textures: Map<Texture, Picture>,
)
    requires
        output != Texture::Intermediate(chain),
        output != Texture::PingPong(chain),
        output != Texture::PrevFrame(chain),
    ensures
        ({
            let after = run(chain_commands(chain, count, output), textures);
            let source = textures[Texture::Intermediate(chain)];
            let previous = textures[Texture::PrevFrame(chain)];
            &&& after[output] == (if count == 0 {
                textures[output]
            } else {
                shaded(chain, count as nat, source, previous)
            })
            &&& forall|other: Texture|
                other != Texture::Intermediate(chain) && other != Texture::PingPong(chain) && other
                    != output ==> #[trigger] after[other] == textures[other]
        }),
{
    let uniform = GpuCommand::WriteUniform { chain };
    lemma_run_concat(
        seq![uniform],
        chain_passes(chain, count as nat, count as int, output),
        textures,
    );
    lemma_run_one(uniform, textures);
    lemma_run_passes(chain, count as nat, count, output, textures);
}

/// What the commands before final post-processing do.
proof fn lemma_run_content(
    layers: Seq<RenderLayer>,
    background: Option<usize>,
    post: Option<usize>,
    textures: Map<Texture, Picture>,
)
    ensures
        ({
            let after = run(
                content_commands(layers, background, post),
                textures,
            );
            let target = main_render_target(post);
            &&& after[target] == content_picture(layers, background, post, textures)
            &&& after[Texture::PrevFrame(Chain::Background)] == (match (background, post) {
                (Some(shaders), Some(_)) => shaded_background(layers, shaders, post, textures),
                _ => textures[Texture::PrevFrame(Chain::Background)],
            })
            &&& after[Texture::PrevFrame(Chain::Final)]
                == textures[Texture::PrevFrame(Chain::Final)]
            &&& post is Some ==> after[Texture::Surface] == textures[Texture::Surface]
        }),
{
    let target = main_render_target(post);
    match background {
        Some(count) => {
            let backgrounds = background_pass(layers, layers.len());
            let chain = chain_commands(Chain::Background, count, target);
            let feedback = background_feedback(post);
            let text = text_pass(layers, layers.len(), target);
            lemma_run_concat(backgrounds + chain + feedback, text, textures);
            lemma_run_concat(backgrounds + chain, feedback, textures);
            lemma_run_concat(backgrounds, chain, textures);
            lemma_run_background_pass(layers, layers.len(), textures);
            let t1 = run(backgrounds, textures);
            lemma_run_chain(Chain::Background, count, target, t1);
            let t2 = run(chain, t1);
            if post is Some {
                lemma_run_one(feedback[0], t2);
            }
            let t3 = run(feedback, t2);
            assert(t3[target] == shaded_background(layers, count, post, textures));
            lemma_run_text_pass(layers, layers.len(), target, t3);
        },
        None => {
            lemma_run_single_pass(layers, layers.len(), target, textures);
        },
    }
}

/// What a frame does to the textures that outlive it.
proof fn lemma_run_frame(
    layers: Seq<RenderLayer>,
    background: Option<usize>,
    post: Option<usize>,
    textures: Map<Texture, Picture>,
)
    ensures
        ({
            let after = run(frame_commands(layers, background, post), textures);
            let content = content_picture(layers, background, post, textures);
            let previous = textures[Texture::PrevFrame(Chain::Final)];
            &&& after[Texture::Surface] == (match post {
                None => content,
                Some(0) => textures[Texture::Surface],
                Some(count) => shaded(Chain::Final, count as nat, content, previous),
            })
            &&& after[Texture::PrevFrame(Chain::Final)] == (match post {
                None => previous,
                Some(_) => content,
            })
            &&& after[Texture::PrevFrame(Chain::Background)] == (match (background, post) {
                (Some(shaders), Some(_)) => shaded_background(layers, shaders, post, textures),
                _ => textures[Texture::PrevFrame(Chain::Background)],
            })
        }),
{
    let content = content_commands(layers, background, post);
    let shaders = post_process_commands(post);
    let end = seq![GpuCommand::Submit, GpuCommand::Present];
    lemma_run_concat(content + shaders, end, textures);
    lemma_run_concat(content, shaders, textures);
    lemma_run_content(layers, background, post, textures);
    let t1 = run(content, textures);
    if let Some(count) = post {
        let chain = chain_commands(Chain::Final, count, Texture::Surface);
        let keep = GpuCommand::CopyTexture {
            from: Texture::Intermediate(Chain::Final),
            to: Texture::Kept(Chain::Final),
        };
        let hand_on = GpuCommand::CopyTexture {
            from: Texture::Kept(Chain::Final),
            to: Texture::PrevFrame(Chain::Final),
        };
        lemma_run_concat(seq![keep] + chain, seq![hand_on], t1);
        lemma_run_concat(seq![keep], chain, t1);
        lemma_run_one(keep, t1);
        let kept = run(seq![keep], t1);
        lemma_run_chain(Chain::Final, count, Texture::Surface, kept);
        lemma_run_one(hand_on, run(chain, kept));
    }
    let t2 = run(shaders, t1);
    assert(end == seq![GpuCommand::Submit] + seq![GpuCommand::Present]);
    lemma_run_concat(seq![GpuCommand::Submit], seq![GpuCommand::Present], t2);
    lemma_run_one(GpuCommand::Submit, t2);
    lemma_run_one(GpuCommand::Present, t2);
}

/// Without final post-processing a frame shows the complete picture, with it what the
/// final shaders make of that picture, whatever background post-processing there is.
/// Final post-processing without shaders leaves the surface as it was.
pub proof fn law_frame_shows_the_complete_picture(
    layers: Seq<RenderLayer>,
    background: Option<usize>,
    post: Option<usize>,
    textures: Map<Texture, Picture>,
)
    ensures
        run(frame_commands(layers, background, post), textures)[Texture::Surface] == (match post {
            None => content_picture(layers, background, post, textures),
            Some(0) => textures[Texture::Surface],
            Some(shaders) => shaded(
                Chain::Final,
                shaders as nat,
                content_picture(layers, background, post, textures),
                textures[Texture::PrevFrame(Chain::Final)],
            ),
        }),
{
    lemma_run_frame(layers, background, post, textures);
}

/// Without post-processing a frame shows all buffers, layer by layer, and in each
/// layer backgrounds, then text, then cursor. Where no buffer holds anything, the
/// surface is left as it was.
pub proof fn law_plain_frame_shows_all_buffers(
    layers: Seq<RenderLayer>,
    textures: Map<Texture, Picture>,
)
    ensures
        run(frame_commands(layers, None, None), textures)[Texture::Surface]
            == freshly_painted(
            layers,
            0,
            3,
            layers.len() as int,
            0,
            textures[Texture::Surface],
        ),
{
    lemma_run_frame(layers, None, None, textures);
}

/// With final post-processing alone a frame shows what its shaders make of the
/// picture of all buffers, one shader after the other.
pub proof fn law_post_processed_frame_shows_all_shaders(
    layers: Seq<RenderLayer>,
    shaders: usize,
    textures: Map<Texture, Picture>,
)
    requires
        shaders > 0,
    ensures
        run(frame_commands(layers, None, Some(shaders)), textures)[Texture::Surface]
            == shaded(
            Chain::Final,
            shaders as nat,
            freshly_painted(
                layers,
                0,
                3,
                layers.len() as int,
                0,
                textures[Texture::Intermediate(Chain::Final)],
            ),
            textures[Texture::PrevFrame(Chain::Final)],
        ),
{
    lemma_run_frame(layers, None, Some(shaders), textures);
}

/// With background post-processing alone a frame shows text and cursor over what the
/// background shaders make of the backgrounds: the shaders never see any text.
pub proof fn law_background_shaders_run_below_text(
    layers: Seq<RenderLayer>,
    shaders: usize,
    textures: Map<Texture, Picture>,
)
    requires
        shaders > 0,
    ensures
        run(frame_commands(layers, Some(shaders), None), textures)[Texture::Surface]
            == painted(
            layers,
            1,
            3,
            layers.len() as int,
            1,
            shaded(
                Chain::Background,
                shaders as nat,
                background_picture(layers, textures),
                textures[Texture::PrevFrame(Chain::Background)],
            ),
        ),
{
    lemma_run_frame(layers, Some(shaders), None, textures);
}

/// With both chains the picture is built from the bottom up: backgrounds, background
/// shaders, text and cursor, final shaders.
pub proof fn law_both_chains_build_from_the_bottom_up(
    layers: Seq<RenderLayer>,
    background: usize,
    post: usize,
    textures: Map<Texture, Picture>,
)
    requires
        background > 0,
        post > 0,
    ensures
        run(
            frame_commands(layers, Some(background), Some(post)),
            textures,
        )[Texture::Surface] == shaded(
            Chain::Final,
            post as nat,
            painted(
                layers,
                1,
                3,
                layers.len() as int,
                1,
                shaded(
                    Chain::Background,
                    background as nat,
                    background_picture(layers, textures),
                    textures[Texture::PrevFrame(Chain::Background)],
                ),
            ),
            textures[Texture::PrevFrame(Chain::Final)],
        ),
{
    lemma_run_frame(layers, Some(background), Some(post), textures);
}

/// A chain without shaders passes nothing on: final post-processing without shaders
/// leaves the surface as it was, and text is drawn over whatever the main render
/// target showed where background post-processing has no shaders.
pub proof fn law_chain_without_shaders_passes_nothing_on(
    layers: Seq<RenderLayer>,
    background: Option<usize>,
    post: Option<usize>,
    textures: Map<Texture, Picture>,
)
    ensures
        ({
            let after = run(frame_commands(layers, background, post), textures);
            &&& post == Some(0usize) ==> after[Texture::Surface] == textures[Texture::Surface]
            &&& background == Some(0usize) && post is None ==> after[Texture::Surface] == painted(
                layers,
                1,
                3,
                layers.len() as int,
                1,
                textures[Texture::Surface],
            )
            &&& background == Some(0usize) && post is Some && post->Some_0 > 0
                ==> after[Texture::Surface] == shaded(
                Chain::Final,
                post->Some_0 as nat,
                painted(
                    layers,
                    1,
                    3,
                    layers.len() as int,
                    1,
                    textures[Texture::Intermediate(Chain::Final)],
                ),
                textures[Texture::PrevFrame(Chain::Final)],
            )
        }),
{
    lemma_run_frame(layers, background, post, textures);
}

/// The next frame's final shaders see the complete picture of this frame, background
/// and text, as it was before its own final shaders ran, however many there are.
pub proof fn law_feedback_is_the_unshaded_picture(
    layers: Seq<RenderLayer>,
    background: Option<usize>,
    post: usize,
    textures: Map<Texture, Picture>,
)
    ensures
        run(
            frame_commands(layers, background, Some(post)),
            textures,
        )[Texture::PrevFrame(Chain::Final)] == content_picture(
            layers,
            background,
            Some(post),
            textures,
        ),
{
    lemma_run_frame(layers, background, Some(post), textures);
}

/// Where there is final post-processing, the next frame's background shaders see what
/// text is drawn over in this frame, however many shaders either chain has.
pub proof fn law_background_feedback_is_what_text_is_drawn_over(
    layers: Seq<RenderLayer>,
    background: usize,
    post: usize,
    textures: Map<Texture, Picture>,
)
    ensures
        run(
            frame_commands(layers, Some(background), Some(post)),
            textures,
        )[Texture::PrevFrame(Chain::Background)] == shaded_background(
            layers,
            background,
            Some(post),
            textures,
        ),
{
    lemma_run_frame(layers, Some(background), Some(post), textures);
}

/// The next frame's background shaders see this frame's backgrounds after its own
/// background shaders and before any text, where there is final post-processing.
pub proof fn law_background_feedback_has_no_text(
    layers: Seq<RenderLayer>,
    background: usize,
    post: usize,
    textures: Map<Texture, Picture>,
)
    requires
        background > 0,
    ensures
        run(
            frame_commands(layers, Some(background), Some(post)),
            textures,
        )[Texture::PrevFrame(Chain::Background)] == shaded(
            Chain::Background,
            background as nat,
            background_picture(layers, textures),
            textures[Texture::PrevFrame(Chain::Background)],
        ),
{
    lemma_run_frame(layers, Some(background), Some(post), textures);
}

/// A chain that is not there, or a background chain without final post-processing,
/// keeps what it was given of earlier frames.
pub proof fn law_feedback_is_kept_without_copy(
    layers: Seq<RenderLayer>,
    background: Option<usize>,
    post: Option<usize>,
    textures: Map<Texture, Picture>,
)
    ensures
        ({
            let after = run(frame_commands(layers, background, post), textures);
            &&& post is None ==> after[Texture::PrevFrame(Chain::Final)]
                == textures[Texture::PrevFrame(Chain::Final)]
            &&& background is None || post is None ==> after[Texture::PrevFrame(Chain::Background)]
                == textures[Texture::PrevFrame(Chain::Background)]
        }),
{
    lemma_run_frame(layers, background, post, textures);
}

} // verus!
