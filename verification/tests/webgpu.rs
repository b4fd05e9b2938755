use termwindow::layers::{RenderLayer, Slot, VertexIndexCount};
use termwindow::webgpu::{plan_commands, Chain, GpuCommand, LoadOp, Texture};

fn layer(quads: [usize; 3]) -> RenderLayer {
    let count = |quads: usize| VertexIndexCount {
        vertex_count: quads * 4,
        index_count: quads * 6,
    };
    RenderLayer {
        vb: [count(quads[0]), count(quads[1]), count(quads[2])],
    }
}

fn draw(layer: usize, idx: usize, target: Texture, load: LoadOp, quads: u32) -> GpuCommand {
    GpuCommand::DrawBuffer {
        slot: Slot { layer, idx },
        target,
        load,
        index_end: quads * 6,
    }
}

fn next(layer: usize, idx: usize) -> GpuCommand {
    GpuCommand::NextIndex {
        slot: Slot { layer, idx },
    }
}

fn pass(chain: Chain, pipeline: usize, read: Texture, write: Texture) -> GpuCommand {
    GpuCommand::ShaderPass {
        chain,
        pipeline,
        read,
        write,
    }
}

const FINAL: Texture = Texture::Intermediate(Chain::Final);
const KEPT: Texture = Texture::Kept(Chain::Final);
const BACKGROUND: Texture = Texture::Intermediate(Chain::Background);

#[test]
fn empty_frame_is_submitted_and_presented() {
    let commands = plan_commands(&vec![], None, None);
    assert_eq!(commands, vec![GpuCommand::Submit, GpuCommand::Present]);
}

#[test]
fn plain_frame_draws_to_the_surface() {
    let layers = vec![layer([0, 2, 0]), layer([1, 0, 3])];
    let commands = plan_commands(&layers, None, None);
    assert_eq!(
        commands,
        vec![
            next(0, 0),
            draw(0, 1, Texture::Surface, LoadOp::Clear, 2),
            next(0, 1),
            next(0, 2),
            draw(1, 0, Texture::Surface, LoadOp::Load, 1),
            next(1, 0),
            next(1, 1),
            draw(1, 2, Texture::Surface, LoadOp::Load, 3),
            next(1, 2),
            GpuCommand::Submit,
            GpuCommand::Present,
        ]
    );
}

#[test]
fn final_chain_reads_what_was_drawn() {
    let layers = vec![layer([1, 1, 0])];
    let commands = plan_commands(&layers, None, Some(3));
    let ping_pong = Texture::PingPong(Chain::Final);
    assert_eq!(
        commands,
        vec![
            draw(0, 0, FINAL, LoadOp::Clear, 1),
            next(0, 0),
            draw(0, 1, FINAL, LoadOp::Load, 1),
            next(0, 1),
            next(0, 2),
            GpuCommand::CopyTexture {
                from: FINAL,
                to: KEPT,
            },
            GpuCommand::WriteUniform {
                chain: Chain::Final
            },
            pass(Chain::Final, 0, FINAL, ping_pong),
            pass(Chain::Final, 1, ping_pong, FINAL),
            pass(Chain::Final, 2, FINAL, Texture::Surface),
            GpuCommand::CopyTexture {
                from: KEPT,
                to: Texture::PrevFrame(Chain::Final),
            },
            GpuCommand::Submit,
            GpuCommand::Present,
        ]
    );
}

#[test]
fn background_chain_runs_below_text() {
    let layers = vec![layer([1, 1, 1]), layer([1, 0, 1])];
    let commands = plan_commands(&layers, Some(1), None);
    assert_eq!(
        commands,
        vec![
            draw(0, 0, BACKGROUND, LoadOp::Clear, 1),
            next(0, 0),
            next(0, 1),
            next(0, 2),
            draw(1, 0, BACKGROUND, LoadOp::Load, 1),
            next(1, 0),
            next(1, 1),
            next(1, 2),
            GpuCommand::WriteUniform {
                chain: Chain::Background
            },
            pass(Chain::Background, 0, BACKGROUND, Texture::Surface),
            draw(0, 1, Texture::Surface, LoadOp::Load, 1),
            next(0, 1),
            draw(0, 2, Texture::Surface, LoadOp::Load, 1),
            next(0, 2),
            next(1, 1),
            draw(1, 2, Texture::Surface, LoadOp::Load, 1),
            next(1, 2),
            GpuCommand::Submit,
            GpuCommand::Present,
        ]
    );
}

#[test]
fn both_chains_build_from_the_bottom_up() {
    let layers = vec![layer([1, 1, 0])];
    let commands = plan_commands(&layers, Some(2), Some(1));
    let ping_pong = Texture::PingPong(Chain::Background);
    assert_eq!(
        commands,
        vec![
            draw(0, 0, BACKGROUND, LoadOp::Clear, 1),
            next(0, 0),
            next(0, 1),
            next(0, 2),
            GpuCommand::WriteUniform {
                chain: Chain::Background
            },
            pass(Chain::Background, 0, BACKGROUND, ping_pong),
            pass(Chain::Background, 1, ping_pong, FINAL),
            GpuCommand::CopyTexture {
                from: FINAL,
                to: Texture::PrevFrame(Chain::Background),
            },
            draw(0, 1, FINAL, LoadOp::Load, 1),
            next(0, 1),
            next(0, 2),
            GpuCommand::CopyTexture {
                from: FINAL,
                to: KEPT,
            },
            GpuCommand::WriteUniform {
                chain: Chain::Final
            },
            pass(Chain::Final, 0, FINAL, Texture::Surface),
            GpuCommand::CopyTexture {
                from: KEPT,
                to: Texture::PrevFrame(Chain::Final),
            },
            GpuCommand::Submit,
            GpuCommand::Present,
        ]
    );
}

#[test]
fn chains_without_shaders_pass_nothing_on() {
    let commands = plan_commands(&vec![], Some(0), Some(0));
    assert_eq!(
        commands,
        vec![
            GpuCommand::WriteUniform {
                chain: Chain::Background
            },
            GpuCommand::CopyTexture {
                from: FINAL,
                to: Texture::PrevFrame(Chain::Background),
            },
            GpuCommand::CopyTexture {
                from: FINAL,
                to: KEPT,
            },
            GpuCommand::WriteUniform {
                chain: Chain::Final
            },
            GpuCommand::CopyTexture {
                from: KEPT,
                to: Texture::PrevFrame(Chain::Final),
            },
            GpuCommand::Submit,
            GpuCommand::Present,
        ]
    );
}

#[test]
fn index_count_is_cut_to_32_bits() {
    let mut one = layer([1, 0, 0]);
    one.vb[0].index_count = 0xffff_fffe;
    let commands = plan_commands(&vec![one], None, None);
    assert!(matches!(
        commands[0],
        GpuCommand::DrawBuffer {
            index_end: 0xffff_fffe,
            ..
        }
    ));
    if usize::BITS == 64 {
        one.vb[0].index_count = (1usize << 32) + 7;
        let commands = plan_commands(&vec![one], None, None);
        assert!(matches!(
            commands[0],
            GpuCommand::DrawBuffer { index_end: 7, .. }
        ));
    }
}

/// How often each slot is drawn and moved on from.
fn turns(commands: &[GpuCommand], layer: usize, idx: usize) -> (usize, usize) {
    let this = Slot { layer, idx };
    let draws = commands
        .iter()
        .filter(|c| matches!(c, GpuCommand::DrawBuffer { slot, .. } if *slot == this))
        .count();
    let advances = commands
        .iter()
        .filter(|c| matches!(c, GpuCommand::NextIndex { slot } if *slot == this))
        .count();
    (draws, advances)
}

#[test]
fn every_filled_buffer_is_drawn_once() {
    let layers = vec![layer([1, 0, 2]), layer([0, 3, 0]), layer([0, 0, 1])];
    for background in [None, Some(0), Some(1), Some(4)] {
        for post in [None, Some(0), Some(2), Some(5)] {
            let commands = plan_commands(&layers, background, post);
            for l in 0..3usize {
                for idx in 0..3usize {
                    let filled = layers[l].vb[idx].vertex_count > 0;
                    let moves = if background.is_some() && idx != 0 { 2 } else { 1 };
                    assert_eq!(
                        turns(&commands, l, idx),
                        (if filled { 1 } else { 0 }, moves)
                    );
                }
            }
        }
    }
}

#[test]
fn only_long_chains_use_a_ping_pong_texture() {
    let uses = |commands: &Vec<GpuCommand>| {
        commands.iter().any(|c| {
            matches!(
                c,
                GpuCommand::ShaderPass {
                    read: Texture::PingPong(_),
                    ..
                } | GpuCommand::ShaderPass {
                    write: Texture::PingPong(_),
                    ..
                }
            )
        })
    };
    assert!(!uses(&plan_commands(&vec![], Some(1), Some(1))));
    assert!(uses(&plan_commands(&vec![], Some(1), Some(2))));
    assert!(uses(&plan_commands(&vec![], Some(2), Some(1))));
}

/// How often a slot has moved on when it is drawn.
fn turn_of_draw(commands: &[GpuCommand], layer: usize, idx: usize) -> usize {
    let this = Slot { layer, idx };
    let drawn = commands
        .iter()
        .position(|c| matches!(c, GpuCommand::DrawBuffer { slot, .. } if *slot == this))
        .unwrap();
    turns(&commands[..drawn], layer, idx).1
}

#[test]
fn text_moves_on_before_it_is_drawn_over_shaded_backgrounds() {
    let layers = vec![layer([1, 1, 1]), layer([1, 1, 1])];
    let plain = plan_commands(&layers, None, Some(1));
    let shaded = plan_commands(&layers, Some(1), Some(1));
    for l in 0..2usize {
        for idx in 0..3usize {
            assert_eq!(turn_of_draw(&plain, l, idx), 0);
            assert_eq!(
                turn_of_draw(&shaded, l, idx),
                if idx == 0 { 0 } else { 1 }
            );
        }
    }
}

#[test]
fn feedback_is_set_aside_before_any_shader_runs() {
    for shaders in 0..6usize {
        let commands = plan_commands(&vec![layer([1, 1, 1])], None, Some(shaders));
        let place = |wanted: GpuCommand| commands.iter().position(|c| *c == wanted).unwrap();
        let keep = place(GpuCommand::CopyTexture {
            from: FINAL,
            to: KEPT,
        });
        let hand_on = place(GpuCommand::CopyTexture {
            from: KEPT,
            to: Texture::PrevFrame(Chain::Final),
        });
        for (i, command) in commands.iter().enumerate() {
            match command {
                GpuCommand::DrawBuffer { .. } => assert!(i < keep),
                GpuCommand::ShaderPass { .. } => assert!(keep < i && i < hand_on),
                GpuCommand::CopyTexture { .. } => assert!(i == keep || i == hand_on),
                _ => {}
            }
        }
    }
}

#[test]
fn text_is_drawn_over_the_old_picture_where_backgrounds_have_no_shaders() {
    let commands = plan_commands(&vec![layer([1, 1, 0])], Some(0), Some(1));
    assert_eq!(
        commands,
        vec![
            draw(0, 0, BACKGROUND, LoadOp::Clear, 1),
            next(0, 0),
            next(0, 1),
            next(0, 2),
            GpuCommand::WriteUniform {
                chain: Chain::Background
            },
            GpuCommand::CopyTexture {
                from: FINAL,
                to: Texture::PrevFrame(Chain::Background),
            },
            draw(0, 1, FINAL, LoadOp::Load, 1),
            next(0, 1),
            next(0, 2),
            GpuCommand::CopyTexture {
                from: FINAL,
                to: KEPT,
            },
            GpuCommand::WriteUniform {
                chain: Chain::Final
            },
            pass(Chain::Final, 0, FINAL, Texture::Surface),
            GpuCommand::CopyTexture {
                from: KEPT,
                to: Texture::PrevFrame(Chain::Final),
            },
            GpuCommand::Submit,
            GpuCommand::Present,
        ]
    );
}
