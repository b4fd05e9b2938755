use termwindow::layers::{RenderLayer, Slot, VertexIndexCount};
use termwindow::opengl::{
    plan_steps, use_subpixel, BlendFactor, Blending, FreeTypeLoadTarget, GliumRun, GliumStep,
};

fn layer(quads: [usize; 3]) -> RenderLayer {
    let count = |quads: usize| VertexIndexCount {
        vertex_count: quads * 4,
        index_count: quads * 6,
    };
    RenderLayer {
        vb: [count(quads[0]), count(quads[1]), count(quads[2])],
    }
}

fn draw(layer: usize, idx: usize, quads: usize, subpixel_aa: bool) -> GliumStep {
    GliumStep::DrawBuffer {
        slot: Slot { layer, idx },
        vertex_count: quads * 4,
        index_count: quads * 6,
        subpixel_aa,
        blending: if subpixel_aa {
            Blending::DualSource
        } else {
            Blending::Alpha
        },
    }
}

fn next(layer: usize, idx: usize) -> GliumStep {
    GliumStep::NextIndex {
        slot: Slot { layer, idx },
    }
}

#[test]
fn lcd_targets_have_subpixels() {
    let normal = FreeTypeLoadTarget::Normal;
    assert!(!use_subpixel(None, normal));
    assert!(!use_subpixel(None, FreeTypeLoadTarget::Light));
    assert!(!use_subpixel(None, FreeTypeLoadTarget::Mono));
    assert!(use_subpixel(None, FreeTypeLoadTarget::HorizontalLcd));
    assert!(use_subpixel(None, FreeTypeLoadTarget::VerticalLcd));
    assert!(use_subpixel(Some(FreeTypeLoadTarget::HorizontalLcd), normal));
    assert!(!use_subpixel(
        Some(normal),
        FreeTypeLoadTarget::HorizontalLcd
    ));
}

#[test]
fn frame_is_cleared_then_drawn_layer_by_layer() {
    let layers = vec![layer([1, 2, 0]), layer([0, 1, 3])];
    let steps = plan_steps(&layers, false);
    assert_eq!(
        steps,
        vec![
            GliumStep::ClearColor,
            draw(0, 0, 1, false),
            next(0, 0),
            draw(0, 1, 2, false),
            next(0, 1),
            next(0, 2),
            next(1, 0),
            draw(1, 1, 1, false),
            next(1, 1),
            draw(1, 2, 3, false),
            next(1, 2),
        ]
    );
    assert_eq!(plan_steps(&vec![], true), vec![GliumStep::ClearColor]);
}

#[test]
fn only_text_is_drawn_with_subpixels() {
    let steps = plan_steps(&vec![layer([1, 1, 1])], true);
    assert_eq!(
        steps,
        vec![
            GliumStep::ClearColor,
            draw(0, 0, 1, false),
            next(0, 0),
            draw(0, 1, 1, true),
            next(0, 1),
            draw(0, 2, 1, false),
            next(0, 2),
        ]
    );
}

#[test]
fn blend_factors() {
    let dual = Blending::DualSource.factors();
    assert_eq!(dual.color_source, BlendFactor::SourceOneColor);
    assert_eq!(dual.color_destination, BlendFactor::OneMinusSourceOneColor);
    assert_eq!(dual.alpha_source, BlendFactor::SourceOneColor);
    assert_eq!(dual.alpha_destination, BlendFactor::OneMinusSourceOneColor);
    let alpha = Blending::Alpha.factors();
    assert_eq!(alpha.color_source, BlendFactor::SourceAlpha);
    assert_eq!(alpha.color_destination, BlendFactor::OneMinusSourceAlpha);
    assert_eq!(alpha.alpha_source, BlendFactor::One);
    assert_eq!(alpha.alpha_destination, BlendFactor::OneMinusSourceAlpha);
}

#[test]
fn run_performs_all_steps() {
    let steps = plan_steps(&vec![layer([1, 0, 1])], false);
    let mut run = GliumRun::new(steps.clone());
    let mut performed = vec![];
    while let Some(step) = run.next_step() {
        performed.push(step);
        run.report(true);
    }
    assert_eq!(performed, steps);
    assert!(!run.has_failed());
}

#[test]
fn run_stops_at_the_first_failure() {
    let steps = plan_steps(&vec![layer([1, 1, 1])], false);
    let mut run = GliumRun::new(steps);
    let mut performed = vec![];
    while let Some(step) = run.next_step() {
        let succeeded = step != draw(0, 1, 1, false);
        if succeeded {
            performed.push(step);
        }
        run.report(succeeded);
    }
    assert!(run.has_failed());
    assert_eq!(run.next_step(), None);
    assert_eq!(
        performed,
        vec![GliumStep::ClearColor, draw(0, 0, 1, false), next(0, 0)]
    );
}
