//! The steps that draw a frame with OpenGL.
use crate::layers::{has_vertices, slot_at, RenderLayer, Slot};
use vstd::prelude::*;

verus! {

/// What FreeType is asked to render glyphs for.
#[derive(Debug, Clone, Copy, PartialEq, Eq, Structural)]
pub enum FreeTypeLoadTarget {
    Normal,
    Light,
    Mono,
    HorizontalLcd,
    VerticalLcd,
}

/// Whether glyphs have a coverage of their own for each of the three colors of a pixel.
pub open spec fn is_subpixel(
    render_target: Option<FreeTypeLoadTarget>,
    load_target: FreeTypeLoadTarget,
) -> bool {
    let target = match render_target {
        Some(target) => target,
        None => load_target,
    };
    target == FreeTypeLoadTarget::HorizontalLcd || target == FreeTypeLoadTarget::VerticalLcd
}

/// Whether glyphs have a coverage of their own for each of the three colors of a
/// pixel: the render target decides, or the load target where there is none.
pub fn use_subpixel(
    render_target: Option<FreeTypeLoadTarget>,
    load_target: FreeTypeLoadTarget,
) -> (subpixel: bool)
    ensures
        subpixel == is_subpixel(render_target, load_target),
{
    let target = match render_target {
        Some(target) => target,
        None => load_target,
    };
    match target {
        FreeTypeLoadTarget::HorizontalLcd | FreeTypeLoadTarget::VerticalLcd => true,
        _ => false,
    }
}

/// What a color or an alpha is multiplied with before the two are added up.
#[derive(Debug, Clone, Copy, PartialEq, Eq, Structural)]
pub enum BlendFactor {
    One,
    SourceAlpha,
    OneMinusSourceAlpha,
    SourceOneColor,
    OneMinusSourceOneColor,
}

/// How what is drawn is mixed with what is there.
#[derive(Debug, Clone, Copy, PartialEq, Eq, Structural)]
pub enum Blending {
    /// Each color of a pixel has an alpha of its own.
    DualSource,
    /// A pixel has one alpha.
    Alpha,
}

/// The factors of a [`Blending`].
#[derive(Debug, Clone, Copy, PartialEq, Eq, Structural)]
pub struct BlendFactors {
    pub color_source: BlendFactor,
    pub color_destination: BlendFactor,
    pub alpha_source: BlendFactor,
    pub alpha_destination: BlendFactor,
}

impl Blending {
    /// The factors for color and alpha.
    pub fn factors(self) -> (factors: BlendFactors)
        ensures
            self == Blending::DualSource ==> {
                &&& factors.color_source == BlendFactor::SourceOneColor
                &&& factors.color_destination == BlendFactor::OneMinusSourceOneColor
                &&& factors.alpha_source == BlendFactor::SourceOneColor
                &&& factors.alpha_destination == BlendFactor::OneMinusSourceOneColor
            },
            self == Blending::Alpha ==> {
                &&& factors.color_source == BlendFactor::SourceAlpha
                &&& factors.color_destination == BlendFactor::OneMinusSourceAlpha
                &&& factors.alpha_source == BlendFactor::One
                &&& factors.alpha_destination == BlendFactor::OneMinusSourceAlpha
            },
    {
        match self {
            Blending::DualSource => BlendFactors {
                color_source: BlendFactor::SourceOneColor,
                color_destination: BlendFactor::OneMinusSourceOneColor,
                alpha_source: BlendFactor::SourceOneColor,
                alpha_destination: BlendFactor::OneMinusSourceOneColor,
            },
            Blending::Alpha => BlendFactors {
                color_source: BlendFactor::SourceAlpha,
                color_destination: BlendFactor::OneMinusSourceAlpha,
                alpha_source: BlendFactor::One,
                alpha_destination: BlendFactor::OneMinusSourceAlpha,
            },
        }
    }
}

/// One step of drawing a frame.
#[derive(Debug, Clone, Copy, PartialEq, Eq, Structural)]
pub enum GliumStep {
    /// Make the frame transparent black.
    ClearColor,
    /// Draw a vertex buffer.
    DrawBuffer {
        slot: Slot,
        vertex_count: usize,
        index_count: usize,
        subpixel_aa: bool,
        blending: Blending,
    },
    /// Move on to the next of the vertex buffers that take turns in a slot.
    NextIndex { slot: Slot },
}

/// Draws one vertex buffer, if it holds anything, and moves on to the next. Only text
/// is drawn with subpixels.
pub open spec fn buffer_steps(
    layers: Seq<RenderLayer>,
    layer: int,
    idx: int,
    subpixel: bool,
) -> Seq<GliumStep> {
    let slot = slot_at(layer, idx);
    let counts = layers[layer].vb[idx];
    let subpixel_aa = subpixel && idx == 1;
    let advance = seq![GliumStep::NextIndex { slot }];
    if has_vertices(layers, layer, idx) {
        seq![
            GliumStep::DrawBuffer {
                slot,
                vertex_count: counts.vertex_count,
                index_count: counts.index_count,
                subpixel_aa,
                blending: if subpixel_aa {
                    Blending::DualSource
                } else {
                    Blending::Alpha
                },
            },
        ] + advance
    } else {
        advance
    }
}

/// All buffers of the first `layer` layers, and those before buffer `idx` of the next
/// one.
pub open spec fn steps_before(
    layers: Seq<RenderLayer>,
    layer: int,
    idx: int,
    subpixel: bool,
) -> Seq<GliumStep>
    decreases layer, idx,
{
    if 0 < idx {
        steps_before(layers, layer, idx - 1, subpixel) + buffer_steps(
            layers,
            layer,
            idx - 1,
            subpixel,
        )
    } else if 0 < layer {
        steps_before(layers, layer - 1, 3, subpixel)
    } else {
        seq![]
    }
}

/// All steps of a frame: it is cleared, then all buffers are drawn, layer by layer.
pub open spec fn frame_steps(layers: Seq<RenderLayer>, subpixel: bool) -> Seq<GliumStep> {
    seq![GliumStep::ClearColor] + steps_before(layers, layers.len() as int, 0, subpixel)
}

/// All steps of a frame, in order.
pub fn plan_steps(layers: &Vec<RenderLayer>, subpixel: bool) -> (steps: Vec<GliumStep>)
    ensures
        steps@ == frame_steps(layers@, subpixel),
{
    let mut steps: Vec<GliumStep> = Vec::new();
    steps.push(GliumStep::ClearColor);
    let clear = Ghost(steps@);
    let mut layer: usize = 0;
    while layer < layers.len()
        invariant
            layer <= layers@.len(),
            steps@ == clear@ + steps_before(layers@, layer as int, 0, subpixel),
        decreases layers@.len() - layer,
    {
        let mut idx: usize = 0;
        while idx < 3
            invariant
                idx <= 3,
                layer < layers@.len(),
                steps@ == clear@ + steps_before(layers@, layer as int, idx as int, subpixel),
            decreases 3 - idx,
        {
            let slot = Slot { layer, idx };
            let counts = layers[layer].vb[idx];
            if counts.vertex_count > 0 {
                let subpixel_aa = subpixel && idx == 1;
                let blending = if subpixel_aa {
                    Blending::DualSource
                } else {
                    Blending::Alpha
                };
                steps.push(
                    GliumStep::DrawBuffer {
                        slot,
                        vertex_count: counts.vertex_count,
                        index_count: counts.index_count,
                        subpixel_aa,
                        blending,
                    },
                );
            }
            steps.push(GliumStep::NextIndex { slot });
            assert(steps@ =~= clear@ + (steps_before(layers@, layer as int, idx as int, subpixel)
                + buffer_steps(layers@, layer as int, idx as int, subpixel)));
            idx += 1;
        }
        layer += 1;
    }
    steps
}

/// How far a frame has got.
pub struct GliumProgress {
    pub steps: Seq<GliumStep>,
    /// How many steps have been performed.
    pub performed: nat,
    /// Whether the step after those failed.
    pub failed: bool,
}

impl GliumProgress {
    /// The step to perform next. A frame stops at the first step that fails.
    pub open spec fn next_step(self) -> Option<GliumStep> {
        if self.failed || self.performed >= self.steps.len() {
            None
        } else {
            Some(self.steps[self.performed as int])
        }
    }

    /// The progress once the next step has succeeded or failed.
    pub open spec fn after_step(self, succeeded: bool) -> GliumProgress {
        if succeeded {
            GliumProgress { performed: self.performed + 1, ..self }
        } else {
            GliumProgress { failed: true, ..self }
        }
    }

    /// The progress after some steps, each of which has succeeded or failed.
    pub open spec fn after_steps(self, outcomes: Seq<bool>) -> GliumProgress
        decreases outcomes.len(),
    {
        if outcomes.len() == 0 {
            self
        } else {
            let earlier = self.after_steps(outcomes.drop_last());
            if earlier.next_step() is Some {
                earlier.after_step(outcomes.last())
            } else {
                earlier
            }
        }
    }
}

/// A frame that is being drawn, step by step.
pub struct GliumRun {
    steps: Vec<GliumStep>,
    performed: usize,
    failed: bool,
}

impl View for GliumRun {
    type V = GliumProgress;

    closed spec fn view(&self) -> GliumProgress {
        GliumProgress {
            steps: self.steps@,
            performed: self.performed as nat,
            failed: self.failed,
        }
    }
}

impl GliumRun {
    /// A frame of which nothing is drawn yet.
    pub fn new(steps: Vec<GliumStep>) -> (run: Self)
        ensures
            run@ == (GliumProgress { steps: steps@, performed: 0, failed: false }),
    {
        GliumRun { steps, performed: 0, failed: false }
    }

    /// The step to perform next, if the frame is neither complete nor has failed.
    pub fn next_step(&self) -> (step: Option<GliumStep>)
        ensures
            step == self@.next_step(),
    {
        if self.failed || self.performed >= self.steps.len() {
            None
        } else {
            Some(self.steps[self.performed])
        }
    }

    /// Takes note of whether the next step has succeeded.
    pub fn report(&mut self, succeeded: bool)
        requires
            old(self)@.next_step() is Some,
        ensures
            final(self)@ == old(self)@.after_step(succeeded),
    {
        assert(self.performed < self.steps.len());
        if succeeded {
            self.performed = self.performed + 1;
        } else {
            self.failed = true;
        }
    }

    /// Whether a step has failed.
    pub fn has_failed(&self) -> (failed: bool)
        ensures
            failed == self@.failed,
    {
        self.failed
    }
}

/// A frame performs the steps up to the first one that fails, and no other: what
/// comes after a failed step is neither drawn nor moved on from.
pub proof fn law_frame_stops_at_first_failure(steps: Seq<GliumStep>, outcomes: Seq<bool>)
    requires
        outcomes.len() >= steps.len(),
    ensures
        ({
            let start = GliumProgress { steps, performed: 0, failed: false };
            let end = start.after_steps(outcomes);
            &&& end.next_step() is None
            &&& end.failed <==> exists|i: int| 0 <= i < steps.len() && !#[trigger] outcomes[i]
            &&& forall|i: int| 0 <= i < end.performed ==> #[trigger] outcomes[i]
            &&& end.failed ==> end.performed < steps.len() && !outcomes[end.performed as int]
            &&& !end.failed ==> end.performed == steps.len()
        }),
{
    lemma_progress(steps, outcomes);
    let end = GliumProgress { steps, performed: 0, failed: false }.after_steps(outcomes);
    if end.failed {
        assert(!outcomes[end.performed as int]);
    }
}

/// Where a frame stands after some steps.
proof fn lemma_progress(steps: Seq<GliumStep>, outcomes: Seq<bool>)
    ensures
        ({
            let start = GliumProgress { steps, performed: 0, failed: false };
            let end = start.after_steps(outcomes);
            &&& end.steps == steps
            &&& end.performed <= steps.len()
            &&& end.performed <= outcomes.len()
            &&& forall|i: int| 0 <= i < end.performed ==> #[trigger] outcomes[i]
            &&& end.failed ==> end.performed < steps.len() && end.performed < outcomes.len()
                && !outcomes[end.performed as int]
            &&& !end.failed && end.performed < steps.len() ==> end.performed == outcomes.len()
        }),
    decreases outcomes.len(),
{
    if outcomes.len() > 0 {
        let front = outcomes.drop_last();
        lemma_progress(steps, front);
        let earlier = GliumProgress { steps, performed: 0, failed: false }.after_steps(front);
        assert(forall|i: int| 0 <= i < front.len() ==> front[i] == outcomes[i]);
        assert forall|i: int| 0 <= i < earlier.performed implies #[trigger] outcomes[i] by {
            assert(front[i]);
        }
    }
}

/// How a step of a frame draws: subpixels for text alone, and the blending that goes
/// with them.
pub open spec fn blends_by_subpixel(step: GliumStep, subpixel: bool) -> bool {
    match step {
        GliumStep::DrawBuffer { slot, vertex_count, subpixel_aa, blending, .. } => {
            &&& vertex_count > 0
            &&& subpixel_aa == (subpixel && slot.idx == 1)
            &&& blending == Blending::DualSource <==> subpixel_aa
        },
        _ => true,
    }
}

proof fn lemma_steps_blend_by_subpixel(
    layers: Seq<RenderLayer>,
    layer: int,
    idx: int,
    subpixel: bool,
)
    requires
        idx <= 3,
    ensures
        forall|i: int|
            0 <= i < steps_before(layers, layer, idx, subpixel).len() ==> blends_by_subpixel(
                #[trigger] steps_before(layers, layer, idx, subpixel)[i],
                subpixel,
            ),
    decreases layer, idx,
{
    if 0 < idx {
        lemma_steps_blend_by_subpixel(layers, layer, idx - 1, subpixel);
        let earlier = steps_before(layers, layer, idx - 1, subpixel);
        let last = buffer_steps(layers, layer, idx - 1, subpixel);
        assert(steps_before(layers, layer, idx, subpixel) == earlier + last);
        assert forall|i: int| 0 <= i < (earlier + last).len() implies blends_by_subpixel(
            #[trigger] (earlier + last)[i],
            subpixel,
        ) by {
            if i < earlier.len() {
                assert((earlier + last)[i] == earlier[i]);
            } else {
                assert((earlier + last)[i] == last[i - earlier.len()]);
            }
        }
    } else if 0 < layer {
        lemma_steps_blend_by_subpixel(layers, layer - 1, 3, subpixel);
        assert(steps_before(layers, layer, idx, subpixel) == steps_before(
            layers,
            layer - 1,
            3,
            subpixel,
        ));
    }
}

/// Every buffer that a frame draws holds something, only text is drawn with
/// subpixels, and that exactly where glyphs have them; blending follows.
pub proof fn law_only_text_is_drawn_with_subpixels(
    layers: Seq<RenderLayer>,
    subpixel: bool,
    i: int,
)
    requires
        0 <= i < frame_steps(layers, subpixel).len(),
    ensures
        blends_by_subpixel(frame_steps(layers, subpixel)[i], subpixel),
{
    lemma_steps_blend_by_subpixel(layers, layers.len() as int, 0, subpixel);
    let rest = steps_before(layers, layers.len() as int, 0, subpixel);
    if i > 0 {
        assert(frame_steps(layers, subpixel)[i] == rest[i - 1]);
    }
}

/// A render target alone decides about subpixels: the load target has no say beside
/// it, and what is a render target does what it would do as the load target.
pub proof fn law_render_target_decides(
    render_target: FreeTypeLoadTarget,
    load_target: FreeTypeLoadTarget,
    other: FreeTypeLoadTarget,
)
    ensures
        is_subpixel(Some(render_target), load_target) == is_subpixel(Some(render_target), other),
        is_subpixel(Some(render_target), load_target) == is_subpixel(None, render_target),
{
}

/// Glyphs for the two kinds of LCD have subpixels, and no others.
pub proof fn law_lcd_glyphs_have_subpixels(target: FreeTypeLoadTarget)
    ensures
        is_subpixel(None, target) <==> (match target {
            FreeTypeLoadTarget::HorizontalLcd => true,
            FreeTypeLoadTarget::VerticalLcd => true,
            FreeTypeLoadTarget::Normal => false,
            FreeTypeLoadTarget::Light => false,
            FreeTypeLoadTarget::Mono => false,
        }),
{
}

proof fn lemma_step_contains_concat(
    first: Seq<GliumStep>,
    second: Seq<GliumStep>,
    step: GliumStep,
)
    ensures
        (first + second).contains(step) <==> first.contains(step) || second.contains(step),
{
    let both = first + second;
    if first.contains(step) {
        let i = choose|i: int| 0 <= i < first.len() && first[i] == step;
        assert(both[i] == step);
    }
    if second.contains(step) {
        let i = choose|i: int| 0 <= i < second.len() && second[i] == step;
        assert(both[first.len() + i] == step);
    }
    if both.contains(step) {
        let i = choose|i: int| 0 <= i < both.len() && both[i] == step;
        if i < first.len() {
            assert(first[i] == step);
        } else {
            assert(second[i - first.len()] == step);
        }
    }
}

proof fn lemma_step_contains_one(only: GliumStep, step: GliumStep)
    ensures
        seq![only].contains(step) <==> only == step,
{
    assert(seq![only][0] == only);
}

/// The draw step of one buffer.
spec fn is_draw_step(
    layers: Seq<RenderLayer>,
    layer: int,
    idx: int,
    subpixel: bool,
    step: GliumStep,
) -> bool {
    let counts = layers[layer].vb[idx];
    &&& has_vertices(layers, layer, idx)
    &&& step == GliumStep::DrawBuffer {
        slot: slot_at(layer, idx),
        vertex_count: counts.vertex_count,
        index_count: counts.index_count,
        subpixel_aa: subpixel && idx == 1,
        blending: if subpixel && idx == 1 {
            Blending::DualSource
        } else {
            Blending::Alpha
        },
    }
}

proof fn lemma_buffer_steps_contain(
    layers: Seq<RenderLayer>,
    layer: int,
    idx: int,
    subpixel: bool,
    step: GliumStep,
)
    ensures
        buffer_steps(layers, layer, idx, subpixel).contains(step) <==> {
            ||| step == (GliumStep::NextIndex { slot: slot_at(layer, idx) })
            ||| is_draw_step(layers, layer, idx, subpixel, step)
        },
{
    let steps = buffer_steps(layers, layer, idx, subpixel);
    if has_vertices(layers, layer, idx) {
        assert(steps == seq![steps[0]] + seq![steps[1]]);
        lemma_step_contains_concat(seq![steps[0]], seq![steps[1]], step);
        lemma_step_contains_one(steps[0], step);
        lemma_step_contains_one(steps[1], step);
    } else {
        lemma_step_contains_one(steps[0], step);
    }
}

/// A slot before buffer `idx` of layer `layer`.
spec fn is_before(slot: Slot, layer: int, idx: int) -> bool {
    slot.layer < layer && slot.idx < 3 || slot.layer == layer && slot.idx < idx
}

proof fn lemma_steps_before_contain(
    layers: Seq<RenderLayer>,
    layer: int,
    idx: int,
    subpixel: bool,
    step: GliumStep,
)
    requires
        0 <= layer <= layers.len() <= usize::MAX,
        0 <= idx <= 3,
    ensures
        steps_before(layers, layer, idx, subpixel).contains(step) <==> match step {
            GliumStep::ClearColor => false,
            GliumStep::NextIndex { slot } => is_before(slot, layer, idx),
            GliumStep::DrawBuffer { slot, .. } => is_before(slot, layer, idx) && is_draw_step(
                layers,
                slot.layer as int,
                slot.idx as int,
                subpixel,
                step,
            ),
        },
    decreases layer, idx,
{
    let steps = steps_before(layers, layer, idx, subpixel);
    if 0 < idx {
        let earlier = steps_before(layers, layer, idx - 1, subpixel);
        let last = buffer_steps(layers, layer, idx - 1, subpixel);
        assert(steps == earlier + last);
        lemma_steps_before_contain(layers, layer, idx - 1, subpixel, step);
        lemma_step_contains_concat(earlier, last, step);
        lemma_buffer_steps_contain(layers, layer, idx - 1, subpixel, step);
    } else if 0 < layer {
        assert(steps == steps_before(layers, layer - 1, 3, subpixel));
        lemma_steps_before_contain(layers, layer - 1, 3, subpixel, step);
    } else {
        assert(steps == Seq::<GliumStep>::empty());
    }
}

/// What an OpenGL frame does, step by step: it is cleared, each buffer that holds
/// anything is drawn with all of its vertices and all of its indices, and no other
/// buffer is, text alone with subpixels, where glyphs have them, and blended
/// accordingly; and every slot moves on.
pub proof fn law_what_a_frame_draws(layers: Seq<RenderLayer>, subpixel: bool, step: GliumStep)
    requires
        layers.len() <= usize::MAX,
    ensures
        frame_steps(layers, subpixel).contains(step) <==> match step {
            GliumStep::ClearColor => true,
            GliumStep::NextIndex { slot } => slot.layer < layers.len() && slot.idx < 3,
            GliumStep::DrawBuffer { slot, vertex_count, index_count, subpixel_aa, blending } => {
                &&& slot.layer < layers.len()
                &&& slot.idx < 3
                &&& vertex_count > 0
                &&& vertex_count == layers[slot.layer as int].vb[slot.idx as int].vertex_count
                &&& index_count == layers[slot.layer as int].vb[slot.idx as int].index_count
                &&& subpixel_aa <==> subpixel && slot.idx == 1
                &&& blending == Blending::DualSource <==> subpixel && slot.idx == 1
            },
        },
{
    let rest = steps_before(layers, layers.len() as int, 0, subpixel);
    lemma_step_contains_concat(seq![GliumStep::ClearColor], rest, step);
    lemma_step_contains_one(GliumStep::ClearColor, step);
    lemma_steps_before_contain(layers, layers.len() as int, 0, subpixel, step);
}

/// One step comes before another: the frame is cleared first, buffers follow layer by
/// layer, and a slot moves on after its buffer was drawn.
pub open spec fn step_precedes(first: GliumStep, second: GliumStep) -> bool {
    match (first, second) {
        (_, GliumStep::ClearColor) => false,
        (GliumStep::ClearColor, _) => true,
        (GliumStep::DrawBuffer { slot: a, .. }, GliumStep::NextIndex { slot: b }) => a.layer
            < b.layer || a.layer == b.layer && a.idx <= b.idx,
        (GliumStep::DrawBuffer { slot: a, .. }, GliumStep::DrawBuffer { slot: b, .. }) => a.layer
            < b.layer || a.layer == b.layer && a.idx < b.idx,
        (GliumStep::NextIndex { slot: a }, GliumStep::NextIndex { slot: b }) => a.layer < b.layer
            || a.layer == b.layer && a.idx < b.idx,
        (GliumStep::NextIndex { slot: a }, GliumStep::DrawBuffer { slot: b, .. }) => a.layer
            < b.layer || a.layer == b.layer && a.idx < b.idx,
    }
}

/// Steps come in order, and none of them twice.
pub open spec fn steps_in_order(steps: Seq<GliumStep>) -> bool {
    forall|i: int, j: int|
        0 <= i < j < steps.len() ==> step_precedes(#[trigger] steps[i], #[trigger] steps[j])
}

proof fn lemma_step_order_concat(first: Seq<GliumStep>, second: Seq<GliumStep>)
    requires
        steps_in_order(first),
        steps_in_order(second),
        forall|a: GliumStep, b: GliumStep|
            first.contains(a) && second.contains(b) ==> #[trigger] step_precedes(a, b),
    ensures
        steps_in_order(first + second),
{
    let both = first + second;
    assert forall|i: int, j: int| 0 <= i < j < both.len() implies step_precedes(
        #[trigger] both[i],
        #[trigger] both[j],
    ) by {
        if j < first.len() {
            assert(both[i] == first[i] && both[j] == first[j]);
        } else if i >= first.len() {
            assert(both[i] == second[i - first.len()] && both[j] == second[j - first.len()]);
        } else {
            assert(first.contains(first[i]));
            assert(second.contains(second[j - first.len()]));
        }
    }
}

proof fn lemma_steps_before_order(
    layers: Seq<RenderLayer>,
    layer: int,
    idx: int,
    subpixel: bool,
)
    requires
        0 <= layer < layers.len() || layer == layers.len() && idx == 0,
        layers.len() <= usize::MAX,
        0 <= idx <= 3,
    ensures
        steps_in_order(steps_before(layers, layer, idx, subpixel)),
    decreases layer, idx,
{
    let steps = steps_before(layers, layer, idx, subpixel);
    if 0 < idx {
        let earlier = steps_before(layers, layer, idx - 1, subpixel);
        let last = buffer_steps(layers, layer, idx - 1, subpixel);
        assert(steps == earlier + last);
        lemma_steps_before_order(layers, layer, idx - 1, subpixel);
        assert forall|a: GliumStep, b: GliumStep|
            earlier.contains(a) && last.contains(b) implies #[trigger] step_precedes(a, b) by {
            lemma_steps_before_contain(layers, layer, idx - 1, subpixel, a);
            lemma_buffer_steps_contain(layers, layer, idx - 1, subpixel, b);
        }
        lemma_step_order_concat(earlier, last);
    } else if 0 < layer {
        assert(steps == steps_before(layers, layer - 1, 3, subpixel));
        lemma_steps_before_order(layers, layer - 1, 3, subpixel);
    } else {
        assert(steps == Seq::<GliumStep>::empty());
    }
}

/// The order of an OpenGL frame: it is cleared first, then buffers are drawn layer by
/// layer, and each slot moves on right after it was drawn. Nothing is done twice.
pub proof fn law_order_of_steps(layers: Seq<RenderLayer>, subpixel: bool)
    requires
        layers.len() <= usize::MAX,
    ensures
        steps_in_order(frame_steps(layers, subpixel)),
{
    let clear = seq![GliumStep::ClearColor];
    let rest = steps_before(layers, layers.len() as int, 0, subpixel);
    lemma_steps_before_order(layers, layers.len() as int, 0, subpixel);
    assert forall|a: GliumStep, b: GliumStep|
        clear.contains(a) && rest.contains(b) implies #[trigger] step_precedes(a, b) by {
        lemma_step_contains_one(GliumStep::ClearColor, a);
        lemma_steps_before_contain(layers, layers.len() as int, 0, subpixel, b);
    }
    lemma_step_order_concat(clear, rest);
}

impl GliumProgress {
    /// The steps that are handed out until as many have succeeded or failed.
    pub open spec fn handed_out(self, outcomes: Seq<bool>) -> Seq<GliumStep>
        decreases outcomes.len(),
    {
        if outcomes.len() == 0 {
            seq![]
        } else {
            let earlier = self.handed_out(outcomes.drop_last());
            match self.after_steps(outcomes.drop_last()).next_step() {
                Some(step) => earlier.push(step),
                None => earlier,
            }
        }
    }
}

/// A frame hands out its own steps, one by one and in order, none twice and none left
/// out: all of them where none fails, else those up to the one that fails.
pub proof fn law_steps_are_handed_out_in_order(steps: Seq<GliumStep>, outcomes: Seq<bool>)
    ensures
        ({
            let start = GliumProgress { steps, performed: 0, failed: false };
            let handed_out = start.handed_out(outcomes);
            &&& handed_out.len() <= steps.len()
            &&& handed_out == steps.take(handed_out.len() as int)
            &&& (forall|i: int| 0 <= i < outcomes.len() ==> #[trigger] outcomes[i])
                ==> handed_out.len() == (if outcomes.len() < steps.len() {
                outcomes.len()
            } else {
                steps.len()
            })
            &&& forall|i: int|
                0 <= i < outcomes.len() && i < steps.len() && !#[trigger] outcomes[i] && (forall|
                    j: int,
                |
                    0 <= j < i ==> #[trigger] outcomes[j]) ==> handed_out.len() == i + 1
        }),
{
    lemma_handed_out(steps, outcomes);
    lemma_progress(steps, outcomes);
    let start = GliumProgress { steps, performed: 0, failed: false };
    let end = start.after_steps(outcomes);
    assert forall|i: int|
        0 <= i < outcomes.len() && i < steps.len() && !#[trigger] outcomes[i] && (forall|j: int|
            0 <= j < i ==> #[trigger] outcomes[j]) implies start.handed_out(outcomes).len() == i
        + 1 by {
        if end.performed > i {
            assert(outcomes[i]);
        }
        if end.failed && end.performed < i {
            assert(outcomes[end.performed as int]);
        }
    }
}

/// What was handed out is what was performed, and the step that failed.
proof fn lemma_handed_out(steps: Seq<GliumStep>, outcomes: Seq<bool>)
    ensures
        ({
            let start = GliumProgress { steps, performed: 0, failed: false };
            let end = start.after_steps(outcomes);
            let handed_out = start.handed_out(outcomes);
            &&& handed_out.len() == end.performed + if end.failed {
                1int
            } else {
                0
            }
            &&& handed_out.len() <= steps.len()
            &&& handed_out == steps.take(handed_out.len() as int)
        }),
    decreases outcomes.len(),
{
    let start = GliumProgress { steps, performed: 0, failed: false };
    if outcomes.len() > 0 {
        let front = outcomes.drop_last();
        lemma_handed_out(steps, front);
        lemma_progress(steps, front);
        lemma_progress(steps, outcomes);
        let earlier = start.after_steps(front);
        if let Some(step) = earlier.next_step() {
            assert(step == steps[earlier.performed as int]);
            assert(start.handed_out(outcomes) =~= steps.take(earlier.performed as int + 1));
        }
    } else {
        assert(steps.take(0) =~= Seq::<GliumStep>::empty());
    }
}

} // verus!
