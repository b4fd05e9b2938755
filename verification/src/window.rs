//! A window, and what it takes to draw its next frame.
use crate::clock::{duration_between, is_reading, whole_millis};
use crate::layers::RenderLayer;
use crate::opengl::{
    frame_steps, is_subpixel, plan_steps, use_subpixel, FreeTypeLoadTarget, GliumStep,
};
use crate::prevcursor::{PrevCursorPos, StableCursorPosition};
use crate::textures::{law_frame_touches_only_provided_textures, touches};
use crate::webgpu::{frame_commands, plan_commands, Chain, GpuCommand, Texture};
use std::time::{Duration, Instant};
use vstd::prelude::*;

verus! {

/// A pane, where it stands in the window, and its cursor.
#[derive(Debug, Clone, Copy)]
pub struct PositionedPane {
    pub is_active: bool,
    /// The column of the window in which the pane starts.
    pub left: usize,
    /// The row of the window in which the pane starts.
    pub top: usize,
    pub cursor: StableCursorPosition,
    /// The stable row that the pane shows first.
    pub physical_top: isize,
}

/// A cell of the window.
#[derive(Debug, Clone, Copy, PartialEq, Eq, Structural)]
pub struct Cell {
    pub column: usize,
    pub row: isize,
}

/// Whether the cell of a cursor position can be computed.
pub open spec fn cell_fits(pane: PositionedPane, x: usize, y: isize) -> bool {
    &&& x + pane.left <= usize::MAX
    &&& isize::MIN <= y + (pane.top as isize) <= isize::MAX
    &&& isize::MIN <= y + (pane.top as isize) - pane.physical_top <= isize::MAX
}

/// The cell of the window that a cursor position of a pane stands for. A row above
/// the window counts as the window's first.
pub open spec fn is_cell(pane: PositionedPane, x: usize, y: isize, cell: Cell) -> bool {
    let row = y + (pane.top as isize) - pane.physical_top;
    &&& cell.column == x + pane.left
    &&& cell.row == if row < 0 {
        0
    } else {
        row
    }
}

/// The cell of the window that a cursor position of a pane stands for.
pub fn window_cell(pane: &PositionedPane, x: usize, y: isize) -> (cell: Cell)
    requires
        cell_fits(*pane, x, y),
    ensures
        is_cell(*pane, x, y, cell),
{
    let row: isize = y + (pane.top as isize) - pane.physical_top;
    Cell {
        column: x + pane.left,
        row: if row < 0 {
            0
        } else {
            row
        },
    }
}

/// Whether the cell of a cursor position can be computed.
fn check_cell_fits(pane: &PositionedPane, x: usize, y: isize) -> (fits: bool)
    ensures
        fits == cell_fits(*pane, x, y),
{
    if x.checked_add(pane.left).is_none() {
        return false;
    }
    match y.checked_add(pane.top as isize) {
        Some(row) => row.checked_sub(pane.physical_top).is_some(),
        None => false,
    }
}

/// Pane number `index` is the first one that is active.
pub open spec fn is_first_active(panes: Seq<PositionedPane>, index: int) -> bool {
    &&& 0 <= index < panes.len()
    &&& panes[index].is_active
    &&& forall|i: int| 0 <= i < index ==> !#[trigger] panes[i].is_active
}

/// No pane is active.
pub open spec fn none_active(panes: Seq<PositionedPane>) -> bool {
    forall|i: int| 0 <= i < panes.len() ==> !#[trigger] panes[i].is_active
}

/// The first pane that is active.
pub fn active_pane(panes: &Vec<PositionedPane>) -> (index: Option<usize>)
    ensures
        match index {
            Some(index) => is_first_active(panes@, index as int),
            None => none_active(panes@),
        },
{
    let mut index: usize = 0;
    while index < panes.len()
        invariant
            index <= panes@.len(),
            forall|i: int| 0 <= i < index ==> !#[trigger] panes@[i].is_active,
        decreases panes@.len() - index,
    {
        if panes[index].is_active {
            return Some(index);
        }
        index += 1;
    }
    None
}

/// The cursor of the active pane, as shaders see it.
#[derive(Debug)]
pub struct CursorUniform {
    /// Where the cursor is.
    pub position: Cell,
    /// Where the cursor came from.
    pub prev_position: Cell,
    /// How long ago it moved.
    pub move_time: Duration,
}

/// A chain of post-processing shaders.
#[derive(Debug, Clone, Copy, PartialEq, Eq, Structural)]
pub struct PostProcess {
    /// The number of its shaders.
    pub pipelines: usize,
    /// Whether there is a second texture for its passes to alternate with.
    pub has_ping_pong: bool,
}

/// The number of shaders, where there is a chain.
pub open spec fn pipelines(chain: Option<PostProcess>) -> Option<usize> {
    match chain {
        Some(chain) => Some(chain.pipelines),
        None => None,
    }
}

/// A chain of more than one shader has a second texture.
pub open spec fn chain_is_complete(chain: Option<PostProcess>) -> bool {
    chain matches Some(chain) ==> chain.pipelines < 2 || chain.has_ping_pong
}

fn count_pipelines(chain: &Option<PostProcess>) -> (count: Option<usize>)
    ensures
        count == pipelines(*chain),
{
    match chain {
        Some(chain) => Some(chain.pipelines),
        None => None,
    }
}

fn check_chain(chain: &Option<PostProcess>) -> (complete: bool)
    ensures
        complete == chain_is_complete(*chain),
{
    match chain {
        Some(chain) => chain.pipelines < 2 || chain.has_ping_pong,
        None => true,
    }
}

/// What of the configuration decides how frames are drawn.
#[derive(Debug, Clone, Copy, PartialEq, Eq, Structural)]
pub struct RenderConfig {
    pub tab_bar_at_bottom: bool,
    pub freetype_render_target: Option<FreeTypeLoadTarget>,
    pub freetype_load_target: FreeTypeLoadTarget,
}

/// Why there is no surface to draw to.
#[derive(Debug, Clone, Copy, PartialEq, Eq, Structural)]
pub enum SurfaceError {
    Timeout,
    Outdated,
    Lost,
    OutOfMemory,
    Other,
}

/// What a frame is drawn to.
#[derive(Debug, Clone, Copy)]
pub enum RenderFrame {
    /// A frame of OpenGL.
    Glium,
    /// A surface of WebGPU, or why there is none.
    WebGpu(Result<(), SurfaceError>),
}

/// What the clock shows each time a frame looks at it.
pub struct FrameClock {
    /// For the milliseconds that buffers are drawn with.
    pub milliseconds_now: Instant,
    /// For how long ago the cursor moved.
    pub move_now: Instant,
    /// For the time since the previous post-processed frame.
    pub now: Instant,
    /// For the time that shaders see.
    pub time_now: Instant,
}

impl FrameClock {
    /// Each of these is a reading of the clock.
    pub open spec fn is_read(self) -> bool {
        &&& is_reading(self.milliseconds_now)
        &&& is_reading(self.move_now)
        &&& is_reading(self.now)
        &&& is_reading(self.time_now)
    }
}

/// What it takes to draw a frame with WebGPU.
pub struct WebGpuFrame {
    /// Milliseconds since the window was created, as buffers are drawn with them.
    pub milliseconds: u32,
    /// Time since the window was created, as shaders see it.
    pub time: Duration,
    /// Time since the previous post-processed frame, if there was one.
    pub time_delta: Option<Duration>,
    /// The number of the frame, as shaders see it.
    pub frame: u32,
    /// Whether the tab bar moves the panes down.
    pub tab_bar_above: bool,
    /// The cursor of the active pane, if there is one.
    pub cursor: Option<CursorUniform>,
    /// What to do, in order.
    pub commands: Vec<GpuCommand>,
}

/// What it takes to draw a frame with OpenGL.
pub struct GliumFrame {
    /// Milliseconds since the window was created, as buffers are drawn with them.
    pub milliseconds: u32,
    /// What to do, in order, until a step fails.
    pub steps: Vec<GliumStep>,
}

/// What it takes to draw a frame.
pub enum DrawPlan {
    Glium(GliumFrame),
    WebGpu(WebGpuFrame),
}

/// Counts milliseconds in 32 bits. The count starts over when they are used up.
pub fn wrap_millis(millis: u128) -> (wrapped: u32)
    ensures
        wrapped == millis % 0x1_0000_0000,
{
    assert(millis as u32 == millis % 0x1_0000_0000) by (bit_vector);
    #[verifier::truncate] (millis as u32)
}

/// The milliseconds from `created` to `now`, in 32 bits.
fn milliseconds_since(created: Instant, now: Instant) -> (milliseconds: u32)
    ensures
        milliseconds == whole_millis(duration_between(now, created)) % 0x1_0000_0000,
{
    wrap_millis(now.duration_since(created).as_millis())
}

/// A terminal window.
pub struct TermWindow {
    pub config: RenderConfig,
    pub show_tab_bar: bool,
    pub panes: Vec<PositionedPane>,
    pub layers: Vec<RenderLayer>,
    pub post_process: Option<PostProcess>,
    pub background_post_process: Option<PostProcess>,
    pub prev_cursor: PrevCursorPos,
    pub created: Instant,
    pub last_post_process_time: Option<Instant>,
    pub post_process_frame: u32,
}

impl TermWindow {
    /// Whether a frame can be drawn with WebGPU: chains have the textures they need,
    /// and the cells of the active pane's cursor can be computed.
    pub open spec fn is_drawable(&self) -> bool {
        &&& chain_is_complete(self.post_process)
        &&& chain_is_complete(self.background_post_process)
        &&& forall|index: int| #[trigger]
            is_first_active(self.panes@, index) ==> {
                let pane = self.panes@[index];
                let prev = self.prev_cursor@.prev_position;
                &&& cell_fits(pane, pane.cursor.x, pane.cursor.y)
                &&& cell_fits(pane, prev.x, prev.y)
            }
    }

    /// Whether frames are post-processed.
    pub open spec fn is_post_processed(&self) -> bool {
        self.post_process is Some || self.background_post_process is Some
    }

    /// The window after a frame was drawn with WebGPU when the clock showed `now`. Only
    /// a post-processed frame counts.
    pub open spec fn after_frame(self, now: Instant) -> TermWindow {
        if self.is_post_processed() {
            TermWindow {
                last_post_process_time: Some(now),
                post_process_frame: ((self.post_process_frame + 1) % 0x1_0000_0000) as u32,
                ..self
            }
        } else {
            self
        }
    }

    /// What shaders see of the cursor: nothing where no pane is active.
    pub open spec fn is_cursor_uniform(
        &self,
        move_now: Instant,
        cursor: Option<CursorUniform>,
    ) -> bool {
        match cursor {
            Some(cursor) => exists|index: int| #[trigger]
                is_first_active(self.panes@, index) && {
                    let pane = self.panes@[index];
                    let track = self.prev_cursor@;
                    &&& is_cell(pane, pane.cursor.x, pane.cursor.y, cursor.position)
                    &&& is_cell(
                        pane,
                        track.prev_position.x,
                        track.prev_position.y,
                        cursor.prev_position,
                    )
                    &&& cursor.move_time == duration_between(move_now, track.moved_at)
                },
            None => none_active(self.panes@),
        }
    }

    /// What it takes to draw the window's next frame with WebGPU, given what the clock
    /// shows.
    pub open spec fn is_webgpu_frame(&self, clock: FrameClock, frame: WebGpuFrame) -> bool {
        &&& frame.milliseconds
            == whole_millis(duration_between(clock.milliseconds_now, self.created)) % 0x1_0000_0000
        &&& frame.time == duration_between(clock.time_now, self.created)
        &&& frame.time_delta == match self.last_post_process_time {
            Some(last) => Some(duration_between(clock.now, last)),
            None => None,
        }
        &&& frame.frame == self.after_frame(clock.now).post_process_frame
        &&& frame.tab_bar_above == (self.show_tab_bar && !self.config.tab_bar_at_bottom)
        &&& self.is_cursor_uniform(clock.move_now, frame.cursor)
        &&& frame.commands@ == frame_commands(
            self.layers@,
            pipelines(self.background_post_process),
            pipelines(self.post_process),
        )
    }

    /// What it takes to draw the window's next frame with OpenGL when the clock shows
    /// `now`.
    pub open spec fn is_glium_frame(&self, now: Instant, frame: GliumFrame) -> bool {
        &&& frame.milliseconds
            == whole_millis(duration_between(now, self.created)) % 0x1_0000_0000
        &&& frame.steps@ == frame_steps(
            self.layers@,
            is_subpixel(
                self.config.freetype_render_target,
                self.config.freetype_load_target,
            ),
        )
    }

    /// Whether a frame can be drawn with WebGPU.
    pub fn can_draw(&self) -> (drawable: bool)
        ensures
            drawable == self.is_drawable(),
    {
        if !check_chain(&self.post_process) || !check_chain(&self.background_post_process) {
            return false;
        }
        match active_pane(&self.panes) {
            Some(index) => {
                let pane = &self.panes[index];
                let prev = self.prev_cursor.prev_position();
                assert(is_first_active(self.panes@, index as int));
                check_cell_fits(pane, pane.cursor.x, pane.cursor.y) && check_cell_fits(
                    pane,
                    prev.x,
                    prev.y,
                )
            },
            None => true,
        }
    }

    /// What it takes to draw the window's next frame, or why it cannot be drawn. A
    /// frame that has no surface leaves the window as it is.
    pub fn call_draw(&mut self, frame: &RenderFrame) -> (plan: Result<DrawPlan, SurfaceError>)
        requires
            *frame matches RenderFrame::WebGpu(Ok(_)) ==> old(self).is_drawable(),
        ensures
            *frame is Glium ==> {
                &&& *final(self) == *old(self)
                &&& plan is Ok
                &&& plan->Ok_0 is Glium
                &&& exists|now: Instant|
                    {
                        &&& is_reading(now)
                        &&& #[trigger] old(self).is_glium_frame(now, plan->Ok_0->Glium_0)
                    }
            },
            *frame matches RenderFrame::WebGpu(Ok(_)) ==> {
                &&& plan is Ok
                &&& plan->Ok_0 is WebGpu
                &&& exists|clock: FrameClock|
                    {
                        &&& clock.is_read()
                        &&& #[trigger] old(self).is_webgpu_frame(clock, plan->Ok_0->WebGpu_0)
                        &&& *final(self) == old(self).after_frame(clock.now)
                    }
            },
            *frame matches RenderFrame::WebGpu(Err(error)) ==> {
                &&& *final(self) == *old(self)
                &&& plan is Err
                &&& plan->Err_0 == error
            },
    {
        match frame {
            RenderFrame::Glium => {
                let glium = self.call_draw_glium();
                // The reading that the frame was planned at
                let ghost now = choose|now: Instant|
                    is_reading(now) && #[trigger] old(self).is_glium_frame(now, glium);
                let plan: Result<DrawPlan, SurfaceError> = Ok(DrawPlan::Glium(glium));
                assert(plan->Ok_0->Glium_0 == glium);
                assert(old(self).is_glium_frame(now, plan->Ok_0->Glium_0));
                plan
            },
            RenderFrame::WebGpu(Ok(())) => Ok(DrawPlan::WebGpu(self.call_draw_webgpu())),
            RenderFrame::WebGpu(Err(error)) => Err(*error),
        }
    }

    /// What it takes to draw the window's next frame with WebGPU.
    fn call_draw_webgpu(&mut self) -> (frame: WebGpuFrame)
        requires
            old(self).is_drawable(),
        ensures
            exists|clock: FrameClock|
                {
                    &&& clock.is_read()
                    &&& #[trigger] old(self).is_webgpu_frame(clock, frame)
                    &&& *final(self) == old(self).after_frame(clock.now)
                },
    {
        let milliseconds_now = Instant::now();
        let move_now = Instant::now();
        let now = Instant::now();
        let time_now = Instant::now();
        let ghost clock = FrameClock { milliseconds_now, move_now, now, time_now };
        let frame = self.draw_webgpu_at(FrameClock { milliseconds_now, move_now, now, time_now });
        assert(old(self).is_webgpu_frame(clock, frame));
        frame
    }

    /// What it takes to draw the window's next frame with OpenGL.
    fn call_draw_glium(&mut self) -> (frame: GliumFrame)
        ensures
            exists|now: Instant|
                is_reading(now) && #[trigger] old(self).is_glium_frame(now, frame),
            *final(self) == *old(self),
    {
        let now = Instant::now();
        self.draw_glium_at(now)
    }

    /// What shaders see of the cursor when the clock shows `move_now`.
    fn cursor_uniform(&self, move_now: Instant) -> (cursor: Option<CursorUniform>)
        requires
            self.is_drawable(),
        ensures
            self.is_cursor_uniform(move_now, cursor),
    {
        match active_pane(&self.panes) {
            Some(index) => {
                assert(is_first_active(self.panes@, index as int));
                let pane = &self.panes[index];
                let prev = self.prev_cursor.prev_position();
                Some(
                    CursorUniform {
                        position: window_cell(pane, pane.cursor.x, pane.cursor.y),
                        prev_position: window_cell(pane, prev.x, prev.y),
                        move_time: move_now.duration_since(self.prev_cursor.last_cursor_movement()),
                    },
                )
            },
            None => None,
        }
    }

    /// What it takes to draw the window's next frame with WebGPU, given what the clock
    /// shows.
    pub fn draw_webgpu_at(&mut self, clock: FrameClock) -> (frame: WebGpuFrame)
        requires
            old(self).is_drawable(),
        ensures
            old(self).is_webgpu_frame(clock, frame),
            *final(self) == old(self).after_frame(clock.now),
    {
        let milliseconds = milliseconds_since(self.created, clock.milliseconds_now);
        let cursor = self.cursor_uniform(clock.move_now);
        let time = clock.time_now.duration_since(self.created);
        let time_delta = match self.last_post_process_time {
            Some(last) => Some(clock.now.duration_since(last)),
            None => None,
        };
        if self.post_process.is_some() || self.background_post_process.is_some() {
            self.last_post_process_time = Some(clock.now);
            self.post_process_frame = self.post_process_frame.wrapping_add(1);
        }
        let commands = plan_commands(
            &self.layers,
            count_pipelines(&self.background_post_process),
            count_pipelines(&self.post_process),
        );
        WebGpuFrame {
            milliseconds,
            time,
            time_delta,
            frame: self.post_process_frame,
            tab_bar_above: self.show_tab_bar && !self.config.tab_bar_at_bottom,
            cursor,
            commands,
        }
    }

    /// What it takes to draw the window's next frame with OpenGL when the clock shows
    /// `now`.
    pub fn draw_glium_at(&self, now: Instant) -> (frame: GliumFrame)
        ensures
            self.is_glium_frame(now, frame),
    {
        let subpixel = use_subpixel(
            self.config.freetype_render_target,
            self.config.freetype_load_target,
        );
        let milliseconds = milliseconds_since(self.created, now);
        GliumFrame { milliseconds, steps: plan_steps(&self.layers, subpixel) }
    }
}

impl TermWindow {
    /// The window after some frames were drawn with WebGPU, given what the clock
    /// showed for each of them.
    pub open spec fn after_frames(self, nows: Seq<Instant>) -> TermWindow
        decreases nows.len(),
    {
        if nows.len() == 0 {
            self
        } else {
            self.after_frames(nows.drop_last()).after_frame(nows.last())
        }
    }
}

/// Frames that are not post-processed leave the window as it is.
pub proof fn law_plain_frames_do_not_count(window: TermWindow, nows: Seq<Instant>)
    requires
        window.post_process is None,
        window.background_post_process is None,
    ensures
        window.after_frames(nows) == window,
    decreases nows.len(),
{
    if nows.len() > 0 {
        law_plain_frames_do_not_count(window, nows.drop_last());
    }
}

/// Post-processed frames are counted, in 32 bits, and the time of the last one is
/// kept. Nothing else about the window changes.
pub proof fn law_post_processed_frames_are_counted(window: TermWindow, nows: Seq<Instant>)
    requires
        window.post_process is Some || window.background_post_process is Some,
        nows.len() > 0,
    ensures
        window.after_frames(nows) == (TermWindow {
            last_post_process_time: Some(nows.last()),
            post_process_frame: ((window.post_process_frame + nows.len()) % 0x1_0000_0000) as u32,
            ..window
        }),
    decreases nows.len(),
{
    if nows.len() > 1 {
        law_post_processed_frames_are_counted(window, nows.drop_last());
    } else {
        assert(nows.drop_last() == Seq::<Instant>::empty());
        reveal_with_fuel(TermWindow::after_frames, 2);
    }
}

/// A window that can be drawn can be drawn again.
pub proof fn law_drawing_keeps_a_window_drawable(window: TermWindow, nows: Seq<Instant>)
    requires
        window.is_drawable(),
    ensures
        window.after_frames(nows).is_drawable(),
{
    if window.is_post_processed() && nows.len() > 0 {
        law_post_processed_frames_are_counted(window, nows);
    } else if nows.len() > 0 {
        law_plain_frames_do_not_count(window, nows);
    }
}

/// Shaders see the time since the frame before, from the second post-processed frame
/// on, and the number of the frame grows by one.
pub proof fn law_shaders_see_time_between_frames(
    window: TermWindow,
    first: FrameClock,
    first_frame: WebGpuFrame,
    second: FrameClock,
    second_frame: WebGpuFrame,
)
    requires
        window.post_process is Some || window.background_post_process is Some,
        window.is_webgpu_frame(first, first_frame),
        window.after_frame(first.now).is_webgpu_frame(second, second_frame),
    ensures
        second_frame.time_delta == Some(duration_between(second.now, first.now)),
        second_frame.frame == (first_frame.frame + 1) % 0x1_0000_0000,
        window.last_post_process_time is None ==> first_frame.time_delta is None,
{
}

/// The cursor is never drawn above the window.
pub proof fn law_cursor_is_not_above_the_window(
    window: TermWindow,
    clock: FrameClock,
    frame: WebGpuFrame,
)
    requires
        window.is_webgpu_frame(clock, frame),
        frame.cursor is Some,
    ensures
        frame.cursor->Some_0.position.row >= 0,
        frame.cursor->Some_0.prev_position.row >= 0,
{
}

/// There is at most one first active pane, so shaders see one cursor only.
pub proof fn law_shaders_see_one_cursor(
    window: TermWindow,
    move_now: Instant,
    one: Option<CursorUniform>,
    other: Option<CursorUniform>,
)
    requires
        window.is_cursor_uniform(move_now, one),
        window.is_cursor_uniform(move_now, other),
    ensures
        one == other,
{
    if let Some(a) = one {
        if let Some(b) = other {
            let i = choose|index: int| #[trigger]
                is_first_active(window.panes@, index) && {
                    let pane = window.panes@[index];
                    let track = window.prev_cursor@;
                    &&& is_cell(pane, pane.cursor.x, pane.cursor.y, a.position)
                    &&& is_cell(
                        pane,
                        track.prev_position.x,
                        track.prev_position.y,
                        a.prev_position,
                    )
                };
            let j = choose|index: int| #[trigger]
                is_first_active(window.panes@, index) && {
                    let pane = window.panes@[index];
                    let track = window.prev_cursor@;
                    &&& is_cell(pane, pane.cursor.x, pane.cursor.y, b.position)
                    &&& is_cell(
                        pane,
                        track.prev_position.x,
                        track.prev_position.y,
                        b.prev_position,
                    )
                };
            assert(window.panes@[i].is_active);
            assert(window.panes@[j].is_active);
            assert(i == j);
        }
    }
}

/// No command of a drawable window's frame touches a second texture of a chain that
/// has none.
pub proof fn law_drawable_window_has_its_textures(
    window: TermWindow,
    clock: FrameClock,
    frame: WebGpuFrame,
    i: int,
)
    requires
        window.is_drawable(),
        window.is_webgpu_frame(clock, frame),
        0 <= i < frame.commands@.len(),
    ensures
        touches(frame.commands@[i], Texture::PingPong(Chain::Background)) ==> (
        window.background_post_process matches Some(chain) && chain.has_ping_pong),
        touches(frame.commands@[i], Texture::PingPong(Chain::Final)) ==> (
        window.post_process matches Some(chain) && chain.has_ping_pong),
{
    law_frame_touches_only_provided_textures(
        window.layers@,
        pipelines(window.background_post_process),
        pipelines(window.post_process),
    );
}

/// The origin of a pane: a cursor in the pane's first column, on the stable row that the
/// pane shows first, is in the cell of the window in which the pane starts.
pub proof fn law_pane_starts_at_its_cell(pane: PositionedPane, cell: Cell)
    requires
        pane.top <= isize::MAX,
        is_cell(pane, 0, pane.physical_top, cell),
    ensures
        cell.column == pane.left,
        cell.row == pane.top,
{
}

/// Cells follow the cursor: as many columns and, below the top of the window, as many
/// rows as the cursor is further on in the pane, it is further on in the window. A
/// cursor that is not higher up in the pane is not higher up in the window.
pub proof fn law_cells_follow_the_cursor(
    pane: PositionedPane,
    x: usize,
    y: isize,
    cell: Cell,
    other_x: usize,
    other_y: isize,
    other: Cell,
)
    requires
        is_cell(pane, x, y, cell),
        is_cell(pane, other_x, other_y, other),
    ensures
        other.column - cell.column == other_x - x,
        cell.row > 0 && other.row > 0 ==> other.row - cell.row == other_y - y,
        y <= other_y ==> cell.row <= other.row,
        cell.row > 0 && other.row == 0 ==> other_y - y <= -cell.row,
        cell.row >= 0,
{
}

/// Cells follow the pane: a pane further right or further down has its cursor as much
/// further right and, below the top of the window, further down.
pub proof fn law_cells_follow_the_pane(
    pane: PositionedPane,
    cell: Cell,
    moved: PositionedPane,
    other: Cell,
    x: usize,
    y: isize,
)
    requires
        pane.top <= isize::MAX,
        moved.top <= isize::MAX,
        moved.physical_top == pane.physical_top,
        is_cell(pane, x, y, cell),
        is_cell(moved, x, y, other),
    ensures
        other.column - cell.column == moved.left - pane.left,
        cell.row > 0 && other.row > 0 ==> other.row - cell.row == moved.top - pane.top,
        pane.top <= moved.top ==> cell.row <= other.row,
{
}

/// Scrolling does not move the cursor: where the cursor and the row that the pane shows
/// first go down by the same number of stable rows, its cell stays the same.
pub proof fn law_scrolling_does_not_move_the_cursor(
    pane: PositionedPane,
    cell: Cell,
    scrolled: PositionedPane,
    other: Cell,
    x: usize,
    y: isize,
    scrolled_y: isize,
)
    requires
        scrolled.left == pane.left,
        scrolled.top == pane.top,
        scrolled_y - y == scrolled.physical_top - pane.physical_top,
        is_cell(pane, x, y, cell),
        is_cell(scrolled, x, scrolled_y, other),
    ensures
        other == cell,
{
}

/// A cursor that has been scrolled out above the window is on the window's first row,
/// and only as far up as that is it ever put there.
pub proof fn law_cursor_above_the_window(pane: PositionedPane, x: usize, y: isize, cell: Cell)
    requires
        pane.top <= isize::MAX,
        is_cell(pane, x, y, cell),
    ensures
        cell.row == 0 <==> pane.physical_top - y >= pane.top,
{
}

/// The first active pane: an active pane in front is it, and an inactive pane in front
/// is skipped.
pub proof fn law_first_active_pane_is_found_from_the_front(
    pane: PositionedPane,
    rest: Seq<PositionedPane>,
    index: int,
)
    ensures
        pane.is_active ==> (is_first_active(seq![pane] + rest, index) <==> index == 0),
        !pane.is_active ==> (is_first_active(seq![pane] + rest, index) <==> is_first_active(
            rest,
            index - 1,
        )),
        none_active(seq![pane] + rest) <==> !pane.is_active && none_active(rest),
        none_active(Seq::<PositionedPane>::empty()),
        !is_first_active(Seq::<PositionedPane>::empty(), index),
{
    let panes = seq![pane] + rest;
    assert(panes[0] == pane);
    assert(forall|i: int| 0 <= i < rest.len() ==> panes[i + 1] == rest[i]);
    if !pane.is_active {
        if is_first_active(rest, index - 1) {
            assert forall|i: int| 0 <= i < index implies !#[trigger] panes[i].is_active by {
                if i > 0 {
                    assert(!rest[i - 1].is_active);
                }
            }
        }
        if is_first_active(panes, index) {
            assert(index > 0);
            assert forall|i: int| 0 <= i < index - 1 implies !#[trigger] rest[i].is_active by {
                assert(!panes[i + 1].is_active);
            }
        }
        if none_active(rest) {
            assert forall|i: int| 0 <= i < panes.len() implies !#[trigger] panes[i].is_active by {
                if i > 0 {
                    assert(!rest[i - 1].is_active);
                }
            }
        }
    }
    if none_active(panes) {
        assert forall|i: int| 0 <= i < rest.len() implies !#[trigger] rest[i].is_active by {
            assert(!panes[i + 1].is_active);
        }
        assert(!panes[0].is_active);
    }
}

/// What shaders see of the cursor is that of the first pane that is active: nothing
/// where none is.
pub proof fn law_shaders_see_the_active_cursor(
    window: TermWindow,
    clock: FrameClock,
    frame: WebGpuFrame,
    index: int,
)
    requires
        window.is_webgpu_frame(clock, frame),
    ensures
        frame.cursor is None <==> (forall|i: int|
            0 <= i < window.panes@.len() ==> !#[trigger] window.panes@[i].is_active),
        ({
            let pane = window.panes@[index];
            &&& 0 <= index < window.panes@.len()
            &&& pane.is_active
            &&& forall|i: int| 0 <= i < index ==> !#[trigger] window.panes@[i].is_active
        }) ==> {
            let pane = window.panes@[index];
            let prev = window.prev_cursor@.prev_position;
            let row = pane.cursor.y + (pane.top as isize) - pane.physical_top;
            let prev_row = prev.y + (pane.top as isize) - pane.physical_top;
            &&& frame.cursor is Some
            &&& frame.cursor->Some_0.position.column == pane.cursor.x + pane.left
            &&& frame.cursor->Some_0.position.row == if row < 0 {
                0
            } else {
                row
            }
            &&& frame.cursor->Some_0.prev_position.column == prev.x + pane.left
            &&& frame.cursor->Some_0.prev_position.row == if prev_row < 0 {
                0
            } else {
                prev_row
            }
            &&& frame.cursor->Some_0.move_time == duration_between(
                clock.move_now,
                window.prev_cursor@.moved_at,
            )
        },
{
    let panes = window.panes@;
    if let Some(cursor) = frame.cursor {
        let found = choose|i: int| #[trigger]
            is_first_active(panes, i) && {
                let pane = panes[i];
                let track = window.prev_cursor@;
                &&& is_cell(pane, pane.cursor.x, pane.cursor.y, cursor.position)
                &&& is_cell(
                    pane,
                    track.prev_position.x,
                    track.prev_position.y,
                    cursor.prev_position,
                )
                &&& cursor.move_time == duration_between(clock.move_now, track.moved_at)
            };
        assert(panes[found].is_active);
        if 0 <= index < panes.len() && panes[index].is_active && (forall|i: int|
            0 <= i < index ==> !#[trigger] panes[i].is_active) {
            assert(index == found) by {
                if index < found {
                    assert(!panes[index].is_active);
                }
                if found < index {
                    assert(!panes[found].is_active);
                }
            }
        }
    }
}

/// What shaders are told about time, frames and the tab bar, and which chains a frame
/// runs: milliseconds and time since the window was created, milliseconds in 32 bits;
/// the time since the last post-processed frame; a number that only post-processing
/// counts on; the tab bar only where it is shown at the top; and all shaders of each
/// chain that is there.
pub proof fn law_what_a_webgpu_frame_is_told(
    window: TermWindow,
    clock: FrameClock,
    frame: WebGpuFrame,
)
    requires
        window.is_webgpu_frame(clock, frame),
    ensures
        frame.milliseconds as int == whole_millis(
            duration_between(clock.milliseconds_now, window.created),
        ) as int % 0x1_0000_0000,
        frame.time == duration_between(clock.time_now, window.created),
        window.last_post_process_time is None ==> frame.time_delta is None,
        window.last_post_process_time is Some ==> frame.time_delta == Some(
            duration_between(clock.now, window.last_post_process_time->Some_0),
        ),
        window.post_process is None && window.background_post_process is None ==> frame.frame
            == window.post_process_frame,
        window.post_process is Some || window.background_post_process is Some ==> frame.frame
            == (if window.post_process_frame == 0xffff_ffff {
            0int
        } else {
            window.post_process_frame + 1
        }),
        frame.tab_bar_above <==> window.show_tab_bar && !window.config.tab_bar_at_bottom,
        frame.commands@ == frame_commands(
            window.layers@,
            if window.background_post_process is Some {
                Some(window.background_post_process->Some_0.pipelines)
            } else {
                None
            },
            if window.post_process is Some {
                Some(window.post_process->Some_0.pipelines)
            } else {
                None
            },
        ),
{
}

/// What an OpenGL frame is told, and how it draws text: with subpixels where the render
/// target is one of the two kinds of LCD, or where there is none and the load target is.
pub proof fn law_what_a_glium_frame_is_told(window: TermWindow, now: Instant, frame: GliumFrame)
    requires
        window.is_glium_frame(now, frame),
    ensures
        frame.milliseconds as int == whole_millis(duration_between(now, window.created)) as int
            % 0x1_0000_0000,
        ({
            let target = match window.config.freetype_render_target {
                Some(target) => target,
                None => window.config.freetype_load_target,
            };
            let lcd = target == FreeTypeLoadTarget::HorizontalLcd || target
                == FreeTypeLoadTarget::VerticalLcd;
            frame.steps@ == frame_steps(window.layers@, lcd)
        }),
{
}

/// A window can be drawn if and only if each chain of two or more shaders has a second
/// texture, and neither column nor row of the first active pane's cursor, nor of where
/// it came from, is out of range.
pub proof fn law_which_windows_can_be_drawn(window: TermWindow)
    ensures
        window.is_drawable() <==> {
            &&& window.post_process is Some && window.post_process->Some_0.pipelines >= 2
                ==> window.post_process->Some_0.has_ping_pong
            &&& window.background_post_process is Some
                && window.background_post_process->Some_0.pipelines >= 2
                ==> window.background_post_process->Some_0.has_ping_pong
            &&& forall|index: int|
                {
                    &&& 0 <= index < window.panes@.len()
                    &&& (#[trigger] window.panes@[index]).is_active
                    &&& forall|i: int| 0 <= i < index ==> !#[trigger] window.panes@[i].is_active
                } ==> {
                    let pane = window.panes@[index];
                    let prev = window.prev_cursor@.prev_position;
                    let top = pane.top as isize;
                    &&& pane.cursor.x + pane.left <= usize::MAX
                    &&& prev.x + pane.left <= usize::MAX
                    &&& isize::MIN <= pane.cursor.y + top <= isize::MAX
                    &&& isize::MIN <= prev.y + top <= isize::MAX
                    &&& isize::MIN <= pane.cursor.y + top - pane.physical_top <= isize::MAX
                    &&& isize::MIN <= prev.y + top - pane.physical_top <= isize::MAX
                }
        },
{
    if window.is_drawable() {
        assert forall|index: int|
            {
                &&& 0 <= index < window.panes@.len()
                &&& (#[trigger] window.panes@[index]).is_active
                &&& forall|i: int| 0 <= i < index ==> !#[trigger] window.panes@[i].is_active
            } implies {
            let pane = window.panes@[index];
            let prev = window.prev_cursor@.prev_position;
            cell_fits(pane, pane.cursor.x, pane.cursor.y) && cell_fits(pane, prev.x, prev.y)
        } by {
            assert(is_first_active(window.panes@, index));
        }
    }
}

/// What a frame is planned at are four readings of the clock.
pub proof fn law_frame_clock_holds_readings(clock: FrameClock)
    ensures
        clock.is_read() <==> {
            &&& call_ensures(Instant::now, (), clock.milliseconds_now)
            &&& call_ensures(Instant::now, (), clock.move_now)
            &&& call_ensures(Instant::now, (), clock.now)
            &&& call_ensures(Instant::now, (), clock.time_now)
        },
{
}

} // verus!
