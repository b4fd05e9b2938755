use std::time::{Duration, Instant};
use termwindow::layers::{RenderLayer, VertexIndexCount};
use termwindow::opengl::{plan_steps, FreeTypeLoadTarget, GliumStep};
use termwindow::prevcursor::{PrevCursorPos, StableCursorPosition};
use termwindow::webgpu::{plan_commands, GpuCommand};
use termwindow::window::{
    active_pane, window_cell, wrap_millis, Cell, DrawPlan, FrameClock, PositionedPane,
    PostProcess, RenderConfig, RenderFrame, SurfaceError, TermWindow,
};

fn at(x: usize, y: isize) -> StableCursorPosition {
    StableCursorPosition {
        x,
        y,
        ..StableCursorPosition::default()
    }
}

fn pane(is_active: bool, left: usize, top: usize) -> PositionedPane {
    PositionedPane {
        is_active,
        left,
        top,
        cursor: at(4, 105),
        physical_top: 100,
    }
}

fn window() -> TermWindow {
    let filled = VertexIndexCount {
        vertex_count: 4,
        index_count: 6,
    };
    TermWindow {
        config: RenderConfig {
            tab_bar_at_bottom: false,
            freetype_render_target: None,
            freetype_load_target: FreeTypeLoadTarget::Normal,
        },
        show_tab_bar: true,
        panes: vec![pane(false, 0, 0), pane(true, 10, 20), pane(true, 30, 40)],
        layers: vec![RenderLayer { vb: [filled; 3] }],
        post_process: None,
        background_post_process: None,
        prev_cursor: PrevCursorPos::new(),
        created: Instant::now(),
        last_post_process_time: None,
        post_process_frame: 0,
    }
}

fn shaders(pipelines: usize) -> Option<PostProcess> {
    Some(PostProcess {
        pipelines,
        has_ping_pong: pipelines > 1,
    })
}

fn clock(now: Instant) -> FrameClock {
    FrameClock {
        milliseconds_now: now,
        move_now: now,
        now,
        time_now: now,
    }
}

#[test]
fn first_active_pane_is_found() {
    assert_eq!(active_pane(&window().panes), Some(1));
    assert_eq!(active_pane(&vec![]), None);
    assert_eq!(active_pane(&vec![pane(false, 0, 0)]), None);
}

#[test]
fn cells_are_relative_to_the_window() {
    let pane = pane(true, 10, 20);
    assert_eq!(
        window_cell(&pane, 4, 105),
        Cell {
            column: 14,
            row: 25
        }
    );
    // scrolled out at the top
    assert_eq!(window_cell(&pane, 0, 79), Cell { column: 10, row: 0 });
    assert_eq!(window_cell(&pane, 0, 80), Cell { column: 10, row: 0 });
    assert_eq!(window_cell(&pane, 0, 81), Cell { column: 10, row: 1 });
}

#[test]
fn huge_pane_tops_wrap() {
    let mut pane = pane(true, 0, usize::MAX);
    pane.physical_top = 0;
    assert_eq!(window_cell(&pane, 0, 5), Cell { column: 0, row: 4 });
}

#[test]
fn milliseconds_start_over() {
    assert_eq!(wrap_millis(0), 0);
    assert_eq!(wrap_millis(0xffff_ffff), 0xffff_ffff);
    assert_eq!(wrap_millis(0x1_0000_0000), 0);
    assert_eq!(wrap_millis(0x5_0000_0007), 7);
    assert_eq!(wrap_millis(u128::MAX), 0xffff_ffff);
}

#[test]
fn webgpu_frame_is_planned() {
    let mut window = window();
    window.post_process = shaders(1);
    window.background_post_process = shaders(2);
    window.post_process_frame = 41;
    let created = window.created;
    let moved = window.prev_cursor.last_cursor_movement();
    window
        .prev_cursor
        .update_at(&at(2, 103), moved + Duration::from_millis(60));
    window
        .prev_cursor
        .update_at(&at(4, 105), moved + Duration::from_millis(160));
    let readings = FrameClock {
        milliseconds_now: created + Duration::from_millis(1_234),
        move_now: moved + Duration::from_millis(1_160),
        now: created + Duration::from_millis(2_000),
        time_now: created + Duration::from_millis(2_500),
    };
    assert!(window.can_draw());
    let frame = window.draw_webgpu_at(readings);
    assert_eq!(frame.milliseconds, 1_234);
    assert_eq!(frame.time, Duration::from_millis(2_500));
    assert_eq!(frame.time_delta, None);
    assert_eq!(frame.frame, 42);
    assert!(frame.tab_bar_above);
    let cursor = frame.cursor.unwrap();
    assert_eq!(
        cursor.position,
        Cell {
            column: 14,
            row: 25
        }
    );
    assert_eq!(
        cursor.prev_position,
        Cell {
            column: 12,
            row: 23
        }
    );
    assert_eq!(cursor.move_time, Duration::from_millis(1_000));
    assert_eq!(
        frame.commands,
        plan_commands(&window.layers, Some(2), Some(1))
    );
    assert_eq!(
        window.last_post_process_time,
        Some(created + Duration::from_millis(2_000))
    );
    assert_eq!(window.post_process_frame, 42);
}

#[test]
fn post_processed_frames_are_counted_and_timed() {
    let mut window = window();
    window.background_post_process = shaders(1);
    window.post_process_frame = u32::MAX;
    let start = window.created;
    let first = window.draw_webgpu_at(clock(start));
    assert_eq!(first.frame, 0);
    assert_eq!(first.time_delta, None);
    let second = window.draw_webgpu_at(clock(start + Duration::from_millis(16)));
    assert_eq!(second.frame, 1);
    assert_eq!(second.time_delta, Some(Duration::from_millis(16)));
    assert!(window.can_draw());
}

#[test]
fn plain_frames_are_not_counted() {
    let mut window = window();
    let start = window.created;
    for i in 0..3u64 {
        let frame = window.draw_webgpu_at(clock(start + Duration::from_millis(i)));
        assert_eq!(frame.frame, 0);
        assert_eq!(frame.time_delta, None);
        assert_eq!(window.post_process_frame, 0);
        assert_eq!(window.last_post_process_time, None);
    }
}

#[test]
fn no_active_pane_has_no_cursor() {
    let mut window = window();
    window.panes = vec![pane(false, 1, 2)];
    let now = window.created;
    assert!(window.draw_webgpu_at(clock(now)).cursor.is_none());
}

#[test]
fn tab_bar_moves_panes_down_only_at_the_top() {
    for (show, bottom, above) in [
        (true, false, true),
        (true, true, false),
        (false, false, false),
        (false, true, false),
    ] {
        let mut window = window();
        window.show_tab_bar = show;
        window.config.tab_bar_at_bottom = bottom;
        let now = window.created;
        assert_eq!(window.draw_webgpu_at(clock(now)).tab_bar_above, above);
    }
}

#[test]
fn windows_that_cannot_be_drawn() {
    let mut no_ping_pong = window();
    no_ping_pong.post_process = Some(PostProcess {
        pipelines: 2,
        has_ping_pong: false,
    });
    assert!(!no_ping_pong.can_draw());
    no_ping_pong.background_post_process = no_ping_pong.post_process.take();
    assert!(!no_ping_pong.can_draw());
    no_ping_pong.background_post_process = Some(PostProcess {
        pipelines: 1,
        has_ping_pong: false,
    });
    assert!(no_ping_pong.can_draw());

    let mut far_right = window();
    far_right.panes[1].left = usize::MAX;
    assert!(!far_right.can_draw());

    let mut far_down = window();
    far_down.panes[1].cursor.y = isize::MAX;
    assert!(!far_down.can_draw());

    let mut far_up = window();
    far_up.panes[1].cursor.y = isize::MIN;
    far_up.panes[1].physical_top = 1_000;
    assert!(!far_up.can_draw());

    // Only the first active pane counts.
    let mut other = window();
    other.panes[0].left = usize::MAX;
    other.panes[2].left = usize::MAX;
    assert!(other.can_draw());
}

#[test]
fn glium_frame_is_planned() {
    let mut window = window();
    window.post_process = shaders(1);
    window.config.freetype_render_target = Some(FreeTypeLoadTarget::VerticalLcd);
    let frame = window.draw_glium_at(window.created + Duration::from_millis(77));
    assert_eq!(frame.milliseconds, 77);
    assert_eq!(frame.steps, plan_steps(&window.layers, true));
}

#[test]
fn call_draw_with_glium() {
    let mut window = window();
    window.post_process = shaders(1);
    match window.call_draw(&RenderFrame::Glium) {
        Ok(DrawPlan::Glium(frame)) => {
            assert_eq!(frame.steps[0], GliumStep::ClearColor);
            assert_eq!(frame.steps.len(), 7);
        }
        _ => panic!("expected an OpenGL frame"),
    }
    assert_eq!(window.post_process_frame, 0);
    assert_eq!(window.last_post_process_time, None);
}

#[test]
fn call_draw_with_webgpu() {
    let mut window = window();
    window.post_process = shaders(1);
    let before = Instant::now();
    match window.call_draw(&RenderFrame::WebGpu(Ok(()))) {
        Ok(DrawPlan::WebGpu(frame)) => {
            assert_eq!(frame.frame, 1);
            assert_eq!(frame.commands.last(), Some(&GpuCommand::Present));
        }
        _ => panic!("expected a WebGPU frame"),
    }
    assert_eq!(window.post_process_frame, 1);
    let last = window.last_post_process_time.unwrap();
    assert!(before <= last && last <= Instant::now());
}

#[test]
fn call_draw_without_a_surface() {
    for error in [
        SurfaceError::Timeout,
        SurfaceError::Outdated,
        SurfaceError::Lost,
        SurfaceError::OutOfMemory,
        SurfaceError::Other,
    ] {
        let mut window = window();
        window.post_process = shaders(1);
        match window.call_draw(&RenderFrame::WebGpu(Err(error))) {
            Err(reported) => assert_eq!(reported, error),
            Ok(_) => panic!("there is nothing to draw to"),
        }
        assert_eq!(window.post_process_frame, 0);
        assert_eq!(window.last_post_process_time, None);
    }
}
