use boids::host::{
    dispatch, recover, HostAction, HostEvent, Recovery, Size, SurfaceFault, Viewport, WindowInput,
};

const SMALL: Size = Size { width: 640, height: 480 };
const LARGE: Size = Size { width: 1920, height: 1080 };

fn own(input: WindowInput) -> HostEvent {
    HostEvent::Window { own: true, consumed: false, input }
}

#[test]
fn redraw_of_the_own_window_runs_a_frame() {
    assert_eq!(dispatch(HostEvent::RedrawRequested { own: true }), HostAction::RunFrame);
    assert_eq!(dispatch(HostEvent::RedrawRequested { own: false }), HostAction::Ignore);
}

#[test]
fn cleared_events_ask_for_a_redraw() {
    assert_eq!(dispatch(HostEvent::MainEventsCleared), HostAction::RequestRedraw);
}

#[test]
fn close_and_escape_end_the_program() {
    assert_eq!(dispatch(own(WindowInput::CloseRequested)), HostAction::Exit);
    assert_eq!(dispatch(own(WindowInput::EscapePressed)), HostAction::Exit);
}

#[test]
fn new_window_sizes_resize_the_surface() {
    assert_eq!(dispatch(own(WindowInput::Resized(LARGE))), HostAction::Resize(LARGE));
    assert_eq!(dispatch(own(WindowInput::ScaleFactorChanged(SMALL))), HostAction::Resize(SMALL));
}

#[test]
fn other_input_is_ignored() {
    assert_eq!(dispatch(own(WindowInput::Other)), HostAction::Ignore);
    assert_eq!(dispatch(HostEvent::Other), HostAction::Ignore);
}

#[test]
fn foreign_or_consumed_input_is_ignored() {
    for input in [
        WindowInput::CloseRequested,
        WindowInput::EscapePressed,
        WindowInput::Resized(LARGE),
        WindowInput::ScaleFactorChanged(LARGE),
        WindowInput::Other,
    ] {
        for (own, consumed) in [(false, false), (false, true), (true, true)] {
            assert_eq!(dispatch(HostEvent::Window { own, consumed, input }), HostAction::Ignore);
        }
    }
}

#[test]
fn lost_surface_is_configured_anew() {
    assert_eq!(recover(SurfaceFault::Lost), Recovery::Reconfigure);
}

#[test]
fn out_of_memory_ends_the_program() {
    assert_eq!(recover(SurfaceFault::OutOfMemory), Recovery::Exit);
}

#[test]
fn passing_faults_are_tried_again() {
    assert_eq!(recover(SurfaceFault::Outdated), Recovery::Retry);
    assert_eq!(recover(SurfaceFault::Timeout), Recovery::Retry);
}

#[test]
fn viewport_takes_a_drawable_size() {
    let mut viewport = Viewport::new(SMALL);
    assert!(viewport.resize(LARGE));
    assert_eq!(viewport.size, LARGE);
}

#[test]
fn viewport_passes_over_a_size_with_a_zero_side() {
    let mut viewport = Viewport::new(SMALL);
    assert!(!viewport.resize(Size { width: 0, height: 1080 }));
    assert_eq!(viewport.size, SMALL);
    assert!(!viewport.resize(Size { width: 1920, height: 0 }));
    assert_eq!(viewport.size, SMALL);
    assert!(!viewport.resize(Size { width: 0, height: 0 }));
    assert_eq!(viewport.size, SMALL);
}

#[test]
fn viewport_takes_the_smallest_and_largest_sizes() {
    let mut viewport = Viewport::new(SMALL);
    assert!(viewport.resize(Size { width: 1, height: 1 }));
    assert_eq!(viewport.size, Size { width: 1, height: 1 });
    assert!(viewport.resize(Size { width: u32::MAX, height: u32::MAX }));
    assert_eq!(viewport.size, Size { width: u32::MAX, height: u32::MAX });
}
