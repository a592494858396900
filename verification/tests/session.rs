use libwayshot::dispatch::{
    frame_event_is_terminal, wants_output_global, CaptureFrameState, FrameEvent, FrameState,
    LayerShellState, LayerSurfaceEvent, OutputCaptureState, OutputEvent, SessionEvent,
    XdgOutputEvent,
};
use libwayshot::error::Error;
use libwayshot::output::Transform;
use libwayshot::region::Size;
use libwayshot::screencopy::{shm_pool_size, FrameFormat, PixelFormat};

#[test]
fn registry_wants_output_globals_at_version_4_or_newer() {
    assert!(wants_output_global(&"wl_output".to_string(), 4));
    assert!(wants_output_global(&"wl_output".to_string(), 7));
    assert!(!wants_output_global(&"wl_output".to_string(), 3));
    assert!(!wants_output_global(&"wl_seat".to_string(), 4));
}

#[test]
fn output_events_fill_the_matching_record() {
    let mut state = OutputCaptureState::new();
    state.register_output(7);
    state.register_output(9);

    state.apply_output_event(7, OutputEvent::Name("DP-1".to_string()));
    state.apply_output_event(7, OutputEvent::Mode { width: 1920, height: 1080 });
    state.apply_output_event(7, OutputEvent::Geometry { transform: Transform::Rot90 });
    state.apply_output_event(9, OutputEvent::Description("left monitor".to_string()));
    state.apply_output_event(9, OutputEvent::Scale);
    state.apply_output_event(9, OutputEvent::Done);

    assert_eq!(state.outputs.len(), 2);
    assert_eq!(state.outputs[0].name, "DP-1");
    assert_eq!(state.outputs[0].physical_size.width, 1920);
    assert_eq!(state.outputs[0].physical_size.height, 1080);
    assert_eq!(state.outputs[0].transform, Transform::Rot90);
    assert_eq!(state.outputs[1].description, "left monitor");
    assert_eq!(state.outputs[1].name, "");
}

#[test]
fn event_for_unregistered_output_is_dropped() {
    let mut state = OutputCaptureState::new();
    state.register_output(7);
    state.apply_output_event(1234, OutputEvent::Name("ghost".to_string()));
    assert_eq!(state.outputs.len(), 1);
    assert_eq!(state.outputs[0].name, "");
}

#[test]
fn xdg_events_fill_geometry_by_index_and_out_of_range_is_dropped() {
    let mut state = OutputCaptureState::new();
    state.register_output(7);
    state.apply_xdg_output_event(0, XdgOutputEvent::LogicalPosition { x: -100, y: 50 });
    state.apply_xdg_output_event(0, XdgOutputEvent::LogicalSize { width: 640, height: 480 });
    state.apply_xdg_output_event(5, XdgOutputEvent::LogicalSize { width: 9999, height: 9999 });
    assert_eq!(state.outputs[0].logical_region.position.x, -100);
    assert_eq!(state.outputs[0].logical_region.position.y, 50);
    assert_eq!(state.outputs[0].logical_region.size.width, 640);
    assert_eq!(state.outputs[0].logical_region.size.height, 480);
}

#[test]
fn discovery_keeps_outputs_with_positive_logical_area() {
    let mut state = OutputCaptureState::new();
    state.register_output(1);
    state.register_output(2);
    // Only output 2 ever receives its logical geometry.
    state.apply_xdg_output_event(1, XdgOutputEvent::LogicalSize { width: 800, height: 600 });
    let outputs = state.finish_discovery().unwrap();
    assert_eq!(outputs.len(), 1);
    assert_eq!(outputs[0].id, 2);
    assert!(outputs[0].logical_region.size.width > 0);
    assert!(outputs[0].logical_region.size.height > 0);
}

#[test]
fn discovery_without_usable_outputs_is_no_outputs_error() {
    let state = OutputCaptureState::new();
    assert!(matches!(state.finish_discovery(), Err(Error::NoOutputs)));

    let mut state = OutputCaptureState::new();
    state.register_output(1);
    // No geometry ever arrives: the record stays zero-sized.
    assert!(matches!(state.finish_discovery(), Err(Error::NoOutputs)));
}

#[test]
fn negotiation_commits_pending_triple_on_done() {
    let mut state = CaptureFrameState::new();
    state.apply_session_event(SessionEvent::BufferSize { width: 800, height: 600 });
    state.apply_session_event(SessionEvent::ShmFormat { format: PixelFormat::Argb8888 });
    assert!(!state.ready());
    state.apply_session_event(SessionEvent::Done);
    assert!(state.ready());
    assert_eq!(state.state, Some(FrameState::Finished));
    assert_eq!(state.formats.len(), 1);
    assert_eq!(state.formats[0].format, PixelFormat::Argb8888);
    assert_eq!(state.formats[0].size.width, 800);
    assert_eq!(state.formats[0].size.height, 600);
    assert_eq!(state.formats[0].stride, 0);
}

#[test]
fn negotiated_bgra_format_gets_stride_of_four_bytes_per_pixel() {
    let mut state = CaptureFrameState::new();
    state.apply_session_event(SessionEvent::BufferSize { width: 800, height: 600 });
    state.apply_session_event(SessionEvent::ShmFormat { format: PixelFormat::Argb8888 });
    state.apply_session_event(SessionEvent::Done);
    let format = state.finish_negotiation().unwrap();
    assert_eq!(format.stride, 3200);
    assert_eq!(format.byte_size(), 3200 * 600);
    assert_eq!(format.byte_size(), format.stride as u64 * format.size.height as u64);
}

#[test]
fn stopped_before_done_fails_the_session_without_committing() {
    let mut state = CaptureFrameState::new();
    state.apply_session_event(SessionEvent::BufferSize { width: 800, height: 600 });
    state.apply_session_event(SessionEvent::ShmFormat { format: PixelFormat::Xrgb8888 });
    state.apply_session_event(SessionEvent::Stopped);
    assert!(state.ready());
    assert_eq!(state.state, Some(FrameState::Failed));
    // Nothing was committed, so no buffer could have been sized or allocated.
    assert_eq!(state.formats.len(), 0);
    assert!(matches!(state.finish_negotiation(), Err(Error::CaptureFailed)));
}

#[test]
fn unsupported_formats_only_is_a_typed_negotiation_error() {
    let mut state = CaptureFrameState::new();
    state.apply_session_event(SessionEvent::BufferSize { width: 64, height: 64 });
    state.apply_session_event(SessionEvent::ShmFormat { format: PixelFormat::Other(0x3231_5659) });
    state.apply_session_event(SessionEvent::Done);
    assert!(matches!(state.finish_negotiation(), Err(Error::NoSupportedBufferFormat)));
}

#[test]
fn oversized_negotiated_width_is_buffer_too_small() {
    let mut state = CaptureFrameState::new();
    state.apply_session_event(SessionEvent::BufferSize { width: 0x4000_0000, height: 2 });
    state.apply_session_event(SessionEvent::ShmFormat { format: PixelFormat::Argb8888 });
    state.apply_session_event(SessionEvent::Done);
    assert!(matches!(state.finish_negotiation(), Err(Error::BufferTooSmall)));
}

#[test]
fn shm_pool_size_rejects_unrepresentable_buffers() {
    let small = FrameFormat {
        format: PixelFormat::Argb8888,
        size: Size { width: 800, height: 600 },
        stride: 3200,
    };
    assert_eq!(shm_pool_size(&small).unwrap(), 3200 * 600);
    let huge = FrameFormat {
        format: PixelFormat::Argb8888,
        size: Size { width: 0x2000_0000, height: 0x2000_0000 },
        stride: 0x8000_0000,
    };
    assert!(matches!(shm_pool_size(&huge), Err(Error::BufferTooSmall)));
}

#[test]
fn frame_events_decide_the_copy_outcome() {
    let mut state = CaptureFrameState::new();
    state.apply_session_event(SessionEvent::BufferSize { width: 64, height: 64 });
    state.apply_session_event(SessionEvent::ShmFormat { format: PixelFormat::Argb8888 });
    state.apply_session_event(SessionEvent::Done);
    let committed = state.formats.len();

    assert!(!frame_event_is_terminal(&FrameEvent::Other));
    state.apply_frame_event(FrameEvent::Other);
    assert_eq!(state.state, Some(FrameState::Finished));

    assert!(frame_event_is_terminal(&FrameEvent::Failed));
    state.apply_frame_event(FrameEvent::Failed);
    assert_eq!(state.state, Some(FrameState::Failed));

    assert!(frame_event_is_terminal(&FrameEvent::Ready));
    state.apply_frame_event(FrameEvent::Ready);
    assert_eq!(state.state, Some(FrameState::Finished));
    // The negotiation fields are untouched by frame events.
    assert_eq!(state.formats.len(), committed);
    assert!(state.ready());
}

#[test]
fn last_advertised_format_wins_the_pending_slot() {
    let mut state = CaptureFrameState::new();
    state.apply_session_event(SessionEvent::BufferSize { width: 64, height: 64 });
    state.apply_session_event(SessionEvent::ShmFormat { format: PixelFormat::Other(99) });
    state.apply_session_event(SessionEvent::ShmFormat { format: PixelFormat::Xbgr8888 });
    state.apply_session_event(SessionEvent::Done);
    assert_eq!(state.formats.len(), 1);
    assert_eq!(state.formats[0].format, PixelFormat::Xbgr8888);
}

#[test]
fn layer_shell_tracks_configured_outputs_once() {
    let mut state = LayerShellState::new();
    assert!(!state.is_configured(5));
    state.apply_layer_surface_event(5, LayerSurfaceEvent::Configure { serial: 1 });
    state.apply_layer_surface_event(5, LayerSurfaceEvent::Configure { serial: 2 });
    state.apply_layer_surface_event(8, LayerSurfaceEvent::Closed);
    assert!(state.is_configured(5));
    assert!(!state.is_configured(8));
    assert_eq!(state.configured_outputs.len(), 1);
    assert!(!state.all_configured(&vec![5, 8]));
    state.apply_layer_surface_event(8, LayerSurfaceEvent::Configure { serial: 3 });
    assert!(state.all_configured(&vec![5, 8]));
    assert!(state.all_configured(&Vec::new()));
}
