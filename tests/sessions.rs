use rshot::argparser::{parse_region, Args, Point, RegionError, RegionSelect};
use rshot::capture::{CaptureAction, CaptureOutcome, CaptureSession, CaptureState, FrameEvent};
use rshot::error::CaptureError;
use rshot::frame::{BufferPlan, ImageDims, PixelFormat, FORMAT_ARGB8888, FORMAT_XRGB8888};
use rshot::overlay::{seat_has_keyboard, OverlaySession, OverlayState, KEY_ESC};
use rshot::registry::{capability_of, Capability, CapabilitySet};
use rshot::state::RShotState;

fn announce_all(state: &mut RShotState) {
    assert_eq!(state.on_global(1, "wl_compositor"), Some(Capability::Compositor));
    assert_eq!(state.on_global(2, "wl_shm"), Some(Capability::Shm));
    assert_eq!(state.on_global(3, "wl_output"), Some(Capability::Output));
    assert_eq!(state.on_global(4, "zwlr_screencopy_manager_v1"), Some(Capability::ScreencopyManager));
    assert_eq!(state.on_global(5, "zwlr_layer_shell_v1"), Some(Capability::LayerShell));
    assert_eq!(state.on_global(6, "wl_seat"), Some(Capability::Seat));
}

#[test]
fn registry_binds_known_names_only() {
    assert_eq!(capability_of("wl_shm"), Some(Capability::Shm));
    assert_eq!(capability_of("wl_shm_pool"), None);
    assert_eq!(capability_of("wl_sh"), None);
    assert_eq!(capability_of(""), None);
    let mut set = CapabilitySet::new();
    assert_eq!(set.on_global(10, "xdg_wm_base"), None);
    assert_eq!(set.on_global(11, "wl_output"), Some(Capability::Output));
    assert_eq!(set.on_global(12, "wl_output"), Some(Capability::Output));
    assert_eq!(set.output_count(), 2);
    // the same id again is not bound twice
    assert_eq!(set.on_global(12, "wl_output"), None);
    assert_eq!(set.output_count(), 2);
    assert_eq!(set.on_global(13, "wl_shm"), Some(Capability::Shm));
    // a second shared-memory global is not bound
    assert_eq!(set.on_global(14, "wl_shm"), None);
    assert!(set.has(Capability::Shm));
    assert!(set.has_id(11));
    assert!(!set.has_id(10));
    assert!(!set.has(Capability::Seat));
}

#[test]
fn capture_happy_path() {
    let mut state = RShotState::new();
    announce_all(&mut state);
    assert_eq!(state.capture_screenshot(), CaptureAction::RequestCapture { output: 0 });
    assert_eq!(state.on_frame_event(FrameEvent::Other), CaptureAction::Wait);
    let action = state.on_frame_event(FrameEvent::Buffer {
        format: FORMAT_XRGB8888,
        width: 2,
        height: 1,
        stride: 8,
    });
    assert_eq!(
        action,
        CaptureAction::AllocateBuffer(BufferPlan {
            pool_size: 8,
            offset: 0,
            width: 2,
            height: 1,
            stride: 8,
            format: FORMAT_XRGB8888,
        })
    );
    let dims = ImageDims { width: 2, height: 1, stride: 8, format: PixelFormat::Xrgb8888 };
    assert_eq!(state.image_dims, dims);
    assert_eq!(
        state.create_buffer(),
        Ok(BufferPlan { pool_size: 8, offset: 0, width: 2, height: 1, stride: 8, format: FORMAT_XRGB8888 })
    );
    assert_eq!(state.on_buffer_allocated(Ok(())), CaptureAction::Copy);
    assert_eq!(state.capture.outcome(), CaptureOutcome::Pending);
    assert_eq!(state.on_frame_event(FrameEvent::Ready), CaptureAction::Finished(dims));
    assert_eq!(state.capture.outcome(), CaptureOutcome::Ready(dims));
    // a resolved capture ignores further notifications
    assert_eq!(state.on_frame_event(FrameEvent::Failed), CaptureAction::Wait);
    assert_eq!(state.capture.outcome(), CaptureOutcome::Ready(dims));
}

#[test]
fn unsupported_format_fails_before_allocation() {
    let mut session = CaptureSession::new();
    assert_eq!(session.start(true, 1, 0), CaptureAction::RequestCapture { output: 0 });
    let action = session.on_event(FrameEvent::Buffer { format: 0x3231_5258, width: 4, height: 4, stride: 16 });
    assert_eq!(action, CaptureAction::Abort(CaptureError::UnsupportedPixelFormat));
    assert_eq!(session.state, CaptureState::Failed(CaptureError::UnsupportedPixelFormat));
    assert_eq!(session.outcome(), CaptureOutcome::Failed(CaptureError::UnsupportedPixelFormat));
}

#[test]
fn capture_failures() {
    let mut s = CaptureSession::new();
    assert_eq!(s.start(false, 1, 0), CaptureAction::Abort(CaptureError::MissingCapability));
    let mut s = CaptureSession::new();
    assert_eq!(s.start(true, 1, 1), CaptureAction::Abort(CaptureError::MissingCapability));
    let mut s = CaptureSession::new();
    s.start(true, 2, 1);
    assert_eq!(s.on_event(FrameEvent::Failed), CaptureAction::Abort(CaptureError::ProtocolFailure));
    let mut s = CaptureSession::new();
    s.start(true, 1, 0);
    assert_eq!(
        s.on_event(FrameEvent::Buffer { format: FORMAT_ARGB8888, width: 4, height: 0, stride: 16 }),
        CaptureAction::Abort(CaptureError::AllocationFailure)
    );
    let mut s = CaptureSession::new();
    s.start(true, 1, 0);
    s.on_event(FrameEvent::Buffer { format: FORMAT_ARGB8888, width: 4, height: 4, stride: 16 });
    assert_eq!(s.on_buffer_allocated(Err(CaptureError::AllocationFailure)), CaptureAction::Abort(CaptureError::AllocationFailure));
    let mut s = CaptureSession::new();
    s.start(true, 1, 0);
    assert_eq!(s.on_event(FrameEvent::Ready), CaptureAction::Abort(CaptureError::ProtocolFailure));
}

#[test]
fn capture_without_manager_or_output() {
    let mut state = RShotState::new();
    state.on_global(1, "wl_output");
    assert_eq!(state.capture_screenshot(), CaptureAction::Abort(CaptureError::MissingCapability));
    let mut state = RShotState::new();
    state.on_global(1, "zwlr_screencopy_manager_v1");
    state.on_global(2, "wl_shm");
    assert_eq!(state.capture_screenshot(), CaptureAction::Abort(CaptureError::MissingCapability));
}

#[test]
fn capture_without_shm() {
    let mut state = RShotState::new();
    state.on_global(1, "zwlr_screencopy_manager_v1");
    state.on_global(2, "wl_output");
    assert_eq!(state.capture_screenshot(), CaptureAction::Abort(CaptureError::MissingCapability));
    assert_eq!(state.capture.outcome(), CaptureOutcome::Failed(CaptureError::MissingCapability));
    assert_eq!(state.on_global(3, "wl_shm"), Some(Capability::Shm));
}

#[test]
fn two_configures_each_acknowledged() {
    let mut state = RShotState::new();
    announce_all(&mut state);
    // the first configure arrives before the overlay is open: acknowledged, not drawn
    let first = state.on_configure(7, 800, 600);
    assert_eq!(first.ack_serial, 7);
    assert_eq!(first.render, None);
    assert!(state.create_layer_surface());
    let second = state.on_configure(8, 800, 600);
    assert_eq!(second.ack_serial, 8);
    assert_eq!(
        second.render,
        Some(BufferPlan { pool_size: 1_920_000, offset: 0, width: 800, height: 600, stride: 3200, format: FORMAT_ARGB8888 })
    );
}

#[test]
fn configure_without_shm_is_acknowledged_only() {
    let mut state = RShotState::new();
    state.on_global(1, "wl_compositor");
    state.on_global(2, "zwlr_layer_shell_v1");
    assert!(state.create_layer_surface());
    let reply = state.on_configure(3, 10, 10);
    assert_eq!((reply.ack_serial, reply.render), (3, None));
    let mut o = OverlaySession::new();
    o.open(true, true);
    assert_eq!(o.on_configure(4, 0, 10, true).render, None);
    assert_eq!(o.on_configure(5, 40000, 40000, true).render, None);
    assert_eq!(o.on_configure(5, u32::MAX, 1, true).render, None);
}

#[test]
fn overlay_skipped_without_shell() {
    let mut state = RShotState::new();
    state.on_global(1, "wl_compositor");
    assert!(!state.create_layer_surface());
    assert_eq!(state.overlay.state, OverlayState::Closed);
    assert!(!state.application_open());
}

#[test]
fn overlay_escape_closes() {
    let mut state = RShotState::new();
    announce_all(&mut state);
    assert!(state.create_layer_surface());
    assert!(state.application_open());
    state.on_key(KEY_ESC, false);
    state.on_key(30, true);
    assert!(state.application_open());
    state.on_key(KEY_ESC, true);
    assert!(!state.application_open());
}

#[test]
fn overlay_closed_by_compositor() {
    let mut state = RShotState::new();
    announce_all(&mut state);
    state.create_layer_surface();
    state.on_layer_closed();
    assert_eq!(state.overlay.state, OverlayState::Closed);
    assert!(!state.application_open());
}

#[test]
fn seat_keyboard_bit() {
    assert!(seat_has_keyboard(2));
    assert!(seat_has_keyboard(7));
    assert!(!seat_has_keyboard(5));
}

#[test]
fn output_dir_given_or_fallback() {
    let mut args = Args { output: Some("shot.png".to_string()), no_prompt: true, region: None, dry_run: false };
    assert_eq!(args.get_output_dir("other.png".to_string()), "shot.png");
    let region = Some(RegionSelect { top_left_origin: Point { x: 1, y: 2 }, size: Point { x: 3, y: 4 } });
    let mut args = Args { output: None, no_prompt: false, region, dry_run: false };
    assert_eq!(args.get_output_dir("/tmp/a.png".to_string()), "/tmp/a.png");
    assert_eq!(args.output.as_deref(), Some("/tmp/a.png"));
    assert_eq!(args.get_output_dir("/tmp/b.png".to_string()), "/tmp/a.png");
}

#[test]
fn region_strings() {
    let r = |x, y, w, h| RegionSelect { top_left_origin: Point { x, y }, size: Point { x: w, y: h } };
    assert_eq!(parse_region("10x20"), Ok(r(0, 0, 10, 20)));
    assert_eq!(parse_region("5,6 10x20"), Ok(r(5, 6, 10, 20)));
    assert_eq!(parse_region("  1,2 \t 3x4\n"), Ok(r(1, 2, 3, 4)));
    assert_eq!(parse_region("+3x4"), Ok(r(0, 0, 3, 4)));
    assert_eq!(parse_region("0,0 4294967295x1"), Ok(r(0, 0, u32::MAX, 1)));
    assert_eq!(parse_region(""), Err(RegionError::Format));
    assert_eq!(parse_region("   "), Err(RegionError::Format));
    assert_eq!(parse_region("1,2 3x4 5"), Err(RegionError::Format));
    assert_eq!(parse_region("1,2,3 4x5"), Err(RegionError::Format));
    assert_eq!(parse_region("1x2x3"), Err(RegionError::Format));
    assert_eq!(parse_region("1,2 34"), Err(RegionError::Format));
    assert_eq!(parse_region("a,2 3x4"), Err(RegionError::NotInteger));
    assert_eq!(parse_region("1,2 3x"), Err(RegionError::NotInteger));
    assert_eq!(parse_region("-1x4"), Err(RegionError::NotInteger));
    assert_eq!(parse_region("4294967296x1"), Err(RegionError::NotInteger));
    assert_eq!("3x4".parse::<RegionSelect>(), Ok(r(0, 0, 3, 4)));
    assert_eq!("3".parse::<RegionSelect>().unwrap_err(), "Correct region format is '[X,Y] WxH'");
    assert_eq!("3xz".parse::<RegionSelect>().unwrap_err(), "Region format requires only integers!");
    assert_eq!(RegionError::Format.message(), "Correct region format is '[X,Y] WxH'");
}

#[test]
fn create_buffer_plans_negotiated_frame() {
    let mut state = RShotState::new();
    state.on_global(1, "wl_output");
    state.on_global(2, "zwlr_screencopy_manager_v1");
    // no shared memory bound
    state.image_dims = ImageDims { width: 4, height: 2, stride: 16, format: PixelFormat::Argb8888 };
    assert_eq!(state.create_buffer(), Err(CaptureError::MissingCapability));
    state.on_global(3, "wl_shm");
    assert_eq!(
        state.create_buffer(),
        Ok(BufferPlan { pool_size: 32, offset: 0, width: 4, height: 2, stride: 16, format: FORMAT_ARGB8888 })
    );
    state.image_dims = ImageDims { width: 4, height: 0, stride: 16, format: PixelFormat::Argb8888 };
    assert_eq!(state.create_buffer(), Err(CaptureError::AllocationFailure));
    state.image_dims = ImageDims { width: 4, height: 2, stride: 0, format: PixelFormat::Argb8888 };
    assert_eq!(state.create_buffer(), Err(CaptureError::AllocationFailure));
    state.image_dims = ImageDims { width: 5, height: 2, stride: 16, format: PixelFormat::Argb8888 };
    assert_eq!(state.create_buffer(), Err(CaptureError::ProtocolFailure));
}

#[test]
fn allocation_error_is_passed_on() {
    let mut state = RShotState::new();
    announce_all(&mut state);
    state.capture_screenshot();
    state.on_frame_event(FrameEvent::Buffer { format: FORMAT_ARGB8888, width: 1, height: 1, stride: 4 });
    assert_eq!(
        state.on_buffer_allocated(Err(CaptureError::MissingCapability)),
        CaptureAction::Abort(CaptureError::MissingCapability)
    );
    assert_eq!(state.capture.outcome(), CaptureOutcome::Failed(CaptureError::MissingCapability));
}

#[test]
fn region_from_str_cases() {
    let r = |x, y, w, h| RegionSelect { top_left_origin: Point { x, y }, size: Point { x: w, y: h } };
    assert_eq!("10,20 30x40".parse::<RegionSelect>(), Ok(r(10, 20, 30, 40)));
    assert_eq!("30x40".parse::<RegionSelect>(), Ok(r(0, 0, 30, 40)));
    assert_eq!("".parse::<RegionSelect>().unwrap_err(), "Correct region format is '[X,Y] WxH'");
    assert_eq!("1,2 3x4 5".parse::<RegionSelect>().unwrap_err(), "Correct region format is '[X,Y] WxH'");
    assert_eq!("1,a 3x4".parse::<RegionSelect>().unwrap_err(), "Region format requires only integers!");
    for (x, y, w, h) in [(0u32, 0u32, 0u32, 0u32), (u32::MAX, 7, 1920, u32::MAX), (12, 345, 6789, 10)] {
        let s = format!("{},{} {}x{}", x, y, w, h);
        assert_eq!(s.parse::<RegionSelect>(), Ok(r(x, y, w, h)));
    }
}
