use flip_companion::abort_guard::{
    abort, enter_frame, install_abort_guard, leave_frame, self_restart, sigusr1_handler,
    AbortAction, GuardState, RESTART_DELAY_SECS,
};
use flip_companion::gpu_renderer::{
    probe_output, GammaRequest, GpuError, GpuRenderer, Mode, Output, OutputSize,
};

#[test]
fn worker_abort_is_intercepted() {
    let mut guard = GuardState::new();
    assert!(!install_abort_guard(&mut guard, 100, true));
    assert_eq!(abort(&mut guard, 101), AbortAction::ParkWorker { signal: 100 });
    assert!(guard.reset_detected);
}

#[test]
fn main_thread_abort_is_forwarded() {
    let mut guard = GuardState::new();
    install_abort_guard(&mut guard, 100, true);
    assert_eq!(abort(&mut guard, 100), AbortAction::ForwardToReal);
    assert!(!guard.reset_detected);
}

#[test]
fn abort_without_the_real_one_raises() {
    let mut guard = GuardState::new();
    assert_eq!(abort(&mut guard, 5), AbortAction::RaiseAndExit);
    assert!(install_abort_guard(&mut guard, 100, false));
    assert_eq!(abort(&mut guard, 100), AbortAction::RaiseAndExit);
    assert!(!guard.reset_detected);
}

#[test]
fn handler_jumps_only_inside_a_frame_after_a_reset() {
    let mut guard = GuardState::new();
    install_abort_guard(&mut guard, 1, true);
    assert!(!sigusr1_handler(&guard));
    assert!(enter_frame(&mut guard, 0));
    assert!(!sigusr1_handler(&guard));
    abort(&mut guard, 2);
    assert!(sigusr1_handler(&guard));
    assert!(!enter_frame(&mut guard, 1));
    assert!(!sigusr1_handler(&guard));
    enter_frame(&mut guard, 0);
    leave_frame(&mut guard);
    assert!(!sigusr1_handler(&guard));
}

#[test]
fn restart_arguments_are_the_pieces_between_nuls() {
    assert_eq!(
        self_restart(&b"flip-companion\0--lease-socket\0/tmp/x\0".to_vec()),
        vec![b"flip-companion".to_vec(), b"--lease-socket".to_vec(), b"/tmp/x".to_vec()]
    );
    assert_eq!(self_restart(&b"a\0\0b".to_vec()), vec![b"a".to_vec(), b"b".to_vec()]);
    assert!(self_restart(&vec![]).is_empty());
    assert!(self_restart(&vec![0, 0]).is_empty());
    assert_eq!(RESTART_DELAY_SECS, 2);
}

fn mode(width: u16, height: u16) -> Mode {
    Mode { width, height, refresh: 60 }
}

#[test]
fn first_connector_crtc_and_mode_are_taken() {
    let output = probe_output(&vec![7, 8], &vec![9]).unwrap();
    assert_eq!(output, Output { connector: 7, crtc: 9 });
    let gpu = GpuRenderer::new(output, &vec![mode(1080, 1620), mode(1, 1)]).unwrap();
    assert_eq!(gpu.output_size(), OutputSize { w: 1080, h: 1620 });
    assert_eq!(gpu.connector(), 7);
    assert_eq!(gpu.crtc(), 9);
    assert_eq!(gpu.mode(), mode(1080, 1620));
    assert_eq!(gpu.front(), 0);
}

#[test]
fn lease_without_output_is_refused() {
    for (connectors, crtcs) in [(vec![], vec![1]), (vec![1], vec![]), (vec![], vec![])] {
        let error = probe_output(&connectors, &crtcs).unwrap_err();
        assert_eq!(error.message(), "GBM: lease has no connectors or CRTCs");
    }
    let error = GpuRenderer::new(Output { connector: 1, crtc: 1 }, &vec![]).unwrap_err();
    assert_eq!(error.message(), "GBM: connector has no modes");
}

#[test]
fn errors_name_their_origin() {
    assert_eq!(GpuError::Io("x".to_string()).message(), "IO: x");
    assert_eq!(GpuError::Egl("x".to_string()).message(), "EGL: x");
    assert_eq!(GpuError::Gles("x".to_string()).message(), "GLES: x");
    assert_eq!(GpuError::Gbm("".to_string()).message(), "GBM: ");
}

#[test]
fn buffers_change_places_with_each_shown_frame() {
    let mut guard = GuardState::new();
    let output = Output { connector: 1, crtc: 2 };
    let mut gpu = GpuRenderer::new(output, &vec![mode(4, 6)]).unwrap();
    for expected_back in [1, 0, 1] {
        assert_eq!(gpu.begin_frame(&mut guard, 0).unwrap(), expected_back);
        assert!(guard.recovery_active);
        assert!(gpu.render_frame(&mut guard, Ok(())).is_ok());
        assert!(!guard.recovery_active);
        assert_eq!(gpu.front(), expected_back);
    }
    assert_eq!(gpu.begin_frame(&mut guard, 0).unwrap(), 0);
    let failed = gpu.render_frame(&mut guard, Err(GpuError::Io("busy".to_string())));
    assert_eq!(failed.unwrap_err().message(), "IO: busy");
    assert_eq!(gpu.front(), 1);
    assert!(!guard.recovery_active);
}

#[test]
fn jump_out_of_a_frame_is_an_error() {
    let mut guard = GuardState::new();
    let output = Output { connector: 1, crtc: 2 };
    let gpu = GpuRenderer::new(output, &vec![mode(4, 6)]).unwrap();
    gpu.begin_frame(&mut guard, 0).unwrap();
    let error = gpu.begin_frame(&mut guard, 1).unwrap_err();
    assert_eq!(error.message(), "GBM: GPU reset (signal recovery)");
    assert!(!guard.recovery_active);
}

#[test]
fn gamma_is_scaled_to_at_most_full() {
    let output = Output { connector: 1, crtc: 2 };
    let gpu = GpuRenderer::new(output, &vec![mode(4, 6)]).unwrap();
    assert_eq!(gpu.set_brightness(50, 0), None);
    assert_eq!(
        gpu.set_brightness(50, 256),
        Some(GammaRequest { crtc: 2, percent: 50, size: 256 })
    );
    assert_eq!(
        gpu.set_brightness(200, 1),
        Some(GammaRequest { crtc: 2, percent: 100, size: 1 })
    );
}
