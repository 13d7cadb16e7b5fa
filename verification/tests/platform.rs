use flip_companion::drm_platform::{
    brightness_percent, create_grab_channel, create_key_channel, gpu_init_step, grab_for_focus,
    send_compositor_command, send_key, set_active_tab, set_stats_callback, set_stats_snapshot,
    stats_to_apply, take_grab_receiver, take_keys, CompositorCommand, DrmPlatform, GrabCommand,
    InitStep, KeyReceiver, StatsLink, GPU_INIT_ATTEMPTS, GPU_INIT_DELAY_SECS,
};
use flip_companion::gpu_renderer::OutputSize;
use flip_companion::pixel::{process_line, to_bytes, PremultipliedColor, Span, Xrgb8888Pixel};

fn platform() -> DrmPlatform<u32> {
    DrmPlatform::new(OutputSize { w: 1080, h: 1620 }, 3)
}

#[test]
fn screen_is_turned_to_landscape() {
    let p = platform();
    assert_eq!((p.logical_width, p.logical_height), (1620, 1080));
    assert_eq!(p.last_brightness_pct, 255);
    assert_eq!(p.spare_lease, Some(3));
}

#[test]
fn brightness_is_a_bounded_percentage() {
    assert_eq!(brightness_percent(0, 100), 20);
    assert_eq!(brightness_percent(50, 100), 50);
    assert_eq!(brightness_percent(1, 3), 33);
    assert_eq!(brightness_percent(65535, 65535), 100);
    assert_eq!(brightness_percent(500, 100), 100);
    assert_eq!(brightness_percent(20, 101), 20);
    assert_eq!(brightness_percent(42949672, 42949672), 100);
}

#[test]
fn brightness_is_set_when_it_changes() {
    let mut p = platform();
    assert_eq!(p.sync_brightness(None, Some(100)), None);
    assert_eq!(p.sync_brightness(Some(100), None), None);
    assert_eq!(p.sync_brightness(Some(100), Some(0)), None);
    assert_eq!(p.sync_brightness(Some(100), Some(100)), Some(100));
    assert_eq!(p.sync_brightness(Some(100), Some(100)), None);
    assert_eq!(p.sync_brightness(Some(300), Some(100)), None);
    assert_eq!(p.sync_brightness(Some(3), Some(100)), Some(20));
    assert_eq!(p.sync_brightness(Some(7), Some(100)), None);
    assert_eq!(p.last_brightness_pct, 20);
}

#[test]
fn spare_lease_is_lost_with_a_failed_renderer() {
    let mut p = platform();
    assert_eq!(p.take_spare_lease(), Some(3));
    p.renderer_tried(true, Some(4));
    assert_eq!(p.take_spare_lease(), Some(4));
    p.renderer_tried(false, Some(5));
    assert_eq!(p.take_spare_lease(), None);
    p.renderer_tried(true, None);
    assert_eq!(p.spare_lease, None);
}

#[test]
fn renderer_is_tried_five_times() {
    for attempt in 1..5 {
        assert!(matches!(gpu_init_step(attempt, false), InitStep::RetryAfterDelay));
        assert!(matches!(gpu_init_step(attempt, true), InitStep::Ready));
    }
    assert!(matches!(gpu_init_step(5, true), InitStep::Ready));
    match gpu_init_step(5, false) {
        InitStep::GiveUp { message } => {
            assert_eq!(message, "GpuRenderer: failed after 5 attempts")
        }
        other => panic!("{:?}", other),
    }
    assert_eq!(GPU_INIT_ATTEMPTS, 5);
    assert_eq!(GPU_INIT_DELAY_SECS, 1);
}

#[test]
fn keys_are_taken_in_the_order_pressed() {
    let mut rx = KeyReceiver::new();
    let tx = create_key_channel(&mut rx);
    for k in ["a", "b", "Enter"] {
        send_key(&mut rx, tx, k.to_string());
    }
    assert_eq!(take_keys(&mut rx, true), vec!["a", "b", "Enter"]);
    assert!(take_keys(&mut rx, true).is_empty());
}

#[test]
fn keys_wait_for_a_device() {
    let mut rx = KeyReceiver::new();
    assert!(take_keys(&mut rx, true).is_empty());
    let tx = create_key_channel(&mut rx);
    send_key(&mut rx, tx, "a".to_string());
    assert!(take_keys(&mut rx, false).is_empty());
    send_key(&mut rx, tx, "b".to_string());
    assert_eq!(take_keys(&mut rx, true), vec!["a", "b"]);
}

#[test]
fn replaced_channel_is_not_heard() {
    let mut rx = KeyReceiver::new();
    let first = create_key_channel(&mut rx);
    assert!(send_key(&mut rx, first, "lost".to_string()));
    let second = create_key_channel(&mut rx);
    assert!(!send_key(&mut rx, first, "unheard".to_string()));
    assert!(send_key(&mut rx, second, "heard".to_string()));
    assert_eq!(take_keys(&mut rx, true), vec!["heard"]);
}

#[test]
fn grab_channel_is_kept_until_taken() {
    let mut slot = None;
    let (tx, rx) = std::sync::mpsc::channel();
    let tx = create_grab_channel(&mut slot, (tx, rx));
    tx.send(grab_for_focus(true)).unwrap();
    tx.send(grab_for_focus(false)).unwrap();
    let rx = take_grab_receiver(&mut slot).unwrap();
    assert_eq!(rx.recv(), Ok(GrabCommand::Release));
    assert_eq!(rx.recv(), Ok(GrabCommand::Grab));
    assert!(take_grab_receiver(&mut slot).is_none());
}

#[test]
fn tab_change_is_noticed() {
    let mut tab = 0;
    assert_eq!(set_active_tab(&mut tab, 0), None);
    assert_eq!(set_active_tab(&mut tab, 2), Some(0));
    assert_eq!(set_active_tab(&mut tab, 1), Some(2));
    assert_eq!(tab, 1);
}

#[test]
fn commands_go_to_the_compositor_once_there_is_one() {
    let none: Option<u8> = None;
    assert_eq!(send_compositor_command(&none, CompositorCommand::CloseApp), None);
    assert_eq!(
        send_compositor_command(&Some(9u8), CompositorCommand::FrameDone),
        Some((&9u8, CompositorCommand::FrameDone))
    );
}

#[test]
fn stats_are_registered_and_shown() {
    let mut link: StatsLink<u8, char> = StatsLink::new();
    assert_eq!(stats_to_apply(&link, Some(1)), None);
    set_stats_snapshot(&mut link, 1);
    set_stats_snapshot(&mut link, 2);
    assert_eq!(link.shared, Some(1));
    set_stats_callback(&mut link, 'a');
    set_stats_callback(&mut link, 'b');
    assert_eq!(stats_to_apply(&link, Some(7)), Some((&'b', 7)));
    assert_eq!(stats_to_apply(&link, None::<i32>), None);
}

fn px(r: u8, g: u8, b: u8, x: u8) -> Xrgb8888Pixel {
    Xrgb8888Pixel { b, g, r, x }
}

#[test]
fn pixels_start_empty_and_are_made_opaque() {
    assert_eq!(Xrgb8888Pixel::default(), px(0, 0, 0, 0));
    assert_eq!(Xrgb8888Pixel::from_rgb(1, 2, 3), px(1, 2, 3, 255));
}

#[test]
fn blending_mixes_by_alpha() {
    let mut p = px(200, 100, 50, 0);
    p.blend(PremultipliedColor { red: 128, green: 0, blue: 64, alpha: 128 });
    assert_eq!(p, px(227, 49, 88, 255));
    p.blend(PremultipliedColor { red: 9, green: 8, blue: 7, alpha: 255 });
    assert_eq!(p, px(9, 8, 7, 255));
    p.blend(PremultipliedColor { red: 0, green: 0, blue: 0, alpha: 0 });
    assert_eq!(p, px(9, 8, 7, 255));
}

#[test]
fn every_premultiplied_colour_blends() {
    for old in [0u8, 1, 127, 254, 255] {
        for alpha in 0..=255u8 {
            for c in [0, alpha / 2, alpha] {
                let color = PremultipliedColor { red: c, green: c, blue: c, alpha };
                let mut p = px(old, old, old, 0);
                assert!(p.can_blend(color));
                p.blend(color);
                let expected = (old as u32 * (255 - alpha as u32) / 255 + c as u32) as u8;
                assert_eq!(p, px(expected, expected, expected, 255));
            }
        }
    }
}

#[test]
fn colours_beyond_their_alpha_may_not_blend() {
    let p = px(255, 0, 0, 0);
    assert!(!p.can_blend(PremultipliedColor { red: 255, green: 0, blue: 0, alpha: 0 }));
    let mut q = px(2, 0, 0, 0);
    let color = PremultipliedColor { red: 255, green: 0, blue: 0, alpha: 0 };
    assert!(q.can_blend(color));
    q.blend(color);
    assert_eq!(q, px(1, 0, 0, 255));
}

#[test]
fn lines_lie_one_after_another() {
    assert_eq!(process_line(0, 10, 2, 5, 100), Some(Span { start: 2, end: 5 }));
    assert_eq!(process_line(9, 10, 0, 10, 100), Some(Span { start: 90, end: 100 }));
    assert_eq!(process_line(10, 10, 0, 1, 100), None);
    assert_eq!(process_line(9, 10, 0, 11, 100), None);
    assert_eq!(process_line(0, 10, 0, 0, 0), Some(Span { start: 0, end: 0 }));
    assert_eq!(process_line(5, 10, 9, 3, 10), None);
}

#[test]
fn frame_is_laid_out_in_framebuffer_order() {
    assert_eq!(
        to_bytes(&vec![px(1, 2, 3, 4), px(5, 6, 7, 8)]),
        vec![3, 2, 1, 4, 7, 6, 5, 8]
    );
    assert!(to_bytes(&vec![]).is_empty());
}
