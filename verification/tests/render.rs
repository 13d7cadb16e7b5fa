use flip_companion::layers::{
    clip_layer, is_placeable, plan_draws, ClientTexture, DrawOp, LayerRect,
};
use flip_companion::render_loop::{Facts, FrameVerdict, RenderLoop, Step};
use flip_companion::touch::{TouchAction, TouchEvent, APPS_TAB};

fn tex(texture: u32, x: i32, y: i32, width: i32, height: i32) -> ClientTexture<u32> {
    ClientTexture { texture, width, height, x, y }
}

fn shown_loop() -> RenderLoop<(i32, i32), u32> {
    let mut state: RenderLoop<(i32, i32), u32> = RenderLoop::new((0, 0));
    let mut pending = vec!['a'];
    assert_eq!(state.begin_frame(false, true, &mut pending), vec!['a']);
    state.install_textures(vec![Some(tex(1, 0, 0, 1620, 984))]);
    state
}

#[test]
fn full_window_fills_the_client_area() {
    assert_eq!(
        clip_layer(0, 0, 1620, 984),
        Some(LayerRect { src_y: 0, dst_x: 0, dst_y: 40, width: 1620, height: 984 })
    );
}

#[test]
fn decoration_above_the_window_is_hidden() {
    assert_eq!(
        clip_layer(5, -30, 800, 100),
        Some(LayerRect { src_y: 30, dst_x: 5, dst_y: 40, width: 800, height: 70 })
    );
    assert_eq!(clip_layer(5, -100, 800, 100), None);
}

#[test]
fn overhang_below_is_cut() {
    assert_eq!(
        clip_layer(0, 900, 10, 200),
        Some(LayerRect { src_y: 0, dst_x: 0, dst_y: 940, width: 10, height: 84 })
    );
    assert_eq!(clip_layer(0, 984, 10, 200), None);
    assert_eq!(
        clip_layer(0, -10, 10, 2000),
        Some(LayerRect { src_y: 10, dst_x: 0, dst_y: 40, width: 10, height: 984 })
    );
}

#[test]
fn empty_and_negative_sizes_are_not_drawn() {
    assert_eq!(clip_layer(0, 10, 10, 0), None);
    assert_eq!(clip_layer(0, 10, 10, -5), None);
}

#[test]
fn far_off_surfaces_are_told_apart() {
    assert!(is_placeable(0, 984));
    assert!(is_placeable(-1000, 5));
    assert!(!is_placeable(i32::MAX, 1));
    assert!(!is_placeable(i32::MIN, 1));
    assert!(!is_placeable(i32::MAX - 40, 1));
    assert!(is_placeable(i32::MAX - 40, 0));
    assert!(!is_placeable(0, i32::MAX));
    assert!(!is_placeable(0, i32::MIN));
}

#[test]
fn placeable_is_exactly_what_computes_in_32_bits() {
    let edges = [
        i32::MIN, i32::MIN + 1, i32::MIN + 1024, i32::MIN + 984, i32::MIN + 983, -1, 0, 1, 984,
        i32::MAX - 1024, i32::MAX - 41, i32::MAX - 40, i32::MAX - 39, i32::MAX,
    ];
    for y in edges {
        for h in edges {
            let computed = 40i32.checked_add(y).and_then(|top| {
                let bottom = top.checked_add(h)?;
                let clip_top = 40i32.checked_sub(top)?.max(0);
                let clip_bottom = bottom.checked_sub(1024)?.max(0);
                h.checked_sub(clip_top)?.checked_sub(clip_bottom)
            });
            assert_eq!(is_placeable(y, h), computed.is_some(), "{} {}", y, h);
        }
    }
}

#[test]
fn draws_keep_the_order_and_skip_what_is_hidden() {
    let textures = vec![tex(1, 0, 0, 10, 10), tex(2, 0, -50, 10, 10), tex(3, 4, 20, 10, 10)];
    assert_eq!(
        plan_draws(&textures, APPS_TAB),
        vec![
            DrawOp {
                index: 0,
                rect: LayerRect { src_y: 0, dst_x: 0, dst_y: 40, width: 10, height: 10 },
            },
            DrawOp {
                index: 2,
                rect: LayerRect { src_y: 0, dst_x: 4, dst_y: 60, width: 10, height: 10 },
            },
        ]
    );
    assert!(plan_draws(&textures, 0).is_empty());
    assert!(plan_draws(&textures, 1).is_empty());
}

#[test]
fn layers_wait_until_a_client_is_shown() {
    let mut state: RenderLoop<(i32, i32), u32> = RenderLoop::new((0, 0));
    let mut pending = vec![1, 2];
    assert!(state.begin_frame(false, false, &mut pending).is_empty());
    assert_eq!(pending, vec![1, 2]);
    assert_eq!(state.begin_frame(false, true, &mut pending), vec![1, 2]);
    assert!(pending.is_empty());
    assert!(state.client_active);
}

#[test]
fn forced_clear_drops_everything_of_the_client() {
    let mut state = shown_loop();
    state.dispatch_touch(TouchEvent::Down { position: (1, 500), row: 500 }, APPS_TAB);
    assert!(state.touch.in_client);
    let mut pending = vec!['x', 'y'];
    assert!(state.begin_frame(true, true, &mut pending).is_empty());
    assert!(pending.is_empty());
    assert!(state.textures.is_empty());
    assert!(!state.client_active);
    assert!(!state.touch.in_client);
    assert!(state.draws(APPS_TAB).is_empty());
    assert!(!state.has_content(false));
    assert!(state.has_content(true));
    // The compositor still has the toplevel; the flag still holds.
    assert!(state.begin_frame(true, true, &mut pending).is_empty());
    assert!(!state.client_active);
}

#[test]
fn client_that_goes_away_is_cleared() {
    let mut state = shown_loop();
    state.dispatch_touch(TouchEvent::Down { position: (1, 500), row: 500 }, APPS_TAB);
    let mut pending = vec!['z'];
    assert!(state.begin_frame(false, false, &mut pending).is_empty());
    assert_eq!(pending, vec!['z']);
    assert!(state.textures.is_empty());
    assert!(!state.touch.in_client);
    assert_eq!(
        state.dispatch_touch(TouchEvent::Up, APPS_TAB),
        TouchAction::UiReleased { position: (0, 0) }
    );
}

#[test]
fn last_frame_stays_when_nothing_can_be_imported() {
    let mut state = shown_loop();
    state.install_textures(vec![None, None]);
    assert_eq!(state.textures, vec![tex(1, 0, 0, 1620, 984)]);
    state.install_textures(vec![]);
    assert_eq!(state.textures.len(), 1);
    state.install_textures(vec![None, Some(tex(2, 1, 1, 2, 2)), None, Some(tex(3, 0, 0, 1, 1))]);
    assert_eq!(state.textures, vec![tex(2, 1, 1, 2, 2), tex(3, 0, 0, 1, 1)]);
    assert!(state.all_placeable());
    state.install_textures(vec![Some(tex(4, 0, i32::MAX, 1, 1))]);
    assert!(!state.all_placeable());
}

#[test]
fn second_failure_in_a_row_recreates_the_renderer() {
    let mut state = shown_loop();
    assert_eq!(state.finish_frame(false, false), FrameVerdict::Continue { frame_done: true });
    assert_eq!(state.finish_frame(true, false), FrameVerdict::Continue { frame_done: true });
    assert_eq!(state.finish_frame(false, false), FrameVerdict::Continue { frame_done: true });
    assert_eq!(state.finish_frame(false, false), FrameVerdict::RecreateRenderer);
    assert!(state.textures.is_empty());
    assert_eq!(state.finish_frame(false, false), FrameVerdict::RecreateRenderer);
    state.renderer_recreated();
    assert_eq!(state.finish_frame(false, false), FrameVerdict::Continue { frame_done: true });
}

#[test]
fn reset_with_a_failed_frame_restarts() {
    let mut state = shown_loop();
    assert_eq!(state.finish_frame(true, true), FrameVerdict::Continue { frame_done: true });
    assert_eq!(state.finish_frame(false, true), FrameVerdict::Restart);
    assert_eq!(state.consecutive_render_errors, 1);
}

#[test]
fn no_frame_is_reported_without_a_client() {
    let mut state: RenderLoop<(i32, i32), u32> = RenderLoop::new((0, 0));
    assert_eq!(state.finish_frame(true, false), FrameVerdict::Continue { frame_done: false });
}

fn facts(succeeded: bool, reset_detected: bool, ui_imported: bool) -> Facts {
    Facts { succeeded, reset_detected, ui_imported }
}

fn steps_from(
    state: &mut RenderLoop<(i32, i32), u32>,
    first: Step,
    facts: Facts,
    count: usize,
) -> Vec<Step> {
    let mut step = first;
    let mut seen = Vec::new();
    for _ in 0..count {
        step = state.next_step(step, facts);
        seen.push(step);
    }
    seen
}

#[test]
fn a_frame_with_a_client_takes_every_step() {
    let mut state = shown_loop();
    assert_eq!(
        steps_from(&mut state, Step::Inputs, facts(true, false, true), 8),
        vec![
            Step::PaintUi,
            Step::ImportUi,
            Step::ImportClient,
            Step::Submit,
            Step::FrameDone,
            Step::CleanUp,
            Step::Wait,
            Step::Inputs,
        ]
    );
}

#[test]
fn a_frame_without_client_tells_nobody() {
    let mut state: RenderLoop<(i32, i32), u32> = RenderLoop::new((0, 0));
    assert_eq!(
        steps_from(&mut state, Step::ImportUi, facts(true, false, true), 4),
        vec![Step::ImportClient, Step::Submit, Step::CleanUp, Step::Wait]
    );
}

#[test]
fn a_frame_without_content_is_not_submitted() {
    let mut state: RenderLoop<(i32, i32), u32> = RenderLoop::new((0, 0));
    assert_eq!(
        steps_from(&mut state, Step::ImportUi, facts(true, false, false), 3),
        vec![Step::ImportClient, Step::CleanUp, Step::Wait]
    );
    let mut shown = shown_loop();
    assert_eq!(shown.next_step(Step::ImportClient, facts(true, false, false)), Step::Submit);
}

#[test]
fn two_failures_ask_for_a_new_renderer() {
    let mut state = shown_loop();
    assert_eq!(state.next_step(Step::Submit, facts(false, false, true)), Step::FrameDone);
    assert_eq!(state.next_step(Step::Submit, facts(false, false, true)), Step::Recreate);
    assert_eq!(state.consecutive_render_errors, 2);
    assert!(state.textures.is_empty());
    assert_eq!(state.next_step(Step::Recreate, facts(false, false, true)), Step::Wait);
    assert_eq!(state.consecutive_render_errors, 2);
    assert_eq!(state.next_step(Step::Recreate, facts(true, false, true)), Step::Wait);
    assert_eq!(state.consecutive_render_errors, 0);
}

#[test]
fn a_reset_restarts_from_every_step() {
    let all = vec![
        Step::Inputs,
        Step::PaintUi,
        Step::ImportUi,
        Step::ImportClient,
        Step::Submit,
        Step::FrameDone,
        Step::Recreate,
        Step::CleanUp,
        Step::Wait,
        Step::Restart,
    ];
    for first in all {
        let mut state = shown_loop();
        let seen = steps_from(&mut state, first, facts(true, true, true), 8);
        assert_eq!(seen[7], Step::Restart);
    }
    let mut state = shown_loop();
    assert_eq!(state.next_step(Step::Submit, facts(false, true, true)), Step::Restart);
    assert_eq!(state.next_step(Step::PaintUi, facts(true, true, true)), Step::Restart);
}
