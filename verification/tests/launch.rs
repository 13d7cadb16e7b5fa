use flip_companion::config::AppEntry;
use flip_companion::drm_platform::CompositorCommand;
use flip_companion::launch::{
    close_app, flatpak_kill_command, flatpak_kill_tried, kill_app, launch_app, needs_kill, plan_launch,
    set_app_flatpak_id, set_app_pid, signal_group, AppProcess, KillStep, RunningApp,
    TERMINATE_TIMEOUT_SECS,
};

const OPTIONS: [&str; 9] = [
    "--filesystem=xdg-run/flip-wayland",
    "--env=WAYLAND_DISPLAY=flip-wayland/wayland-0",
    "--nosocket=x11",
    "--nosocket=fallback-x11",
    "--env=GDK_BACKEND=wayland",
    "--env=MOZ_ENABLE_WAYLAND=1",
    "--env=GTK_CSD=0",
    "--env=WAYLAND_DEBUG=1",
    "--unset-env=DISPLAY",
];

#[test]
fn flatpak_applications_get_the_sandbox_options() {
    let plan = plan_launch("flatpak run --user org.mozilla.firefox  --kiosk").unwrap();
    let mut expected = vec!["run"];
    expected.extend(OPTIONS);
    expected.extend(["--user", "org.mozilla.firefox", "--kiosk"]);
    assert_eq!(plan.program, "flatpak");
    assert_eq!(plan.args, expected);
    assert_eq!(plan.flatpak_id.as_deref(), Some("org.mozilla.firefox"));
    assert_eq!(plan.wayland_display, None);
}

#[test]
fn flatpak_without_an_application_has_no_id() {
    let plan = plan_launch("flatpak run --user").unwrap();
    assert_eq!(plan.flatpak_id, None);
    assert_eq!(plan.args.len(), 11);
    let short = plan_launch("flatpak run -p app").unwrap();
    assert_eq!(short.flatpak_id.as_deref(), Some("app"));
    assert_eq!(plan_launch("flatpak run -v").unwrap().flatpak_id, None);
}

#[test]
fn other_programs_are_pointed_to_the_compositor() {
    for (command, program, args) in [
        ("mpv --fs a.mkv", "mpv", vec!["--fs", "a.mkv"]),
        ("flatpak", "flatpak", vec![]),
        ("flatpak list", "flatpak", vec!["list"]),
        ("/usr/bin/flatpak run x", "/usr/bin/flatpak", vec!["run", "x"]),
    ] {
        let plan = plan_launch(command).unwrap();
        assert_eq!(plan.program, program);
        assert_eq!(plan.args, args);
        assert_eq!(plan.wayland_display.as_deref(), Some("flip-wayland/wayland-0"));
        assert_eq!(plan.flatpak_id, None);
    }
}

#[test]
fn blank_command_spawns_nothing() {
    assert!(plan_launch("").is_none());
    assert!(plan_launch(" \t ").is_none());
}

#[test]
fn plain_app_is_terminated() {
    let mut app = AppProcess::new();
    set_app_pid(&mut app, 4242);
    assert!(!app.force_clear);
    assert!(matches!(kill_app(&mut app), KillStep::Terminate { pid: 4242 }));
    assert!(app.force_clear);
    assert_eq!(app.pid, None);
    assert!(matches!(kill_app(&mut app), KillStep::Nothing));
    assert!(app.force_clear);
    set_app_pid(&mut app, 7);
    assert!(!app.force_clear);
}

#[test]
fn flatpak_app_is_killed_by_flatpak() {
    let mut app = AppProcess::new();
    set_app_flatpak_id(&mut app, "org.x".to_string());
    set_app_pid(&mut app, 10);
    match kill_app(&mut app) {
        KillStep::FlatpakKill { app_id } => assert_eq!(app_id, "org.x"),
        other => panic!("{:?}", other),
    }
    assert!(app.force_clear);
    assert_eq!(app.pid, Some(10));
    assert_eq!(flatpak_kill_tried(&mut app, true), None);
    assert_eq!(app.pid, None);
    assert!(matches!(kill_app(&mut app), KillStep::Nothing));
}

#[test]
fn failed_flatpak_kill_falls_back_to_signals() {
    let mut app = AppProcess::new();
    set_app_flatpak_id(&mut app, "org.x".to_string());
    set_app_pid(&mut app, 10);
    kill_app(&mut app);
    assert_eq!(flatpak_kill_tried(&mut app, false), Some(10));
    assert_eq!(app.pid, None);
    assert_eq!(app.flatpak_id, None);
    assert!(app.force_clear);
    assert_eq!(flatpak_kill_tried(&mut app, false), None);
}

#[test]
fn signals_go_to_the_process_group() {
    assert_eq!(signal_group(4242), -4242);
    assert_eq!(signal_group(0), 0);
    assert_eq!(signal_group(0x7fff_ffff), -0x7fff_ffff);
    assert_eq!(signal_group(0xffff_ffff), 1);
    assert_eq!(signal_group(0x8000_0001), 0x7fff_ffff);
    assert_eq!(TERMINATE_TIMEOUT_SECS, 2);
    assert!(needs_kill(0));
    assert!(!needs_kill(-1));
}

fn entry(name: &str, command: &str) -> AppEntry {
    AppEntry {
        name: name.to_string(),
        icon: String::new(),
        command: command.to_string(),
        url: None,
    }
}

#[test]
fn tile_launches_its_app() {
    let apps = vec![entry("Player", "mpv x"), entry("Fox", "flatpak run org.f"), entry("Blank", " ")];
    let mut shown = RunningApp { is_running: false, name: String::new() };
    let mut app = AppProcess::new();

    assert!(launch_app(&mut shown, &mut app, &apps, 3).is_none());
    assert!(launch_app(&mut shown, &mut app, &apps, -1).is_none());
    assert!(!shown.is_running);

    assert_eq!(launch_app(&mut shown, &mut app, &apps, 1).unwrap().program, "flatpak");
    assert!(shown.is_running);
    assert_eq!(shown.name, "Fox");
    assert_eq!(app.flatpak_id.as_deref(), Some("org.f"));

    // A plain app launched over it does not clear what is remembered.
    assert_eq!(launch_app(&mut shown, &mut app, &apps, 0).unwrap().program, "mpv");
    assert_eq!(shown.name, "Player");
    assert_eq!(app.flatpak_id.as_deref(), Some("org.f"));

    assert!(launch_app(&mut shown, &mut app, &apps, 2).is_none());
    assert_eq!(shown.name, "Blank");
}

#[test]
fn closing_resets_what_is_shown() {
    let mut shown = RunningApp { is_running: true, name: "Player".to_string() };
    let mut app = AppProcess::new();
    set_app_pid(&mut app, 99);
    let (step, command) = close_app(&mut shown, &mut app);
    assert!(matches!(step, KillStep::Terminate { pid: 99 }));
    assert_eq!(command, CompositorCommand::CloseApp);
    assert!(!shown.is_running);
    assert_eq!(shown.name, "");
    assert!(app.force_clear);
}

#[test]
fn short_flags_are_no_application() {
    let apps = vec![entry("Fox", "flatpak run -v org.mozilla.firefox")];
    let mut shown = RunningApp { is_running: false, name: String::new() };
    let mut app = AppProcess::new();
    let plan = launch_app(&mut shown, &mut app, &apps, 0).unwrap();
    assert_eq!(plan.args[10..], ["-v", "org.mozilla.firefox"]);
    assert_eq!(app.flatpak_id.as_deref(), Some("org.mozilla.firefox"));
    match kill_app(&mut app) {
        KillStep::FlatpakKill { app_id } => {
            let command = flatpak_kill_command(&app_id);
            assert_eq!(command.program, "flatpak");
            assert_eq!(command.args, ["kill", "org.mozilla.firefox"]);
        }
        other => panic!("{:?}", other),
    }
}
