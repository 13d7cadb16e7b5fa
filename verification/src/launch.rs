//! Launching the app of the bottom screen and killing it again.

use crate::config::AppEntry;
use crate::drm_platform::CompositorCommand;
use crate::text::{same_text, split_words, starts_with};
#[allow(unused_imports)]
use vstd::string::*;
use vstd::prelude::*;

verus! {

// ---------------------------------------------------------------------------
// The command that an app is launched by
// ---------------------------------------------------------------------------

/// A process to spawn.
#[derive(Debug)]
pub struct LaunchPlan {
    /// The program.
    pub program: String,
    /// Its arguments.
    pub args: Vec<String>,
    /// What `WAYLAND_DISPLAY` is set to, where the plan sets it.
    pub wayland_display: Option<String>,
    /// The Flatpak application that the process runs, where it runs one.
    pub flatpak_id: Option<String>,
}

/// A plan as the contracts speak of it.
#[verifier::ext_equal]
pub struct PlanView {
    pub program: Seq<char>,
    pub args: Seq<Seq<char>>,
    pub wayland_display: Option<Seq<char>>,
    pub flatpak_id: Option<Seq<char>>,
}

impl View for LaunchPlan {
    type V = PlanView;

    open spec fn view(&self) -> PlanView {
        PlanView {
            program: self.program@,
            args: crate::text::texts(self.args@),
            wayland_display: crate::config::text_view(self.wayland_display),
            flatpak_id: crate::config::text_view(self.flatpak_id),
        }
    }
}

/// The view of an optional plan.
pub open spec fn plan_view(plan: Option<LaunchPlan>) -> Option<PlanView> {
    match plan {
        Some(p) => Some(p@),
        None => None,
    }
}

/// Whether the words of a command line run a Flatpak application.
pub open spec fn runs_flatpak(line: Seq<Seq<char>>) -> bool {
    line.len() >= 2 && line[0] == "flatpak"@ && line[1] == "run"@
}

/// The options that let a sandboxed application reach the panel's compositor
/// and nothing else.
pub open spec fn sandbox_options() -> Seq<Seq<char>> {
    seq![
        "--filesystem=xdg-run/flip-wayland"@,
        "--env=WAYLAND_DISPLAY=flip-wayland/wayland-0"@,
        "--nosocket=x11"@,
        "--nosocket=fallback-x11"@,
        "--env=GDK_BACKEND=wayland"@,
        "--env=MOZ_ENABLE_WAYLAND=1"@,
        "--env=GTK_CSD=0"@,
        "--env=WAYLAND_DEBUG=1"@,
        "--unset-env=DISPLAY"@,
    ]
}

/// Whether an argument is an option, long or short.
pub open spec fn is_option(arg: Seq<char>) -> bool {
    crate::text::begins_with(arg, "-"@)
}

/// The first argument that is no option, if there is one.
pub open spec fn first_plain(args: Seq<Seq<char>>) -> Option<Seq<char>>
    decreases args.len(),
{
    if args.len() == 0 {
        None
    } else if !is_option(args[0]) {
        Some(args[0])
    } else {
        first_plain(args.skip(1))
    }
}

/// The process that a command line stands for; none where it is blank.
///
/// The application of `flatpak run` gets the sandbox options before its own
/// arguments. Any other program is pointed to the panel's compositor by its
/// environment.
pub open spec fn planned(command: Seq<char>) -> Option<PlanView> {
    let line = crate::text::words(command);
    if line.len() == 0 {
        None
    } else if runs_flatpak(line) {
        Some(
            PlanView {
                program: line[0],
                args: seq!["run"@] + sandbox_options() + line.skip(2),
                wayland_display: None,
                flatpak_id: first_plain(line.skip(2)),
            },
        )
    } else {
        Some(
            PlanView {
                program: line[0],
                args: line.skip(1),
                wayland_display: Some("flip-wayland/wayland-0"@),
                flatpak_id: None,
            },
        )
    }
}

fn flatpak_args() -> (args: Vec<String>)
    ensures
        crate::text::texts(args@) == seq!["run"@] + sandbox_options(),
{
    let mut args: Vec<String> = Vec::new();
    args.push("run".to_owned());
    args.push("--filesystem=xdg-run/flip-wayland".to_owned());
    args.push("--env=WAYLAND_DISPLAY=flip-wayland/wayland-0".to_owned());
    args.push("--nosocket=x11".to_owned());
    args.push("--nosocket=fallback-x11".to_owned());
    args.push("--env=GDK_BACKEND=wayland".to_owned());
    args.push("--env=MOZ_ENABLE_WAYLAND=1".to_owned());
    args.push("--env=GTK_CSD=0".to_owned());
    args.push("--env=WAYLAND_DEBUG=1".to_owned());
    args.push("--unset-env=DISPLAY".to_owned());
    proof {
        assert(crate::text::texts(args@) =~= seq!["run"@] + sandbox_options());
    }
    args
}

/// Appends `line[from..]` to `args`.
fn append_from(args: &mut Vec<String>, line: &Vec<String>, from: usize)
    requires
        from <= line@.len(),
    ensures
        crate::text::texts(final(args)@) == crate::text::texts(old(args)@) + crate::text::texts(
            line@,
        ).skip(from as int),
{
    let ghost start = crate::text::texts(args@);
    let ghost all = crate::text::texts(line@);
    let mut i: usize = from;
    proof {
        assert(start + all.subrange(from as int, from as int) == start);
    }
    while i < line.len()
        invariant
            from <= i <= line@.len(),
            all == crate::text::texts(line@),
            crate::text::texts(args@) == start + all.subrange(from as int, i as int),
        decreases line@.len() - i,
    {
        let ghost before = args@;
        args.push(line[i].clone());
        proof {
            assert(crate::text::texts(args@) == crate::text::texts(before).push(line@[i as int]@));
            assert(all.subrange(from as int, i + 1) == all.subrange(from as int, i as int).push(
                all[i as int],
            ));
        }
        i += 1;
    }
    proof {
        assert(all.subrange(from as int, line@.len() as int) == all.skip(from as int));
    }
}

/// The first of `line[from..]` that is no option.
fn find_plain(line: &Vec<String>, from: usize) -> (plain: Option<String>)
    requires
        from <= line@.len(),
    ensures
        crate::config::text_view(plain) == first_plain(
            crate::text::texts(line@).skip(from as int),
        ),
{
    let ghost all = crate::text::texts(line@);
    let mut i: usize = from;
    while i < line.len()
        invariant
            from <= i <= line@.len(),
            all == crate::text::texts(line@),
            first_plain(all.skip(i as int)) == first_plain(all.skip(from as int)),
        decreases line@.len() - i,
    {
        proof {
            assert(all.skip(i as int)[0] == line@[i as int]@);
            assert(all.skip(i as int).skip(1) == all.skip(i + 1));
        }
        if !starts_with(line[i].as_str(), "-") {
            return Some(line[i].clone());
        }
        i += 1;
    }
    None
}

/// Plans the process that a command line stands for.
pub fn plan_launch(command: &str) -> (plan: Option<LaunchPlan>)
    ensures
        plan_view(plan) == planned(command@),
{
    let line = split_words(command);
    let ghost seen = crate::text::texts(line@);
    if line.len() == 0 {
        return None;
    }
    let program = line[0].clone();
    proof {
        assert(seen[0] == line@[0]@);
    }
    if line.len() >= 2 && same_text(line[0].as_str(), "flatpak") && same_text(
        line[1].as_str(),
        "run",
    ) {
        proof {
            assert(seen[1] == line@[1]@);
        }
        let flatpak_id = find_plain(&line, 2);
        let mut args = flatpak_args();
        append_from(&mut args, &line, 2);
        Some(LaunchPlan { program, args, wayland_display: None, flatpak_id })
    } else {
        proof {
            if line@.len() >= 2 {
                assert(seen[1] == line@[1]@);
            }
        }
        let mut args: Vec<String> = Vec::new();
        proof {
            assert(crate::text::texts(args@) == Seq::<Seq<char>>::empty());
        }
        append_from(&mut args, &line, 1);
        proof {
            assert(Seq::<Seq<char>>::empty() + seen.skip(1) == seen.skip(1));
        }
        Some(
            LaunchPlan {
                program,
                args,
                wayland_display: Some("flip-wayland/wayland-0".to_owned()),
                flatpak_id: None,
            },
        )
    }
}

/// A plan keeps the program of its command line and ends with the arguments
/// given there, in order; `flatpak run` applications come after all sandbox
/// options.
pub proof fn plan_keeps_the_command_line(command: Seq<char>)
    requires
        crate::text::words(command).len() > 0,
    ensures
        ({
            let line = crate::text::words(command);
            let own = if runs_flatpak(line) {
                line.skip(2)
            } else {
                line.skip(1)
            };
            &&& planned(command) is Some
            &&& planned(command)->0.program == line[0]
            &&& own.len() <= planned(command)->0.args.len()
            &&& planned(command)->0.args.skip(planned(command)->0.args.len() - own.len()) == own
            &&& runs_flatpak(line) ==> planned(command)->0.args.subrange(1, 10)
                == sandbox_options()
        }),
{
    let line = crate::text::words(command);
    let plan = planned(command)->0;
    if runs_flatpak(line) {
        assert(plan.args.skip(plan.args.len() - line.skip(2).len()) == line.skip(2));
        assert(plan.args.subrange(1, 10) == sandbox_options());
    } else {
        assert(plan.args.skip(0) == line.skip(1));
    }
}

/// The Flatpak application of a plan is one of the arguments of its command
/// line and is no option, and it is there as soon as any argument is none.
pub proof fn flatpak_id_is_the_first_plain_argument(args: Seq<Seq<char>>)
    ensures
        first_plain(args) matches Some(id) ==> args.contains(id) && !is_option(id),
        first_plain(args) is None ==> forall|i: int|
            0 <= i < args.len() ==> is_option(#[trigger] args[i]),
    decreases args.len(),
{
    if args.len() > 0 {
        flatpak_id_is_the_first_plain_argument(args.skip(1));
        let rest = args.skip(1);
        if is_option(args[0]) {
            if let Some(id) = first_plain(args) {
                let i = choose|i: int| 0 <= i < rest.len() && rest[i] == id;
                assert(args[i + 1] == id);
            } else {
                assert forall|i: int| 0 <= i < args.len() implies is_option(
                    #[trigger] args[i],
                ) by {
                    if i > 0 {
                        assert(rest[i - 1] == args[i]);
                    }
                }
            }
        } else {
            assert(args[0] == first_plain(args)->0);
        }
    }
}

// ---------------------------------------------------------------------------
// The running app
// ---------------------------------------------------------------------------

/// The app that is running, as far as it has to be known to kill it.
#[derive(Debug)]
pub struct AppProcess {
    /// The process that was spawned.
    pub pid: Option<u32>,
    /// The Flatpak application that was launched.
    pub flatpak_id: Option<String>,
    /// Whether the textures of the app may no longer be used.
    pub force_clear: bool,
}

/// A running app as the contracts speak of it.
#[verifier::ext_equal]
pub struct ProcessView {
    pub pid: Option<u32>,
    pub flatpak_id: Option<Seq<char>>,
    pub force_clear: bool,
}

impl View for AppProcess {
    type V = ProcessView;

    open spec fn view(&self) -> ProcessView {
        ProcessView {
            pid: self.pid,
            flatpak_id: crate::config::text_view(self.flatpak_id),
            force_clear: self.force_clear,
        }
    }
}

/// What has to be done to kill the app.
#[derive(Debug)]
pub enum KillStep {
    /// Run `flatpak kill` on this application, then say how that went.
    FlatpakKill { app_id: String },
    /// Terminate the process group of this process.
    Terminate { pid: u32 },
    /// There is nothing to kill.
    Nothing,
}

/// What has to be done, as the contracts speak of it.
#[verifier::ext_equal]
pub enum KillStepView {
    FlatpakKill { app_id: Seq<char> },
    Terminate { pid: u32 },
    Nothing,
}

impl View for KillStep {
    type V = KillStepView;

    open spec fn view(&self) -> KillStepView {
        match self {
            KillStep::FlatpakKill { app_id } => KillStepView::FlatpakKill { app_id: app_id@ },
            KillStep::Terminate { pid } => KillStepView::Terminate { pid: *pid },
            KillStep::Nothing => KillStepView::Nothing,
        }
    }
}

impl ProcessView {
    /// What has to be done to kill the app.
    pub open spec fn kill_step(self) -> KillStepView {
        match (self.flatpak_id, self.pid) {
            (Some(app_id), _) => KillStepView::FlatpakKill { app_id },
            (None, Some(pid)) => KillStepView::Terminate { pid },
            (None, None) => KillStepView::Nothing,
        }
    }

    /// The process that is terminated by signals after `flatpak kill` was
    /// tried.
    pub open spec fn signalled_after(self, spawned: bool) -> Option<u32> {
        if spawned {
            None
        } else {
            self.pid
        }
    }

    /// After a process was spawned; its textures may be used.
    pub open spec fn spawned(self, pid: u32) -> ProcessView {
        ProcessView { pid: Some(pid), force_clear: false, ..self }
    }

    /// After a Flatpak application was launched.
    pub open spec fn flatpak_launched(self, id: Seq<char>) -> ProcessView {
        ProcessView { flatpak_id: Some(id), ..self }
    }

    /// After the kill was asked for. The process of a Flatpak application is
    /// kept until `flatpak kill` has been tried.
    pub open spec fn kill_asked(self) -> ProcessView {
        ProcessView {
            pid: if self.flatpak_id is Some {
                self.pid
            } else {
                None
            },
            flatpak_id: None,
            force_clear: true,
        }
    }

    /// After `flatpak kill` was tried.
    pub open spec fn flatpak_kill_tried(self) -> ProcessView {
        ProcessView { pid: None, ..self }
    }
}

impl AppProcess {
    /// No app is running.
    pub fn new() -> (app: AppProcess)
        ensures
            app@ == (ProcessView { pid: None, flatpak_id: None, force_clear: false }),
    {
        AppProcess { pid: None, flatpak_id: None, force_clear: false }
    }
}

/// Notes the process of an app that was launched. From now on textures of a
/// client may be used again.
pub fn set_app_pid(app: &mut AppProcess, pid: u32)
    ensures
        final(app)@ == old(app)@.spawned(pid),
{
    app.force_clear = false;
    app.pid = Some(pid);
}

/// Notes the Flatpak application that is launched.
pub fn set_app_flatpak_id(app: &mut AppProcess, id: String)
    ensures
        final(app)@ == old(app)@.flatpak_launched(id@),
{
    app.flatpak_id = Some(id);
}

/// Begins to kill the app. From now on its textures may not be used: they die
/// with the process, and drawing with them would reset the GPU.
///
/// A Flatpak application is asked to shut down in order, by `flatpak kill`; any
/// other app is terminated by signals.
pub fn kill_app(app: &mut AppProcess) -> (step: KillStep)
    ensures
        final(app)@ == old(app)@.kill_asked(),
        step@ == old(app)@.kill_step(),
{
    app.force_clear = true;
    match app.flatpak_id.take() {
        Some(app_id) => KillStep::FlatpakKill { app_id },
        None => match app.pid.take() {
            Some(pid) => KillStep::Terminate { pid },
            None => KillStep::Nothing,
        },
    }
}

/// A command to run.
#[derive(Debug)]
pub struct KillCommand {
    /// The program.
    pub program: String,
    /// Its arguments.
    pub args: Vec<String>,
}

/// The command that asks Flatpak application `app_id` to shut down in order.
pub fn flatpak_kill_command(app_id: &str) -> (command: KillCommand)
    ensures
        command.program@ == "flatpak"@,
        crate::text::texts(command.args@) == seq!["kill"@, app_id@],
{
    let mut args: Vec<String> = Vec::new();
    args.push("kill".to_owned());
    args.push(app_id.to_owned());
    proof {
        assert(crate::text::texts(args@) =~= seq!["kill"@, app_id@]);
    }
    KillCommand { program: "flatpak".to_owned(), args }
}

/// Goes on after `flatpak kill` was tried; `spawned` tells whether it could be
/// run. Where it could, the spawned process ends by itself with its
/// application; where not, that process is terminated by signals.
pub fn flatpak_kill_tried(app: &mut AppProcess, spawned: bool) -> (terminate: Option<u32>)
    ensures
        final(app)@ == old(app)@.flatpak_kill_tried(),
        terminate == old(app)@.signalled_after(spawned),
{
    let pid = app.pid.take();
    if spawned {
        None
    } else {
        pid
    }
}

/// The identifier by which a signal reaches the process group of `pid`.
pub fn signal_group(pid: u32) -> (target: i32)
    requires
        pid != 0x8000_0000,
    ensures
        pid < 0x8000_0000 ==> target == -pid,
        pid > 0x8000_0000 ==> target == 0x1_0000_0000 - pid,
{
    let signed: i32 = pid as i32;
    proof {
        assert(pid < 0x8000_0000u32 ==> pid as i32 == pid) by (bit_vector);
        assert(pid > 0x8000_0000u32 ==> pid as i32 == pid - 0x1_0000_0000) by (bit_vector);
    }
    -signed
}

/// How long a terminated app is given before it is killed.
pub const TERMINATE_TIMEOUT_SECS: u64 = 2;

/// Tells whether a terminated app has to be killed: it still is there when the
/// time is over, that is, probing its group succeeds.
pub fn needs_kill(probe_result: i32) -> (kill: bool)
    ensures
        kill == (probe_result == 0),
{
    probe_result == 0
}

/// What happens to the running app.
pub enum AppEvent {
    Spawned { pid: u32 },
    FlatpakLaunched { id: Seq<char> },
    KillAsked,
    FlatpakKillTried,
}

/// The running app after all of `events`.
pub open spec fn after_events(app: ProcessView, events: Seq<AppEvent>) -> ProcessView
    decreases events.len(),
{
    if events.len() == 0 {
        app
    } else {
        let before = after_events(app, events.drop_last());
        match events.last() {
            AppEvent::Spawned { pid } => before.spawned(pid),
            AppEvent::FlatpakLaunched { id } => before.flatpak_launched(id),
            AppEvent::KillAsked => before.kill_asked(),
            AppEvent::FlatpakKillTried => before.flatpak_kill_tried(),
        }
    }
}

/// Once a kill was asked for, the textures stay forbidden, whatever happens,
/// until the next app has been spawned.
pub proof fn textures_stay_forbidden_until_the_next_app(app: ProcessView, events: Seq<AppEvent>)
    requires
        forall|i: int| 0 <= i < events.len() ==> !((#[trigger] events[i]) is Spawned),
    ensures
        after_events(app.kill_asked(), events).force_clear,
    decreases events.len(),
{
    if events.len() > 0 {
        let prefix = events.drop_last();
        assert forall|i: int| 0 <= i < prefix.len() implies !((
        #[trigger] prefix[i]) is Spawned) by {
            assert(prefix[i] == events[i]);
        }
        textures_stay_forbidden_until_the_next_app(app, prefix);
        assert(events.last() == events[events.len() - 1]);
    }
}

/// From the kill of one app to the spawn of the next, no frame draws anything
/// of a client.
pub proof fn killed_app_is_never_drawn<P, T>(
    app: ProcessView,
    events: Seq<AppEvent>,
    state: crate::render_loop::LoopState<P, T>,
    input: crate::render_loop::FrameInput<T>,
    active_tab: i32,
)
    requires
        forall|i: int| 0 <= i < events.len() ==> !((#[trigger] events[i]) is Spawned),
        input.force_clear == after_events(app.kill_asked(), events).force_clear,
    ensures
        crate::render_loop::drawn_state(state, input).textures.len() == 0,
        crate::layers::frame_draw_ops(
            crate::render_loop::drawn_state(state, input).textures,
            active_tab,
        ).len() == 0,
{
    textures_stay_forbidden_until_the_next_app(app, events);
    crate::render_loop::forced_clear_draws_nothing_of_the_client(state, input, active_tab);
}

/// After a kill has run its course nothing of the app is remembered, and a
/// second kill finds nothing to do.
pub proof fn kill_leaves_nothing_to_kill(app: ProcessView)
    ensures
        ({
            let done = if app.flatpak_id is Some {
                app.kill_asked().flatpak_kill_tried()
            } else {
                app.kill_asked()
            };
            &&& done.pid is None
            &&& done.flatpak_id is None
            &&& done.kill_asked() == done
        }),
{
}

/// An orderly shutdown is never cut short: a Flatpak application that `flatpak
/// kill` could be run on gets no signal. Signals go to the process that was
/// spawned, where `flatpak kill` could not be run and where the app is no
/// Flatpak application.
pub proof fn signals_never_cut_an_orderly_shutdown_short(app: ProcessView, spawned: bool)
    ensures
        app.flatpak_id matches Some(id) ==> {
            &&& app.kill_step() == (KillStepView::FlatpakKill { app_id: id })
            &&& spawned ==> app.kill_asked().signalled_after(spawned) is None
            &&& !spawned ==> app.kill_asked().signalled_after(spawned) == app.pid
        },
        app.kill_step() matches KillStepView::Terminate { pid } ==> app.flatpak_id is None
            && app.pid == Some(pid),
{
}

// ---------------------------------------------------------------------------
// The launch and close buttons
// ---------------------------------------------------------------------------

/// What the UI shows of the running app.
#[derive(Debug)]
pub struct RunningApp {
    pub is_running: bool,
    pub name: String,
}

/// The app that the launch button of tile `index` stands for, if there is one.
pub open spec fn tile(apps: Seq<AppEntry>, index: i32) -> Option<AppEntry> {
    if 0 <= index < apps.len() {
        Some(apps[index as int])
    } else {
        None
    }
}

/// What is launched when tile `index` is touched.
pub open spec fn tile_plan(apps: Seq<AppEntry>, index: i32) -> Option<PlanView> {
    match tile(apps, index) {
        Some(entry) => planned(entry.command@),
        None => None,
    }
}

/// Launches the app of tile `index`: shows it as running, remembers the Flatpak
/// application, and gives the process to spawn. A tile that is not there does
/// nothing; one with a blank command is shown as running and spawns nothing.
pub fn launch_app(
    shown: &mut RunningApp,
    app: &mut AppProcess,
    apps: &Vec<AppEntry>,
    index: i32,
) -> (plan: Option<LaunchPlan>)
    ensures
        plan_view(plan) == tile_plan(apps@, index),
        tile(apps@, index) is None ==> *final(shown) == *old(shown),
        tile(apps@, index) matches Some(entry) ==> final(shown).is_running && final(shown).name@
            == entry.name@,
        final(app)@ == (match tile_plan(apps@, index) {
            Some(p) => match p.flatpak_id {
                Some(id) => old(app)@.flatpak_launched(id),
                None => old(app)@,
            },
            None => old(app)@,
        }),
{
    if index < 0 || index as usize >= apps.len() {
        return None;
    }
    let entry = &apps[index as usize];
    shown.is_running = true;
    shown.name = entry.name.clone();
    let plan = plan_launch(entry.command.as_str());
    if let Some(p) = &plan {
        if let Some(id) = &p.flatpak_id {
            set_app_flatpak_id(app, id.clone());
        }
    }
    plan
}

/// Closes the app: begins to kill it and shows none as running. Gives what has
/// to be done to kill it, and the one command that the compositor is sent after
/// that.
pub fn close_app(shown: &mut RunningApp, app: &mut AppProcess) -> (out: (
    KillStep,
    CompositorCommand,
))
    ensures
        !final(shown).is_running,
        final(shown).name@.len() == 0,
        final(app)@ == old(app)@.kill_asked(),
        out.0@ == old(app)@.kill_step(),
        out.1 == CompositorCommand::CloseApp,
{
    let step = kill_app(app);
    shown.is_running = false;
    shown.name = String::new();
    (step, CompositorCommand::CloseApp)
}

// ---------------------------------------------------------------------------
// What a command line comes to, word by word
// ---------------------------------------------------------------------------

/// An argument is an option exactly when it begins with a dash.
pub proof fn options_begin_with_a_dash(arg: Seq<char>)
    ensures
        is_option(arg) <==> arg.len() > 0 && arg[0] == '-',
{
    reveal_strlit("-");
    if arg.len() > 0 {
        assert(arg.subrange(0, 1)[0] == arg[0]);
        if arg[0] == '-' {
            assert(arg.subrange(0, 1) =~= "-"@);
        }
    }
}

/// The Flatpak application stands among the arguments with nothing but options
/// before it and is none itself; there is none only where every argument is an
/// option.
pub proof fn only_options_stand_before_the_application(args: Seq<Seq<char>>)
    ensures
        first_plain(args) matches Some(id) ==> exists|i: int|
            {
                &&& 0 <= i < args.len()
                &&& #[trigger] args[i] == id
                &&& !(args[i].len() > 0 && args[i][0] == '-')
                &&& forall|j: int|
                    0 <= j < i ==> (#[trigger] args[j]).len() > 0 && args[j][0] == '-'
            },
        first_plain(args) is None ==> forall|i: int|
            0 <= i < args.len() ==> (#[trigger] args[i]).len() > 0 && args[i][0] == '-',
    decreases args.len(),
{
    if args.len() > 0 {
        options_begin_with_a_dash(args[0]);
        let rest = args.skip(1);
        only_options_stand_before_the_application(rest);
        if is_option(args[0]) {
            if let Some(id) = first_plain(args) {
                let k = choose|i: int|
                    {
                        &&& 0 <= i < rest.len()
                        &&& #[trigger] rest[i] == id
                        &&& !(rest[i].len() > 0 && rest[i][0] == '-')
                        &&& forall|j: int|
                            0 <= j < i ==> (#[trigger] rest[j]).len() > 0 && rest[j][0] == '-'
                    };
                assert(args[k + 1] == rest[k]);
                assert forall|j: int| 0 <= j < k + 1 implies (#[trigger] args[j]).len() > 0
                    && args[j][0] == '-' by {
                    if j > 0 {
                        assert(args[j] == rest[j - 1]);
                    }
                }
            } else {
                assert forall|i: int| 0 <= i < args.len() implies (#[trigger] args[i]).len() > 0
                    && args[i][0] == '-' by {
                    if i > 0 {
                        assert(args[i] == rest[i - 1]);
                    }
                }
            }
        } else {
            assert(args[0] == first_plain(args)->0);
        }
    }
}

/// A blank command line plans nothing. `flatpak run` becomes `run`, the nine
/// sandbox options, and then the words of the command line that follow, and its
/// application is the first of those words that begins with no dash. Any other
/// program keeps its words and is pointed to the panel's compositor.
pub proof fn plan_follows_the_words(command: Seq<char>)
    ensures
        ({
            let line = crate::text::words(command);
            let flatpak = line.len() >= 2 && line[0] == "flatpak"@ && line[1] == "run"@;
            &&& planned(command) is None <==> line.len() == 0
            &&& planned(command) matches Some(plan) ==> {
                &&& plan.program == line[0]
                &&& flatpak ==> {
                    &&& plan.args.len() == line.len() + 8
                    &&& plan.args[0] == "run"@
                    &&& plan.args[1] == "--filesystem=xdg-run/flip-wayland"@
                    &&& plan.args[2] == "--env=WAYLAND_DISPLAY=flip-wayland/wayland-0"@
                    &&& plan.args[3] == "--nosocket=x11"@
                    &&& plan.args[4] == "--nosocket=fallback-x11"@
                    &&& plan.args[5] == "--env=GDK_BACKEND=wayland"@
                    &&& plan.args[6] == "--env=MOZ_ENABLE_WAYLAND=1"@
                    &&& plan.args[7] == "--env=GTK_CSD=0"@
                    &&& plan.args[8] == "--env=WAYLAND_DEBUG=1"@
                    &&& plan.args[9] == "--unset-env=DISPLAY"@
                    &&& forall|k: int| 2 <= k < line.len() ==> plan.args[k + 8] == #[trigger] line[k]
                    &&& plan.wayland_display is None
                    &&& plan.flatpak_id matches Some(id) ==> exists|i: int|
                        {
                            &&& 2 <= i < line.len()
                            &&& #[trigger] line[i] == id
                            &&& !(line[i].len() > 0 && line[i][0] == '-')
                            &&& forall|j: int|
                                2 <= j < i ==> (#[trigger] line[j]).len() > 0 && line[j][0] == '-'
                        }
                    &&& plan.flatpak_id is None ==> forall|i: int|
                        2 <= i < line.len() ==> (#[trigger] line[i]).len() > 0 && line[i][0] == '-'
                }
                &&& !flatpak ==> {
                    &&& plan.args.len() == line.len() - 1
                    &&& forall|k: int| 1 <= k < line.len() ==> plan.args[k - 1] == #[trigger] line[k]
                    &&& plan.wayland_display == Some("flip-wayland/wayland-0"@)
                    &&& plan.flatpak_id is None
                }
            }
        }),
{
    let line = crate::text::words(command);
    if line.len() > 0 {
        let plan = planned(command)->0;
        if runs_flatpak(line) {
            let own = line.skip(2);
            only_options_stand_before_the_application(own);
            assert forall|k: int| 2 <= k < line.len() implies plan.args[k + 8]
                == #[trigger] line[k] by {
                assert(own[k - 2] == line[k]);
            }
            if let Some(id) = plan.flatpak_id {
                let i = choose|i: int|
                    {
                        &&& 0 <= i < own.len()
                        &&& #[trigger] own[i] == id
                        &&& !(own[i].len() > 0 && own[i][0] == '-')
                        &&& forall|j: int|
                            0 <= j < i ==> (#[trigger] own[j]).len() > 0 && own[j][0] == '-'
                    };
                assert(line[i + 2] == own[i]);
                assert forall|j: int| 2 <= j < i + 2 implies (#[trigger] line[j]).len() > 0
                    && line[j][0] == '-' by {
                    assert(own[j - 2] == line[j]);
                }
            } else {
                assert forall|i: int| 2 <= i < line.len() implies (#[trigger] line[i]).len() > 0
                    && line[i][0] == '-' by {
                    assert(own[i - 2] == line[i]);
                }
            }
        }
    }
}

/// The tile at an index is the entry at that index; there is none outside the
/// list, and what is launched is planned from that entry's command.
pub proof fn tile_is_the_entry_at_its_index(apps: Seq<AppEntry>, index: i32)
    ensures
        0 <= index < apps.len() ==> tile(apps, index) == Some(apps[index as int]) && tile_plan(
            apps,
            index,
        ) == planned(apps[index as int].command@),
        index < 0 || index >= apps.len() ==> tile(apps, index) is None && tile_plan(
            apps,
            index,
        ) is None,
{
}

// ---------------------------------------------------------------------------
// The life of an app
// ---------------------------------------------------------------------------

/// A spawned app is known by its process and may be drawn; a launched Flatpak
/// application is known by its name. Neither forgets the other.
pub proof fn launched_app_is_remembered(app: ProcessView, pid: u32, id: Seq<char>)
    ensures
        app.spawned(pid).pid == Some(pid),
        !app.spawned(pid).force_clear,
        app.spawned(pid).flatpak_id == app.flatpak_id,
        app.flatpak_launched(id).flatpak_id == Some(id),
        app.flatpak_launched(id).pid == app.pid,
        app.flatpak_launched(id).force_clear == app.force_clear,
{
}

/// What is killed is what was launched. A plain app: its own process is
/// terminated. A Flatpak application: `flatpak kill` is run on it, and its own
/// process is terminated only where that could not be run. From the kill on
/// nothing of the app may be drawn and nothing of it is remembered.
pub proof fn kill_ends_what_was_launched(app: ProcessView, pid: u32, id: Seq<char>)
    ensures
        app.flatpak_id is None ==> {
            let running = app.spawned(pid);
            &&& running.kill_step() == (KillStepView::Terminate { pid })
            &&& running.kill_asked().force_clear
            &&& running.kill_asked().pid is None
            &&& running.kill_asked().flatpak_id is None
        },
        ({
            let running = app.flatpak_launched(id).spawned(pid);
            &&& running.kill_step() == (KillStepView::FlatpakKill { app_id: id })
            &&& running.kill_asked().force_clear
            &&& running.kill_asked().flatpak_id is None
            &&& running.kill_asked().signalled_after(false) == Some(pid)
            &&& running.kill_asked().signalled_after(true) is None
            &&& running.kill_asked().flatpak_kill_tried().pid is None
            &&& running.kill_asked().flatpak_kill_tried().flatpak_id is None
            &&& running.kill_asked().flatpak_kill_tried().force_clear
        }),
        app.flatpak_id is None && app.pid is None ==> app.kill_step() is Nothing,
{
}

/// The views of a plan, of a running app and of a kill step show each field as
/// it is.
pub proof fn views_show_each_field(plan: LaunchPlan, app: AppProcess, step: KillStep)
    ensures
        plan@.program == plan.program@,
        plan@.args.len() == plan.args@.len(),
        forall|i: int| 0 <= i < plan.args@.len() ==> plan@.args[i] == (#[trigger] plan.args@[i])@,
        plan.wayland_display is None <==> plan@.wayland_display is None,
        plan.wayland_display matches Some(d) ==> plan@.wayland_display == Some(d@),
        plan.flatpak_id is None <==> plan@.flatpak_id is None,
        plan.flatpak_id matches Some(id) ==> plan@.flatpak_id == Some(id@),
        plan_view(Some(plan)) == Some(plan@),
        plan_view(None) is None,
        app@.pid == app.pid,
        app.flatpak_id is None <==> app@.flatpak_id is None,
        app.flatpak_id matches Some(id) ==> app@.flatpak_id == Some(id@),
        app@.force_clear == app.force_clear,
        step matches KillStep::FlatpakKill { app_id } ==> step@ == (KillStepView::FlatpakKill {
            app_id: app_id@,
        }),
        step matches KillStep::Terminate { pid } ==> step@ == (KillStepView::Terminate { pid }),
        step is Nothing ==> step@ is Nothing,
{
}

} // verus!
