//! What the render loop remembers from frame to frame, and what it decides in
//! each: whether the client is still there, which textures are shown, and what
//! follows when a frame cannot be rendered.

use crate::layers::{is_placeable, plan_draws, ClientTexture, DrawOp};
use crate::touch::{TouchAction, TouchEvent, TouchRouter};
use vstd::prelude::*;

verus! {

/// After how many failed frames in a row the GPU context is taken for lost.
pub const MAX_RENDER_ERRORS: u32 = 2;

/// The state of the render loop. `P` is a position on the screen, `T` the
/// renderer's texture.
#[derive(Debug)]
pub struct RenderLoop<P, T> {
    /// The touch that is under way.
    pub touch: TouchRouter<P>,
    /// Whether a Wayland client is shown.
    pub client_active: bool,
    /// The client's textures; they stay on screen until newer ones come.
    pub textures: Vec<ClientTexture<T>>,
    /// How many frames in a row could not be rendered.
    pub consecutive_render_errors: u32,
}

/// What follows once a frame has been submitted.
#[derive(Clone, Copy, Debug, PartialEq, Eq, Structural)]
pub enum FrameVerdict {
    /// The GPU was reset: the process has to start afresh.
    Restart,
    /// The GPU context is lost: the renderer has to be made anew.
    RecreateRenderer,
    /// Go on, telling the client that its frame is done where `frame_done`.
    Continue { frame_done: bool },
}

/// The steps of the render loop. A frame runs from `Inputs` to `Wait`.
#[derive(Clone, Copy, Debug, PartialEq, Eq, Structural)]
pub enum Step {
    /// Route the touches, inject the keys, show the stats, follow the
    /// brightness.
    Inputs,
    /// Paint the UI into its buffer.
    PaintUi,
    /// Import the painted UI as a texture.
    ImportUi,
    /// Look whether the client is still there, and import its layers.
    ImportClient,
    /// Render the frame and show it.
    Submit,
    /// Tell the client that its frame is done.
    FrameDone,
    /// Make the renderer anew.
    Recreate,
    /// Free the textures that are no longer used.
    CleanUp,
    /// Wait for the next frame.
    Wait,
    /// Start the process afresh.
    Restart,
}

/// What is known when a step is over.
#[derive(Clone, Copy, Debug, PartialEq, Eq, Structural)]
pub struct Facts {
    /// Whether the step succeeded; only `Submit` and `Recreate` can fail.
    pub succeeded: bool,
    /// Whether a GPU reset has been noticed.
    pub reset_detected: bool,
    /// Whether this frame has the UI as a texture.
    pub ui_imported: bool,
}

/// The successful ones among `imports`, in order.
pub open spec fn imported<T>(imports: Seq<Option<ClientTexture<T>>>) -> Seq<ClientTexture<T>>
    decreases imports.len(),
{
    if imports.len() == 0 {
        seq![]
    } else {
        match imports.last() {
            Some(t) => imported(imports.drop_last()).push(t),
            None => imported(imports.drop_last()),
        }
    }
}

/// The render loop's state as the contracts speak of it.
#[verifier::ext_equal]
pub struct LoopState<P, T> {
    pub touch: TouchRouter<P>,
    pub client_active: bool,
    pub textures: Seq<ClientTexture<T>>,
    pub consecutive_render_errors: nat,
}

impl<P, T> View for RenderLoop<P, T> {
    type V = LoopState<P, T>;

    open spec fn view(&self) -> LoopState<P, T> {
        LoopState {
            touch: self.touch,
            client_active: self.client_active,
            textures: self.textures@,
            consecutive_render_errors: self.consecutive_render_errors as nat,
        }
    }
}

impl<P, T> LoopState<P, T> {
    /// Without a client there are no textures of one and no touch in one.
    pub open spec fn valid(self) -> bool {
        &&& self.touch.valid()
        &&& !self.client_active ==> self.textures.len() == 0 && !self.touch.in_client
    }

    /// The state without anything of the client's.
    pub open spec fn without_client(self) -> LoopState<P, T> {
        LoopState {
            touch: TouchRouter { in_client: false, ..self.touch },
            client_active: false,
            textures: seq![],
            ..self
        }
    }

    /// The state after the client's presence was looked at. A forced clear
    /// removes the client whether or not it still has a toplevel.
    pub open spec fn synced(self, force_clear: bool, has_toplevel: bool) -> LoopState<P, T> {
        if force_clear || (self.client_active && !has_toplevel) {
            self.without_client()
        } else {
            LoopState { client_active: has_toplevel, ..self }
        }
    }

    /// The state after the client's layers were imported.
    pub open spec fn installed(self, imports: Seq<Option<ClientTexture<T>>>) -> LoopState<P, T> {
        if imported(imports).len() > 0 {
            LoopState { textures: imported(imports), ..self }
        } else {
            self
        }
    }

    /// The state after a frame was submitted, and what follows.
    pub open spec fn finished(self, rendered: bool, reset_detected: bool) -> (
        LoopState<P, T>,
        FrameVerdict,
    ) {
        let errors = if rendered {
            0
        } else {
            self.consecutive_render_errors + 1
        };
        let counted = LoopState { consecutive_render_errors: errors, ..self };
        if !rendered && reset_detected {
            (counted, FrameVerdict::Restart)
        } else if errors >= MAX_RENDER_ERRORS {
            (LoopState { textures: seq![], ..counted }, FrameVerdict::RecreateRenderer)
        } else {
            (counted, FrameVerdict::Continue { frame_done: self.client_active })
        }
    }

    /// Whether there is anything to render: the UI or a client.
    pub open spec fn has_content(self, ui_imported: bool) -> bool {
        ui_imported || self.textures.len() > 0
    }

    /// The state after `step`, and the step that follows.
    pub open spec fn stepped(self, step: Step, facts: Facts) -> (LoopState<P, T>, Step) {
        match step {
            Step::Inputs => (self, Step::PaintUi),
            Step::PaintUi => if facts.reset_detected {
                (self, Step::Restart)
            } else {
                (self, Step::ImportUi)
            },
            Step::ImportUi => (self, Step::ImportClient),
            Step::ImportClient => if self.has_content(facts.ui_imported) {
                (self, Step::Submit)
            } else {
                (self, Step::CleanUp)
            },
            Step::Submit => {
                let (after, verdict) = self.finished(facts.succeeded, facts.reset_detected);
                match verdict {
                    FrameVerdict::Restart => (after, Step::Restart),
                    FrameVerdict::RecreateRenderer => (after, Step::Recreate),
                    FrameVerdict::Continue { frame_done } => if frame_done {
                        (after, Step::FrameDone)
                    } else {
                        (after, Step::CleanUp)
                    },
                }
            },
            Step::FrameDone => (self, Step::CleanUp),
            Step::Recreate => if facts.succeeded {
                (LoopState { consecutive_render_errors: 0, ..self }, Step::Wait)
            } else {
                (self, Step::Wait)
            },
            Step::CleanUp => (self, Step::Wait),
            Step::Wait => (self, Step::Inputs),
            Step::Restart => (self, Step::Restart),
        }
    }
}

proof fn lemma_imported_prefix<T>(imports: Seq<Option<ClientTexture<T>>>, i: int)
    requires
        0 <= i < imports.len(),
    ensures
        imported(imports.take(i + 1)) == (match imports[i] {
            Some(t) => imported(imports.take(i)).push(t),
            None => imported(imports.take(i)),
        }),
{
    assert(imports.take(i + 1).drop_last() == imports.take(i));
    assert(imports.take(i + 1).last() == imports[i]);
}

fn keep_imported<T>(imports: Vec<Option<ClientTexture<T>>>) -> (kept: Vec<ClientTexture<T>>)
    ensures
        kept@ == imported(imports@),
{
    let ghost all = imports@;
    let mut kept: Vec<ClientTexture<T>> = Vec::new();
    for import in it: imports
        invariant
            it.seq() == all,
            kept@ == imported(all.take(it.index())),
    {
        proof {
            lemma_imported_prefix(all, it.index());
        }
        match import {
            Some(t) => {
                kept.push(t);
            },
            None => {},
        }
    }
    proof {
        assert(all.take(all.len() as int) == all);
    }
    kept
}

impl<P: Copy, T> RenderLoop<P, T> {
    /// The state before the first frame.
    pub fn new(origin: P) -> (state: RenderLoop<P, T>)
        ensures
            state@ == (LoopState::<P, T> {
                touch: TouchRouter { is_pressed: false, in_client: false, last_position: origin },
                client_active: false,
                textures: seq![],
                consecutive_render_errors: 0,
            }),
            state@.valid(),
    {
        let textures: Vec<ClientTexture<T>> = Vec::new();
        assert(textures@ == Seq::<ClientTexture<T>>::empty());
        RenderLoop {
            touch: TouchRouter::new(origin),
            client_active: false,
            textures,
            consecutive_render_errors: 0,
        }
    }

    /// Sends a touch to the side that it belongs to.
    pub fn dispatch_touch(&mut self, event: TouchEvent<P>, active_tab: i32) -> (action: TouchAction<
        P,
    >)
        ensures
            final(self)@ == (LoopState {
                touch: old(self)@.touch.dispatched(event, old(self)@.client_active, active_tab).0,
                ..old(self)@
            }),
            action == old(self)@.touch.dispatched(event, old(self)@.client_active, active_tab).1,
            old(self)@.valid() ==> final(self)@.valid(),
    {
        self.touch.dispatch(event, self.client_active, active_tab)
    }

    /// Looks whether the client is still there.
    fn sync_client<L>(&mut self, force_clear: bool, has_toplevel: bool, pending: &mut Vec<L>)
        ensures
            final(self)@ == old(self)@.synced(force_clear, has_toplevel),
            final(pending)@ == (if force_clear {
                Seq::<L>::empty()
            } else {
                old(pending)@
            }),
            old(self)@.valid() ==> final(self)@.valid(),
    {
        if force_clear {
            self.textures.clear();
            pending.clear();
            self.client_active = false;
            self.touch.leave_client();
        }
        let was_active = self.client_active;
        if !force_clear {
            self.client_active = has_toplevel;
        }
        if was_active && !self.client_active {
            self.textures.clear();
            self.touch.leave_client();
        }
        proof {
            assert(self@.textures == old(self)@.synced(force_clear, has_toplevel).textures);
        }
    }

    /// Takes the layers that wait to be imported; none while no client is
    /// shown.
    fn take_layers<L>(&self, pending: &mut Vec<L>) -> (layers: Vec<L>)
        ensures
            self@.client_active ==> layers@ == old(pending)@ && final(pending)@.len() == 0,
            !self@.client_active ==> layers@.len() == 0 && final(pending)@ == old(pending)@,
    {
        let mut layers: Vec<L> = Vec::new();
        if self.client_active {
            std::mem::swap(&mut layers, pending);
        }
        layers
    }

    /// Begins a frame, before anything is rendered: looks whether the client is
    /// still there, and gives the layers to import.
    ///
    /// `force_clear` is set from the moment an app is killed: whatever the
    /// compositor still says, the client's textures are dropped and the layers
    /// that wait in `pending` are thrown away. Layers of a client that is not
    /// shown are left waiting.
    pub fn begin_frame<L>(
        &mut self,
        force_clear: bool,
        has_toplevel: bool,
        pending: &mut Vec<L>,
    ) -> (layers: Vec<L>)
        ensures
            final(self)@ == old(self)@.synced(force_clear, has_toplevel),
            !force_clear && has_toplevel ==> layers@ == old(pending)@ && final(pending)@.len() == 0,
            !force_clear && !has_toplevel ==> layers@.len() == 0 && final(pending)@
                == old(pending)@,
            force_clear ==> layers@.len() == 0 && final(pending)@.len() == 0,
            old(self)@.valid() ==> final(self)@.valid(),
    {
        self.sync_client(force_clear, has_toplevel, pending);
        self.take_layers(pending)
    }

    /// Shows the layers that could be imported, in place of the earlier ones.
    /// Where none could be, the earlier ones stay.
    pub fn install_textures(&mut self, imports: Vec<Option<ClientTexture<T>>>)
        ensures
            final(self)@ == old(self)@.installed(imports@),
            old(self)@.valid() && (old(self)@.client_active || imports@.len() == 0)
                ==> final(self)@.valid(),
    {
        let ghost all = imports@;
        let kept = keep_imported(imports);
        if kept.len() > 0 {
            self.textures = kept;
        }
        proof {
            if all.len() == 0 {
                assert(imported(all) == Seq::<ClientTexture<T>>::empty());
            }
            assert(self@.textures == old(self)@.installed(all).textures);
        }
    }

    /// Tells whether there is anything to render: the UI or a client.
    pub fn has_content(&self, ui_imported: bool) -> (yes: bool)
        ensures
            yes == self@.has_content(ui_imported),
    {
        ui_imported || self.textures.len() > 0
    }

    /// Tells whether every texture lies where its edges can be computed.
    pub fn all_placeable(&self) -> (yes: bool)
        ensures
            yes == (forall|i: int|
                0 <= i < self@.textures.len() ==> crate::layers::placeable(
                    (#[trigger] self@.textures[i]).y as int,
                    self@.textures[i].height as int,
                )),
    {
        let mut i: usize = 0;
        while i < self.textures.len()
            invariant
                i <= self.textures@.len(),
                forall|k: int|
                    0 <= k < i ==> crate::layers::placeable(
                        (#[trigger] self.textures@[k]).y as int,
                        self.textures@[k].height as int,
                    ),
            decreases self.textures@.len() - i,
        {
            if !is_placeable(self.textures[i].y, self.textures[i].height) {
                assert(!crate::layers::placeable(
                    self@.textures[i as int].y as int,
                    self@.textures[i as int].height as int,
                ));
                return false;
            }
            i += 1;
        }
        true
    }

    /// The draw calls for the client's textures in this frame.
    pub fn draws(&self, active_tab: i32) -> (ops: Vec<DrawOp>)
        requires
            active_tab == crate::touch::APPS_TAB ==> forall|i: int|
                0 <= i < self@.textures.len() ==> crate::layers::placeable(
                    (#[trigger] self@.textures[i]).y as int,
                    self@.textures[i].height as int,
                ),
        ensures
            ops@ == crate::layers::frame_draw_ops(self@.textures, active_tab),
    {
        proof {
            assert(self@.textures == self.textures@);
        }
        plan_draws(&self.textures, active_tab)
    }

    /// Decides what follows a submitted frame: `rendered` tells whether it
    /// could be rendered, `reset_detected` whether a GPU reset was noticed.
    pub fn finish_frame(&mut self, rendered: bool, reset_detected: bool) -> (verdict: FrameVerdict)
        requires
            !rendered ==> old(self)@.consecutive_render_errors < u32::MAX,
        ensures
            (final(self)@, verdict) == old(self)@.finished(rendered, reset_detected),
            old(self)@.valid() ==> final(self)@.valid(),
    {
        if rendered {
            self.consecutive_render_errors = 0;
        } else {
            self.consecutive_render_errors = self.consecutive_render_errors + 1;
            if reset_detected {
                return FrameVerdict::Restart;
            }
            if self.consecutive_render_errors >= MAX_RENDER_ERRORS {
                self.textures.clear();
                proof {
                    assert(self@.textures == old(self)@.finished(
                        rendered,
                        reset_detected,
                    ).0.textures);
                }
                return FrameVerdict::RecreateRenderer;
            }
        }
        FrameVerdict::Continue { frame_done: self.client_active }
    }

    /// Forgets the failed frames, as the renderer has been made anew.
    pub fn renderer_recreated(&mut self)
        ensures
            final(self)@ == (LoopState { consecutive_render_errors: 0, ..old(self)@ }),
            old(self)@.valid() ==> final(self)@.valid(),
    {
        self.consecutive_render_errors = 0;
    }

    /// Decides which step follows `step`, and counts the frames that fail.
    pub fn next_step(&mut self, step: Step, facts: Facts) -> (next: Step)
        requires
            step is Submit && !facts.succeeded ==> old(self)@.consecutive_render_errors < u32::MAX,
        ensures
            (final(self)@, next) == old(self)@.stepped(step, facts),
            old(self)@.valid() ==> final(self)@.valid(),
    {
        match step {
            Step::Inputs => Step::PaintUi,
            Step::PaintUi => if facts.reset_detected {
                Step::Restart
            } else {
                Step::ImportUi
            },
            Step::ImportUi => Step::ImportClient,
            Step::ImportClient => if self.has_content(facts.ui_imported) {
                Step::Submit
            } else {
                Step::CleanUp
            },
            Step::Submit => match self.finish_frame(facts.succeeded, facts.reset_detected) {
                FrameVerdict::Restart => Step::Restart,
                FrameVerdict::RecreateRenderer => Step::Recreate,
                FrameVerdict::Continue { frame_done } => if frame_done {
                    Step::FrameDone
                } else {
                    Step::CleanUp
                },
            },
            Step::FrameDone => Step::CleanUp,
            Step::Recreate => {
                if facts.succeeded {
                    self.renderer_recreated();
                }
                Step::Wait
            },
            Step::CleanUp => Step::Wait,
            Step::Wait => Step::Inputs,
            Step::Restart => Step::Restart,
        }
    }
}

// ---------------------------------------------------------------------------
// Whole frames
// ---------------------------------------------------------------------------

/// The step reached from `step` on, where each of `found` is the state that one
/// step is over in and what is known then.
pub open spec fn run_steps<P, T>(step: Step, found: Seq<(LoopState<P, T>, Facts)>) -> Step
    decreases found.len(),
{
    if found.len() == 0 {
        step
    } else {
        let before = run_steps(step, found.drop_last());
        found.last().0.stepped(before, found.last().1).1
    }
}

/// A frame is submitted only right after the client was looked at, and a client
/// is told only of a frame that was submitted.
pub proof fn nothing_is_drawn_before_the_client_was_looked_at<P, T>(
    state: LoopState<P, T>,
    step: Step,
    facts: Facts,
)
    ensures
        state.stepped(step, facts).1 is Submit ==> step is ImportClient && state.has_content(
            facts.ui_imported,
        ),
        state.stepped(step, facts).1 is FrameDone ==> step is Submit && state.client_active,
        state.stepped(step, facts).1 is ImportClient ==> step is ImportUi,
{
}

/// How many steps a frame takes at most from `step` to its end.
pub open spec fn steps_left(step: Step) -> nat {
    match step {
        Step::Inputs => 7,
        Step::PaintUi => 6,
        Step::ImportUi => 5,
        Step::ImportClient => 4,
        Step::Submit => 3,
        Step::FrameDone => 2,
        Step::Recreate => 1,
        Step::CleanUp => 1,
        Step::Wait => 0,
        Step::Restart => 0,
    }
}

/// Every frame comes to its end: each step brings it nearer to the wait for the
/// next frame or to the restart, and nothing but the wait begins a new frame.
pub proof fn every_frame_comes_to_its_end<P, T>(state: LoopState<P, T>, step: Step, facts: Facts)
    ensures
        !(step is Wait) && !(step is Restart) ==> steps_left(state.stepped(step, facts).1)
            < steps_left(step),
        state.stepped(step, facts).1 is Inputs <==> step is Wait,
        step is Restart ==> state.stepped(step, facts).1 is Restart,
{
}

/// How many steps the loop takes at most from `step` to the restart, once a GPU
/// reset is noticed.
spec fn steps_to_restart(step: Step) -> nat {
    match step {
        Step::ImportUi => 8,
        Step::ImportClient => 7,
        Step::Submit => 6,
        Step::FrameDone => 5,
        Step::Recreate => 4,
        Step::CleanUp => 4,
        Step::Wait => 3,
        Step::Inputs => 2,
        Step::PaintUi => 1,
        Step::Restart => 0,
    }
}

proof fn lemma_nearer_to_restart<P, T>(step: Step, found: Seq<(LoopState<P, T>, Facts)>)
    requires
        forall|i: int| 0 <= i < found.len() ==> (#[trigger] found[i]).1.reset_detected,
    ensures
        steps_to_restart(run_steps(step, found)) + found.len() <= steps_to_restart(step)
            || run_steps(step, found) is Restart,
    decreases found.len(),
{
    if found.len() > 0 {
        let prefix = found.drop_last();
        assert forall|i: int| 0 <= i < prefix.len() implies (
        #[trigger] prefix[i]).1.reset_detected by {
            assert(prefix[i] == found[i]);
        }
        lemma_nearer_to_restart(step, prefix);
        assert(found.last() == found[found.len() - 1]);
    }
}

/// A GPU reset is never missed: whatever step it is noticed in, and whatever
/// else happens, the process starts afresh within eight steps, and before the
/// next frame imports or draws anything.
pub proof fn reset_restarts_before_the_next_frame<P, T>(
    step: Step,
    found: Seq<(LoopState<P, T>, Facts)>,
)
    requires
        found.len() >= 8,
        forall|i: int| 0 <= i < found.len() ==> (#[trigger] found[i]).1.reset_detected,
    ensures
        run_steps(step, found) is Restart,
        found[0].0.stepped(Step::PaintUi, found[0].1).1 is Restart,
        !found[0].1.succeeded ==> found[0].0.stepped(Step::Submit, found[0].1).1 is Restart,
{
    lemma_nearer_to_restart(step, found);
    assert(found[0].1.reset_detected);
}

/// What one frame meets: the kill flag, the compositor's word on the client,
/// and how the waiting layers are imported.
pub struct FrameInput<T> {
    pub force_clear: bool,
    pub has_toplevel: bool,
    pub imports: Seq<Option<ClientTexture<T>>>,
}

/// The state in which a frame is drawn. Layers are imported only while a
/// client is shown.
pub open spec fn drawn_state<P, T>(state: LoopState<P, T>, input: FrameInput<T>) -> LoopState<
    P,
    T,
> {
    let synced = state.synced(input.force_clear, input.has_toplevel);
    if synced.client_active {
        synced.installed(input.imports)
    } else {
        synced
    }
}

/// A frame under a forced clear draws nothing of the client's, shows no client
/// and leaves no touch in one, whatever state it starts from, whatever the
/// compositor says and on whatever tab.
pub proof fn forced_clear_draws_nothing_of_the_client<P, T>(
    state: LoopState<P, T>,
    input: FrameInput<T>,
    active_tab: i32,
)
    requires
        input.force_clear,
    ensures
        drawn_state(state, input).textures.len() == 0,
        !drawn_state(state, input).client_active,
        !drawn_state(state, input).touch.in_client,
        crate::layers::frame_draw_ops(drawn_state(state, input).textures, active_tab).len() == 0,
{
}

/// A frame never draws the textures of a client that has no toplevel.
pub proof fn gone_client_is_not_drawn<P, T>(
    state: LoopState<P, T>,
    input: FrameInput<T>,
    active_tab: i32,
)
    requires
        state.valid(),
        !input.has_toplevel,
    ensures
        drawn_state(state, input).textures.len() == 0,
        crate::layers::frame_draw_ops(drawn_state(state, input).textures, active_tab).len() == 0,
{
}

/// While the client stays and commits nothing that can be imported, the
/// textures shown last stay on screen.
pub proof fn last_textures_stay_on_screen<P, T>(state: LoopState<P, T>, input: FrameInput<T>)
    requires
        state.client_active,
        input.has_toplevel,
        !input.force_clear,
        imported(input.imports).len() == 0,
    ensures
        drawn_state(state, input).textures == state.textures,
{
}

/// An active client is told of every frame that is rendered, whether or not it
/// has committed anything new, so that it goes on rendering.
pub proof fn active_client_is_told_of_every_frame<P, T>(
    state: LoopState<P, T>,
    input: FrameInput<T>,
    reset_detected: bool,
)
    requires
        !input.force_clear,
        input.has_toplevel,
    ensures
        drawn_state(state, input).finished(true, reset_detected).1 == (FrameVerdict::Continue {
            frame_done: true,
        }),
{
}

/// A frame keeps the state valid.
pub proof fn frame_keeps_the_state_valid<P, T>(
    state: LoopState<P, T>,
    input: FrameInput<T>,
    rendered: bool,
    reset_detected: bool,
)
    requires
        state.valid(),
    ensures
        drawn_state(state, input).valid(),
        drawn_state(state, input).finished(rendered, reset_detected).0.valid(),
{
}

/// What happens to the count of failed frames, while no GPU reset is noticed.
pub enum FrameEvent {
    /// A frame was rendered.
    Rendered,
    /// A frame could not be rendered.
    Failed,
    /// The renderer was made anew.
    Recreated,
}

/// The state after a run of frames.
pub open spec fn after_frames<P, T>(state: LoopState<P, T>, events: Seq<FrameEvent>) -> LoopState<
    P,
    T,
>
    decreases events.len(),
{
    if events.len() == 0 {
        state
    } else {
        let before = after_frames(state, events.drop_last());
        match events.last() {
            FrameEvent::Rendered => before.finished(true, false).0,
            FrameEvent::Failed => before.finished(false, false).0,
            FrameEvent::Recreated => LoopState { consecutive_render_errors: 0, ..before },
        }
    }
}

/// The length of the run of failures that `events` ends with.
pub open spec fn trailing_failures(events: Seq<FrameEvent>) -> nat
    decreases events.len(),
{
    if events.len() == 0 || !(events.last() is Failed) {
        0
    } else {
        1 + trailing_failures(events.drop_last())
    }
}

/// The counter counts the failures since the last frame that was rendered or
/// the last renderer that was made, so that a new renderer is asked for exactly
/// when a frame fails right after another one did.
pub proof fn renderer_is_recreated_after_two_failures_in_a_row<P, T>(
    state: LoopState<P, T>,
    events: Seq<FrameEvent>,
)
    requires
        state.consecutive_render_errors == 0,
    ensures
        after_frames(state, events).consecutive_render_errors == trailing_failures(events),
        forall|rendered: bool|
            (#[trigger] after_frames(state, events).finished(rendered, false)).1
                is RecreateRenderer <==> !rendered && events.len() > 0 && events.last() is Failed,
    decreases events.len(),
{
    if events.len() > 0 {
        renderer_is_recreated_after_two_failures_in_a_row(state, events.drop_last());
    }
}

// ---------------------------------------------------------------------------
// What each part of a frame keeps
// ---------------------------------------------------------------------------

/// A frame that begins with the client still there, and without a forced clear,
/// keeps the touch under way, the textures and the count of failures as they
/// were.
pub proof fn frame_begin_keeps_a_client_that_stays<P, T>(state: LoopState<P, T>)
    ensures
        state.synced(false, true).touch == state.touch,
        state.synced(false, true).textures == state.textures,
        state.synced(false, true).consecutive_render_errors == state.consecutive_render_errors,
        state.synced(false, true).client_active,
{
}

/// A frame that begins under a forced clear, or finds a shown client gone,
/// drops the textures and takes the touch out of the client; the finger stays
/// down where it was. A frame that begins without a client and finds none keeps
/// everything.
pub proof fn frame_begin_drops_a_client_that_goes<P, T>(
    state: LoopState<P, T>,
    force_clear: bool,
    has_toplevel: bool,
)
    ensures
        force_clear || (state.client_active && !has_toplevel) ==> {
            let after = state.synced(force_clear, has_toplevel);
            &&& !after.client_active
            &&& after.textures.len() == 0
            &&& !after.touch.in_client
            &&& after.touch.is_pressed == state.touch.is_pressed
            &&& after.touch.last_position == state.touch.last_position
            &&& after.consecutive_render_errors == state.consecutive_render_errors
        },
        !force_clear && !has_toplevel && !state.client_active ==> state.synced(
            force_clear,
            has_toplevel,
        ) == state,
{
}

/// The textures that could be imported, and only those, in their order: `imported`
/// goes piece by piece, keeps a success and drops a failure.
pub proof fn imported_keeps_the_successes_in_order<T>(
    earlier: Seq<Option<ClientTexture<T>>>,
    later: Seq<Option<ClientTexture<T>>>,
    texture: ClientTexture<T>,
)
    ensures
        imported(earlier + later) == imported(earlier) + imported(later),
        imported(seq![Some(texture)]) == seq![texture],
        imported(seq![None::<ClientTexture<T>>]).len() == 0,
        imported(Seq::<Option<ClientTexture<T>>>::empty()).len() == 0,
    decreases later.len(),
{
    reveal_with_fuel(imported, 2);
    assert(imported(seq![Some(texture)].drop_last()) == Seq::<ClientTexture<T>>::empty());
    assert(seq![Some(texture)].last() == Some(texture));
    assert(imported(seq![Some(texture)]) == seq![texture]);
    assert(seq![None::<ClientTexture<T>>].last() == None::<ClientTexture<T>>);
    if later.len() == 0 {
        assert(earlier + later == earlier);
        assert(imported(earlier) + imported(later) == imported(earlier));
    } else {
        imported_keeps_the_successes_in_order(earlier, later.drop_last(), texture);
        assert((earlier + later).drop_last() == earlier + later.drop_last());
        assert((earlier + later).last() == later.last());
        if let Some(t) = later.last() {
            assert((imported(earlier) + imported(later.drop_last())).push(t) == imported(earlier)
                + imported(later.drop_last()).push(t));
        }
    }
}

/// Installing the layers replaces the picture by all that could be imported,
/// keeps it where nothing could be, and touches nothing else.
pub proof fn new_picture_replaces_the_old_one<P, T>(
    state: LoopState<P, T>,
    imports: Seq<Option<ClientTexture<T>>>,
)
    ensures
        (exists|i: int| 0 <= i < imports.len() && (#[trigger] imports[i]) is Some)
            ==> state.installed(imports).textures == imported(imports) && imported(imports).len()
            > 0,
        (forall|i: int| 0 <= i < imports.len() ==> (#[trigger] imports[i]) is None)
            ==> state.installed(imports).textures == state.textures,
        state.installed(imports).touch == state.touch,
        state.installed(imports).client_active == state.client_active,
        state.installed(imports).consecutive_render_errors == state.consecutive_render_errors,
{
    lemma_imported_len(imports);
}

proof fn lemma_imported_len<T>(imports: Seq<Option<ClientTexture<T>>>)
    ensures
        imported(imports).len() > 0 <==> exists|i: int|
            0 <= i < imports.len() && (#[trigger] imports[i]) is Some,
    decreases imports.len(),
{
    if imports.len() > 0 {
        let prefix = imports.drop_last();
        lemma_imported_len(prefix);
        assert(imports.last() == imports[imports.len() - 1]);
        if exists|i: int| 0 <= i < prefix.len() && (#[trigger] prefix[i]) is Some {
            let i = choose|i: int| 0 <= i < prefix.len() && (#[trigger] prefix[i]) is Some;
            assert(imports[i] is Some);
        }
        if imported(imports).len() > 0 && imports.last() is None {
            let i = choose|i: int| 0 <= i < prefix.len() && (#[trigger] prefix[i]) is Some;
            assert(imports[i] is Some);
        }
        if exists|i: int| 0 <= i < imports.len() && (#[trigger] imports[i]) is Some {
            let i = choose|i: int| 0 <= i < imports.len() && (#[trigger] imports[i]) is Some;
            if i < prefix.len() {
                assert(prefix[i] is Some);
            }
        }
    }
}

/// A frame that is rendered leaves the client's textures, its presence and the
/// touch under way as they were, forgets earlier failures, and goes on, telling
/// the client exactly where one is shown.
pub proof fn rendered_frame_keeps_the_client<P, T>(state: LoopState<P, T>, reset_detected: bool)
    ensures
        state.finished(true, reset_detected).0.textures == state.textures,
        state.finished(true, reset_detected).0.client_active == state.client_active,
        state.finished(true, reset_detected).0.touch == state.touch,
        state.finished(true, reset_detected).0.consecutive_render_errors == 0,
        state.finished(true, reset_detected).1 == (FrameVerdict::Continue {
            frame_done: state.client_active,
        }),
{
}

/// A frame that fails is counted and leaves presence and touch as they were. A
/// reset restarts. Without one, the first failure in a row keeps the picture
/// and goes on as usual; any later one drops the picture and asks for a new
/// renderer.
pub proof fn failed_frame_is_counted<P, T>(state: LoopState<P, T>)
    ensures
        state.finished(false, true).1 is Restart,
        forall|reset: bool|
            {
                let after = (#[trigger] state.finished(false, reset)).0;
                &&& after.consecutive_render_errors == state.consecutive_render_errors + 1
                &&& after.client_active == state.client_active
                &&& after.touch == state.touch
            },
        state.consecutive_render_errors == 0 ==> {
            &&& state.finished(false, false).0.textures == state.textures
            &&& state.finished(false, false).1 == (FrameVerdict::Continue {
                frame_done: state.client_active,
            })
        },
        state.consecutive_render_errors >= 1 ==> {
            &&& state.finished(false, false).0.textures.len() == 0
            &&& state.finished(false, false).1 is RecreateRenderer
        },
{
}

/// There is something to render exactly where the UI or a texture is there.
pub proof fn content_is_the_ui_or_a_texture<P, T>(state: LoopState<P, T>)
    ensures
        state.has_content(true),
        state.has_content(false) <==> state.textures.len() > 0,
{
}

/// What comes before each step: the UI is painted after the inputs, imported
/// after it was painted without a reset, and so on to the wait. Only `Submit`
/// and a successful `Recreate` change the state.
pub proof fn each_step_has_its_place<P, T>(state: LoopState<P, T>, step: Step, facts: Facts)
    ensures
        ({
            let (after, next) = state.stepped(step, facts);
            let content = facts.ui_imported || state.textures.len() > 0;
            let lost = !facts.succeeded && !facts.reset_detected && state.consecutive_render_errors
                >= 1;
            let restart = !facts.succeeded && facts.reset_detected;
            &&& next is Inputs <==> step is Wait
            &&& next is PaintUi <==> step is Inputs
            &&& next is ImportUi <==> step is PaintUi && !facts.reset_detected
            &&& next is ImportClient <==> step is ImportUi
            &&& next is Submit <==> step is ImportClient && content
            &&& next is FrameDone <==> step is Submit && !lost && !restart && state.client_active
            &&& next is Recreate <==> step is Submit && lost
            &&& next is CleanUp <==> step is FrameDone || (step is ImportClient && !content) || (
            step is Submit && !lost && !restart && !state.client_active)
            &&& next is Wait <==> step is CleanUp || step is Recreate
            &&& next is Restart <==> step is Restart || (step is PaintUi && facts.reset_detected)
                || (step is Submit && restart)
            &&& step is Recreate && facts.succeeded ==> after.consecutive_render_errors == 0
                && after.textures == state.textures && after.touch == state.touch
                && after.client_active == state.client_active
            &&& step is Submit ==> after == state.finished(
                facts.succeeded,
                facts.reset_detected,
            ).0
            &&& !(step is Submit) && !(step is Recreate && facts.succeeded) ==> after == state
        }),
{
}

// ---------------------------------------------------------------------------
// Runs of touches and frames
// ---------------------------------------------------------------------------

/// What happens to the render loop: a touch comes, or a frame runs.
pub enum LoopEvent<P, T> {
    Touch { event: TouchEvent<P>, active_tab: i32 },
    Frame { input: FrameInput<T>, rendered: bool, reset_detected: bool },
}

/// The state after one event, and where the touch went if it was one.
pub open spec fn happened<P, T>(state: LoopState<P, T>, event: LoopEvent<P, T>) -> (
    LoopState<P, T>,
    Option<TouchAction<P>>,
) {
    match event {
        LoopEvent::Touch { event, active_tab } => {
            let (touch, action) = state.touch.dispatched(event, state.client_active, active_tab);
            (LoopState { touch, ..state }, Some(action))
        },
        LoopEvent::Frame { input, rendered, reset_detected } => (
            drawn_state(state, input).finished(rendered, reset_detected).0,
            None,
        ),
    }
}

/// The states passed through: `passed(..)[i]` is that before event `i`, and the
/// last is that after all of them.
pub open spec fn passed<P, T>(state: LoopState<P, T>, events: Seq<LoopEvent<P, T>>) -> Seq<
    LoopState<P, T>,
>
    decreases events.len(),
{
    if events.len() == 0 {
        seq![state]
    } else {
        let before = passed(state, events.drop_last());
        before.push(happened(before.last(), events.last()).0)
    }
}

/// Whether an event is the move of a finger, or a frame in which the client
/// stays.
pub open spec fn move_or_frame_with_client<P, T>(event: LoopEvent<P, T>) -> bool {
    match event {
        LoopEvent::Touch { event, .. } => event is Move,
        LoopEvent::Frame { input, .. } => !input.force_clear && input.has_toplevel,
    }
}

proof fn lemma_gesture_in_client<P, T>(state: LoopState<P, T>, events: Seq<LoopEvent<P, T>>)
    requires
        state.client_active,
        state.touch.is_pressed,
        state.touch.in_client,
        forall|i: int| 0 <= i < events.len() ==> move_or_frame_with_client(#[trigger] events[i]),
    ensures
        passed(state, events).len() == events.len() + 1,
        forall|i: int|
            0 <= i <= events.len() ==> {
                let s = #[trigger] passed(state, events)[i];
                s.client_active && s.touch.is_pressed && s.touch.in_client
            },
    decreases events.len(),
{
    if events.len() > 0 {
        let prefix = events.drop_last();
        assert forall|i: int| 0 <= i < prefix.len() implies move_or_frame_with_client(
            #[trigger] prefix[i],
        ) by {
            assert(prefix[i] == events[i]);
        }
        lemma_gesture_in_client(state, prefix);
        let before = passed(state, prefix);
        let all = passed(state, events);
        let last = before.last();
        assert(last == before[prefix.len() as int]);
        assert(events.last() == events[events.len() - 1]);
        assert forall|i: int| 0 <= i <= events.len() implies {
            let s = #[trigger] all[i];
            s.client_active && s.touch.is_pressed && s.touch.in_client
        } by {
            if i < before.len() {
                assert(all[i] == before[i]);
            }
        }
    }
}

/// A gesture that begins in the client area of a shown client, on the Apps tab,
/// reaches the client whole, across frames, as long as the client stays: its
/// `Down` with its position, each `Move` with its own, and its `Up`.
pub proof fn client_gets_its_gesture_across_frames<P, T>(
    state: LoopState<P, T>,
    position: P,
    row: i32,
    events: Seq<LoopEvent<P, T>>,
    up_tab: i32,
)
    requires
        state.client_active,
        40 <= row < 1024,
        forall|i: int| 0 <= i < events.len() ==> move_or_frame_with_client(#[trigger] events[i]),
    ensures
        ({
            let down = LoopEvent::Touch { event: TouchEvent::Down { position, row }, active_tab: 2 };
            let up = LoopEvent::Touch { event: TouchEvent::<P>::Up, active_tab: up_tab };
            let start = happened(state, down).0;
            let states = passed(start, events);
            &&& happened(state, down).1 == Some(TouchAction::ClientDown { position })
            &&& states.len() == events.len() + 1
            &&& forall|i: int|
                0 <= i < events.len() ==> ((#[trigger] events[i]) matches LoopEvent::Touch {
                    event: TouchEvent::Move { position: to },
                    active_tab: _,
                } ==> happened(states[i], events[i]).1 == Some(
                    TouchAction::ClientMotion { position: to },
                ))
            &&& happened(states.last(), up).1 == Some(TouchAction::<P>::ClientUp)
            &&& !happened(states.last(), up).0.touch.is_pressed
            &&& !happened(states.last(), up).0.touch.in_client
        }),
{
    let down = LoopEvent::<P, T>::Touch {
        event: TouchEvent::Down { position, row },
        active_tab: 2,
    };
    let start = happened(state, down).0;
    lemma_gesture_in_client(start, events);
    let states = passed(start, events);
    assert(states.last() == states[events.len() as int]);
    assert forall|i: int| 0 <= i < events.len() implies ((#[trigger] events[i]) matches
        LoopEvent::Touch { event: TouchEvent::Move { position: to }, active_tab: _ } ==> happened(
        states[i],
        events[i],
    ).1 == Some(TouchAction::ClientMotion { position: to })) by {
        assert(states[i].touch.in_client && states[i].touch.is_pressed);
    }
}

/// Whether an event is the move of a finger, or any frame.
pub open spec fn move_or_frame<P, T>(event: LoopEvent<P, T>) -> bool {
    match event {
        LoopEvent::Touch { event, .. } => event is Move,
        LoopEvent::Frame { .. } => true,
    }
}

proof fn lemma_gesture_in_ui<P, T>(state: LoopState<P, T>, events: Seq<LoopEvent<P, T>>)
    requires
        state.touch.is_pressed,
        !state.touch.in_client,
        forall|i: int| 0 <= i < events.len() ==> move_or_frame(#[trigger] events[i]),
    ensures
        passed(state, events).len() == events.len() + 1,
        forall|i: int|
            0 <= i <= events.len() ==> {
                let s = #[trigger] passed(state, events)[i];
                s.touch.is_pressed && !s.touch.in_client
            },
    decreases events.len(),
{
    if events.len() > 0 {
        let prefix = events.drop_last();
        assert forall|i: int| 0 <= i < prefix.len() implies move_or_frame(#[trigger] prefix[i]) by {
            assert(prefix[i] == events[i]);
        }
        lemma_gesture_in_ui(state, prefix);
        let before = passed(state, prefix);
        let all = passed(state, events);
        let last = before.last();
        assert(last == before[prefix.len() as int]);
        assert(events.last() == events[events.len() - 1]);
        assert forall|i: int| 0 <= i <= events.len() implies {
            let s = #[trigger] all[i];
            s.touch.is_pressed && !s.touch.in_client
        } by {
            if i < before.len() {
                assert(all[i] == before[i]);
            }
        }
    }
}

/// A gesture of the UI stays with the UI across any frames, even if a client
/// comes or goes meanwhile: each `Move` reaches it with its own position, and the
/// `Up` with the position that the UI saw last.
pub proof fn ui_gets_its_gesture_across_frames<P, T>(
    state: LoopState<P, T>,
    events: Seq<LoopEvent<P, T>>,
    up_tab: i32,
)
    requires
        state.touch.is_pressed,
        !state.touch.in_client,
        forall|i: int| 0 <= i < events.len() ==> move_or_frame(#[trigger] events[i]),
    ensures
        ({
            let up = LoopEvent::Touch { event: TouchEvent::<P>::Up, active_tab: up_tab };
            let states = passed(state, events);
            &&& states.len() == events.len() + 1
            &&& forall|i: int|
                0 <= i < events.len() ==> ((#[trigger] events[i]) matches LoopEvent::Touch {
                    event: TouchEvent::Move { position: to },
                    active_tab: _,
                } ==> happened(states[i], events[i]).1 == Some(
                    TouchAction::UiMoved { position: to },
                ) && happened(states[i], events[i]).0.touch.last_position == to)
            &&& forall|i: int|
                0 <= i < events.len() && (#[trigger] events[i]) is Frame ==> happened(
                    states[i],
                    events[i],
                ).0.touch.last_position == states[i].touch.last_position
            &&& happened(states.last(), up).1 == Some(
                TouchAction::UiReleased { position: states.last().touch.last_position },
            )
        }),
{
    lemma_gesture_in_ui(state, events);
    let states = passed(state, events);
    assert(states.last() == states[events.len() as int]);
    assert forall|i: int| 0 <= i < events.len() implies ((#[trigger] events[i]) matches
        LoopEvent::Touch { event: TouchEvent::Move { position: to }, active_tab: _ } ==> happened(
        states[i],
        events[i],
    ).1 == Some(TouchAction::UiMoved { position: to }) && happened(
        states[i],
        events[i],
    ).0.touch.last_position == to) by {
        assert(states[i].touch.is_pressed && !states[i].touch.in_client);
    }
}

/// Whether an event is any touch, or a rendered frame in which the client stays
/// and commits nothing that can be imported.
pub open spec fn quiet<P, T>(event: LoopEvent<P, T>) -> bool {
    match event {
        LoopEvent::Touch { .. } => true,
        LoopEvent::Frame { input, rendered, .. } => {
            &&& !input.force_clear
            &&& input.has_toplevel
            &&& rendered
            &&& forall|i: int| 0 <= i < input.imports.len() ==> (#[trigger] input.imports[i]) is None
        },
    }
}

/// Over any run of rendered frames in which the client stays and nothing new is
/// imported, whatever is touched meanwhile, every frame draws the very textures
/// that were there at first, and every frame's client is told.
pub proof fn picture_stays_until_a_newer_one<P, T>(
    state: LoopState<P, T>,
    events: Seq<LoopEvent<P, T>>,
)
    requires
        state.client_active,
        forall|i: int| 0 <= i < events.len() ==> quiet(#[trigger] events[i]),
    ensures
        passed(state, events).len() == events.len() + 1,
        forall|i: int|
            0 <= i <= events.len() ==> {
                let s = #[trigger] passed(state, events)[i];
                s.textures == state.textures && s.client_active
            },
        forall|i: int|
            0 <= i < events.len() ==> ((#[trigger] events[i]) matches LoopEvent::Frame {
                input,
                rendered: _,
                reset_detected: _,
            } ==> drawn_state(passed(state, events)[i], input).textures == state.textures),
    decreases events.len(),
{
    if events.len() > 0 {
        let prefix = events.drop_last();
        assert forall|i: int| 0 <= i < prefix.len() implies quiet(#[trigger] prefix[i]) by {
            assert(prefix[i] == events[i]);
        }
        picture_stays_until_a_newer_one(state, prefix);
        let before = passed(state, prefix);
        let all = passed(state, events);
        let last = before.last();
        assert(last == before[prefix.len() as int]);
        assert(events.last() == events[events.len() - 1]);
        assert(quiet(events[events.len() - 1]));
        if let LoopEvent::Frame { input, rendered, reset_detected } = events.last() {
            lemma_imported_len(input.imports);
            assert(drawn_state(last, input).textures == state.textures);
        }
        assert forall|i: int| 0 <= i <= events.len() implies {
            let s = #[trigger] all[i];
            s.textures == state.textures && s.client_active
        } by {
            if i < before.len() {
                assert(all[i] == before[i]);
            }
        }
        assert forall|i: int| 0 <= i < events.len() implies ((#[trigger] events[i]) matches
            LoopEvent::Frame { input, rendered: _, reset_detected: _ } ==> drawn_state(
            all[i],
            input,
        ).textures == state.textures) by {
            assert(all[i] == before[i]);
            if i < prefix.len() {
                assert(prefix[i] == events[i]);
            }
        }
    } else {
        assert(passed(state, events)[0] == state);
    }
}

/// The view of the render loop shows each field as it is.
pub proof fn loop_view_shows_each_field<P, T>(state: RenderLoop<P, T>)
    ensures
        state@.touch == state.touch,
        state@.client_active == state.client_active,
        state@.textures == state.textures@,
        state@.consecutive_render_errors == state.consecutive_render_errors,
{
}

} // verus!
