//! Surviving a GPU reset.
//!
//! When the driver finds the GPU context reset, one of its worker threads calls
//! `abort()`. The panel answers that call itself: a worker is parked and the
//! render thread is woken up, and the process then starts afresh. An abort of
//! the main thread stays an abort.

use vstd::prelude::*;

verus! {

/// What the guard knows. All of it is shared between threads and with the
/// signal handler, so it is plain data.
#[derive(Clone, Copy, Debug, PartialEq, Eq, Structural)]
pub struct GuardState {
    /// The main thread, 0 before the guard is installed.
    pub main_pid: i32,
    /// Whether the C library's own `abort()` was found.
    pub real_abort_known: bool,
    /// Whether a worker has aborted because of a GPU reset.
    pub reset_detected: bool,
    /// Whether the recovery point of the render thread can be jumped to.
    pub recovery_active: bool,
}

/// What `abort()` does.
#[derive(Clone, Copy, Debug, PartialEq, Eq, Structural)]
pub enum AbortAction {
    /// Signal the render thread and park the calling thread for good.
    ParkWorker { signal: i32 },
    /// Call the C library's own `abort()`.
    ForwardToReal,
    /// Raise the abort signal and leave.
    RaiseAndExit,
}

impl GuardState {
    /// The guard before it is installed.
    pub fn new() -> (guard: GuardState)
        ensures
            guard == (GuardState {
                main_pid: 0,
                real_abort_known: false,
                reset_detected: false,
                recovery_active: false,
            }),
    {
        GuardState {
            main_pid: 0,
            real_abort_known: false,
            reset_detected: false,
            recovery_active: false,
        }
    }

    /// Whether an abort on thread `tid` comes from a worker.
    pub open spec fn is_worker(self, tid: i32) -> bool {
        self.main_pid != 0 && tid != self.main_pid
    }

    /// The guard after an abort on thread `tid`.
    pub open spec fn aborted(self, tid: i32) -> GuardState {
        GuardState { reset_detected: self.reset_detected || self.is_worker(tid), ..self }
    }

    /// Whether the signal handler jumps to the recovery point.
    pub open spec fn jumps(self) -> bool {
        self.reset_detected && self.recovery_active
    }
}

/// Installs the guard for process `pid`; `real_abort_found` tells whether the C
/// library's own `abort()` was found. Gives whether to warn that it was not.
pub fn install_abort_guard(guard: &mut GuardState, pid: i32, real_abort_found: bool) -> (warn: bool)
    ensures
        *final(guard) == (GuardState {
            main_pid: pid,
            real_abort_known: old(guard).real_abort_known || real_abort_found,
            ..*old(guard)
        }),
        warn == !real_abort_found,
{
    guard.main_pid = pid;
    if real_abort_found {
        guard.real_abort_known = true;
        false
    } else {
        true
    }
}

/// Decides what an abort on thread `tid` does, and notes the GPU reset where a
/// worker aborts.
pub fn abort(guard: &mut GuardState, tid: i32) -> (action: AbortAction)
    ensures
        *final(guard) == old(guard).aborted(tid),
        action == (if old(guard).is_worker(tid) {
            AbortAction::ParkWorker { signal: old(guard).main_pid }
        } else if old(guard).real_abort_known {
            AbortAction::ForwardToReal
        } else {
            AbortAction::RaiseAndExit
        }),
{
    if guard.main_pid != 0 && tid != guard.main_pid {
        guard.reset_detected = true;
        return AbortAction::ParkWorker { signal: guard.main_pid };
    }
    if guard.real_abort_known {
        AbortAction::ForwardToReal
    } else {
        AbortAction::RaiseAndExit
    }
}

/// Tells whether the signal handler jumps to the recovery point: only after a
/// GPU reset, and only while the recovery point is valid.
pub fn sigusr1_handler(guard: &GuardState) -> (jump: bool)
    ensures
        jump == guard.jumps(),
{
    guard.reset_detected && guard.recovery_active
}

/// Sets the recovery point when a frame begins. `jumped` is what setting it
/// returned: zero the first time, anything else when the handler has jumped
/// back to it. Gives whether the frame may be rendered.
pub fn enter_frame(guard: &mut GuardState, jumped: i32) -> (render: bool)
    ensures
        *final(guard) == (GuardState { recovery_active: jumped == 0, ..*old(guard) }),
        render == (jumped == 0),
{
    guard.recovery_active = jumped == 0;
    jumped == 0
}

/// Gives the recovery point up when a frame ends.
pub fn leave_frame(guard: &mut GuardState)
    ensures
        *final(guard) == (GuardState { recovery_active: false, ..*old(guard) }),
{
    guard.recovery_active = false;
}

/// What happens to an installed guard.
pub enum GuardEvent {
    /// A frame begins, or is come back to by a jump.
    Entered { jumped: i32 },
    /// A frame ends.
    Left,
    /// A thread aborts.
    Aborted { tid: i32 },
}

/// The guard after all of `events`.
pub open spec fn guarded(guard: GuardState, events: Seq<GuardEvent>) -> GuardState
    decreases events.len(),
{
    if events.len() == 0 {
        guard
    } else {
        let before = guarded(guard, events.drop_last());
        match events.last() {
            GuardEvent::Entered { jumped } => GuardState { recovery_active: jumped == 0, ..before },
            GuardEvent::Left => GuardState { recovery_active: false, ..before },
            GuardEvent::Aborted { tid } => before.aborted(tid),
        }
    }
}

/// Whether a frame is being rendered after `events`.
pub open spec fn inside_frame(events: Seq<GuardEvent>) -> bool
    decreases events.len(),
{
    if events.len() == 0 {
        false
    } else {
        match events.last() {
            GuardEvent::Entered { jumped } => jumped == 0,
            GuardEvent::Left => false,
            GuardEvent::Aborted { .. } => inside_frame(events.drop_last()),
        }
    }
}

/// Whether one of `events` is the abort of a worker.
pub open spec fn worker_aborted(guard: GuardState, events: Seq<GuardEvent>) -> bool {
    exists|i: int|
        0 <= i < events.len() && (#[trigger] events[i] matches GuardEvent::Aborted { tid }
            && guard.is_worker(tid))
}

/// Whatever happens, the handler jumps exactly when a frame is being rendered
/// and a worker has aborted: it never jumps to a recovery point that is not
/// valid, and neither an abort of the main thread nor one before the guard was
/// installed passes for a GPU reset.
pub proof fn handler_jumps_only_from_a_frame_with_a_reset(
    guard: GuardState,
    events: Seq<GuardEvent>,
)
    requires
        !guard.recovery_active,
        !guard.reset_detected,
    ensures
        guarded(guard, events).recovery_active == inside_frame(events),
        guarded(guard, events).reset_detected == worker_aborted(guard, events),
        guarded(guard, events).jumps() == (inside_frame(events) && worker_aborted(guard, events)),
        guarded(guard, events).main_pid == guard.main_pid,
    decreases events.len(),
{
    if events.len() > 0 {
        let prefix = events.drop_last();
        handler_jumps_only_from_a_frame_with_a_reset(guard, prefix);
        assert(events.last() == events[events.len() - 1]);
        if worker_aborted(guard, prefix) {
            let i = choose|i: int|
                0 <= i < prefix.len() && (#[trigger] prefix[i] matches GuardEvent::Aborted { tid }
                    && guard.is_worker(tid));
            assert(events[i] == prefix[i]);
        }
        if worker_aborted(guard, events) {
            let i = choose|i: int|
                0 <= i < events.len() && (#[trigger] events[i] matches GuardEvent::Aborted { tid }
                    && guard.is_worker(tid));
            if i < prefix.len() {
                assert(prefix[i] == events[i]);
            }
        }
    }
}

// ---------------------------------------------------------------------------
// Starting afresh
// ---------------------------------------------------------------------------

/// How long the GPU is given to settle before the process starts afresh.
pub const RESTART_DELAY_SECS: u32 = 2;

/// The views of a sequence of arguments.
pub open spec fn arguments(list: Seq<Vec<u8>>) -> Seq<Seq<u8>> {
    list.map_values(|a: Vec<u8>| a@)
}

/// How many bytes of `s` stand before its first NUL.
pub open spec fn span(s: Seq<u8>) -> nat
    decreases s.len(),
{
    if s.len() == 0 || s[0] == 0 {
        0
    } else {
        1 + span(s.skip(1))
    }
}

/// The bytes before the first NUL hold none.
pub proof fn lemma_span(s: Seq<u8>)
    ensures
        span(s) <= s.len(),
        forall|i: int| 0 <= i < span(s) ==> #[trigger] s[i] != 0,
        span(s) < s.len() ==> s[span(s) as int] == 0,
    decreases s.len(),
{
    if s.len() > 0 && s[0] != 0 {
        lemma_span(s.skip(1));
        assert forall|i: int| 0 <= i < span(s) implies #[trigger] s[i] != 0 by {
            if i > 0 {
                assert(s[i] == s.skip(1)[i - 1]);
            }
        }
    }
}

proof fn lemma_span_is(s: Seq<u8>, n: nat)
    requires
        n <= s.len(),
        forall|i: int| 0 <= i < n ==> #[trigger] s[i] != 0,
        n == s.len() || s[n as int] == 0,
    ensures
        span(s) == n,
    decreases s.len(),
{
    if n > 0 {
        assert(s[0] != 0);
        assert forall|i: int| 0 <= i < n - 1 implies #[trigger] s.skip(1)[i] != 0 by {
            assert(s.skip(1)[i] == s[i + 1]);
        }
        lemma_span_is(s.skip(1), (n - 1) as nat);
    }
}

/// The non-empty pieces of a command line as the kernel keeps it, with a NUL
/// after each argument.
pub open spec fn cmdline_args(cmdline: Seq<u8>) -> Seq<Seq<u8>>
    decreases cmdline.len(),
{
    if cmdline.len() == 0 {
        seq![]
    } else if cmdline[0] == 0 {
        cmdline_args(cmdline.skip(1))
    } else {
        proof {
            lemma_span(cmdline.skip(1));
        }
        let n = 1 + span(cmdline.skip(1));
        seq![cmdline.take(n as int)] + cmdline_args(cmdline.skip(n as int))
    }
}

/// Reads the arguments to start the process afresh with out of its own command
/// line.
pub fn self_restart(cmdline: &Vec<u8>) -> (args: Vec<Vec<u8>>)
    ensures
        arguments(args@) == cmdline_args(cmdline@),
{
    let n: usize = cmdline.len();
    let mut args: Vec<Vec<u8>> = Vec::new();
    let mut i: usize = 0;
    proof {
        assert(cmdline@.skip(0) == cmdline@);
        assert(arguments(args@) == Seq::<Seq<u8>>::empty());
    }
    while i < n
        invariant
            i <= n,
            n == cmdline@.len(),
            arguments(args@) + cmdline_args(cmdline@.skip(i as int)) == cmdline_args(cmdline@),
        decreases n - i,
    {
        let ghost rest = cmdline@.skip(i as int);
        if cmdline[i] == 0 {
            proof {
                assert(rest[0] == cmdline@[i as int]);
                assert(rest.skip(1) == cmdline@.skip(i + 1));
            }
            i += 1;
        } else {
            let start: usize = i;
            let mut arg: Vec<u8> = Vec::new();
            while i < n && cmdline[i] != 0
                invariant
                    start <= i <= n,
                    n == cmdline@.len(),
                    arg@ == cmdline@.subrange(start as int, i as int),
                    forall|k: int| start <= k < i ==> #[trigger] cmdline@[k] != 0,
                    start == i ==> i < n && cmdline@[i as int] != 0,
                decreases n - i,
            {
                arg.push(cmdline[i]);
                i += 1;
            }
            proof {
                assert(rest[0] == cmdline@[start as int]);
                lemma_span_is(rest, (i - start) as nat);
                assert(arg@ == rest.take(i - start));
                assert(rest.skip(i - start) == cmdline@.skip(i as int));
                assert(arguments(args@.push(arg)) == arguments(args@).push(arg@));
                assert(arguments(args@).push(arg@) + cmdline_args(cmdline@.skip(i as int))
                    == arguments(args@) + (seq![arg@] + cmdline_args(cmdline@.skip(i as int))));
            }
            args.push(arg);
        }
    }
    proof {
        assert(cmdline@.skip(n as int) == Seq::<u8>::empty());
        assert(arguments(args@) + Seq::<Seq<u8>>::empty() == arguments(args@));
    }
    args
}

/// Every argument is non-empty and holds no NUL, so that each is a C string.
pub proof fn arguments_are_c_strings(cmdline: Seq<u8>)
    ensures
        forall|i: int|
            0 <= i < cmdline_args(cmdline).len() ==> (#[trigger] cmdline_args(cmdline)[i]).len()
                > 0,
        forall|i: int, k: int|
            0 <= i < cmdline_args(cmdline).len() && 0 <= k < cmdline_args(cmdline)[i].len()
                ==> #[trigger] cmdline_args(cmdline)[i][k] != 0,
    decreases cmdline.len(),
{
    let all = cmdline_args(cmdline);
    if cmdline.len() == 0 {
        assert(all == Seq::<Seq<u8>>::empty());
    } else if cmdline[0] == 0 {
        arguments_are_c_strings(cmdline.skip(1));
        assert(all == cmdline_args(cmdline.skip(1)));
    } else {
        let n = 1 + span(cmdline.skip(1));
        lemma_span(cmdline);
        arguments_are_c_strings(cmdline.skip(n as int));
        let rest = cmdline_args(cmdline.skip(n as int));
        assert forall|i: int| 0 <= i < all.len() implies (#[trigger] all[i]).len() > 0 by {
            if i > 0 {
                assert(all[i] == rest[i - 1]);
            }
        }
        assert forall|i: int, k: int|
            0 <= i < all.len() && 0 <= k < all[i].len() implies #[trigger] all[i][k] != 0 by {
            if i > 0 {
                assert(all[i] == rest[i - 1]);
            } else {
                assert(all[i][k] == cmdline[k]);
            }
        }
    }
}

/// A command line as the kernel keeps it: a NUL after each argument.
pub open spec fn kernel_cmdline(args: Seq<Seq<u8>>) -> Seq<u8>
    decreases args.len(),
{
    if args.len() == 0 {
        seq![]
    } else {
        args[0].push(0) + kernel_cmdline(args.skip(1))
    }
}

/// The process starts afresh with the arguments that it was started with, as
/// long as none of them was empty.
pub proof fn restart_keeps_the_arguments(args: Seq<Seq<u8>>)
    requires
        forall|i: int| 0 <= i < args.len() ==> (#[trigger] args[i]).len() > 0,
        forall|i: int, k: int|
            0 <= i < args.len() && 0 <= k < args[i].len() ==> #[trigger] args[i][k] != 0,
    ensures
        cmdline_args(kernel_cmdline(args)) == args,
    decreases args.len(),
{
    let line = kernel_cmdline(args);
    if args.len() == 0 {
        assert(args == Seq::<Seq<u8>>::empty());
    } else {
        let first = args[0];
        let tail = args.skip(1);
        let n = first.len();
        assert(args[0][0] != 0);
        assert(line.take(n as int) == first);
        assert forall|i: int| 0 <= i < n implies #[trigger] line[i] != 0 by {
            assert(line[i] == args[0][i]);
        }
        assert(line[n as int] == 0);
        lemma_span_is(line, n);
        assert(cmdline_args(line) == seq![first] + cmdline_args(line.skip(n as int)));
        let rest = line.skip(n as int);
        assert(rest[0] == 0);
        assert(rest.skip(1) == kernel_cmdline(tail));
        assert forall|i: int, k: int| 0 <= i < tail.len() && 0 <= k < tail[i].len() implies
            #[trigger] tail[i][k] != 0 by {
            assert(tail[i][k] == args[i + 1][k]);
        }
        restart_keeps_the_arguments(tail);
        assert(args == seq![first] + tail);
    }
}

// ---------------------------------------------------------------------------
// The rules of the guard, one by one
// ---------------------------------------------------------------------------

/// Every thread but the main one is a worker, and none is one before the guard
/// is installed. The abort of a worker is noted as a reset; that of the main
/// thread is not; nothing else of the guard changes, and a noted reset stays.
pub proof fn aborts_of_other_threads_are_resets(guard: GuardState, tid: i32)
    ensures
        guard.is_worker(tid) <==> guard.main_pid != 0 && guard.main_pid != tid,
        guard.main_pid != 0 && guard.main_pid != tid ==> guard.aborted(tid).reset_detected,
        guard.main_pid == 0 || guard.main_pid == tid ==> guard.aborted(tid) == guard,
        guard.reset_detected ==> guard.aborted(tid).reset_detected,
        guard.aborted(tid).main_pid == guard.main_pid,
        guard.aborted(tid).real_abort_known == guard.real_abort_known,
        guard.aborted(tid).recovery_active == guard.recovery_active,
{
}

/// The handler jumps exactly when a reset was noted and the recovery point can
/// be jumped to.
pub proof fn handler_needs_reset_and_recovery_point(guard: GuardState)
    ensures
        guard.jumps() <==> guard.reset_detected && guard.recovery_active,
{
}

/// A NUL separates arguments: those of two command lines with a NUL between them
/// are those of the first and then those of the second.
pub proof fn nul_separates_arguments(first: Seq<u8>, second: Seq<u8>)
    ensures
        cmdline_args(first + seq![0u8] + second) == cmdline_args(first) + cmdline_args(second),
    decreases first.len(),
{
    let whole = first + seq![0u8] + second;
    if first.len() == 0 {
        assert(whole[0] == 0);
        assert(whole.skip(1) == second);
        assert(cmdline_args(first) + cmdline_args(second) == cmdline_args(second));
    } else if first[0] == 0 {
        assert(whole[0] == first[0]);
        assert(whole.skip(1) == first.skip(1) + seq![0u8] + second);
        nul_separates_arguments(first.skip(1), second);
    } else {
        lemma_span(first);
        let n = span(first);
        assert(whole[0] == first[0]);
        assert forall|i: int| 0 <= i < n implies #[trigger] whole[i] != 0 by {
            assert(whole[i] == first[i]);
        }
        assert(whole[n as int] == 0);
        lemma_span_is(whole, n);
        assert(whole.take(n as int) == first.take(n as int));
        assert(whole.skip(n as int) == first.skip(n as int) + seq![0u8] + second);
        nul_separates_arguments(first.skip(n as int), second);
        assert(seq![first.take(n as int)] + (cmdline_args(first.skip(n as int)) + cmdline_args(
            second,
        )) == seq![first.take(n as int)] + cmdline_args(first.skip(n as int)) + cmdline_args(
            second,
        ));
    }
}

/// Bytes without a NUL are one argument, and no bytes are none.
pub proof fn bytes_without_nul_are_one_argument(bytes: Seq<u8>)
    requires
        forall|i: int| 0 <= i < bytes.len() ==> #[trigger] bytes[i] != 0,
    ensures
        bytes.len() > 0 ==> cmdline_args(bytes) == seq![bytes],
        bytes.len() == 0 ==> cmdline_args(bytes).len() == 0,
{
    if bytes.len() > 0 {
        lemma_span_is(bytes, bytes.len());
        assert(bytes[0] != 0);
        assert(bytes.take(bytes.len() as int) == bytes);
        let none = Seq::<u8>::empty();
        assert(bytes.skip(bytes.len() as int) == none);
        assert(cmdline_args(none) == Seq::<Seq<u8>>::empty());
        assert(seq![bytes] + cmdline_args(none) == seq![bytes]);
    }
}

/// The GPU is given two seconds to settle.
pub proof fn gpu_settles_for_two_seconds()
    ensures
        RESTART_DELAY_SECS == 2,
{
}

/// The views of arguments are those of each, in order.
pub proof fn arguments_are_one_by_one(list: Seq<Vec<u8>>)
    ensures
        arguments(list).len() == list.len(),
        forall|i: int| 0 <= i < list.len() ==> arguments(list)[i] == (#[trigger] list[i])@,
{
}

} // verus!
