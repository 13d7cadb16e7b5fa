//! The panel as the rest of the program sees it: its size and brightness, the
//! renderer behind it, and what the UI hands to the render loop.

use crate::gpu_renderer::OutputSize;
#[allow(unused_imports)]
use vstd::string::*;
use vstd::prelude::*;

verus! {

// ---------------------------------------------------------------------------
// The platform
// ---------------------------------------------------------------------------

/// The lowest brightness that the bottom screen is set to, in percent.
pub const MIN_BRIGHTNESS: u8 = 20;

/// The highest brightness that the bottom screen is set to, in percent.
pub const MAX_BRIGHTNESS: u8 = 100;

/// What stands for the brightness before it was first set.
pub const BRIGHTNESS_UNSET: u8 = 255;

/// The platform that the UI runs on. `F` is a handle of the DRM lease.
#[derive(Debug)]
pub struct DrmPlatform<F> {
    /// The width of the landscape screen.
    pub logical_width: u32,
    /// The height of the landscape screen.
    pub logical_height: u32,
    /// The brightness that was set last, in percent.
    pub last_brightness_pct: u8,
    /// A spare handle of the lease, to make another renderer with.
    pub spare_lease: Option<F>,
}

/// The brightness of the bottom screen that follows a top screen at `current`
/// out of `maximum`: the same percentage, rounded down and kept in bounds.
pub open spec fn brightness_for(current: int, maximum: int) -> int {
    let pct = current * 100 / maximum;
    if pct < MIN_BRIGHTNESS {
        MIN_BRIGHTNESS as int
    } else if pct > MAX_BRIGHTNESS {
        MAX_BRIGHTNESS as int
    } else {
        pct
    }
}

/// Computes the brightness that follows the top screen.
pub fn brightness_percent(current: u32, maximum: u32) -> (percent: u8)
    requires
        maximum > 0,
        current * 100 <= u32::MAX,
    ensures
        percent == brightness_for(current as int, maximum as int),
{
    let pct: u32 = (current * 100) / maximum;
    if pct < MIN_BRIGHTNESS as u32 {
        MIN_BRIGHTNESS
    } else if pct > MAX_BRIGHTNESS as u32 {
        MAX_BRIGHTNESS
    } else {
        pct as u8
    }
}

/// The brightness to follow, where the top screen's can be told.
pub open spec fn followed_brightness(current: Option<u32>, maximum: Option<u32>) -> Option<int> {
    match (current, maximum) {
        (Some(c), Some(m)) => if m > 0 {
            Some(brightness_for(c as int, m as int))
        } else {
            None
        },
        _ => None,
    }
}

impl<F> DrmPlatform<F> {
    /// The platform after the top screen's brightness was looked at, and the
    /// brightness to set, where it has changed.
    pub open spec fn brightness_synced(self, current: Option<u32>, maximum: Option<u32>) -> (
        DrmPlatform<F>,
        Option<u8>,
    ) {
        match followed_brightness(current, maximum) {
            Some(pct) => if pct != self.last_brightness_pct {
                (DrmPlatform { last_brightness_pct: pct as u8, ..self }, Some(pct as u8))
            } else {
                (self, None)
            },
            None => (self, None),
        }
    }

    /// The platform after its spare handle was taken.
    pub open spec fn spare_taken(self) -> DrmPlatform<F> {
        DrmPlatform { spare_lease: None, ..self }
    }

    /// The platform after another renderer was tried to be made.
    pub open spec fn after_renderer(self, made: bool, next_spare: Option<F>) -> DrmPlatform<F> {
        if made && next_spare is Some {
            DrmPlatform { spare_lease: next_spare, ..self }
        } else {
            self
        }
    }

    /// The platform on an output of this physical size. The panel stands
    /// upright; the UI sees it turned, so width and height change places.
    pub fn new(size: OutputSize, spare_lease: F) -> (platform: DrmPlatform<F>)
        ensures
            platform == (DrmPlatform {
                logical_width: size.h as u32,
                logical_height: size.w as u32,
                last_brightness_pct: BRIGHTNESS_UNSET,
                spare_lease: Some(spare_lease),
            }),
    {
        DrmPlatform {
            logical_width: size.h as u32,
            logical_height: size.w as u32,
            last_brightness_pct: BRIGHTNESS_UNSET,
            spare_lease: Some(spare_lease),
        }
    }

    /// Follows the top screen's brightness. Gives the brightness to set where
    /// it has changed; where it cannot be told, nothing happens.
    pub fn sync_brightness(&mut self, current: Option<u32>, maximum: Option<u32>) -> (set: Option<
        u8,
    >)
        requires
            current is Some && maximum is Some && maximum->0 > 0 ==> current->0 * 100 <= u32::MAX,
        ensures
            (*final(self), set) == old(self).brightness_synced(current, maximum),
    {
        if let (Some(cur), Some(max)) = (current, maximum) {
            if max > 0 {
                let pct = brightness_percent(cur, max);
                if pct != self.last_brightness_pct {
                    self.last_brightness_pct = pct;
                    return Some(pct);
                }
            }
        }
        None
    }

    /// Takes the spare handle, to make another renderer with.
    pub fn take_spare_lease(&mut self) -> (spare: Option<F>)
        ensures
            spare == old(self).spare_lease,
            *final(self) == old(self).spare_taken(),
    {
        self.spare_lease.take()
    }

    /// Keeps `next_spare`, a copy of the handle, once another renderer was
    /// made; where none could be made, it is let go.
    pub fn renderer_tried(&mut self, made: bool, next_spare: Option<F>)
        ensures
            *final(self) == old(self).after_renderer(made, next_spare),
    {
        if made {
            if let Some(fd) = next_spare {
                self.spare_lease = Some(fd);
            }
        }
    }
}

/// The brightness is always in bounds, and grows with that of the top screen.
pub proof fn brightness_is_bounded_and_monotone(lower: int, higher: int, maximum: int)
    requires
        0 <= lower <= higher,
        maximum > 0,
    ensures
        MIN_BRIGHTNESS <= brightness_for(lower, maximum) <= MAX_BRIGHTNESS,
        brightness_for(lower, maximum) <= brightness_for(higher, maximum),
{
    vstd::arithmetic::div_mod::lemma_div_is_ordered(lower * 100, higher * 100, maximum);
}

/// The first brightness that can be told is always set.
pub proof fn first_brightness_is_always_set<F>(
    platform: DrmPlatform<F>,
    current: u32,
    maximum: u32,
)
    requires
        platform.last_brightness_pct == BRIGHTNESS_UNSET,
        maximum > 0,
    ensures
        platform.brightness_synced(Some(current), Some(maximum)).1 is Some,
{
}

/// The same reading twice sets the brightness at most once.
pub proof fn same_brightness_is_set_once<F>(
    platform: DrmPlatform<F>,
    current: Option<u32>,
    maximum: Option<u32>,
)
    ensures
        ({
            let after = platform.brightness_synced(current, maximum).0;
            after.brightness_synced(current, maximum) == (after, None::<u8>)
        }),
{
}

/// How a lost renderer was replaced: whether one could be made, and the copy of
/// the handle that was made before.
pub struct Replacement<F> {
    pub made: bool,
    pub next_spare: Option<F>,
}

/// The platform after all of `replacements` were asked for; without a spare
/// handle nothing is tried.
pub open spec fn after_replacements<F>(
    platform: DrmPlatform<F>,
    replacements: Seq<Replacement<F>>,
) -> DrmPlatform<F>
    decreases replacements.len(),
{
    if replacements.len() == 0 {
        platform
    } else {
        let before = after_replacements(platform, replacements.drop_last());
        let r = replacements.last();
        if before.spare_lease is Some {
            before.spare_taken().after_renderer(r.made, r.next_spare)
        } else {
            before
        }
    }
}

/// A lost renderer can be replaced again and again as long as each replacement
/// could be made and its handle copied; after the first that could not, there
/// is no spare handle any more.
pub proof fn spare_lease_lasts_until_a_replacement_fails<F>(
    platform: DrmPlatform<F>,
    replacements: Seq<Replacement<F>>,
)
    requires
        platform.spare_lease is Some,
    ensures
        after_replacements(platform, replacements).spare_lease is Some <==> forall|i: int|
            0 <= i < replacements.len() ==> (#[trigger] replacements[i]).made
                && replacements[i].next_spare is Some,
    decreases replacements.len(),
{
    if replacements.len() > 0 {
        let prefix = replacements.drop_last();
        spare_lease_lasts_until_a_replacement_fails(platform, prefix);
        assert(forall|i: int| 0 <= i < prefix.len() ==> prefix[i] == replacements[i]);
        assert(replacements.last() == replacements[replacements.len() - 1]);
        if after_replacements(platform, replacements).spare_lease is Some {
            assert forall|i: int| 0 <= i < replacements.len() implies (
            #[trigger] replacements[i]).made && replacements[i].next_spare is Some by {
                if i < prefix.len() {
                    assert(prefix[i] == replacements[i]);
                }
            }
        }
        if forall|i: int|
            0 <= i < replacements.len() ==> (#[trigger] replacements[i]).made
                && replacements[i].next_spare is Some {
            assert forall|i: int| 0 <= i < prefix.len() implies (#[trigger] prefix[i]).made
                && prefix[i].next_spare is Some by {
                assert(prefix[i] == replacements[i]);
            }
        }
    }
}

// ---------------------------------------------------------------------------
// Making the first renderer
// ---------------------------------------------------------------------------

/// How often the renderer is tried to be made. After a GPU reset the hardware
/// may need some time.
pub const GPU_INIT_ATTEMPTS: u32 = 5;

/// How long to wait between two attempts.
pub const GPU_INIT_DELAY_SECS: u64 = 1;

/// What follows an attempt.
#[derive(Debug)]
pub enum InitStep {
    /// The renderer is there.
    Ready,
    /// Wait, then try again.
    RetryAfterDelay,
    /// Fail with this message.
    GiveUp { message: String },
}

/// What follows an attempt, as the contracts speak of it.
#[verifier::ext_equal]
pub enum InitStepView {
    Ready,
    RetryAfterDelay,
    GiveUp { message: Seq<char> },
}

impl View for InitStep {
    type V = InitStepView;

    open spec fn view(&self) -> InitStepView {
        match self {
            InitStep::Ready => InitStepView::Ready,
            InitStep::RetryAfterDelay => InitStepView::RetryAfterDelay,
            InitStep::GiveUp { message } => InitStepView::GiveUp { message: message@ },
        }
    }
}

/// What follows attempt number `attempt`, counted from 1.
pub open spec fn init_step(attempt: nat, ready: bool) -> InitStepView {
    if ready {
        InitStepView::Ready
    } else if attempt < GPU_INIT_ATTEMPTS {
        InitStepView::RetryAfterDelay
    } else {
        InitStepView::GiveUp { message: "GpuRenderer: failed after 5 attempts"@ }
    }
}

/// Decides what follows attempt number `attempt`, counted from 1.
pub fn gpu_init_step(attempt: u32, ready: bool) -> (step: InitStep)
    ensures
        step@ == init_step(attempt as nat, ready),
{
    if ready {
        InitStep::Ready
    } else if attempt < GPU_INIT_ATTEMPTS {
        InitStep::RetryAfterDelay
    } else {
        InitStep::GiveUp { message: "GpuRenderer: failed after 5 attempts".to_owned() }
    }
}

/// The number of the attempt that ends the series begun with number `attempt`,
/// where `outcomes` tells how each attempt goes.
pub open spec fn last_attempt(outcomes: spec_fn(nat) -> bool, attempt: nat) -> nat
    decreases GPU_INIT_ATTEMPTS - attempt,
{
    if init_step(attempt, outcomes(attempt)) is RetryAfterDelay {
        last_attempt(outcomes, attempt + 1)
    } else {
        attempt
    }
}

proof fn lemma_last_attempt(outcomes: spec_fn(nat) -> bool, attempt: nat)
    requires
        attempt <= GPU_INIT_ATTEMPTS,
    ensures
        attempt <= last_attempt(outcomes, attempt) <= GPU_INIT_ATTEMPTS,
        forall|k: nat|
            attempt <= k < last_attempt(outcomes, attempt) ==> !(#[trigger] outcomes(k)),
        outcomes(last_attempt(outcomes, attempt)) || last_attempt(outcomes, attempt)
            == GPU_INIT_ATTEMPTS,
    decreases GPU_INIT_ATTEMPTS - attempt,
{
    if !outcomes(attempt) && attempt < GPU_INIT_ATTEMPTS {
        lemma_last_attempt(outcomes, attempt + 1);
    }
}

/// The renderer is tried at most five times; the series ends with the first
/// attempt that succeeds, and is given up only if all five fail.
pub proof fn renderer_is_tried_until_it_is_there(outcomes: spec_fn(nat) -> bool)
    ensures
        1 <= last_attempt(outcomes, 1) <= GPU_INIT_ATTEMPTS,
        ({
            let last = last_attempt(outcomes, 1);
            let end = init_step(last, outcomes(last));
            &&& end is Ready <==> outcomes(last)
            &&& end is GiveUp <==> !outcomes(last)
        }),
        forall|k: nat| 1 <= k < last_attempt(outcomes, 1) ==> !(#[trigger] outcomes(k)),
        outcomes(last_attempt(outcomes, 1)) <==> exists|k: nat|
            1 <= k <= GPU_INIT_ATTEMPTS && #[trigger] outcomes(k),
{
    lemma_last_attempt(outcomes, 1);
    let last = last_attempt(outcomes, 1);
    if exists|k: nat| 1 <= k <= GPU_INIT_ATTEMPTS && #[trigger] outcomes(k) {
        let k = choose|k: nat| 1 <= k <= GPU_INIT_ATTEMPTS && #[trigger] outcomes(k);
        if last == GPU_INIT_ATTEMPTS && k < last {
            assert(!outcomes(k));
        }
    }
}

// ---------------------------------------------------------------------------
// Keys that the UI sends
// ---------------------------------------------------------------------------

/// The receiving side of the key channel: keys that the UI's keyboard pressed
/// and that were not injected yet.
#[derive(Debug)]
pub struct KeyReceiver {
    /// Counts the channels made so far.
    pub generation: u64,
    /// The keys that wait, oldest first; nothing before a channel is made.
    pub waiting: Option<Vec<String>>,
}

/// The sending side of the key channel.
#[derive(Clone, Copy, Debug, PartialEq, Eq, Structural)]
pub struct KeySender {
    pub generation: u64,
}

/// The key channel as the contracts speak of it.
#[verifier::ext_equal]
pub struct KeysView {
    pub generation: u64,
    pub waiting: Option<Seq<Seq<char>>>,
}

impl View for KeyReceiver {
    type V = KeysView;

    open spec fn view(&self) -> KeysView {
        KeysView {
            generation: self.generation,
            waiting: match self.waiting {
                Some(keys) => Some(crate::text::texts(keys@)),
                None => None,
            },
        }
    }
}

impl KeysView {
    /// Whether what `sender` sends is received: it belongs to the channel that
    /// was made last.
    pub open spec fn hears(self, sender: KeySender) -> bool {
        self.waiting is Some && sender.generation == self.generation
    }

    /// After `sender` sent `key`.
    pub open spec fn sent(self, sender: KeySender, key: Seq<char>) -> KeysView {
        if self.hears(sender) {
            KeysView { waiting: Some(self.waiting->0.push(key)), ..self }
        } else {
            self
        }
    }

    /// After a new channel was made.
    pub open spec fn created(self) -> KeysView {
        KeysView {
            generation: (self.generation + 1) as u64,
            waiting: Some(Seq::<Seq<char>>::empty()),
        }
    }

    /// After the keys that wait were asked for, and the keys that are given.
    pub open spec fn taken(self, can_inject: bool) -> (KeysView, Seq<Seq<char>>) {
        match self.waiting {
            Some(keys) => if can_inject {
                (KeysView { waiting: Some(Seq::<Seq<char>>::empty()), ..self }, keys)
            } else {
                (self, seq![])
            },
            None => (self, seq![]),
        }
    }
}

impl KeyReceiver {
    /// No channel has been made.
    pub fn new() -> (receiver: KeyReceiver)
        ensures
            receiver@ == (KeysView { generation: 0, waiting: None }),
    {
        KeyReceiver { generation: 0, waiting: None }
    }
}

/// Makes a new key channel. Keys that wait in an earlier one are lost, and its
/// sender is no longer heard.
pub fn create_key_channel(receiver: &mut KeyReceiver) -> (sender: KeySender)
    requires
        old(receiver)@.generation < u64::MAX,
    ensures
        sender.generation == old(receiver)@.generation + 1,
        final(receiver)@ == old(receiver)@.created(),
        final(receiver)@.hears(sender),
{
    receiver.generation = receiver.generation + 1;
    receiver.waiting = Some(Vec::new());
    proof {
        assert(receiver@.waiting->0 == Seq::<Seq<char>>::empty());
    }
    KeySender { generation: receiver.generation }
}

/// Sends a key, and tells whether it was received. A sender whose channel has
/// been replaced sends nothing.
pub fn send_key(receiver: &mut KeyReceiver, sender: KeySender, key: String) -> (received: bool)
    ensures
        final(receiver)@ == old(receiver)@.sent(sender, key@),
        received == old(receiver)@.hears(sender),
{
    if sender.generation == receiver.generation {
        match receiver.waiting.take() {
            Some(mut keys) => {
                let ghost before = keys@;
                keys.push(key);
                proof {
                    assert(crate::text::texts(keys@) == crate::text::texts(before).push(key@));
                }
                receiver.waiting = Some(keys);
                return true;
            },
            None => {},
        }
    }
    false
}

/// Takes the keys that wait, oldest first, to inject them. Without a device to
/// inject them with they go on waiting.
pub fn take_keys(receiver: &mut KeyReceiver, can_inject: bool) -> (keys: Vec<String>)
    ensures
        (final(receiver)@, crate::text::texts(keys@)) == old(receiver)@.taken(can_inject),
{
    if can_inject {
        match receiver.waiting.take() {
            Some(keys) => {
                receiver.waiting = Some(Vec::new());
                proof {
                    assert(receiver@.waiting->0 == Seq::<Seq<char>>::empty());
                }
                return keys;
            },
            None => {},
        }
    }
    Vec::new()
}

/// What happens to a key channel.
pub enum KeyEvent {
    /// This sender sends this key.
    Sent { sender: KeySender, key: Seq<char> },
    /// The keys that wait are asked for.
    Taken { can_inject: bool },
    /// A new channel is made.
    Created,
}

/// The channel after all of `events`, and the keys that were given on the way.
pub open spec fn channel_run(view: KeysView, events: Seq<KeyEvent>) -> (KeysView, Seq<Seq<char>>)
    decreases events.len(),
{
    if events.len() == 0 {
        (view, seq![])
    } else {
        let (before, given) = channel_run(view, events.drop_last());
        match events.last() {
            KeyEvent::Sent { sender, key } => (before.sent(sender, key), given),
            KeyEvent::Taken { can_inject } => (
                before.taken(can_inject).0,
                given + before.taken(can_inject).1,
            ),
            KeyEvent::Created => (before.created(), given),
        }
    }
}

/// The keys among `events` that `sender` sends, in order.
pub open spec fn keys_sent(events: Seq<KeyEvent>, sender: KeySender) -> Seq<Seq<char>>
    decreases events.len(),
{
    if events.len() == 0 {
        seq![]
    } else {
        let before = keys_sent(events.drop_last(), sender);
        match events.last() {
            KeyEvent::Sent { sender: by, key } => if by == sender {
                before.push(key)
            } else {
                before
            },
            _ => before,
        }
    }
}

/// How many channels are made among `events`.
pub open spec fn channels_made(events: Seq<KeyEvent>) -> nat
    decreases events.len(),
{
    if events.len() == 0 {
        0
    } else if events.last() is Created {
        channels_made(events.drop_last()) + 1
    } else {
        channels_made(events.drop_last())
    }
}

/// No key is lost, doubled or overtaken while its channel is the current one:
/// the keys that were given and then those that still wait are what waited at
/// first and then what the channel's sender sent, in the order it was sent.
/// Every one of its sends is received, and whatever other senders send is not.
pub proof fn keys_arrive_in_order(view: KeysView, sender: KeySender, events: Seq<KeyEvent>)
    requires
        view.hears(sender),
        channels_made(events) == 0,
    ensures
        ({
            let (after, given) = channel_run(view, events);
            &&& after.hears(sender)
            &&& forall|other: KeySender| other != sender ==> !(#[trigger] after.hears(other))
            &&& given + after.waiting->0 == view.waiting->0 + keys_sent(events, sender)
        }),
    decreases events.len(),
{
    let (after, given) = channel_run(view, events);
    if events.len() == 0 {
        assert(given + after.waiting->0 == view.waiting->0 + keys_sent(events, sender));
    } else {
        let prefix = events.drop_last();
        keys_arrive_in_order(view, sender, prefix);
        let (before, earlier) = channel_run(view, prefix);
        let sent = keys_sent(prefix, sender);
        match events.last() {
            KeyEvent::Sent { sender: by, key } => {
                if by == sender {
                    assert(earlier + before.waiting->0.push(key) == (earlier
                        + before.waiting->0).push(key));
                    assert((view.waiting->0 + sent).push(key) == view.waiting->0 + sent.push(key));
                }
            },
            KeyEvent::Taken { can_inject } => {
                if can_inject {
                    assert(earlier + before.waiting->0 + Seq::<Seq<char>>::empty() == earlier
                        + before.waiting->0);
                } else {
                    assert(earlier + Seq::<Seq<char>>::empty() == earlier);
                }
            },
            KeyEvent::Created => {},
        }
    }
}

/// Once its channel has been replaced, a sender is never heard again, whatever
/// happens, and the keys that waited in the replaced channel are gone. (As long
/// as the count of channels fits its 64 bits.)
pub proof fn replaced_sender_is_never_heard_again(
    view: KeysView,
    sender: KeySender,
    events: Seq<KeyEvent>,
)
    requires
        sender.generation <= view.generation,
        view.generation + 1 + channels_made(events) <= u64::MAX,
    ensures
        view.created().waiting == Some(Seq::<Seq<char>>::empty()),
        !channel_run(view.created(), events).0.hears(sender),
        channel_run(view.created(), events).0.generation == view.generation + 1 + channels_made(
            events,
        ),
    decreases events.len(),
{
    if events.len() > 0 {
        replaced_sender_is_never_heard_again(view, sender, events.drop_last());
    }
}

// ---------------------------------------------------------------------------
// The keyboard grab
// ---------------------------------------------------------------------------

/// Who gets the physical keyboard.
#[derive(Clone, Copy, Debug, PartialEq, Eq, Structural)]
pub enum GrabCommand {
    /// The Wayland client.
    Grab,
    /// The panel's own UI.
    Release,
}

/// Keeps the receiving end of a channel for grab commands in `slot`, in place
/// of an earlier one, and hands the sending end out.
pub fn create_grab_channel<S, R>(slot: &mut Option<R>, ends: (S, R)) -> (sender: S)
    ensures
        sender == ends.0,
        *final(slot) == Some(ends.1),
{
    let (sender, receiver) = ends;
    *slot = Some(receiver);
    sender
}

/// Takes the receiving end for the keyboard thread; it can be taken once.
pub fn take_grab_receiver<R>(slot: &mut Option<R>) -> (receiver: Option<R>)
    ensures
        receiver == *old(slot),
        *final(slot) is None,
{
    slot.take()
}

/// Decides who gets the keyboard when the focus changes: the UI while one of
/// its text fields has it, the client otherwise.
pub fn grab_for_focus(ui_focused: bool) -> (command: GrabCommand)
    ensures
        command == (if ui_focused {
            GrabCommand::Release
        } else {
            GrabCommand::Grab
        }),
{
    if ui_focused {
        GrabCommand::Release
    } else {
        GrabCommand::Grab
    }
}

// ---------------------------------------------------------------------------
// The active tab
// ---------------------------------------------------------------------------

/// Sets the active tab. Gives the tab that was active before, where it was
/// another one.
pub fn set_active_tab(active: &mut i32, tab: i32) -> (previous: Option<i32>)
    ensures
        *final(active) == tab,
        previous == (if *old(active) != tab {
            Some(*old(active))
        } else {
            None
        }),
{
    let before: i32 = *active;
    *active = tab;
    if before != tab {
        Some(before)
    } else {
        None
    }
}

// ---------------------------------------------------------------------------
// The compositor
// ---------------------------------------------------------------------------

/// A command to the compositor.
#[derive(Clone, Copy, Debug, PartialEq, Eq, Structural)]
pub enum CompositorCommand {
    /// The client's frame was shown.
    FrameDone,
    /// Drop the client's toplevel.
    CloseApp,
}

/// Decides what becomes of a command: it goes to the compositor's channel once
/// there is one, and nowhere before.
pub fn send_compositor_command<S>(link: &Option<S>, command: CompositorCommand) -> (delivery:
    Option<(&S, CompositorCommand)>)
    ensures
        *link matches Some(channel) ==> (delivery matches Some(d) && *d.0 == channel && d.1
            == command),
        *link is None ==> delivery is None,
{
    match link {
        Some(channel) => Some((channel, command)),
        None => None,
    }
}

// ---------------------------------------------------------------------------
// Stats
// ---------------------------------------------------------------------------

/// How stats get to the UI: where they are shared, and what shows them.
#[derive(Debug)]
pub struct StatsLink<S, C> {
    pub shared: Option<S>,
    pub apply: Option<C>,
}

impl<S, C> StatsLink<S, C> {
    /// Nothing is registered.
    pub fn new() -> (link: StatsLink<S, C>)
        ensures
            link == (StatsLink::<S, C> { shared: None, apply: None }),
    {
        StatsLink { shared: None, apply: None }
    }
}

/// Registers where stats are shared. The first registration counts.
pub fn set_stats_snapshot<S, C>(link: &mut StatsLink<S, C>, shared: S)
    ensures
        *final(link) == (StatsLink {
            shared: if old(link).shared is Some {
                old(link).shared
            } else {
                Some(shared)
            },
            ..*old(link)
        }),
{
    if link.shared.is_none() {
        link.shared = Some(shared);
    }
}

/// Registers what shows stats. The last registration counts.
pub fn set_stats_callback<S, C>(link: &mut StatsLink<S, C>, apply: C)
    ensures
        *final(link) == (StatsLink { apply: Some(apply), ..*old(link) }),
{
    link.apply = Some(apply);
}

/// Decides what becomes of a snapshot that was taken from where stats are
/// shared: it is shown where something is registered to show it, and dropped
/// otherwise.
pub fn stats_to_apply<S, C, D>(link: &StatsLink<S, C>, taken: Option<D>) -> (shown: Option<(&C, D)>)
    ensures
        link.apply is Some && taken is Some ==> (shown matches Some(s) && Some(*s.0) == link.apply
            && Some(s.1) == taken),
        link.apply is None || taken is None ==> shown is None,
{
    match (&link.apply, taken) {
        (Some(apply), Some(snapshot)) => Some((apply, snapshot)),
        _ => None,
    }
}

// ---------------------------------------------------------------------------
// What the platform's rules come to
// ---------------------------------------------------------------------------

/// The bottom screen's brightness is the top screen's percentage, rounded down,
/// wherever that is between 20 and 100; below it is 20 and above it is 100.
pub proof fn brightness_is_the_top_screens_percentage(current: int, maximum: int)
    requires
        current >= 0,
        maximum > 0,
    ensures
        20 * maximum <= current * 100 < 101 * maximum ==> {
            let p = brightness_for(current, maximum);
            p * maximum <= current * 100 < (p + 1) * maximum
        },
        current * 100 < 20 * maximum ==> brightness_for(current, maximum) == 20,
        current * 100 >= 100 * maximum ==> brightness_for(current, maximum) == 100,
{
    let n = current * 100;
    let q = n / maximum;
    vstd::arithmetic::div_mod::lemma_fundamental_div_mod(n, maximum);
    assert(q * maximum == maximum * q) by (nonlinear_arith);
    assert(q * maximum <= n < (q + 1) * maximum) by (nonlinear_arith)
        requires
            n == maximum * q + n % maximum,
            0 <= n % maximum < maximum,
    ;
    if q < 20 {
        assert((q + 1) * maximum <= 20 * maximum) by (nonlinear_arith)
            requires
                q + 1 <= 20,
                maximum > 0,
        ;
    } else {
        assert(20 * maximum <= q * maximum) by (nonlinear_arith)
            requires
                q >= 20,
                maximum > 0,
        ;
    }
    if q < 100 {
        assert((q + 1) * maximum <= 100 * maximum) by (nonlinear_arith)
            requires
                q + 1 <= 100,
                maximum > 0,
        ;
    }
    if q > 100 {
        assert(101 * maximum <= q * maximum) by (nonlinear_arith)
            requires
                q >= 101,
                maximum > 0,
        ;
    }
}

/// A reading of both values with a maximum above 0 is followed: afterwards the
/// platform has that brightness, and it is handed out to be set exactly where
/// the platform did not have it. Any other reading changes nothing. The size and
/// the spare handle never change.
pub proof fn reading_is_followed<F>(
    platform: DrmPlatform<F>,
    current: Option<u32>,
    maximum: Option<u32>,
)
    ensures
        ({
            let (after, set) = platform.brightness_synced(current, maximum);
            &&& after.logical_width == platform.logical_width
            &&& after.logical_height == platform.logical_height
            &&& after.spare_lease == platform.spare_lease
            &&& current is Some && maximum is Some && maximum->0 > 0 ==> {
                let pct = brightness_for(current->0 as int, maximum->0 as int);
                &&& after.last_brightness_pct == pct
                &&& platform.last_brightness_pct == pct ==> set is None
                &&& platform.last_brightness_pct != pct ==> (set matches Some(p) && p == pct)
            }
            &&& current is None || maximum is None || maximum->0 == 0 ==> set is None
                && after == platform
        }),
{
}

/// Taking the spare handle leaves none. A copy is kept where the replacement
/// was made and let go where not; nothing else of the platform changes.
pub proof fn spare_handle_is_replaced_by_its_copy<F>(platform: DrmPlatform<F>, copy: F)
    ensures
        platform.spare_taken().spare_lease is None,
        platform.spare_taken().after_renderer(true, Some(copy)).spare_lease == Some(copy),
        platform.spare_taken().after_renderer(true, None).spare_lease is None,
        platform.spare_taken().after_renderer(false, Some(copy)).spare_lease is None,
        forall|made: bool, next: Option<F>|
            {
                let after = #[trigger] platform.spare_taken().after_renderer(made, next);
                &&& after.logical_width == platform.logical_width
                &&& after.logical_height == platform.logical_height
                &&& after.last_brightness_pct == platform.last_brightness_pct
            },
{
}

/// A renderer that is there ends the attempts; one that is not is tried again
/// after each of the first four, and given up after the fifth.
pub proof fn attempts_end_at_the_fifth(attempt: nat)
    ensures
        init_step(attempt, true) is Ready,
        attempt < 5 ==> init_step(attempt, false) is RetryAfterDelay,
        attempt >= 5 ==> init_step(attempt, false) == (InitStepView::GiveUp {
            message: "GpuRenderer: failed after 5 attempts"@,
        }),
{
}

/// Keys that wait are handed out all at once, oldest first, and then wait no
/// more; without a device to inject them with, all of them go on waiting. A key
/// that is sent joins at the end.
pub proof fn waiting_keys_are_handed_out_once(
    view: KeysView,
    keys: Seq<Seq<char>>,
    sender: KeySender,
    key: Seq<char>,
)
    requires
        view.waiting == Some(keys),
        sender.generation == view.generation,
    ensures
        view.taken(true).1 == keys,
        view.taken(true).0.waiting == Some(Seq::<Seq<char>>::empty()),
        view.taken(true).0.generation == view.generation,
        view.taken(false).1.len() == 0,
        view.taken(false).0 == view,
        view.sent(sender, key).waiting == Some(keys.push(key)),
        view.sent(sender, key).generation == view.generation,
        view.sent(sender, key).taken(true).1 == keys.push(key),
{
}

/// Only the sender of the channel made last is heard, and only once a channel
/// has been made; what another sends changes nothing. A new channel begins
/// empty and has a number of its own.
pub proof fn only_the_current_sender_is_heard(view: KeysView, sender: KeySender, key: Seq<char>)
    ensures
        view.hears(sender) <==> view.waiting is Some && sender.generation == view.generation,
        view.waiting is None || sender.generation != view.generation ==> view.sent(sender, key)
            == view,
        view.waiting is None ==> forall|can: bool|
            (#[trigger] view.taken(can)).0 == view && view.taken(can).1.len() == 0,
        view.created().waiting == Some(Seq::<Seq<char>>::empty()),
        view.generation < u64::MAX ==> view.created().generation == view.generation + 1,
{
}

/// The bounds of the brightness, what stands for none, and how often and at what
/// distance the renderer is tried.
pub proof fn platform_numbers()
    ensures
        MIN_BRIGHTNESS == 20,
        MAX_BRIGHTNESS == 100,
        BRIGHTNESS_UNSET == 255,
        GPU_INIT_ATTEMPTS == 5,
        GPU_INIT_DELAY_SECS == 1,
{
}

/// The views of the key channel and of an attempt's step show what is in them.
pub proof fn key_and_step_views_show_each_field(receiver: KeyReceiver, step: InitStep)
    ensures
        receiver@.generation == receiver.generation,
        receiver.waiting is None <==> receiver@.waiting is None,
        receiver.waiting matches Some(keys) ==> receiver@.waiting->0.len() == keys@.len()
            && forall|i: int|
            0 <= i < keys@.len() ==> receiver@.waiting->0[i] == (#[trigger] keys@[i])@,
        step is Ready <==> step@ is Ready,
        step is RetryAfterDelay <==> step@ is RetryAfterDelay,
        step matches InitStep::GiveUp { message } ==> step@ == (InitStepView::GiveUp {
            message: message@,
        }),
{
}

} // verus!
