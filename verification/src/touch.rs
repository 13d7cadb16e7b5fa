//! Touch input: from the raw events of the touchscreen to gestures, and from
//! gestures to the side of the screen that they belong to.
//!
//! The landscape screen is split by rows. The status bar at the top and the
//! navigation bar at the bottom belong to the panel's own UI; the rows between
//! them belong to the Wayland client while one is shown.

use crate::text::contains;
use vstd::prelude::*;

verus! {

/// Event type of a bookkeeping event; it ends a report.
pub const EV_SYN: u16 = 0x00;

/// Event type of a key or button.
pub const EV_KEY: u16 = 0x01;

/// Event type of an absolute axis.
pub const EV_ABS: u16 = 0x03;

/// Code of the panel's horizontal axis.
pub const ABS_X: u16 = 0x00;

/// Code of the panel's vertical axis.
pub const ABS_Y: u16 = 0x01;

/// Code of the button that a finger on the panel presses.
pub const BTN_TOUCH: u16 = 0x14a;

/// The range of the panel's horizontal axis where the device names none.
pub const DEFAULT_X_MAX: i32 = 1080;

/// The range of the panel's vertical axis where the device names none.
pub const DEFAULT_Y_MAX: i32 = 1620;

/// The height of the status bar in rows.
pub const STATUS_BAR_HEIGHT: i32 = 40;

/// The height of the client area in rows.
pub const CLIENT_HEIGHT: i32 = 984;

/// The height of the navigation bar in rows.
pub const NAV_BAR_HEIGHT: i32 = 56;

/// The first row of the client area.
pub const CLIENT_Y_START: i32 = 40;

/// The row after the last one of the client area.
pub const CLIENT_Y_END: i32 = 1024;

/// The height of the landscape screen in rows.
pub const SCREEN_HEIGHT: i32 = 1080;

/// The index of the Apps tab, the one that shows the Wayland client.
pub const APPS_TAB: i32 = 2;

/// The three areas fill the landscape screen without gap or overlap.
pub proof fn areas_fill_the_screen()
    ensures
        CLIENT_Y_START == STATUS_BAR_HEIGHT,
        CLIENT_Y_END == CLIENT_Y_START + CLIENT_HEIGHT,
        CLIENT_Y_END + NAV_BAR_HEIGHT == SCREEN_HEIGHT,
{
}

// ---------------------------------------------------------------------------
// Finding the panel
// ---------------------------------------------------------------------------

/// Tells whether a directory entry under `/dev/input` is worth opening: an
/// event device. A path that is not Unicode is none.
pub fn is_event_device(path: Option<&str>) -> (open: bool)
    ensures
        open == (path matches Some(p) && crate::text::occurs(p@, "event"@)),
{
    match path {
        Some(p) => contains(p, "event"),
        None => false,
    }
}

/// Tells whether an opened device is the touchscreen, by the name it gives.
pub fn is_touchscreen(name: Option<&str>) -> (yes: bool)
    ensures
        yes == (name matches Some(n) && crate::text::occurs(n@, "Goodix"@)),
{
    match name {
        Some(n) => contains(n, "Goodix"),
        None => false,
    }
}

/// What came of one entry under `/dev/input`.
#[derive(Debug)]
pub enum Probe {
    /// The entry could not be listed.
    Unlisted,
    /// The entry is no event device, or could not be opened.
    Passed,
    /// The entry was opened and gives this name.
    Opened { name: Option<String> },
}

impl Probe {
    /// Whether the entry is the touchscreen.
    pub open spec fn is_panel(self) -> bool {
        self matches Probe::Opened { name: Some(n) } && crate::text::occurs(n@, "Goodix"@)
    }

    /// Whether the search ends at the entry.
    pub open spec fn ends_search(self) -> bool {
        self is Unlisted || self.is_panel()
    }

    fn found_panel(&self) -> (yes: bool)
        ensures
            yes == self.is_panel(),
    {
        match self {
            Probe::Opened { name: Some(n) } => is_touchscreen(Some(n.as_str())),
            _ => false,
        }
    }

    /// Tells whether the search goes on after this entry. It ends at the
    /// touchscreen, and at an entry that cannot be listed.
    pub fn search_goes_on(&self) -> (goes_on: bool)
        ensures
            goes_on == !self.ends_search(),
    {
        match self {
            Probe::Unlisted => false,
            _ => !self.found_panel(),
        }
    }
}

/// Finds the touchscreen among the entries: the first that is it, unless one
/// before it could not be listed.
pub fn find_touchscreen(probes: &Vec<Probe>) -> (found: Option<usize>)
    ensures
        found matches Some(i) ==> i < probes@.len() && probes@[i as int].is_panel() && forall|j: int|
            0 <= j < i ==> !(#[trigger] probes@[j]).ends_search(),
        found is None ==> forall|i: int|
            0 <= i < probes@.len() && (#[trigger] probes@[i]).is_panel() ==> exists|j: int|
                0 <= j < i && (#[trigger] probes@[j]) is Unlisted,
{
    let mut i: usize = 0;
    while i < probes.len()
        invariant
            i <= probes@.len(),
            forall|j: int| 0 <= j < i ==> !(#[trigger] probes@[j]).ends_search(),
        decreases probes@.len() - i,
    {
        if !probes[i].search_goes_on() {
            if probes[i].found_panel() {
                return Some(i);
            }
            proof {
                assert forall|k: int| 0 <= k < probes@.len() && (
                #[trigger] probes@[k]).is_panel() implies exists|j: int|
                    0 <= j < k && (#[trigger] probes@[j]) is Unlisted by {
                    assert(probes@[i as int] is Unlisted);
                    assert(!(k < i)) by {
                        if k < i {
                            assert(!probes@[k].ends_search());
                        }
                    }
                }
            }
            return None;
        }
        i += 1;
    }
    None
}

/// The largest values that the panel's two axes report.
#[derive(Clone, Copy, Debug, PartialEq, Eq, Structural)]
pub struct PanelRange {
    pub x_max: i32,
    pub y_max: i32,
}

/// The maximum given last for axis `code`, or `default` where there is none.
pub open spec fn last_maximum(axes: Seq<(u16, i32)>, code: u16, default: i32) -> i32
    decreases axes.len(),
{
    if axes.len() == 0 {
        default
    } else if axes.last().0 == code {
        axes.last().1
    } else {
        last_maximum(axes.drop_last(), code, default)
    }
}

/// Reads the panel's range out of the axes (code and maximum) that the device
/// lists.
pub fn panel_range(axes: &Vec<(u16, i32)>) -> (range: PanelRange)
    ensures
        range.x_max == last_maximum(axes@, ABS_X, DEFAULT_X_MAX),
        range.y_max == last_maximum(axes@, ABS_Y, DEFAULT_Y_MAX),
{
    let mut range = PanelRange { x_max: DEFAULT_X_MAX, y_max: DEFAULT_Y_MAX };
    let mut i: usize = 0;
    while i < axes.len()
        invariant
            i <= axes@.len(),
            range.x_max == last_maximum(axes@.take(i as int), ABS_X, DEFAULT_X_MAX),
            range.y_max == last_maximum(axes@.take(i as int), ABS_Y, DEFAULT_Y_MAX),
        decreases axes@.len() - i,
    {
        let (code, maximum) = axes[i];
        proof {
            assert(axes@.take(i + 1).drop_last() == axes@.take(i as int));
            assert(axes@.take(i + 1).last() == axes@[i as int]);
        }
        if code == ABS_X {
            range.x_max = maximum;
        } else if code == ABS_Y {
            range.y_max = maximum;
        }
        i += 1;
    }
    proof {
        assert(axes@.take(axes@.len() as int) == axes@);
    }
    range
}

// ---------------------------------------------------------------------------
// Raw events to panel touches
// ---------------------------------------------------------------------------

/// One event as the kernel reports it.
#[derive(Clone, Copy, Debug, PartialEq, Eq, Structural)]
pub struct RawEvent {
    pub kind: u16,
    pub code: u16,
    pub value: i32,
}

/// What a finger did, in the panel's own coordinates.
#[derive(Clone, Copy, Debug, PartialEq, Eq, Structural)]
pub enum PanelTouch {
    Down { x: i32, y: i32 },
    Move { x: i32, y: i32 },
    Up,
}

/// Collects raw events until a report is complete.
///
/// The button is only noted when it changes; it takes effect at the end of the
/// report, so that the axes are up to date by then.
#[derive(Clone, Copy, Debug, PartialEq, Eq, Structural)]
pub struct TouchDecoder {
    pub x: i32,
    pub y: i32,
    pub is_down: bool,
    pub pending_down: bool,
    pub pending_up: bool,
}

impl TouchDecoder {
    /// The decoder before any event.
    pub open spec fn initial() -> TouchDecoder {
        TouchDecoder { x: 0, y: 0, is_down: false, pending_down: false, pending_up: false }
    }

    /// The decoder after `event`, and the touch that the event completes.
    pub open spec fn fed(self, event: RawEvent) -> (TouchDecoder, Option<PanelTouch>) {
        if event.kind == EV_ABS && event.code == ABS_X {
            (TouchDecoder { x: event.value, ..self }, None)
        } else if event.kind == EV_ABS && event.code == ABS_Y {
            (TouchDecoder { y: event.value, ..self }, None)
        } else if event.kind == EV_KEY && event.code == BTN_TOUCH && event.value == 1 {
            (TouchDecoder { pending_down: true, ..self }, None)
        } else if event.kind == EV_KEY && event.code == BTN_TOUCH {
            (TouchDecoder { pending_up: true, ..self }, None)
        } else if event.kind == EV_SYN && self.pending_down {
            (
                TouchDecoder { is_down: true, pending_down: false, ..self },
                Some(PanelTouch::Down { x: self.x, y: self.y }),
            )
        } else if event.kind == EV_SYN && self.pending_up {
            (TouchDecoder { is_down: false, pending_up: false, ..self }, Some(PanelTouch::Up))
        } else if event.kind == EV_SYN && self.is_down {
            (self, Some(PanelTouch::Move { x: self.x, y: self.y }))
        } else {
            (self, None)
        }
    }

    /// A decoder that has seen no event.
    pub fn new() -> (decoder: TouchDecoder)
        ensures
            decoder == Self::initial(),
    {
        TouchDecoder { x: 0, y: 0, is_down: false, pending_down: false, pending_up: false }
    }

    /// Takes one event in and gives out the touch that it completes, if any.
    pub fn feed(&mut self, event: RawEvent) -> (touch: Option<PanelTouch>)
        ensures
            (*final(self), touch) == old(self).fed(event),
    {
        if event.kind == EV_ABS {
            if event.code == ABS_X {
                self.x = event.value;
            } else if event.code == ABS_Y {
                self.y = event.value;
            }
            None
        } else if event.kind == EV_KEY {
            if event.code == BTN_TOUCH {
                if event.value == 1 {
                    self.pending_down = true;
                } else {
                    self.pending_up = true;
                }
            }
            None
        } else if event.kind == EV_SYN {
            if self.pending_down {
                self.is_down = true;
                self.pending_down = false;
                Some(PanelTouch::Down { x: self.x, y: self.y })
            } else if self.pending_up {
                self.is_down = false;
                self.pending_up = false;
                Some(PanelTouch::Up)
            } else if self.is_down {
                Some(PanelTouch::Move { x: self.x, y: self.y })
            } else {
                None
            }
        } else {
            None
        }
    }
}

/// The decoder after all of `events`, and the touches that came out on the way.
pub open spec fn decoded(events: Seq<RawEvent>) -> (TouchDecoder, Seq<PanelTouch>)
    decreases events.len(),
{
    if events.len() == 0 {
        (TouchDecoder::initial(), seq![])
    } else {
        let (before, out) = decoded(events.drop_last());
        let (after, touch) = before.fed(events.last());
        match touch {
            Some(t) => (after, out.push(t)),
            None => (after, out),
        }
    }
}

/// Whether a finger is on the panel after `touches`: the last of them that is
/// no move is a `Down`.
pub open spec fn finger_down(touches: Seq<PanelTouch>) -> bool
    decreases touches.len(),
{
    if touches.len() == 0 {
        false
    } else {
        match touches.last() {
            PanelTouch::Down { .. } => true,
            PanelTouch::Up => false,
            PanelTouch::Move { .. } => finger_down(touches.drop_last()),
        }
    }
}

/// The value of axis `code` that came last, 0 where none came.
pub open spec fn last_axis_value(events: Seq<RawEvent>, code: u16) -> i32
    decreases events.len(),
{
    if events.len() == 0 {
        0
    } else if events.last().kind == EV_ABS && events.last().code == code {
        events.last().value
    } else {
        last_axis_value(events.drop_last(), code)
    }
}

/// Whatever the events: the decoder's position is that of the axes' last
/// values, it knows whether a finger is down, and a move comes out only while
/// one is.
pub proof fn moves_come_only_from_a_finger_that_is_down(events: Seq<RawEvent>)
    ensures
        decoded(events).0.x == last_axis_value(events, ABS_X),
        decoded(events).0.y == last_axis_value(events, ABS_Y),
        decoded(events).0.is_down == finger_down(decoded(events).1),
        forall|i: int|
            0 <= i < decoded(events).1.len() && (#[trigger] decoded(events).1[i]) is Move
                ==> finger_down(decoded(events).1.take(i)),
    decreases events.len(),
{
    if events.len() > 0 {
        moves_come_only_from_a_finger_that_is_down(events.drop_last());
        let (before, out) = decoded(events.drop_last());
        let (after, touch) = before.fed(events.last());
        let all = decoded(events).1;
        if let Some(t) = touch {
            assert(all == out.push(t));
            assert(all.drop_last() == out);
            assert forall|i: int| 0 <= i < all.len() && (#[trigger] all[i]) is Move implies
                finger_down(all.take(i)) by {
                if i < out.len() {
                    assert(all[i] == out[i]);
                    assert(all.take(i) == out.take(i));
                } else {
                    assert(all.take(i) == out);
                }
            }
        } else {
            assert(all == out);
        }
    }
}

/// How many reports end among `events`.
pub open spec fn reports(events: Seq<RawEvent>) -> nat
    decreases events.len(),
{
    if events.len() == 0 {
        0
    } else if events.last().kind == EV_SYN {
        reports(events.drop_last()) + 1
    } else {
        reports(events.drop_last())
    }
}

/// A touch comes out only at the end of a report, and each report gives at most
/// one.
pub proof fn each_report_gives_at_most_one_touch(events: Seq<RawEvent>)
    ensures
        forall|decoder: TouchDecoder, event: RawEvent|
            event.kind != EV_SYN ==> (#[trigger] decoder.fed(event)).1 is None,
        decoded(events).1.len() <= reports(events),
    decreases events.len(),
{
    if events.len() > 0 {
        each_report_gives_at_most_one_touch(events.drop_last());
    }
}

/// Whether the axes of `event` are within the panel's range.
pub open spec fn within_range(event: RawEvent, range: PanelRange) -> bool {
    &&& event.kind == EV_ABS && event.code == ABS_X ==> 0 <= event.value <= range.x_max
    &&& event.kind == EV_ABS && event.code == ABS_Y ==> 0 <= event.value <= range.y_max
}

/// Whether a touch lies on the panel.
pub open spec fn on_panel(touch: PanelTouch, range: PanelRange) -> bool {
    match touch {
        PanelTouch::Down { x, y } => 0 <= x <= range.x_max && 0 <= y <= range.y_max,
        PanelTouch::Move { x, y } => 0 <= x <= range.x_max && 0 <= y <= range.y_max,
        PanelTouch::Up => true,
    }
}

/// While the device keeps to its range, every touch lies on the panel.
pub proof fn touches_lie_on_the_panel(events: Seq<RawEvent>, range: PanelRange)
    requires
        range.x_max > 0,
        range.y_max > 0,
        forall|i: int| 0 <= i < events.len() ==> within_range(#[trigger] events[i], range),
    ensures
        0 <= decoded(events).0.x <= range.x_max,
        0 <= decoded(events).0.y <= range.y_max,
        forall|i: int|
            0 <= i < decoded(events).1.len() ==> on_panel(#[trigger] decoded(events).1[i], range),
    decreases events.len(),
{
    if events.len() > 0 {
        let prefix = events.drop_last();
        assert forall|i: int| 0 <= i < prefix.len() implies within_range(
            #[trigger] prefix[i],
            range,
        ) by {
            assert(prefix[i] == events[i]);
        }
        touches_lie_on_the_panel(prefix, range);
        assert(within_range(events[events.len() - 1], range));
        let (before, out) = decoded(prefix);
        let all = decoded(events).1;
        assert forall|i: int| 0 <= i < all.len() implies on_panel(#[trigger] all[i], range) by {
            if i < out.len() {
                assert(all[i] == out[i]);
            }
        }
    }
}

/// A touch that ends in the report that it began in is not lost: the next two
/// reports give its `Down` and its `Up`.
pub proof fn tap_within_one_report_gives_down_and_up(
    decoder: TouchDecoder,
    first: RawEvent,
    second: RawEvent,
)
    requires
        decoder.pending_down,
        decoder.pending_up,
        first.kind == EV_SYN,
        second.kind == EV_SYN,
    ensures
        decoder.fed(first).1 == Some(PanelTouch::Down { x: decoder.x, y: decoder.y }),
        decoder.fed(first).0.fed(second).1 == Some(PanelTouch::Up),
        !decoder.fed(first).0.fed(second).0.is_down,
{
}

// ---------------------------------------------------------------------------
// Touches to their targets
// ---------------------------------------------------------------------------

/// A touch on the landscape screen. `P` is the position as the screen has it;
/// `row` is the screen row that a touch begins in.
#[derive(Debug, PartialEq)]
pub enum TouchEvent<P> {
    Down { position: P, row: i32 },
    Move { position: P },
    Up,
}

/// Where a touch goes, and as what.
#[derive(Debug, PartialEq)]
pub enum TouchAction<P> {
    Ignore,
    ClientDown { position: P },
    ClientMotion { position: P },
    ClientUp,
    UiPressed { position: P },
    UiMoved { position: P },
    UiReleased { position: P },
}

/// The touch that is under way and the side that it belongs to.
#[derive(Debug, PartialEq)]
pub struct TouchRouter<P> {
    pub is_pressed: bool,
    pub in_client: bool,
    pub last_position: P,
}

/// Whether a touch that begins in `row` belongs to the Wayland client.
pub open spec fn belongs_to_client(row: i32, client_active: bool, active_tab: i32) -> bool {
    client_active && active_tab == APPS_TAB && CLIENT_Y_START <= row < CLIENT_Y_END
}

impl<P> TouchRouter<P> {
    /// Only a touch that is under way can be in the client.
    pub open spec fn valid(self) -> bool {
        self.in_client ==> self.is_pressed
    }

    /// The router after `event`, and where the event goes.
    pub open spec fn dispatched(
        self,
        event: TouchEvent<P>,
        client_active: bool,
        active_tab: i32,
    ) -> (TouchRouter<P>, TouchAction<P>) {
        match event {
            TouchEvent::Down { position, row } => if belongs_to_client(
                row,
                client_active,
                active_tab,
            ) {
                (
                    TouchRouter { is_pressed: true, in_client: true, ..self },
                    TouchAction::ClientDown { position },
                )
            } else {
                (
                    TouchRouter { is_pressed: true, in_client: false, last_position: position },
                    TouchAction::UiPressed { position },
                )
            },
            TouchEvent::Move { position } => if !self.is_pressed {
                (self, TouchAction::Ignore)
            } else if self.in_client {
                (self, TouchAction::ClientMotion { position })
            } else {
                (
                    TouchRouter { last_position: position, ..self },
                    TouchAction::UiMoved { position },
                )
            },
            TouchEvent::Up => (
                TouchRouter { is_pressed: false, in_client: false, ..self },
                if self.in_client {
                    TouchAction::ClientUp
                } else {
                    TouchAction::UiReleased { position: self.last_position }
                },
            ),
        }
    }
}

impl<P: Copy> TouchRouter<P> {
    /// A router with no touch under way.
    pub fn new(origin: P) -> (router: TouchRouter<P>)
        ensures
            router == (TouchRouter { is_pressed: false, in_client: false, last_position: origin }),
            router.valid(),
    {
        TouchRouter { is_pressed: false, in_client: false, last_position: origin }
    }

    /// Sends a touch to the side that it belongs to.
    pub fn dispatch(
        &mut self,
        event: TouchEvent<P>,
        client_active: bool,
        active_tab: i32,
    ) -> (action: TouchAction<P>)
        ensures
            (*final(self), action) == old(self).dispatched(event, client_active, active_tab),
            old(self).valid() ==> final(self).valid(),
    {
        match event {
            TouchEvent::Down { position, row } => {
                self.is_pressed = true;
                if client_active && active_tab == APPS_TAB && row >= CLIENT_Y_START && row
                    < CLIENT_Y_END {
                    self.in_client = true;
                    TouchAction::ClientDown { position }
                } else {
                    self.in_client = false;
                    self.last_position = position;
                    TouchAction::UiPressed { position }
                }
            },
            TouchEvent::Move { position } => {
                if !self.is_pressed {
                    TouchAction::Ignore
                } else if self.in_client {
                    TouchAction::ClientMotion { position }
                } else {
                    self.last_position = position;
                    TouchAction::UiMoved { position }
                }
            },
            TouchEvent::Up => {
                self.is_pressed = false;
                let action = if self.in_client {
                    TouchAction::ClientUp
                } else {
                    TouchAction::UiReleased { position: self.last_position }
                };
                self.in_client = false;
                action
            },
        }
    }

    /// Gives up the client's touch, as the client has gone away.
    pub fn leave_client(&mut self)
        ensures
            *final(self) == (TouchRouter { in_client: false, ..*old(self) }),
            old(self).valid() ==> final(self).valid(),
    {
        self.in_client = false;
    }
}

/// A touch together with what decides its target when it comes.
pub struct TouchMoment<P> {
    pub event: TouchEvent<P>,
    pub client_active: bool,
    pub active_tab: i32,
}

/// The router after all of `moments`, from `router` on, and where each went.
pub open spec fn routed<P>(router: TouchRouter<P>, moments: Seq<TouchMoment<P>>) -> (
    TouchRouter<P>,
    Seq<TouchAction<P>>,
)
    decreases moments.len(),
{
    if moments.len() == 0 {
        (router, seq![])
    } else {
        let (before, actions) = routed(router, moments.drop_last());
        let m = moments.last();
        let (after, action) = before.dispatched(m.event, m.client_active, m.active_tab);
        (after, actions.push(action))
    }
}

/// Whether an action reaches the client.
pub open spec fn reaches_client<P>(action: TouchAction<P>) -> bool {
    action is ClientDown || action is ClientMotion || action is ClientUp
}

/// Whether an action reaches the panel's own UI.
pub open spec fn reaches_ui<P>(action: TouchAction<P>) -> bool {
    action is UiPressed || action is UiMoved || action is UiReleased
}

proof fn lemma_moves_keep_target<P>(router: TouchRouter<P>, moments: Seq<TouchMoment<P>>)
    requires
        router.is_pressed,
        forall|i: int| 0 <= i < moments.len() ==> (#[trigger] moments[i]).event is Move,
    ensures
        routed(router, moments).1.len() == moments.len(),
        routed(router, moments).0.is_pressed,
        routed(router, moments).0.in_client == router.in_client,
        router.in_client ==> forall|i: int|
            0 <= i < moments.len() ==> (#[trigger] routed(router, moments).1[i]) is ClientMotion,
        !router.in_client ==> forall|i: int|
            0 <= i < moments.len() ==> (#[trigger] routed(router, moments).1[i]) is UiMoved,
    decreases moments.len(),
{
    if moments.len() > 0 {
        let prefix = moments.drop_last();
        assert forall|i: int| 0 <= i < prefix.len() implies (#[trigger] prefix[i]).event is Move by {
            assert(prefix[i] == moments[i]);
        }
        lemma_moves_keep_target(router, prefix);
        let earlier = routed(router, prefix).1;
        let all = routed(router, moments).1;
        assert(moments.last() == moments[moments.len() - 1]);
        assert forall|i: int| 0 <= i < moments.len() implies (router.in_client ==> (
        #[trigger] all[i]) is ClientMotion) && (!router.in_client ==> all[i] is UiMoved) by {
            if i < prefix.len() {
                assert(all[i] == earlier[i]);
            }
        }
    }
}

/// While the client stays, a gesture is not torn apart: from its `Down` to its
/// `Up` it goes to one side, the client where it began in the client area of a
/// shown client and the UI otherwise, even if the tab changes meanwhile.
pub proof fn gesture_goes_to_one_side<P>(
    router: TouchRouter<P>,
    down: TouchMoment<P>,
    moves: Seq<TouchMoment<P>>,
    up: TouchMoment<P>,
)
    requires
        down.event is Down,
        forall|i: int| 0 <= i < moves.len() ==> (#[trigger] moves[i]).event is Move,
        up.event is Up,
    ensures
        ({
            let (start, first) = router.dispatched(
                down.event,
                down.client_active,
                down.active_tab,
            );
            let (held, middle) = routed(start, moves);
            let (end, last) = held.dispatched(up.event, up.client_active, up.active_tab);
            let to_client = belongs_to_client(
                down.event->row,
                down.client_active,
                down.active_tab,
            );
            &&& middle.len() == moves.len()
            &&& to_client ==> reaches_client(first) && reaches_client(last)
            &&& !to_client ==> reaches_ui(first) && reaches_ui(last)
            &&& forall|i: int|
                0 <= i < middle.len() ==> (to_client ==> reaches_client(#[trigger] middle[i])) && (
                !to_client ==> reaches_ui(middle[i]))
            &&& !end.is_pressed
            &&& !end.in_client
        }),
{
    let (start, first) = router.dispatched(down.event, down.client_active, down.active_tab);
    lemma_moves_keep_target(start, moves);
}

/// Once the client has gone away, the rest of its gesture goes to the UI.
pub proof fn gesture_of_a_gone_client_ends_in_the_ui<P>(
    router: TouchRouter<P>,
    moves: Seq<TouchMoment<P>>,
    up: TouchMoment<P>,
)
    requires
        router.is_pressed,
        forall|i: int| 0 <= i < moves.len() ==> (#[trigger] moves[i]).event is Move,
        up.event is Up,
    ensures
        ({
            let left = TouchRouter { in_client: false, ..router };
            let (held, middle) = routed(left, moves);
            let (end, last) = held.dispatched(up.event, up.client_active, up.active_tab);
            &&& middle.len() == moves.len()
            &&& forall|i: int| 0 <= i < middle.len() ==> reaches_ui(#[trigger] middle[i])
            &&& reaches_ui(last)
            &&& !end.is_pressed
        }),
{
    lemma_moves_keep_target(TouchRouter { in_client: false, ..router }, moves);
}

/// The bars always belong to the UI: a touch that begins above or below the
/// client area reaches it, whatever is shown.
pub proof fn bars_belong_to_the_ui<P>(
    router: TouchRouter<P>,
    position: P,
    row: i32,
    client_active: bool,
    active_tab: i32,
)
    requires
        row < CLIENT_Y_START || row >= CLIENT_Y_END,
    ensures
        router.dispatched(TouchEvent::Down { position, row }, client_active, active_tab).1
            == (TouchAction::UiPressed { position }),
{
}

/// Without an active client, and on any tab but Apps, every touch that begins
/// reaches the UI.
pub proof fn ui_gets_all_touches_without_client<P>(
    router: TouchRouter<P>,
    position: P,
    row: i32,
    client_active: bool,
    active_tab: i32,
)
    requires
        !client_active || active_tab != APPS_TAB,
    ensures
        router.dispatched(TouchEvent::Down { position, row }, client_active, active_tab).1
            == (TouchAction::UiPressed { position }),
{
}

// ---------------------------------------------------------------------------
// The rules of touch, in plain numbers
// ---------------------------------------------------------------------------

/// The rows of the landscape screen, the tab of the client, and the numbers by
/// which the kernel reports a touch.
pub proof fn touch_numbers()
    ensures
        STATUS_BAR_HEIGHT == 40,
        CLIENT_HEIGHT == 984,
        NAV_BAR_HEIGHT == 56,
        CLIENT_Y_START == 40,
        CLIENT_Y_END == 1024,
        SCREEN_HEIGHT == 1080,
        APPS_TAB == 2,
        EV_SYN == 0,
        EV_KEY == 1,
        EV_ABS == 3,
        ABS_X == 0,
        ABS_Y == 1,
        BTN_TOUCH == 330,
        DEFAULT_X_MAX == 1080,
        DEFAULT_Y_MAX == 1620,
{
}

/// The touchscreen is the opened device whose name holds `Goodix`; the search
/// ends there, and at an entry that cannot be listed, and nowhere else.
pub proof fn touchscreen_is_told_by_its_name(probe: Probe)
    ensures
        probe.is_panel() <==> (probe matches Probe::Opened { name: Some(n) } && crate::text::occurs(
            n@,
            "Goodix"@,
        )),
        probe is Unlisted ==> probe.ends_search(),
        probe is Passed ==> !probe.ends_search(),
        probe is Opened ==> (probe.ends_search() <==> probe.is_panel()),
{
}

/// The range of an axis is the maximum that is listed last for it, and the
/// default only where none is.
pub proof fn last_listed_maximum_counts(axes: Seq<(u16, i32)>, code: u16, default: i32)
    ensures
        forall|i: int|
            0 <= i < axes.len() && (#[trigger] axes[i]).0 == code && (forall|j: int|
                i < j < axes.len() ==> (#[trigger] axes[j]).0 != code) ==> last_maximum(
                axes,
                code,
                default,
            ) == axes[i].1,
        (forall|j: int| 0 <= j < axes.len() ==> (#[trigger] axes[j]).0 != code) ==> last_maximum(
            axes,
            code,
            default,
        ) == default,
    decreases axes.len(),
{
    if axes.len() > 0 {
        let prefix = axes.drop_last();
        last_listed_maximum_counts(prefix, code, default);
        let end = axes.len() - 1;
        assert(axes.last() == axes[end]);
        assert(forall|j: int| 0 <= j < prefix.len() ==> prefix[j] == axes[j]);
        assert forall|i: int|
            0 <= i < axes.len() && (#[trigger] axes[i]).0 == code && (forall|j: int|
                i < j < axes.len() ==> (#[trigger] axes[j]).0 != code) implies last_maximum(
            axes,
            code,
            default,
        ) == axes[i].1 by {
            if i < end {
                assert(axes[end].0 != code);
                assert(prefix[i].0 == code);
                assert forall|j: int| i < j < prefix.len() implies (#[trigger] prefix[j]).0
                    != code by {
                    assert(axes[j].0 != code);
                }
            }
        }
        if forall|j: int| 0 <= j < axes.len() ==> (#[trigger] axes[j]).0 != code {
            assert(axes[end].0 != code);
            assert forall|j: int| 0 <= j < prefix.len() implies (#[trigger] prefix[j]).0 != code by {
                assert(axes[j].0 != code);
            }
        }
    }
}

/// A whole gesture as the kernel reports it, from a finger that is up: pressed
/// at one place, moved to another, lifted. It comes out as `Down` at the first
/// place, `Move` at the second and `Up`, each at the end of its report and in
/// the panel's coordinates.
pub proof fn reported_gesture_comes_out_whole(
    decoder: TouchDecoder,
    x: i32,
    y: i32,
    to_x: i32,
    to_y: i32,
    released: i32,
    code: u16,
    value: i32,
)
    requires
        !decoder.is_down,
        !decoder.pending_down,
        !decoder.pending_up,
        released != 1,
    ensures
        ({
            let ax = |v: i32| RawEvent { kind: 3, code: 0, value: v };
            let ay = |v: i32| RawEvent { kind: 3, code: 1, value: v };
            let button = |v: i32| RawEvent { kind: 1, code: 330, value: v };
            let syn = RawEvent { kind: 0, code, value };
            let pressed = decoder.fed(button(1)).0.fed(ax(x)).0.fed(ay(y)).0;
            let down = pressed.fed(syn);
            let moved = down.0.fed(ay(to_y)).0.fed(ax(to_x)).0.fed(syn);
            let lifted = moved.0.fed(button(released)).0.fed(syn);
            &&& decoder.fed(syn).1 is None
            &&& down.1 == Some(PanelTouch::Down { x, y })
            &&& moved.1 == Some(PanelTouch::Move { x: to_x, y: to_y })
            &&& lifted.1 == Some(PanelTouch::Up)
            &&& lifted.0.fed(syn).1 is None
            &&& !lifted.0.is_down
        }),
{
}

/// Every touch lies at the axes' values at the end of its report, and the end of
/// a report leaves the axes alone. An axis event sets its own axis only, and
/// anything that is neither an axis of the panel, nor its button, nor the end of
/// a report changes nothing.
pub proof fn events_do_nothing_else(decoder: TouchDecoder, event: RawEvent)
    ensures
        decoder.fed(event).1 matches Some(PanelTouch::Down { x, y }) ==> x == decoder.x && y
            == decoder.y && decoder.pending_down,
        decoder.fed(event).1 matches Some(PanelTouch::Move { x, y }) ==> x == decoder.x && y
            == decoder.y && decoder.is_down && !decoder.pending_down && !decoder.pending_up,
        decoder.fed(event).1 matches Some(PanelTouch::Up) ==> decoder.pending_up
            && !decoder.pending_down,
        event.kind == 0 ==> decoder.fed(event).0.x == decoder.x && decoder.fed(event).0.y
            == decoder.y,
        event.kind == 3 && event.code == 0 ==> decoder.fed(event) == (
            (TouchDecoder { x: event.value, ..decoder }),
            None::<PanelTouch>,
        ),
        event.kind == 3 && event.code == 1 ==> decoder.fed(event) == (
            (TouchDecoder { y: event.value, ..decoder }),
            None::<PanelTouch>,
        ),
        event.kind == 1 && event.code == 330 ==> {
            let after = decoder.fed(event).0;
            &&& decoder.fed(event).1 is None
            &&& after.x == decoder.x && after.y == decoder.y && after.is_down == decoder.is_down
            &&& after.pending_down == (decoder.pending_down || event.value == 1)
            &&& after.pending_up == (decoder.pending_up || event.value != 1)
        },
        !(event.kind == 0) && !(event.kind == 3 && event.code <= 1) && !(event.kind == 1
            && event.code == 330) ==> decoder.fed(event) == (decoder, None::<PanelTouch>),
{
}

/// A touch belongs to the client exactly when a client is shown, the Apps tab
/// (number 2) is active, and it begins in one of the rows 40 to 1023.
pub proof fn client_area_is_rows_40_to_1023(row: i32, client_active: bool, active_tab: i32)
    ensures
        belongs_to_client(row, client_active, active_tab) <==> client_active && active_tab == 2
            && 40 <= row && row <= 1023,
{
}

/// Each touch reaches its side as what it is and where it is. A beginning touch
/// goes to the client with its position in the client's rows, and to the UI with
/// its position anywhere else; a move without a finger down is ignored; a release
/// reaches the UI at the position that it saw last. The UI's last position is not
/// changed by what the client gets.
pub proof fn touch_keeps_its_kind_and_place<P>(
    router: TouchRouter<P>,
    position: P,
    row: i32,
    client_active: bool,
    active_tab: i32,
)
    ensures
        ({
            let (after, action) = router.dispatched(
                TouchEvent::Down { position, row },
                client_active,
                active_tab,
            );
            let client = client_active && active_tab == 2 && 40 <= row < 1024;
            &&& after.is_pressed
            &&& after.in_client == client
            &&& client ==> action == (TouchAction::ClientDown { position }) && after.last_position
                == router.last_position
            &&& !client ==> action == (TouchAction::UiPressed { position }) && after.last_position
                == position
        }),
        ({
            let (after, action) = router.dispatched(
                TouchEvent::Move { position },
                client_active,
                active_tab,
            );
            &&& after.is_pressed == router.is_pressed
            &&& after.in_client == router.in_client
            &&& !router.is_pressed ==> action == TouchAction::<P>::Ignore && after == router
            &&& router.is_pressed && router.in_client ==> action == (TouchAction::ClientMotion {
                position,
            }) && after == router
            &&& router.is_pressed && !router.in_client ==> action == (TouchAction::UiMoved {
                position,
            }) && after.last_position == position
        }),
        ({
            let (after, action) = router.dispatched(TouchEvent::Up, client_active, active_tab);
            &&& !after.is_pressed && !after.in_client
            &&& after.last_position == router.last_position
            &&& router.in_client ==> action == TouchAction::<P>::ClientUp
            &&& !router.in_client ==> action == (TouchAction::UiReleased {
                position: router.last_position,
            })
        }),
{
}

} // verus!
