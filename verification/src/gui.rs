//! Panel controls: which actions a button runs for a press, a release or a
//! scroll, what the system actions queue, colors, and label texts.

use vstd::prelude::*;
use crate::overlay::{OverlayState, RelativeTo};
use crate::pointer::PointerMode;
use crate::tasks::{enqueued, AppTask, TaskContainer};
use crate::text::{chars_of, decimal, pad2, push_decimal, push_decimal_2, push_str, string_from_chars};
use vstd::string::*;
use vstd::utf8::is_char_boundary;

verus! {

/// How a key's labels are laid out on its cap.
#[derive(Clone, Copy, PartialEq, Eq, Structural, Debug)]
pub enum KeyCapType {
    /// Label is in center of keycap
    Regular,
    /// Label on the top, AltGr symbol on bottom
    RegularAltGr,
    /// Primary symbol on bottom, Shift symbol on top
    Reversed,
    /// Primary symbol on bottom-left, Shift symbol on top-left, AltGr symbol on bottom-right
    ReversedAltGr,
}

/// A color channel that a gain applies to.
#[derive(Clone, Copy, PartialEq, Eq, Structural, Debug)]
pub enum ColorChannel {
    R,
    G,
    B,
    All,
}

/// Which end of the watch's fade a view-angle change moves.
#[derive(Clone, Copy, PartialEq, Eq, Structural, Debug)]
pub enum ViewAngleKind {
    /// The cosine of the angle at which the watch becomes fully transparent
    MinOpacity,
    /// The cosine of the angle at which the watch becomes fully opaque
    MaxOpacity,
}

#[derive(Clone, Copy, PartialEq, Eq, Structural, Debug)]
pub enum Axis {
    X,
    Y,
    Z,
}

/// The index of a coordinate axis in a position vector.
pub fn axis_index(axis: Axis) -> (i: usize)
    ensures
        i == match axis {
            Axis::X => 0usize,
            Axis::Y => 1usize,
            Axis::Z => 2usize,
        },
{
    match axis {
        Axis::X => 0,
        Axis::Y => 1,
        Axis::Z => 2,
    }
}

#[derive(Clone, Copy, PartialEq, Eq, Structural, Debug)]
pub enum SystemAction {
    ToggleNotificationSounds,
    ToggleNotifications,
    PlayspaceResetOffset,
    PlayspaceFixFloor,
    RecalculateExtent,
    PersistConfig,
}

#[derive(Clone, Copy, PartialEq, Eq, Structural, Debug)]
pub enum WindowAction {
    /// Create a new mirror window, or show/hide an existing one
    ShowMirror,
    /// Create a new UI window, or show/hide an existing one
    ShowUi,
    /// Destroy a previously created window, if it exists
    Destroy,
}

/// A clock's time zone: an index into the configured time zones, or a name.
pub enum TimezoneDef {
    Idx(usize),
    Str(String),
}

#[derive(Clone, Copy, PartialEq, Eq, Structural, Debug)]
pub enum ButtonFunc {
    HideWatch,
    SwitchWatchHand,
}

#[derive(Clone, Copy, PartialEq, Eq, Structural, Debug)]
pub enum ListLayout {
    Horizontal,
    Vertical,
}

/// The action lists of a button, one per way of using it.
#[derive(Clone, Copy, PartialEq, Eq, Structural, Debug)]
pub enum ButtonSlot {
    ClickDown,
    ClickUp,
    LongClickUp,
    RightDown,
    RightUp,
    LongRightUp,
    MiddleDown,
    MiddleUp,
    LongMiddleUp,
    ScrollDown,
    ScrollUp,
}

/// The action list a press in `mode` runs.
pub open spec fn down_slot_spec(mode: PointerMode) -> Option<ButtonSlot> {
    match mode {
        PointerMode::Left => Some(ButtonSlot::ClickDown),
        PointerMode::Right => Some(ButtonSlot::RightDown),
        PointerMode::Middle => Some(ButtonSlot::MiddleDown),
        PointerMode::Special => None,
    }
}

/// The action list a release runs, by the mode of the press and whether it was long.
pub open spec fn up_slot_spec(mode: PointerMode, long_press: bool) -> Option<ButtonSlot> {
    match mode {
        PointerMode::Left => Some(if long_press { ButtonSlot::LongClickUp } else { ButtonSlot::ClickUp }),
        PointerMode::Right => Some(if long_press { ButtonSlot::LongRightUp } else { ButtonSlot::RightUp }),
        PointerMode::Middle => Some(if long_press { ButtonSlot::LongMiddleUp } else { ButtonSlot::MiddleUp }),
        PointerMode::Special => None,
    }
}

pub fn down_slot(mode: PointerMode) -> (r: Option<ButtonSlot>)
    ensures
        r == down_slot_spec(mode),
{
    match mode {
        PointerMode::Left => Some(ButtonSlot::ClickDown),
        PointerMode::Right => Some(ButtonSlot::RightDown),
        PointerMode::Middle => Some(ButtonSlot::MiddleDown),
        PointerMode::Special => None,
    }
}

pub fn up_slot(mode: PointerMode, long_press: bool) -> (r: Option<ButtonSlot>)
    ensures
        r == up_slot_spec(mode, long_press),
{
    match mode {
        PointerMode::Left => Some(if long_press { ButtonSlot::LongClickUp } else { ButtonSlot::ClickUp }),
        PointerMode::Right => Some(if long_press { ButtonSlot::LongRightUp } else { ButtonSlot::RightUp }),
        PointerMode::Middle => Some(if long_press { ButtonSlot::LongMiddleUp } else { ButtonSlot::MiddleUp }),
        PointerMode::Special => None,
    }
}

/// The pointer mode whose presses and releases an action list belongs to.
pub open spec fn slot_mode(s: ButtonSlot) -> Option<PointerMode> {
    match s {
        ButtonSlot::ClickDown | ButtonSlot::ClickUp | ButtonSlot::LongClickUp => Some(PointerMode::Left),
        ButtonSlot::RightDown | ButtonSlot::RightUp | ButtonSlot::LongRightUp => Some(PointerMode::Right),
        ButtonSlot::MiddleDown | ButtonSlot::MiddleUp | ButtonSlot::LongMiddleUp => Some(PointerMode::Middle),
        ButtonSlot::ScrollDown | ButtonSlot::ScrollUp => None,
    }
}

/// Whether an action list runs on a release.
pub open spec fn slot_is_release(s: ButtonSlot) -> bool {
    s == ButtonSlot::ClickUp || s == ButtonSlot::LongClickUp || s == ButtonSlot::RightUp
        || s == ButtonSlot::LongRightUp || s == ButtonSlot::MiddleUp || s == ButtonSlot::LongMiddleUp
}

/// Whether an action list runs on a long press's release.
pub open spec fn slot_is_long(s: ButtonSlot) -> bool {
    s == ButtonSlot::LongClickUp || s == ButtonSlot::LongRightUp || s == ButtonSlot::LongMiddleUp
}

/// A release runs the release list of the same pointer mode as the press, the
/// long one exactly when the press was long; a press runs a press list of its
/// mode. Modes that run a press list run a release list, and the other way
/// round; different modes never share a list.
pub proof fn law_release_matches_press(m: PointerMode, m2: PointerMode, long_press: bool, long2: bool)
    ensures
        down_slot_spec(m) is Some <==> up_slot_spec(m, long_press) is Some,
        down_slot_spec(m) matches Some(d) ==> slot_mode(d) == Some(m) && !slot_is_release(d),
        up_slot_spec(m, long_press) matches Some(u) ==> slot_mode(u) == Some(m) && slot_is_release(u)
            && slot_is_long(u) == long_press,
        (up_slot_spec(m, long_press) is Some && up_slot_spec(m, long_press) == up_slot_spec(m2, long2))
            ==> m == m2 && long_press == long2,
{
}

/// The action list a scroll runs: down for a negative amount, else up.
pub fn scroll_slot(delta_negative: bool) -> (r: ButtonSlot)
    ensures
        r == (if delta_negative { ButtonSlot::ScrollDown } else { ButtonSlot::ScrollUp }),
{
    if delta_negative { ButtonSlot::ScrollDown } else { ButtonSlot::ScrollUp }
}

/// When and how a button was last pressed (time in milliseconds).
#[derive(Clone, Copy, PartialEq, Eq, Structural, Debug)]
pub struct PressData {
    pub last_down: u64,
    pub last_mode: PointerMode,
}

/// A button's action lists, and its last press.
pub struct ButtonData<A> {
    pub press: PressData,
    pub click_down: Option<Vec<A>>,
    pub click_up: Option<Vec<A>>,
    pub long_click_up: Option<Vec<A>>,
    pub right_down: Option<Vec<A>>,
    pub right_up: Option<Vec<A>>,
    pub long_right_up: Option<Vec<A>>,
    pub middle_down: Option<Vec<A>>,
    pub middle_up: Option<Vec<A>>,
    pub long_middle_up: Option<Vec<A>>,
    pub scroll_down: Option<Vec<A>>,
    pub scroll_up: Option<Vec<A>>,
}

impl<A> ButtonData<A> {
    /// A button with no actions, last pressed at `now` in left-click mode.
    pub fn new(now: u64) -> (b: Self)
        ensures
            b.press == (PressData { last_down: now, last_mode: PointerMode::Left }),
            forall|s: ButtonSlot| (#[trigger] b.slot_spec(s)) is None,
    {
        ButtonData {
            press: PressData { last_down: now, last_mode: PointerMode::Left },
            click_down: None,
            click_up: None,
            long_click_up: None,
            right_down: None,
            right_up: None,
            long_right_up: None,
            middle_down: None,
            middle_up: None,
            long_middle_up: None,
            scroll_down: None,
            scroll_up: None,
        }
    }

    /// The action list of a slot.
    pub open spec fn slot_spec(&self, s: ButtonSlot) -> Option<Vec<A>> {
        match s {
            ButtonSlot::ClickDown => self.click_down,
            ButtonSlot::ClickUp => self.click_up,
            ButtonSlot::LongClickUp => self.long_click_up,
            ButtonSlot::RightDown => self.right_down,
            ButtonSlot::RightUp => self.right_up,
            ButtonSlot::LongRightUp => self.long_right_up,
            ButtonSlot::MiddleDown => self.middle_down,
            ButtonSlot::MiddleUp => self.middle_up,
            ButtonSlot::LongMiddleUp => self.long_middle_up,
            ButtonSlot::ScrollDown => self.scroll_down,
            ButtonSlot::ScrollUp => self.scroll_up,
        }
    }

    pub fn slot(&self, s: ButtonSlot) -> (r: Option<&Vec<A>>)
        ensures
            r == match self.slot_spec(s) {
                Some(v) => Some(&v),
                None => None::<&Vec<A>>,
            },
    {
        match s {
            ButtonSlot::ClickDown => self.click_down.as_ref(),
            ButtonSlot::ClickUp => self.click_up.as_ref(),
            ButtonSlot::LongClickUp => self.long_click_up.as_ref(),
            ButtonSlot::RightDown => self.right_down.as_ref(),
            ButtonSlot::RightUp => self.right_up.as_ref(),
            ButtonSlot::LongRightUp => self.long_right_up.as_ref(),
            ButtonSlot::MiddleDown => self.middle_down.as_ref(),
            ButtonSlot::MiddleUp => self.middle_up.as_ref(),
            ButtonSlot::LongMiddleUp => self.long_middle_up.as_ref(),
            ButtonSlot::ScrollDown => self.scroll_down.as_ref(),
            ButtonSlot::ScrollUp => self.scroll_up.as_ref(),
        }
    }

    /// A press in `mode` at `now`: remembers it, and gives the slot whose actions run.
    pub fn on_press(&mut self, mode: PointerMode, now: u64) -> (r: Option<ButtonSlot>)
        ensures
            final(self).press == (PressData { last_down: now, last_mode: mode }),
            forall|s: ButtonSlot| #[trigger] final(self).slot_spec(s) == old(self).slot_spec(s),
            r == down_slot_spec(mode),
    {
        self.press = PressData { last_down: now, last_mode: mode };
        down_slot(mode)
    }

    /// A release at `now`: a long press is one held longer than `long_press_ms`.
    pub fn on_release(&self, now: u64, long_press_ms: u64) -> (r: Option<ButtonSlot>)
        ensures
            r == up_slot_spec(self.press.last_mode,
                now >= self.press.last_down && now - self.press.last_down > long_press_ms),
    {
        let long_press = now >= self.press.last_down && now - self.press.last_down > long_press_ms;
        up_slot(self.press.last_mode, long_press)
    }

    /// A scroll: the slot whose actions run.
    pub fn on_scroll(&self, delta_negative: bool) -> (r: ButtonSlot)
        ensures
            r == (if delta_negative { ButtonSlot::ScrollDown } else { ButtonSlot::ScrollUp }),
    {
        scroll_slot(delta_negative)
    }
}


/// The text of a toast that a system action shows.
#[derive(Clone, Copy, PartialEq, Eq, Structural, Debug)]
pub enum ToastMessage {
    /// The floor is fixed in this many seconds.
    FixingFloorIn(u64),
    /// Notifications were switched on or off.
    Notifications(bool),
    /// Notification sounds were switched on or off.
    NotificationSounds(bool),
}

pub open spec fn on_off(enabled: bool) -> Seq<char> {
    if enabled { "enabled"@ } else { "disabled"@ }
}

impl ToastMessage {
    pub open spec fn title_spec(self) -> Seq<char> {
        match self {
            ToastMessage::FixingFloorIn(n) => "Fixing floor in "@ + decimal(n as nat),
            ToastMessage::Notifications(b) => "Notifications are "@ + on_off(b) + "."@,
            ToastMessage::NotificationSounds(b) => "Notification sounds are "@ + on_off(b) + "."@,
        }
    }

    pub open spec fn body_spec(self) -> Seq<char> {
        match self {
            ToastMessage::FixingFloorIn(_) => "Place either controller on the floor."@,
            _ => ""@,
        }
    }

    pub fn title(&self) -> (r: String)
        ensures
            r@ == self.title_spec(),
    {
        let mut s = String::new();
        match *self {
            ToastMessage::FixingFloorIn(n) => {
                push_str(&mut s, "Fixing floor in ");
                push_decimal(&mut s, n);
            },
            ToastMessage::Notifications(b) => {
                push_str(&mut s, "Notifications are ");
                push_str(&mut s, if b { "enabled" } else { "disabled" });
                push_str(&mut s, ".");
            },
            ToastMessage::NotificationSounds(b) => {
                push_str(&mut s, "Notification sounds are ");
                push_str(&mut s, if b { "enabled" } else { "disabled" });
                push_str(&mut s, ".");
            },
        }
        proof {
            reveal_strlit("");
        }
        s
    }

    pub fn body(&self) -> (r: String)
        ensures
            r@ == self.body_spec(),
    {
        let mut s = String::new();
        match *self {
            ToastMessage::FixingFloorIn(_) => push_str(&mut s, "Place either controller on the floor."),
            _ => {
                proof { reveal_strlit(""); }
            },
        }
        s
    }
}

/// Work that a button queues for the main loop.
pub enum ButtonTask {
    /// Reset the playspace offset.
    ResetPlayspace,
    /// Fix the floor height from a controller's position.
    FixFloor,
    /// Show a toast; `timeout_ms` is the time it stays, the toast default when `None`.
    Toast { message: ToastMessage, timeout_ms: Option<u32> },
    /// Create the named mirror window, or show/hide it.
    CreateMirror(String),
    /// Create the named panel window, or show/hide it.
    CreateUi(String),
    /// Destroy the named window.
    DropOverlay(String),
}

/// The notification switches of the configuration.
#[derive(Clone, Copy, PartialEq, Eq, Structural, Debug)]
pub struct NotificationSettings {
    pub notifications_enabled: bool,
    pub notifications_sound_enabled: bool,
}

/// What is left to the caller after a system action.
#[derive(Clone, Copy, PartialEq, Eq, Structural, Debug)]
pub enum SystemOutcome {
    Done,
    /// Save the watch and notification settings to disk.
    PersistConfig,
}

/// A countdown toast of the floor fix, `i` seconds after the start.
pub open spec fn countdown_toast(i: nat) -> ButtonTask {
    ButtonTask::Toast { message: ToastMessage::FixingFloorIn((5 - i) as u64), timeout_ms: Some(1000) }
}

/// `q` after queueing the first `i` countdown toasts of a floor fix started at `now`.
pub open spec fn countdown_queue(q: Seq<AppTask<ButtonTask>>, now: u64, id: u64, i: nat) -> Seq<AppTask<ButtonTask>>
    decreases i,
{
    if i == 0 {
        q
    } else {
        let k = (i - 1) as nat;
        enqueued(countdown_queue(q, now, id, k), (now + 1000 * k) as u64, (id + k) as u64, countdown_toast(k))
    }
}

/// The queue after a system action, started at `now` with next submission number `id`.
pub open spec fn system_queue(action: SystemAction, s: NotificationSettings, q: Seq<AppTask<ButtonTask>>, now: u64, id: u64)
    -> Seq<AppTask<ButtonTask>> {
    match action {
        SystemAction::PlayspaceResetOffset => enqueued(q, now, id, ButtonTask::ResetPlayspace),
        SystemAction::PlayspaceFixFloor => enqueued(countdown_queue(q, now, id, 5), (now + 5000) as u64,
            (id + 5) as u64, ButtonTask::FixFloor),
        SystemAction::ToggleNotifications => enqueued(q, now, id,
            ButtonTask::Toast { message: ToastMessage::Notifications(!s.notifications_enabled), timeout_ms: None }),
        SystemAction::ToggleNotificationSounds => enqueued(q, now, id,
            ButtonTask::Toast { message: ToastMessage::NotificationSounds(!s.notifications_sound_enabled), timeout_ms: None }),
        _ => q,
    }
}

/// How many tasks a system action queues.
pub open spec fn system_task_count(action: SystemAction) -> nat {
    match action {
        SystemAction::PlayspaceFixFloor => 6,
        SystemAction::PlayspaceResetOffset | SystemAction::ToggleNotifications
            | SystemAction::ToggleNotificationSounds => 1,
        _ => 0,
    }
}

/// Runs a system action at time `now` (milliseconds): queues its tasks and
/// toasts, and flips the notification switches it toggles. The floor fix counts
/// down with a toast each second and fixes the floor after five seconds.
pub fn run_system(action: &SystemAction, settings: &mut NotificationSettings, tasks: &mut TaskContainer<ButtonTask>, now: u64)
    -> (r: SystemOutcome)
    requires
        *action != SystemAction::RecalculateExtent,
        old(tasks).wf(),
        old(tasks).next_id() + 6 < u64::MAX,
        now + 5000 <= u64::MAX,
    ensures
        final(tasks).wf(),
        final(tasks).queue() == system_queue(*action, *old(settings), old(tasks).queue(), now, old(tasks).next_id()),
        final(tasks).next_id() == old(tasks).next_id() + system_task_count(*action),
        final(settings).notifications_enabled == (old(settings).notifications_enabled
            != (*action == SystemAction::ToggleNotifications)),
        final(settings).notifications_sound_enabled == (old(settings).notifications_sound_enabled
            != (*action == SystemAction::ToggleNotificationSounds)),
        r == (if *action == SystemAction::PersistConfig { SystemOutcome::PersistConfig } else { SystemOutcome::Done }),
{
    match *action {
        SystemAction::PlayspaceResetOffset => {
            tasks.enqueue(ButtonTask::ResetPlayspace, now);
            SystemOutcome::Done
        },
        SystemAction::PlayspaceFixFloor => {
            let ghost q0 = tasks.queue();
            let ghost id0 = tasks.next_id();
            let mut i: u64 = 0;
            while i < 5
                invariant
                    i <= 5,
                    tasks.wf(),
                    tasks.next_id() == id0 + i,
                    id0 + 6 < u64::MAX,
                    now + 5000 <= u64::MAX,
                    tasks.queue() == countdown_queue(q0, now, id0, i as nat),
                decreases 5 - i,
            {
                tasks.enqueue_at(ButtonTask::Toast { message: ToastMessage::FixingFloorIn(5 - i), timeout_ms: Some(1000) },
                    now + 1000 * i);
                i = i + 1;
            }
            tasks.enqueue_at(ButtonTask::FixFloor, now + 5000);
            SystemOutcome::Done
        },
        SystemAction::RecalculateExtent => SystemOutcome::Done,
        SystemAction::ToggleNotifications => {
            settings.notifications_enabled = !settings.notifications_enabled;
            tasks.enqueue(ButtonTask::Toast { message: ToastMessage::Notifications(settings.notifications_enabled),
                timeout_ms: None }, now);
            SystemOutcome::Done
        },
        SystemAction::ToggleNotificationSounds => {
            settings.notifications_sound_enabled = !settings.notifications_sound_enabled;
            tasks.enqueue(ButtonTask::Toast { message: ToastMessage::NotificationSounds(settings.notifications_sound_enabled),
                timeout_ms: None }, now);
            SystemOutcome::Done
        },
        SystemAction::PersistConfig => SystemOutcome::PersistConfig,
    }
}

/// The task a window action queues, by the window's name.
pub open spec fn window_task_matches(action: WindowAction, window: Seq<char>, t: ButtonTask) -> bool {
    match (action, t) {
        (WindowAction::ShowMirror, ButtonTask::CreateMirror(n)) => n@ == window,
        (WindowAction::ShowUi, ButtonTask::CreateUi(n)) => n@ == window,
        (WindowAction::Destroy, ButtonTask::DropOverlay(n)) => n@ == window,
        _ => false,
    }
}

/// Runs a window action on the named window at time `now`: queues the creation
/// (mirror or panel) or the destruction of the window.
pub fn run_window(window: &str, action: &WindowAction, tasks: &mut TaskContainer<ButtonTask>, now: u64)
    requires
        old(tasks).wf(),
        old(tasks).next_id() < u64::MAX,
    ensures
        final(tasks).wf(),
        final(tasks).next_id() == old(tasks).next_id() + 1,
        exists|t: ButtonTask| window_task_matches(*action, window@, t)
            && final(tasks).queue() == enqueued(old(tasks).queue(), now, old(tasks).next_id(), t),
{
    let name = window.to_owned();
    let task = match *action {
        WindowAction::ShowMirror => ButtonTask::CreateMirror(name),
        WindowAction::ShowUi => ButtonTask::CreateUi(name),
        WindowAction::Destroy => ButtonTask::DropOverlay(name),
    };
    let ghost t = task;
    assert(window_task_matches(*action, window@, t));
    tasks.enqueue(task, now);
}


/// A color as 8-bit channels.
#[derive(Clone, Copy, PartialEq, Eq, Structural, Debug)]
pub struct Rgba8 {
    pub r: u8,
    pub g: u8,
    pub b: u8,
    pub a: u8,
}

/// A color string that is not one.
#[derive(Clone, Copy, PartialEq, Eq, Structural, Debug)]
pub enum ColorError {
    /// Must be 7 or 9 bytes long (e.g. `#FF00FF`), with hexadecimal channels.
    Invalid,
}

/// The value of a hexadecimal digit.
pub open spec fn hex_digit(c: u8) -> Option<u8> {
    if 0x30 <= c <= 0x39 {
        Some((c - 0x30) as u8)
    } else if 0x61 <= c <= 0x66 {
        Some((c - 0x61 + 10) as u8)
    } else if 0x41 <= c <= 0x46 {
        Some((c - 0x41 + 10) as u8)
    } else {
        None
    }
}

/// Two bytes read as a hexadecimal `u8` the way `u8::from_str_radix(_, 16)`
/// reads them: two digits, or a `+` sign and one digit.
pub open spec fn hex_pair(a: u8, b: u8) -> Option<u8> {
    if a == 0x2b {
        hex_digit(b)
    } else {
        match (hex_digit(a), hex_digit(b)) {
            (Some(x), Some(y)) => Some((16 * x + y) as u8),
            _ => None,
        }
    }
}

/// The channel at bytes `i` and `i + 1`.
pub open spec fn channel(b: Seq<u8>, i: int) -> Option<u8> {
    hex_pair(b[i], b[i + 1])
}

/// The color that `b` spells: 7 bytes give red, green and blue after one leading
/// byte (opaque), 9 bytes also give alpha.
pub open spec fn color_of_bytes(b: Seq<u8>) -> Option<Rgba8> {
    if b.len() == 7 {
        match (channel(b, 1), channel(b, 3), channel(b, 5)) {
            (Some(r), Some(g), Some(bl)) => Some(Rgba8 { r, g, b: bl, a: 255 }),
            _ => None,
        }
    } else if b.len() == 9 {
        match (channel(b, 1), channel(b, 3), channel(b, 5), channel(b, 7)) {
            (Some(r), Some(g), Some(bl), Some(a)) => Some(Rgba8 { r, g, b: bl, a }),
            _ => None,
        }
    } else {
        None
    }
}

/// The channels of a color string can be cut out of it: each channel starts on
/// a character boundary.
pub open spec fn color_cuts_ok(s: &str) -> bool {
    let b = s.spec_bytes();
    &&& b.len() == 7 ==> is_char_boundary(b, 1) && is_char_boundary(b, 3) && is_char_boundary(b, 5)
    &&& b.len() == 9 ==> is_char_boundary(b, 1) && is_char_boundary(b, 3) && is_char_boundary(b, 5)
        && is_char_boundary(b, 7)
}

fn hex_digit_of(c: u8) -> (r: Option<u8>)
    ensures
        r == hex_digit(c),
{
    if 0x30 <= c && c <= 0x39 {
        Some(c - 0x30)
    } else if 0x61 <= c && c <= 0x66 {
        Some(c - 0x61 + 10)
    } else if 0x41 <= c && c <= 0x46 {
        Some(c - 0x41 + 10)
    } else {
        None
    }
}

fn parse_channel(b: &[u8], i: usize) -> (r: Option<u8>)
    requires
        i + 1 < b@.len(),
    ensures
        r == channel(b@, i as int),
{
    let x = b[i];
    let y = b[i + 1];
    if x == 0x2b {
        return hex_digit_of(y);
    }
    match (hex_digit_of(x), hex_digit_of(y)) {
        (Some(h), Some(l)) => Some(16 * h + l),
        _ => None,
    }
}

/// Parses an HTML color such as `#FF00FF` or `#FF00FF80`.
pub fn color_parse(html_hex: &str) -> (r: Result<Rgba8, ColorError>)
    requires
        color_cuts_ok(html_hex),
    ensures
        match color_of_bytes(html_hex.spec_bytes()) {
            Some(c) => r == Ok::<Rgba8, ColorError>(c),
            None => r == Err::<Rgba8, ColorError>(ColorError::Invalid),
        },
{
    let b = html_hex.as_bytes();
    if b.len() == 7 {
        match (parse_channel(b, 1), parse_channel(b, 3), parse_channel(b, 5)) {
            (Some(r), Some(g), Some(bl)) => { return Ok(Rgba8 { r, g, b: bl, a: 255 }); },
            _ => {},
        }
    } else if b.len() == 9 {
        match (parse_channel(b, 1), parse_channel(b, 3), parse_channel(b, 5), parse_channel(b, 7)) {
            (Some(r), Some(g), Some(bl), Some(a)) => { return Ok(Rgba8 { r, g, b: bl, a }); },
            _ => {},
        }
    }
    Err(ColorError::Invalid)
}


/// What `str::to_lowercase` gives for the characters `s`.
pub uninterp spec fn lowercase(s: Seq<char>) -> Seq<char>;

/// `str::to_lowercase`: the lowercase mapping of each character (std's own
/// Unicode tables); the contract only names the result.
#[verifier::external_body]
fn to_lowercase(s: &str) -> (r: String)
    ensures
        r@ == lowercase(s@),
{
    s.to_lowercase()
}

/// `s` with every occurrence of `pat`, scanned left to right without overlap,
/// replaced by `rep`.
pub open spec fn replaced(s: Seq<char>, pat: Seq<char>, rep: Seq<char>) -> Seq<char>
    decreases s.len(),
{
    if pat.len() == 0 || s.len() < pat.len() {
        s
    } else if s.take(pat.len() as int) == pat {
        rep + replaced(s.skip(pat.len() as int), pat, rep)
    } else {
        seq![s[0]] + replaced(s.skip(1), pat, rep)
    }
}

fn matches_at(s: &Vec<char>, pat: &Vec<char>, i: usize) -> (r: bool)
    requires
        i <= s@.len(),
    ensures
        r == (pat@.len() <= s@.skip(i as int).len() && s@.skip(i as int).take(pat@.len() as int) == pat@),
{
    if pat.len() > s.len() - i {
        return false;
    }
    let mut k: usize = 0;
    while k < pat.len()
        invariant
            k <= pat@.len(),
            i + pat@.len() <= s@.len(),
            forall|j: int| 0 <= j < k ==> s@[i + j] == pat@[j],
        decreases pat@.len() - k,
    {
        assert(i + k < s.len());
        if s[i + k] != pat[k] {
            assert(s@.skip(i as int).take(pat@.len() as int)[k as int] != pat@[k as int]);
            return false;
        }
        k = k + 1;
    }
    assert(s@.skip(i as int).take(pat@.len() as int) =~= pat@);
    true
}

/// Replaces every occurrence of `pat` in `s` by `rep`, like `str::replace`.
pub fn replace_all(s: &Vec<char>, pat: &Vec<char>, rep: &Vec<char>) -> (r: Vec<char>)
    requires
        pat@.len() > 0,
    ensures
        r@ == replaced(s@, pat@, rep@),
{
    let mut out: Vec<char> = Vec::new();
    let mut i: usize = 0;
    assert(s@.skip(0) == s@);
    while i < s.len()
        invariant
            i <= s@.len(),
            pat@.len() > 0,
            out@ + replaced(s@.skip(i as int), pat@, rep@) == replaced(s@, pat@, rep@),
        decreases s@.len() - i,
    {
        let ghost t = s@.skip(i as int);
        if matches_at(s, pat, i) {
            let mut k: usize = 0;
            let ghost o0 = out@;
            while k < rep.len()
                invariant
                    k <= rep@.len(),
                    out@ == o0 + rep@.take(k as int),
                decreases rep@.len() - k,
            {
                out.push(rep[k]);
                assert(rep@.take(k + 1) == rep@.take(k as int).push(rep@[k as int]));
                k = k + 1;
            }
            assert(rep@.take(rep@.len() as int) == rep@);
            assert(t.skip(pat@.len() as int) == s@.skip(i + pat@.len()));
            i = i + pat.len();
        } else {
            let ghost o0 = out@;
            out.push(s[i]);
            proof {
                assert(t.skip(1) == s@.skip(i + 1));
                if t.len() < pat@.len() {
                    assert(t.skip(1).len() < pat@.len());
                    assert(t == seq![s@[i as int]] + t.skip(1));
                }
                assert(o0.push(s@[i as int]) == o0 + seq![s@[i as int]]);
            }
            i = i + 1;
        }
    }
    assert(s@.skip(i as int).len() == 0);
    assert(out@ + Seq::<char>::empty() == out@);
    out
}

/// A timer label: `%s`, `%m` and `%h` in the lowercased format become the
/// elapsed seconds, minutes and hours, at least two digits each.
pub open spec fn timer_text_spec(lowered: Seq<char>, secs: nat) -> Seq<char> {
    let a = replaced(lowered, "%s"@, pad2(secs % 60));
    let b = replaced(a, "%m"@, pad2((secs / 60) % 60));
    replaced(b, "%h"@, pad2(secs / 60 / 60))
}

fn padded(n: u64) -> (r: Vec<char>)
    ensures
        r@ == pad2(n as nat),
{
    let mut s = String::new();
    push_decimal_2(&mut s, n);
    proof { reveal_strlit(""); }
    chars_of(s.as_str())
}

/// The text of a timer label whose format is already lowercased.
pub fn timer_text_of_lowered(lowered: &str, elapsed_secs: u64) -> (r: String)
    ensures
        r@ == timer_text_spec(lowered@, elapsed_secs as nat),
{
    proof {
        reveal_strlit("%s");
        reveal_strlit("%m");
        reveal_strlit("%h");
    }
    let text = chars_of(lowered);
    let a = replace_all(&text, &chars_of("%s"), &padded(elapsed_secs % 60));
    let b = replace_all(&a, &chars_of("%m"), &padded((elapsed_secs / 60) % 60));
    let c = replace_all(&b, &chars_of("%h"), &padded(elapsed_secs / 60 / 60));
    string_from_chars(&c)
}

/// The text of a timer label with format `format`, `elapsed_secs` after it started.
pub fn timer_text(format: &str, elapsed_secs: u64) -> (r: String)
    ensures
        r@ == timer_text_spec(lowercase(format@), elapsed_secs as nat),
{
    let lowered = to_lowercase(format);
    timer_text_of_lowered(lowered.as_str(), elapsed_secs)
}

/// The part of `s` after its last `/` (all of `s` without one).
pub open spec fn last_segment(s: Seq<char>) -> Seq<char>
    decreases s.len(),
{
    if s.len() == 0 {
        s
    } else if s.last() == '/' {
        Seq::empty()
    } else {
        last_segment(s.drop_last()).push(s.last())
    }
}

/// A time zone's name for display: its last path segment, underscores as spaces.
pub open spec fn pretty_timezone(tz: Seq<char>) -> Seq<char> {
    last_segment(tz).map_values(|c: char| if c == '_' { ' ' } else { c })
}

/// The display name of a time zone.
pub fn pretty_timezone_name(tz: &str) -> (r: String)
    ensures
        r@ == pretty_timezone(tz@),
{
    let cs = chars_of(tz);
    let mut start: usize = cs.len();
    assert(cs@.take(start as int) == cs@);
    assert(cs@.skip(start as int) == Seq::<char>::empty());
    assert(cs@ + Seq::<char>::empty() == cs@);
    while start > 0 && cs[start - 1] != '/'
        invariant
            start <= cs@.len(),
            cs@ == tz@,
            last_segment(cs@) == last_segment(cs@.take(start as int)) + cs@.skip(start as int),
        decreases start,
    {
        let ghost t = cs@.take(start as int);
        assert(t.drop_last() == cs@.take(start - 1));
        assert(cs@.skip(start - 1) == seq![t.last()] + cs@.skip(start as int));
        start = start - 1;
    }
    proof {
        let t = cs@.take(start as int);
        if start > 0 {
            assert(t.last() == '/');
        }
        assert(last_segment(t) == Seq::<char>::empty());
        assert(last_segment(cs@) == cs@.skip(start as int));
    }
    let mut out: Vec<char> = Vec::new();
    let mut i: usize = start;
    while i < cs.len()
        invariant
            start <= i <= cs@.len(),
            out@ == cs@.subrange(start as int, i as int).map_values(|c: char| if c == '_' { ' ' } else { c }),
        decreases cs@.len() - i,
    {
        let c = cs[i];
        out.push(if c == '_' { ' ' } else { c });
        assert(cs@.subrange(start as int, i + 1) == cs@.subrange(start as int, i as int).push(c));
        i = i + 1;
    }
    assert(cs@.subrange(start as int, cs@.len() as int) == cs@.skip(start as int));
    string_from_chars(&out)
}

/// A time zone label: the configured time zone `timezone` by its display name,
/// or `Error` (shown in the fallback color) when there is no such zone.
pub fn timezone_label(timezone: usize, timezones: &Vec<String>) -> (r: (String, bool))
    ensures
        timezone < timezones@.len() ==> r.0@ == pretty_timezone(timezones@[timezone as int]@) && !r.1,
        timezone >= timezones@.len() ==> r.0@ == "Error"@ && r.1,
{
    if timezone < timezones.len() {
        (pretty_timezone_name(timezones[timezone].as_str()), false)
    } else {
        let mut s = String::new();
        push_str(&mut s, "Error");
        proof { reveal_strlit(""); }
        (s, true)
    }
}

/// The time zone name a clock label parses, and whether its configuration was
/// wrong (an index past the configured zones; the label then shows in the
/// fallback color and uses local time).
pub fn clock_timezone(tz: &Option<TimezoneDef>, timezones: &Vec<String>) -> (r: (Option<String>, bool))
    ensures
        match tz {
            Some(TimezoneDef::Idx(i)) => if *i < timezones@.len() {
                r.0 is Some && r.0->0@ == timezones@[*i as int]@ && !r.1
            } else {
                r.0 is None && r.1
            },
            Some(TimezoneDef::Str(s)) => r.0 is Some && r.0->0@ == s@ && !r.1,
            None => r.0 is None && !r.1,
        },
{
    match tz {
        Some(TimezoneDef::Idx(i)) => {
            if *i < timezones.len() {
                (Some(timezones[*i].clone()), false)
            } else {
                (None, true)
            }
        },
        Some(TimezoneDef::Str(s)) => (Some(s.clone()), false),
        None => (None, false),
    }
}


/// What a button can do to an overlay, besides changing its opacity.
#[derive(Clone, Copy, PartialEq, Eq, Structural, Debug)]
pub enum OverlayToggle {
    /// Reset the overlay to be in front of the HMD with its original scale
    Reset,
    /// Toggle the visibility of the overlay
    ToggleVisible,
    /// Toggle the ability to grab and recenter the overlay
    ToggleImmovable,
    /// Toggle the ability of the overlay to react to the laser pointer
    ToggleInteraction,
}

/// The text of a toast about an overlay.
#[derive(Clone, Copy, PartialEq, Eq, Structural, Debug)]
pub enum OverlayToast {
    HasBeenReset,
    LockedInPlace,
    Unlocked,
    NonInteractable,
    Interactable,
}

/// The title of a toast about the overlay named `name`.
pub open spec fn overlay_toast_title(t: OverlayToast, name: Seq<char>) -> Seq<char> {
    name + match t {
        OverlayToast::HasBeenReset => " has been reset!"@,
        OverlayToast::LockedInPlace => " is now locked in place!"@,
        OverlayToast::Unlocked => " is now unlocked!"@,
        OverlayToast::NonInteractable => " is now non-interactable!"@,
        OverlayToast::Interactable => " is now interactable!"@,
    }
}

/// The title of a toast about the overlay named `name`.
pub fn overlay_toast_text(t: OverlayToast, name: &str) -> (r: String)
    ensures
        r@ == overlay_toast_title(t, name@),
{
    let mut s = String::new();
    push_str(&mut s, name);
    proof { reveal_strlit(""); }
    match t {
        OverlayToast::HasBeenReset => push_str(&mut s, " has been reset!"),
        OverlayToast::LockedInPlace => push_str(&mut s, " is now locked in place!"),
        OverlayToast::Unlocked => push_str(&mut s, " is now unlocked!"),
        OverlayToast::NonInteractable => push_str(&mut s, " is now non-interactable!"),
        OverlayToast::Interactable => push_str(&mut s, " is now interactable!"),
    }
    s
}

/// What is left to the caller after an overlay action: a reset (hard when
/// true) and a toast.
#[derive(Clone, Copy, PartialEq, Eq, Structural, Debug)]
pub struct OverlayActionOutcome {
    pub reset: Option<bool>,
    pub toast: Option<OverlayToast>,
}

/// The overlay and outcome after an action.
pub open spec fn overlay_action_spec(o: OverlayState, a: OverlayToggle) -> (OverlayState, OverlayActionOutcome) {
    match a {
        OverlayToggle::Reset => (o, OverlayActionOutcome { reset: Some(true), toast: Some(OverlayToast::HasBeenReset) }),
        OverlayToggle::ToggleVisible => {
            let v = !o.want_visible;
            if o.recenter {
                (OverlayState { want_visible: v, show_hide: v, ..o }, OverlayActionOutcome { reset: Some(false), toast: None })
            } else {
                (OverlayState { want_visible: v, ..o }, OverlayActionOutcome { reset: None, toast: None })
            }
        },
        OverlayToggle::ToggleImmovable => {
            let r = !o.recenter;
            (OverlayState { recenter: r, grabbable: r, show_hide: r, ..o }, OverlayActionOutcome {
                reset: None,
                toast: Some(if r { OverlayToast::Unlocked } else { OverlayToast::LockedInPlace }),
            })
        },
        OverlayToggle::ToggleInteraction => {
            let i = !o.interactable;
            (OverlayState { interactable: i, ..o }, OverlayActionOutcome {
                reset: None,
                toast: Some(if i { OverlayToast::Interactable } else { OverlayToast::NonInteractable }),
            })
        },
    }
}

/// Carries out an overlay action on the overlay it names.
pub fn apply_overlay_action(o: &mut OverlayState, a: OverlayToggle) -> (r: OverlayActionOutcome)
    ensures
        (*final(o), r) == overlay_action_spec(*old(o), a),
{
    match a {
        OverlayToggle::Reset => OverlayActionOutcome { reset: Some(true), toast: Some(OverlayToast::HasBeenReset) },
        OverlayToggle::ToggleVisible => {
            o.want_visible = !o.want_visible;
            if o.recenter {
                o.show_hide = o.want_visible;
                OverlayActionOutcome { reset: Some(false), toast: None }
            } else {
                OverlayActionOutcome { reset: None, toast: None }
            }
        },
        OverlayToggle::ToggleImmovable => {
            o.recenter = !o.recenter;
            o.grabbable = o.recenter;
            o.show_hide = o.recenter;
            OverlayActionOutcome {
                reset: None,
                toast: Some(if o.recenter { OverlayToast::Unlocked } else { OverlayToast::LockedInPlace }),
            }
        },
        OverlayToggle::ToggleInteraction => {
            o.interactable = !o.interactable;
            OverlayActionOutcome {
                reset: None,
                toast: Some(if o.interactable { OverlayToast::Interactable } else { OverlayToast::NonInteractable }),
            }
        },
    }
}

/// The hand the watch moves to when switching hands: the right one from the
/// left, the left one otherwise.
pub fn switched_hand(rel: RelativeTo) -> (r: RelativeTo)
    ensures
        r == (if rel == RelativeTo::Hand(0) { RelativeTo::Hand(1) } else { RelativeTo::Hand(0) }),
{
    match rel {
        RelativeTo::Hand(0) => RelativeTo::Hand(1),
        _ => RelativeTo::Hand(0),
    }
}

} // verus!
