//! Avatar parameters sent over OSC: which overlays are open, when to send, and
//! the parameter names of the tracked devices' batteries. Encoding and sending
//! stay with the caller.

use vstd::prelude::*;
use crate::overlay::{index_of_id, OverlayContainer, OverlayState};
use crate::pointer::TrackedDeviceRole;
use crate::text::{decimal, push_decimal, push_str, str_eq};

verus! {

/// Overlay parameters: how many interactable overlays are open, and whether
/// the keyboard and the watch are shown.
#[derive(Clone, Copy, PartialEq, Eq, Structural, Debug)]
pub struct OscOverlayParams {
    pub open_overlay_count: i32,
    pub keyboard_open: bool,
    pub wrist_visible: bool,
}

/// The shown overlays other than the watch and the keyboard that can be interacted with.
pub open spec fn open_count(s: Seq<OverlayState>, watch: Seq<char>, keyboard: Seq<char>) -> nat
    decreases s.len(),
{
    if s.len() == 0 {
        0
    } else {
        let o = s.last();
        open_count(s.drop_last(), watch, keyboard)
            + if o.want_visible && o.name@ != watch && o.name@ != keyboard && o.interactable { 1nat } else { 0nat }
    }
}

/// Some shown overlay is named `name` (and not `other`, which is matched first).
pub open spec fn shown_named(s: Seq<OverlayState>, name: Seq<char>, other: Option<Seq<char>>) -> bool {
    exists|i: int| 0 <= i < s.len() && s[i].want_visible && #[trigger] s[i].name@ == name
        && match other { Some(n) => s[i].name@ != n, None => true }
}

proof fn lemma_open_count_bound(s: Seq<OverlayState>, watch: Seq<char>, keyboard: Seq<char>)
    ensures
        open_count(s, watch, keyboard) <= s.len(),
    decreases s.len(),
{
    if s.len() > 0 {
        lemma_open_count_bound(s.drop_last(), watch, keyboard);
    }
}

/// The overlay parameters of `overlays`, with the watch and keyboard overlays named as given.
pub fn overlay_params(container: &OverlayContainer, watch_name: &str, keyboard_name: &str) -> (r: OscOverlayParams)
    requires
        container.wf(),
        container.view().len() <= i32::MAX,
    ensures
        r.open_overlay_count == open_count(container.view(), watch_name@, keyboard_name@),
        r.wrist_visible == shown_named(container.view(), watch_name@, None),
        r.keyboard_open == shown_named(container.view(), keyboard_name@, Some(watch_name@)),
{
    let ids = container.ids();
    let ghost overlays = container.view();
    let mut count: i32 = 0;
    let mut keyboard = false;
    let mut wrist = false;
    let mut i: usize = 0;
    while i < ids.len()
        invariant
            container.wf(),
            overlays == container.view(),
            ids@.len() == overlays.len(),
            forall|k: int| 0 <= k < ids@.len() ==> ids@[k] == (#[trigger] overlays[k]).id.0,
            i <= overlays.len(),
            overlays.len() <= i32::MAX,
            count == open_count(overlays.take(i as int), watch_name@, keyboard_name@),
            wrist == shown_named(overlays.take(i as int), watch_name@, None),
            keyboard == shown_named(overlays.take(i as int), keyboard_name@, Some(watch_name@)),
        decreases overlays.len() - i,
    {
        let ghost t = overlays.take(i + 1);
        assert(t.drop_last() == overlays.take(i as int));
        proof {
            lemma_open_count_bound(overlays.take(i as int), watch_name@, keyboard_name@);
            let c = choose|c: int| 0 <= c < overlays.len() && overlays[c].id.0 == ids@[i as int];
            if c != i {
                assert(overlays[c].id.0 != overlays[i as int].id.0);
            }
            assert(index_of_id(overlays, ids@[i as int]) == Some(i as int));
        }
        let o = container.get_by_id(ids[i]).unwrap();
        if o.want_visible {
            if str_eq(o.name.as_str(), watch_name) {
                wrist = true;
                assert(t[i as int].name@ == watch_name@);
            } else if str_eq(o.name.as_str(), keyboard_name) {
                keyboard = true;
                assert(t[i as int].name@ == keyboard_name@);
            } else if o.interactable {
                count = count + 1;
            }
        }
        proof {
            let p = overlays.take(i as int);
            assert forall|j: int| 0 <= j < p.len() implies #[trigger] t[j] == p[j] by {}
            if shown_named(t, watch_name@, None) != shown_named(p, watch_name@, None) {
                let j = choose|j: int| 0 <= j < t.len() && t[j].want_visible && #[trigger] t[j].name@ == watch_name@;
                assert(j == i);
            }
            if shown_named(t, keyboard_name@, Some(watch_name@)) != shown_named(p, keyboard_name@, Some(watch_name@)) {
                let j = choose|j: int| 0 <= j < t.len() && t[j].want_visible && #[trigger] t[j].name@ == keyboard_name@
                    && t[j].name@ != watch_name@;
                assert(j == i);
            }
        }
        i = i + 1;
    }
    assert(overlays.take(overlays.len() as int) == overlays);
    OscOverlayParams { open_overlay_count: count, keyboard_open: keyboard, wrist_visible: wrist }
}

/// When the parameters were last sent (milliseconds).
#[derive(Clone, Copy, PartialEq, Eq, Structural, Debug)]
pub struct OscSchedule {
    pub last_sent_overlay: u64,
    pub last_sent_battery: u64,
}

/// Overlay parameters go out every 100 ms.
pub const OVERLAY_PERIOD_MS: u64 = 100;
/// Battery levels go out every 10 s.
pub const BATTERY_PERIOD_MS: u64 = 10000;

/// At least `period` has passed since `last` (no time passes backwards).
pub open spec fn elapsed_at_least(now: u64, last: u64, period: u64) -> bool {
    now >= last && now - last >= period
}

impl OscSchedule {
    pub fn new(now: u64) -> (s: Self)
        ensures
            s.last_sent_overlay == now && s.last_sent_battery == now,
    {
        OscSchedule { last_sent_overlay: now, last_sent_battery: now }
    }

    /// Which parameters are due at `now` (overlays, batteries); those due are
    /// marked as sent now.
    pub fn due(&mut self, now: u64) -> (r: (bool, bool))
        ensures
            r.0 == elapsed_at_least(now, old(self).last_sent_overlay, OVERLAY_PERIOD_MS),
            r.1 == elapsed_at_least(now, old(self).last_sent_battery, BATTERY_PERIOD_MS),
            final(self).last_sent_overlay == (if r.0 { now } else { old(self).last_sent_overlay }),
            final(self).last_sent_battery == (if r.1 { now } else { old(self).last_sent_battery }),
    {
        let overlay = now >= self.last_sent_overlay && now - self.last_sent_overlay >= OVERLAY_PERIOD_MS;
        if overlay {
            self.last_sent_overlay = now;
        }
        let battery = now >= self.last_sent_battery && now - self.last_sent_battery >= BATTERY_PERIOD_MS;
        if battery {
            self.last_sent_battery = now;
        }
        (overlay, battery)
    }
}

/// The trackers among `roles`.
pub open spec fn tracker_count(roles: Seq<TrackedDeviceRole>) -> nat
    decreases roles.len(),
{
    if roles.len() == 0 {
        0
    } else {
        tracker_count(roles.drop_last()) + if roles.last() == TrackedDeviceRole::Tracker { 1nat } else { 0nat }
    }
}

/// The controllers among `roles`.
pub open spec fn controller_count(roles: Seq<TrackedDeviceRole>) -> nat
    decreases roles.len(),
{
    if roles.len() == 0 {
        0
    } else {
        controller_count(roles.drop_last()) + if roles.last() == TrackedDeviceRole::LeftHand
            || roles.last() == TrackedDeviceRole::RightHand { 1nat } else { 0nat }
    }
}

/// The parameter name of the device at `i`: trackers are numbered from 1 in order.
pub open spec fn battery_param_name(roles: Seq<TrackedDeviceRole>, i: int) -> Option<Seq<char>> {
    match roles[i] {
        TrackedDeviceRole::Unassigned => None,
        TrackedDeviceRole::Hmd => Some("headset"@),
        TrackedDeviceRole::LeftHand => Some("leftController"@),
        TrackedDeviceRole::RightHand => Some("rightController"@),
        TrackedDeviceRole::Tracker => Some("tracker"@ + decimal(tracker_count(roles.take(i + 1)))),
    }
}

/// The addresses a device's battery level and charging state go to.
pub struct BatteryAddresses {
    pub battery: String,
    pub charging: String,
}

pub open spec fn battery_address(name: Seq<char>) -> Seq<char> {
    "/avatar/parameters/"@ + name + "Battery"@
}

pub open spec fn charging_address(name: Seq<char>) -> Seq<char> {
    "/avatar/parameters/"@ + name + "Charging"@
}

proof fn lemma_counts_prefix(roles: Seq<TrackedDeviceRole>, k: int)
    requires
        0 <= k <= roles.len(),
    ensures
        tracker_count(roles.take(k)) <= tracker_count(roles),
        controller_count(roles.take(k)) <= controller_count(roles),
    decreases roles.len() - k,
{
    if k < roles.len() {
        lemma_counts_prefix(roles, k + 1);
        assert(roles.take(k + 1).drop_last() == roles.take(k));
    } else {
        assert(roles.take(k) == roles);
    }
}

/// The battery addresses of each device (`None` for a device without a role).
pub fn battery_addresses(roles: &Vec<TrackedDeviceRole>) -> (r: Vec<Option<BatteryAddresses>>)
    requires
        tracker_count(roles@) <= 127,
        controller_count(roles@) <= 127,
    ensures
        r@.len() == roles@.len(),
        forall|i: int| 0 <= i < roles@.len() ==> match (#[trigger] r@[i], battery_param_name(roles@, i)) {
            (Some(a), Some(n)) => a.battery@ == battery_address(n) && a.charging@ == charging_address(n),
            (None, None) => true,
            _ => false,
        },
{
    let mut out: Vec<Option<BatteryAddresses>> = Vec::new();
    let mut trackers: u8 = 0;
    let mut i: usize = 0;
    while i < roles.len()
        invariant
            i <= roles@.len(),
            out@.len() == i,
            trackers == tracker_count(roles@.take(i as int)),
            tracker_count(roles@) <= 127,
            forall|j: int| 0 <= j < i ==> match (#[trigger] out@[j], battery_param_name(roles@, j)) {
                (Some(a), Some(n)) => a.battery@ == battery_address(n) && a.charging@ == charging_address(n),
                (None, None) => true,
                _ => false,
            },
        decreases roles@.len() - i,
    {
        proof {
            lemma_counts_prefix(roles@, i + 1);
            assert(roles@.take(i + 1).drop_last() == roles@.take(i as int));
        }
        let role = roles[i];
        if role == TrackedDeviceRole::Tracker {
            trackers = trackers + 1;
        }
        let entry = match role {
            TrackedDeviceRole::Unassigned => None,
            _ => {
                let mut name = String::new();
                match role {
                    TrackedDeviceRole::Hmd => push_str(&mut name, "headset"),
                    TrackedDeviceRole::LeftHand => push_str(&mut name, "leftController"),
                    TrackedDeviceRole::RightHand => push_str(&mut name, "rightController"),
                    _ => {
                        push_str(&mut name, "tracker");
                        push_decimal(&mut name, trackers as u64);
                    },
                }
                proof { reveal_strlit(""); }
                let mut battery = String::new();
                push_str(&mut battery, "/avatar/parameters/");
                push_str(&mut battery, name.as_str());
                push_str(&mut battery, "Battery");
                let mut charging = String::new();
                push_str(&mut charging, "/avatar/parameters/");
                push_str(&mut charging, name.as_str());
                push_str(&mut charging, "Charging");
                Some(BatteryAddresses { battery, charging })
            },
        };
        out.push(entry);
        proof {
            assert(out@[i as int] == entry);
        }
        i = i + 1;
    }
    out
}

} // verus!
