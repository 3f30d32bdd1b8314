//! Configuration: defaults of the settings, the compositor's app catalogs and
//! displays, and the checks run after loading them.

use vstd::prelude::*;
use crate::tasks::{enqueued, lemma_enqueued_contents, AppTask, TaskContainer};
use crate::text::{push_str, str_eq};

verus! {

/// Which hand.
#[derive(Clone, Copy, PartialEq, Eq, Structural, Debug)]
pub enum LeftRight {
    Left,
    Right,
}

/// Default hand of the watch.
pub fn def_left() -> (r: LeftRight)
    ensures
        r == LeftRight::Left,
{
    LeftRight::Left
}

/// Default PipeWire restore tokens: none.
pub fn def_pw_tokens() -> (r: Vec<(String, String)>)
    ensures
        r@.len() == 0,
{
    Vec::new()
}

/// Default time in milliseconds during which the pointer stays put after a click.
pub fn def_click_freeze_time_ms() -> (r: u32)
    ensures
        r == 300,
{
    300
}

pub fn def_true() -> (r: bool)
    ensures
        r,
{
    true
}

pub fn def_false() -> (r: bool)
    ensures
        !r,
{
    false
}

/// Default port OSC messages are sent to.
pub fn def_osc_port() -> (r: u16)
    ensures
        r == 9000,
{
    9000
}

/// Default screens shown at start: none, which means the first screen.
pub fn def_screens() -> (r: Vec<String>)
    ensures
        r@.len() == 0,
{
    Vec::new()
}

/// Default capture method.
pub fn def_auto() -> (r: String)
    ensures
        r@ == "auto"@,
{
    let mut s = String::new();
    push_str(&mut s, "auto");
    s
}

/// Default delay in milliseconds before an idle display is hidden.
pub fn def_autohide_delay() -> (r: u32)
    ensures
        r == 750,
{
    750
}

/// Default keyboard repeat delay in milliseconds.
pub fn def_keyboard_repeat_delay() -> (r: u32)
    ensures
        r == 200,
{
    200
}

/// Default keyboard repeat rate in keys per second.
pub fn def_keyboard_repeat_rate() -> (r: u32)
    ensures
        r == 50,
{
    50
}

/// Default way displays are copied to the VR runtime.
pub fn def_blit_method() -> (r: String)
    ensures
        r@ == "dmabuf"@,
{
    let mut s = String::new();
    push_str(&mut s, "dmabuf");
    s
}

/// The configuration files that ship with built-in fallbacks.
#[derive(Clone, Copy, PartialEq, Eq, Structural, Debug)]
pub enum ConfigType {
    Keyboard,
    Watch,
    Settings,
}

/// The file name of a configuration, in the configuration root.
pub fn config_file_name(t: ConfigType) -> (r: String)
    ensures
        r@ == match t {
            ConfigType::Keyboard => "keyboard.yaml"@,
            ConfigType::Watch => "watch.yaml"@,
            ConfigType::Settings => "settings.yaml"@,
        },
{
    let mut s = String::new();
    match t {
        ConfigType::Keyboard => push_str(&mut s, "keyboard.yaml"),
        ConfigType::Watch => push_str(&mut s, "watch.yaml"),
        ConfigType::Settings => push_str(&mut s, "settings.yaml"),
    }
    s
}

/// Configuration trees: the overlay's and the compositor's.
#[derive(Clone, Copy, PartialEq, Eq, Structural, Debug)]
pub enum ConfigRoot {
    Generic,
    WayVR,
}

impl ConfigRoot {
    /// The name of the drop-in directory under the configuration root.
    pub fn conf_d_name(&self) -> (r: String)
        ensures
            r@ == match self {
                ConfigRoot::Generic => "conf.d"@,
                ConfigRoot::WayVR => "wayvr.conf.d"@,
            },
    {
        let mut s = String::new();
        match self {
            ConfigRoot::Generic => push_str(&mut s, "conf.d"),
            ConfigRoot::WayVR => push_str(&mut s, "wayvr.conf.d"),
        }
        s
    }
}

/// Where a display is kept relative to the user.
#[derive(Clone, Copy, PartialEq, Eq, Structural, Debug)]
pub enum Positioning {
    /// Stays where it was put.
    Floating,
    /// Follows a hand (0 left, 1 right).
    FollowHand { hand: usize },
    /// Stays in place, no recentering.
    Static,
    /// Follows the head.
    FollowHead,
}

/// What a display is attached to, as configured.
#[derive(Clone, Copy, PartialEq, Eq, Structural, Debug)]
pub enum AttachTo {
    /// Not attached (the configuration file writes `None`).
    Unattached,
    HandLeft,
    HandRight,
    Head,
    Stage,
}

impl AttachTo {
    /// The positioning an attachment stands for (following is immediate).
    pub fn get_positioning(&self) -> (p: Positioning)
        ensures
            p == match self {
                AttachTo::Unattached => Positioning::Floating,
                AttachTo::HandLeft => Positioning::FollowHand { hand: 0 },
                AttachTo::HandRight => Positioning::FollowHand { hand: 1 },
                AttachTo::Stage => Positioning::Static,
                AttachTo::Head => Positioning::FollowHead,
            },
    {
        match self {
            AttachTo::Unattached => Positioning::Floating,
            AttachTo::HandLeft => Positioning::FollowHand { hand: 0 },
            AttachTo::HandRight => Positioning::FollowHand { hand: 1 },
            AttachTo::Stage => Positioning::Static,
            AttachTo::Head => Positioning::FollowHead,
        }
    }
}

/// An application that can be launched on a display.
pub struct WayVRAppEntry {
    pub name: String,
    pub target_display: String,
    pub exec_path: String,
    pub args: Option<String>,
    pub env: Option<Vec<String>>,
    pub shown_at_start: Option<bool>,
}

/// A display of the compositor, as configured (its placement in space stays with the caller).
pub struct WayVRDisplay {
    pub width: u16,
    pub height: u16,
    pub attach_to: Option<AttachTo>,
    pub primary: Option<bool>,
}

pub struct WayVRCatalog {
    pub apps: Vec<WayVRAppEntry>,
}

impl WayVRCatalog {
    /// The first app with the given name.
    pub fn get_app(&self, name: &str) -> (r: Option<&WayVRAppEntry>)
        ensures
            match r {
                Some(a) => exists|i: int| 0 <= i < self.apps@.len() && self.apps@[i] == *a
                    && a.name@ == name@
                    && forall|j: int| 0 <= j < i ==> (#[trigger] self.apps@[j]).name@ != name@,
                None => forall|i: int| 0 <= i < self.apps@.len() ==> (#[trigger] self.apps@[i]).name@ != name@,
            },
    {
        let mut i: usize = 0;
        while i < self.apps.len()
            invariant
                i <= self.apps@.len(),
                forall|j: int| 0 <= j < i ==> (#[trigger] self.apps@[j]).name@ != name@,
            decreases self.apps@.len() - i,
        {
            if str_eq(self.apps[i].name.as_str(), name) {
                return Some(&self.apps[i]);
            }
            i = i + 1;
        }
        None
    }
}

/// The dashboard application.
pub struct WayVRDashboard {
    pub exec_path: String,
    pub args: Option<String>,
    pub env: Option<Vec<String>>,
}

/// Settings of the compositor that its core needs.
pub struct Config {
    pub click_freeze_time_ms: u32,
    pub keyboard_repeat_delay_ms: u32,
    pub keyboard_repeat_rate: u32,
    /// `None` when hiding idle displays is disabled.
    pub auto_hide_delay: Option<u32>,
}

/// The compositor's configuration file.
pub struct WayVRConfig {
    pub run_compositor_at_start: bool,
    /// Catalogs by name.
    pub catalogs: Vec<(String, WayVRCatalog)>,
    /// Displays by name, sorted by name.
    pub displays: Vec<(String, WayVRDisplay)>,
    pub dashboard: Option<WayVRDashboard>,
    pub auto_hide: bool,
    pub auto_hide_delay: u32,
    pub keyboard_repeat_delay: u32,
    pub keyboard_repeat_rate: u32,
    pub blit_method: String,
}

/// An app to launch, by catalog and app name.
pub struct AppClick {
    pub catalog_name: String,
    pub app_name: String,
}

pub open spec fn click_view(c: AppClick) -> (Seq<char>, Seq<char>) {
    (c.catalog_name@, c.app_name@)
}

/// `q` holds a launch of `v` due at `now` with submission number `id`.
pub open spec fn has_click(q: Seq<AppTask<AppClick>>, id: int, now: u64, v: (Seq<char>, Seq<char>)) -> bool {
    exists|i: int| 0 <= i < q.len() && q[i].id == id && q[i].not_before == now && click_view(#[trigger] q[i].task) == v
}

proof fn lemma_has_click_kept(q: Seq<AppTask<AppClick>>, nb: u64, nid: u64, t: AppClick, id: int, v: (Seq<char>, Seq<char>))
    requires
        crate::tasks::in_run_order(q),
        has_click(q, id, nb, v),
    ensures
        has_click(enqueued(q, nb, nid, t), id, nb, v),
{
    lemma_enqueued_contents(q, nb, nid, t);
    let i = choose|i: int| 0 <= i < q.len() && q[i].id == id && q[i].not_before == nb && click_view(#[trigger] q[i].task) == v;
    let j = choose|j: int| 0 <= j < q.len() + 1 && #[trigger] enqueued(q, nb, nid, t)[j] == q[i];
    assert(click_view(enqueued(q, nb, nid, t)[j].task) == v);
}

proof fn lemma_has_click_new(q: Seq<AppTask<AppClick>>, nb: u64, nid: u64, t: AppClick)
    requires
        crate::tasks::in_run_order(q),
    ensures
        has_click(enqueued(q, nb, nid, t), nid as int, nb, click_view(t)),
{
    lemma_enqueued_contents(q, nb, nid, t);
    let j = choose|j: int| 0 <= j < q.len() + 1 && enqueued(q, nb, nid, t)[j] == (AppTask { not_before: nb, id: nid, task: t });
    assert(click_view(enqueued(q, nb, nid, t)[j].task) == click_view(t));
}

/// Why a configuration is refused.
#[derive(Clone, Copy, PartialEq, Eq, Structural, Debug)]
pub enum ConfigError {
    /// More than one display is marked primary.
    TooManyPrimaryDisplays,
}

/// Whether a configured display is the primary one (unset means no).
pub open spec fn is_primary(d: WayVRDisplay) -> bool {
    d.primary == Some(true)
}

/// Number of primary displays in `ds`.
pub open spec fn primary_count(ds: Seq<(String, WayVRDisplay)>) -> nat
    decreases ds.len(),
{
    if ds.len() == 0 {
        0
    } else {
        primary_count(ds.drop_last()) + if is_primary(ds.last().1) { 1nat } else { 0nat }
    }
}

/// The apps of `cats` to show at start, catalog by catalog, in catalog order.
pub open spec fn start_apps(cats: Seq<(String, WayVRCatalog)>) -> Seq<(Seq<char>, Seq<char>)>
    decreases cats.len(),
{
    if cats.len() == 0 {
        seq![]
    } else {
        start_apps(cats.drop_last()) + start_apps_of(cats.last().0@, cats.last().1.apps@)
    }
}

/// The apps of `apps` marked to be shown at start, with the catalog name.
pub open spec fn start_apps_of(cat: Seq<char>, apps: Seq<WayVRAppEntry>) -> Seq<(Seq<char>, Seq<char>)>
    decreases apps.len(),
{
    if apps.len() == 0 {
        seq![]
    } else {
        let rest = start_apps_of(cat, apps.drop_last());
        if apps.last().shown_at_start == Some(true) { rest.push((cat, apps.last().name@)) } else { rest }
    }
}

impl WayVRConfig {
    /// The catalog with the given name.
    pub fn get_catalog(&self, name: &str) -> (r: Option<&WayVRCatalog>)
        ensures
            match r {
                Some(c) => exists|i: int| 0 <= i < self.catalogs@.len() && self.catalogs@[i].1 == *c
                    && self.catalogs@[i].0@ == name@,
                None => forall|i: int| 0 <= i < self.catalogs@.len() ==> (#[trigger] self.catalogs@[i]).0@ != name@,
            },
    {
        let mut i: usize = 0;
        while i < self.catalogs.len()
            invariant
                i <= self.catalogs@.len(),
                forall|j: int| 0 <= j < i ==> (#[trigger] self.catalogs@[j]).0@ != name@,
            decreases self.catalogs@.len() - i,
        {
            if str_eq(self.catalogs[i].0.as_str(), name) {
                return Some(&self.catalogs[i].1);
            }
            i = i + 1;
        }
        None
    }

    /// The display with the given name.
    pub fn get_display(&self, name: &str) -> (r: Option<&WayVRDisplay>)
        ensures
            match r {
                Some(d) => exists|i: int| 0 <= i < self.displays@.len() && self.displays@[i].1 == *d
                    && self.displays@[i].0@ == name@,
                None => forall|i: int| 0 <= i < self.displays@.len() ==> (#[trigger] self.displays@[i]).0@ != name@,
            },
    {
        let mut i: usize = 0;
        while i < self.displays.len()
            invariant
                i <= self.displays@.len(),
                forall|j: int| 0 <= j < i ==> (#[trigger] self.displays@[j]).0@ != name@,
            decreases self.displays@.len() - i,
        {
            if str_eq(self.displays[i].0.as_str(), name) {
                return Some(&self.displays[i].1);
            }
            i = i + 1;
        }
        None
    }

    /// The first primary display, with its name.
    pub fn get_default_display(&self) -> (r: Option<(String, &WayVRDisplay)>)
        ensures
            match r {
                Some((n, d)) => exists|i: int| 0 <= i < self.displays@.len() && self.displays@[i].1 == *d
                    && self.displays@[i].0@ == n@ && is_primary(*d)
                    && forall|j: int| 0 <= j < i ==> !is_primary((#[trigger] self.displays@[j]).1),
                None => forall|i: int| 0 <= i < self.displays@.len() ==> !is_primary((#[trigger] self.displays@[i]).1),
            },
    {
        let mut i: usize = 0;
        while i < self.displays.len()
            invariant
                i <= self.displays@.len(),
                forall|j: int| 0 <= j < i ==> !is_primary((#[trigger] self.displays@[j]).1),
            decreases self.displays@.len() - i,
        {
            let primary = match self.displays[i].1.primary {
                Some(b) => b,
                None => false,
            };
            if primary {
                return Some((self.displays[i].0.clone(), &self.displays[i].1));
            }
            i = i + 1;
        }
        None
    }

    /// The settings the compositor core runs with.
    pub fn get_wayvr_config(click_freeze_time_ms: u32, config_wayvr: &WayVRConfig) -> (c: Config)
        ensures
            c.click_freeze_time_ms == click_freeze_time_ms,
            c.keyboard_repeat_delay_ms == config_wayvr.keyboard_repeat_delay,
            c.keyboard_repeat_rate == config_wayvr.keyboard_repeat_rate,
            c.auto_hide_delay == if config_wayvr.auto_hide { Some(config_wayvr.auto_hide_delay) } else { None::<u32> },
    {
        Config {
            click_freeze_time_ms,
            keyboard_repeat_delay_ms: config_wayvr.keyboard_repeat_delay,
            keyboard_repeat_rate: config_wayvr.keyboard_repeat_rate,
            auto_hide_delay: if config_wayvr.auto_hide { Some(config_wayvr.auto_hide_delay) } else { None },
        }
    }

    fn count_primary(&self) -> (n: usize)
        ensures
            n == primary_count(self.displays@),
    {
        let mut n: usize = 0;
        let mut i: usize = 0;
        while i < self.displays.len()
            invariant
                i <= self.displays@.len(),
                n == primary_count(self.displays@.take(i as int)),
                n <= i,
            decreases self.displays@.len() - i,
        {
            let ghost t = self.displays@.take(i + 1);
            assert(t.drop_last() == self.displays@.take(i as int));
            let primary = match self.displays[i].1.primary {
                Some(b) => b,
                None => false,
            };
            if primary {
                n = n + 1;
            }
            i = i + 1;
        }
        assert(self.displays@.take(self.displays@.len() as int) == self.displays@);
        n
    }

    /// Checks the configuration after loading: at most one display may be
    /// primary. Every app marked to be shown at start is queued to be launched now,
    /// catalog by catalog. Returns whether the compositor is to be started right away.
    pub fn post_load(&self, tasks: &mut TaskContainer<AppClick>, now: u64) -> (r: Result<bool, ConfigError>)
        requires
            old(tasks).wf(),
            old(tasks).next_id() + start_apps(self.catalogs@).len() < u64::MAX,
        ensures
            final(tasks).wf(),
            primary_count(self.displays@) > 1 ==> r == Err::<bool, ConfigError>(ConfigError::TooManyPrimaryDisplays)
                && final(tasks).queue() == old(tasks).queue() && final(tasks).next_id() == old(tasks).next_id(),
            primary_count(self.displays@) <= 1 ==> r == Ok::<bool, ConfigError>(self.run_compositor_at_start)
                && final(tasks).next_id() == old(tasks).next_id() + start_apps(self.catalogs@).len()
                && final(tasks).queue().len() == old(tasks).queue().len() + start_apps(self.catalogs@).len()
                && (forall|k: int| 0 <= k < start_apps(self.catalogs@).len() ==> has_click(final(tasks).queue(),
                    old(tasks).next_id() + k, now, #[trigger] start_apps(self.catalogs@)[k])),
    {
        if self.count_primary() > 1 {
            return Err(ConfigError::TooManyPrimaryDisplays);
        }
        let ghost n0 = tasks.next_id();
        let ghost q0 = tasks.queue().len();
        let mut c: usize = 0;
        while c < self.catalogs.len()
            invariant
                c <= self.catalogs@.len(),
                tasks.wf(),
                n0 + start_apps(self.catalogs@).len() < u64::MAX,
                tasks.next_id() == n0 + start_apps(self.catalogs@.take(c as int)).len(),
                tasks.queue().len() == q0 + start_apps(self.catalogs@.take(c as int)).len(),
                forall|k: int| 0 <= k < start_apps(self.catalogs@.take(c as int)).len() ==> has_click(tasks.queue(),
                    n0 + k, now, #[trigger] start_apps(self.catalogs@.take(c as int))[k]),
            decreases self.catalogs@.len() - c,
        {
            let ghost t = self.catalogs@.take(c + 1);
            assert(t.drop_last() == self.catalogs@.take(c as int));
            proof {
                lemma_start_apps_prefix(self.catalogs@, c + 1);
            }
            let cat_name = &self.catalogs[c].0;
            let apps = &self.catalogs[c].1.apps;
            let ghost base_n = tasks.next_id();
            let ghost base_q = tasks.queue().len();
            let ghost done = start_apps(self.catalogs@.take(c as int));
            assert(start_apps(t) == done + start_apps_of(cat_name@, apps@));
            assert(apps@.take(0) == Seq::<WayVRAppEntry>::empty());
            assert(done + start_apps_of(cat_name@, apps@.take(0)) == done);
            assert(forall|k: int| 0 <= k < done.len() ==> has_click(tasks.queue(), n0 + k, now, #[trigger] done[k]));
            let mut a: usize = 0;
            while a < apps.len()
                invariant
                    a <= apps@.len(),
                    tasks.wf(),
                    base_n + start_apps_of(cat_name@, apps@).len() < u64::MAX,
                    tasks.next_id() == base_n + start_apps_of(cat_name@, apps@.take(a as int)).len(),
                    tasks.queue().len() == base_q + start_apps_of(cat_name@, apps@.take(a as int)).len(),
                    base_n == n0 + done.len(),
                    forall|k: int| 0 <= k < (done + start_apps_of(cat_name@, apps@.take(a as int))).len() ==> has_click(tasks.queue(),
                        n0 + k, now, #[trigger] (done + start_apps_of(cat_name@, apps@.take(a as int)))[k]),
                decreases apps@.len() - a,
            {
                let ghost ta = apps@.take(a + 1);
                assert(ta.drop_last() == apps@.take(a as int));
                proof {
                    lemma_start_apps_of_prefix(cat_name@, apps@, a + 1);
                }
                let shown = match apps[a].shown_at_start {
                    Some(b) => b,
                    None => false,
                };
                let ghost before = done + start_apps_of(cat_name@, apps@.take(a as int));
                let ghost after = done + start_apps_of(cat_name@, apps@.take(a + 1));
                if shown {
                    let ghost q = tasks.queue();
                    let ghost nid = tasks.next_id();
                    let click = AppClick { catalog_name: cat_name.clone(), app_name: apps[a].name.clone() };
                    let ghost cv = click;
                    tasks.enqueue(click, now);
                    proof {
                        assert(after == before.push((cat_name@, apps@[a as int].name@)));
                        assert forall|k: int| 0 <= k < after.len() implies has_click(tasks.queue(), n0 + k, now, #[trigger] after[k]) by {
                            if k < before.len() {
                                assert(has_click(q, n0 + k, now, before[k]));
                                lemma_has_click_kept(q, now, nid, cv, n0 + k, before[k]);
                                assert(after[k] == before[k]);
                            } else {
                                lemma_has_click_new(q, now, nid, cv);
                            }
                        }
                    }
                } else {
                    assert(after == before);
                }
                a = a + 1;
            }
            assert(apps@.take(apps@.len() as int) == apps@);
            assert(self.catalogs@.take(c + 1) == t);
            c = c + 1;
        }
        assert(self.catalogs@.take(self.catalogs@.len() as int) == self.catalogs@);
        Ok(self.run_compositor_at_start)
    }
}

proof fn lemma_start_apps_of_prefix(cat: Seq<char>, apps: Seq<WayVRAppEntry>, k: int)
    requires
        0 <= k <= apps.len(),
    ensures
        start_apps_of(cat, apps.take(k)).len() <= start_apps_of(cat, apps).len(),
    decreases apps.len(),
{
    if k < apps.len() {
        assert(apps.drop_last().take(k) == apps.take(k));
        lemma_start_apps_of_prefix(cat, apps.drop_last(), k);
    } else {
        assert(apps.take(k) == apps);
    }
}

proof fn lemma_start_apps_prefix(cats: Seq<(String, WayVRCatalog)>, k: int)
    requires
        0 <= k <= cats.len(),
    ensures
        start_apps(cats.take(k)).len() <= start_apps(cats).len(),
    decreases cats.len(),
{
    if k < cats.len() {
        assert(cats.drop_last().take(k) == cats.take(k));
        lemma_start_apps_prefix(cats.drop_last(), k);
    } else {
        assert(cats.take(k) == cats);
    }
}

} // verus!
