//! Book-keeping of the built-in Wayland compositor: virtual displays, the
//! processes that run on them and their windows, and the requests that change them.

use vstd::prelude::*;
use crate::event_queue::SyncEventQueue;
use crate::gen_vec::{slot_lookup, Cell, GenVec, Handle};
use crate::text::{chars_of, decimal, push_char, push_decimal, push_str, str_eq};

verus! {

pub type DisplayHandle = Handle;
pub type ProcessHandle = Handle;
pub type WindowHandle = Handle;

/// A window of a client, placed on a display.
pub struct Window {
    pub pos_x: i32,
    pub pos_y: i32,
    pub size_x: u32,
    pub size_y: u32,
    pub visible: bool,
    pub display_handle: DisplayHandle,
}

impl Window {
    pub fn new(display_handle: DisplayHandle) -> (w: Window)
        ensures
            w.pos_x == 0 && w.pos_y == 0 && w.size_x == 0 && w.size_y == 0,
            w.visible,
            w.display_handle == display_handle,
    {
        Window { pos_x: 0, pos_y: 0, size_x: 0, size_y: 0, visible: true, display_handle }
    }

    pub fn set_pos(&mut self, pos_x: i32, pos_y: i32)
        ensures
            *final(self) == (Window { pos_x, pos_y, ..*old(self) }),
    {
        self.pos_x = pos_x;
        self.pos_y = pos_y;
    }

    /// Records the new size (the client is told by the caller).
    pub fn set_size(&mut self, size_x: u32, size_y: u32)
        ensures
            *final(self) == (Window { size_x, size_y, ..*old(self) }),
    {
        self.size_x = size_x;
        self.size_y = size_y;
    }
}

pub struct WindowManager {
    pub windows: GenVec<Window>,
}

impl WindowManager {
    pub fn new() -> (wm: WindowManager)
        ensures
            wm.windows.wf(),
            wm.windows.vec@.len() == 0,
            wm.windows.cur_generation == 0,
    {
        WindowManager { windows: GenVec::new() }
    }

    pub fn create_window(&mut self, display_handle: DisplayHandle) -> (h: WindowHandle)
        requires
            old(self).windows.wf(),
            old(self).windows.cur_generation < u64::MAX,
            old(self).windows.vec@.len() < u32::MAX,
        ensures
            final(self).windows.wf(),
            final(self).windows.lookup(h) == Some(Window::new_spec(display_handle)),
            forall|h2: Handle| h2 != h ==> #[trigger] final(self).windows.lookup(h2) == old(self).windows.lookup(h2),
    {
        self.windows.add(Window::new(display_handle))
    }
}

impl Window {
    pub open spec fn new_spec(display_handle: DisplayHandle) -> Window {
        Window { pos_x: 0, pos_y: 0, size_x: 0, size_y: 0, visible: true, display_handle }
    }
}

/// A window shown on a display, with the process that owns it.
#[derive(Clone, Copy)]
pub struct DisplayWindow {
    pub window_handle: WindowHandle,
    pub process_handle: ProcessHandle,
}

/// A virtual display (the render target stays with the caller).
pub struct Display {
    pub width: u32,
    pub height: u32,
    pub name: String,
    pub primary: bool,
    pub visible: bool,
    pub wants_redraw: bool,
    pub overlay_id: Option<usize>,
    pub displayed_windows: Vec<DisplayWindow>,
    /// Processes that ended and whose windows the display still has to drop.
    pub pending_cleanup: Vec<ProcessHandle>,
}

impl Display {
    /// Whether the display is rendered this frame: only when something changed and it is shown.
    pub fn should_render(&self) -> (r: bool)
        ensures
            r == (self.wants_redraw && self.visible),
    {
        self.wants_redraw && self.visible
    }
}

/// A process started by the compositor on one of its displays.
pub struct ManagedProcess {
    pub auth_key: String,
    pub pid: u32,
    pub display_handle: DisplayHandle,
    pub exec_path: String,
    pub args: Vec<String>,
    pub env: Vec<(String, String)>,
}

/// A process started elsewhere that attached to a display.
pub struct ExternalProcess {
    pub pid: u32,
    pub display_handle: DisplayHandle,
}

impl ExternalProcess {
    /// Whether the process may still run; the caller then looks it up in `/proc`.
    pub fn may_be_running(&self) -> (r: bool)
        ensures
            r == (self.pid != 0),
    {
        self.pid != 0
    }

    /// The pid to send SIGINT to, if any; the process is forgotten afterwards.
    pub fn terminate(&mut self) -> (r: Option<u32>)
        ensures
            r == (if old(self).pid != 0 { Some(old(self).pid) } else { None::<u32> }),
            final(self).pid == 0,
            final(self).display_handle == old(self).display_handle,
    {
        let r = if self.pid != 0 { Some(self.pid) } else { None };
        self.pid = 0;
        r
    }
}

pub enum Process {
    Managed(ManagedProcess),
    External(ExternalProcess),
}

impl Process {
    pub open spec fn spec_display_handle(&self) -> DisplayHandle {
        match self {
            Process::Managed(p) => p.display_handle,
            Process::External(p) => p.display_handle,
        }
    }

    pub open spec fn spec_pid(&self) -> u32 {
        match self {
            Process::Managed(p) => p.pid,
            Process::External(p) => p.pid,
        }
    }

    pub fn display_handle(&self) -> (h: DisplayHandle)
        ensures
            h == self.spec_display_handle(),
    {
        match self {
            Process::Managed(p) => p.display_handle,
            Process::External(p) => p.display_handle,
        }
    }
}

/// The handle of the first occupied slot of `s` at or after nothing that satisfies
/// `pred`: `Some` with the first such slot, or `None` when none does.
pub open spec fn first_match<T>(s: Seq<Option<Cell<T>>>, pred: spec_fn(T) -> bool, r: Option<Handle>) -> bool {
    match r {
        Some(h) => {
            &&& h.idx < s.len()
            &&& s[h.idx as int] is Some
            &&& s[h.idx as int]->0.generation == h.generation
            &&& pred(s[h.idx as int]->0.obj)
            &&& forall|i: int| 0 <= i < h.idx && #[trigger] s[i] is Some ==> !pred(s[i]->0.obj)
        },
        None => forall|i: int| 0 <= i < s.len() && #[trigger] s[i] is Some ==> !pred(s[i]->0.obj),
    }
}

/// The process with the given pid.
pub fn find_by_pid(processes: &GenVec<Process>, pid: u32) -> (r: Option<ProcessHandle>)
    requires
        processes.vec@.len() <= u32::MAX + 1,
    ensures
        first_match(processes.vec@, |p: Process| p.spec_pid() == pid, r),
{
    let mut idx: usize = 0;
    while idx < processes.vec.len()
        invariant
            idx <= processes.vec@.len() <= u32::MAX + 1,
            forall|i: int| 0 <= i < idx && #[trigger] processes.vec@[i] is Some
                ==> processes.vec@[i]->0.obj.spec_pid() != pid,
        decreases processes.vec@.len() - idx,
    {
        match &processes.vec[idx] {
            Some(cell) => {
                let p = match &cell.obj {
                    Process::Managed(m) => m.pid,
                    Process::External(e) => e.pid,
                };
                if p == pid {
                    return Some(GenVec::get_handle(cell, idx));
                }
            },
            None => {},
        }
        idx = idx + 1;
    }
    None
}

/// The first primary display.
pub fn get_primary_display(displays: &GenVec<Display>) -> (r: Option<DisplayHandle>)
    requires
        displays.vec@.len() <= u32::MAX + 1,
    ensures
        first_match(displays.vec@, |d: Display| d.primary, r),
{
    let mut idx: usize = 0;
    while idx < displays.vec.len()
        invariant
            idx <= displays.vec@.len() <= u32::MAX + 1,
            forall|i: int| 0 <= i < idx && #[trigger] displays.vec@[i] is Some ==> !displays.vec@[i]->0.obj.primary,
        decreases displays.vec@.len() - idx,
    {
        match &displays.vec[idx] {
            Some(cell) => {
                if cell.obj.primary {
                    return Some(GenVec::get_handle(cell, idx));
                }
            },
            None => {},
        }
        idx = idx + 1;
    }
    None
}

/// The first display with the given name.
pub fn get_display_by_name(displays: &GenVec<Display>, name: &str) -> (r: Option<DisplayHandle>)
    requires
        displays.vec@.len() <= u32::MAX + 1,
    ensures
        first_match(displays.vec@, |d: Display| d.name@ == name@, r),
{
    let mut idx: usize = 0;
    while idx < displays.vec.len()
        invariant
            idx <= displays.vec@.len() <= u32::MAX + 1,
            forall|i: int| 0 <= i < idx && #[trigger] displays.vec@[i] is Some ==> displays.vec@[i]->0.obj.name@ != name@,
        decreases displays.vec@.len() - idx,
    {
        match &displays.vec[idx] {
            Some(cell) => {
                if str_eq(cell.obj.name.as_str(), name) {
                    return Some(GenVec::get_handle(cell, idx));
                }
            },
            None => {},
        }
        idx = idx + 1;
    }
    None
}

/// Whether two string lists hold the same strings.
pub fn strings_eq(a: &Vec<String>, b: &[String]) -> (r: bool)
    ensures
        r == (a@.map_values(|x: String| x@) == b@.map_values(|x: String| x@)),
{
    if a.len() != b.len() {
        proof {
            assert(a@.map_values(|x: String| x@).len() != b@.map_values(|x: String| x@).len());
        }
        return false;
    }
    let mut i: usize = 0;
    while i < a.len()
        invariant
            a@.len() == b@.len(),
            i <= a@.len(),
            forall|j: int| 0 <= j < i ==> a@[j]@ == b@[j]@,
        decreases a@.len() - i,
    {
        if !str_eq(a[i].as_str(), b[i].as_str()) {
            proof {
                assert(a@.map_values(|x: String| x@)[i as int] != b@.map_values(|x: String| x@)[i as int]);
            }
            return false;
        }
        i = i + 1;
    }
    assert(a@.map_values(|x: String| x@) =~= b@.map_values(|x: String| x@));
    true
}

/// A process launched with this display, executable and arguments.
pub open spec fn is_same_launch(p: Process, display: DisplayHandle, exec_path: Seq<char>, args: Seq<Seq<char>>) -> bool {
    match p {
        Process::Managed(m) => m.display_handle == display && m.exec_path@ == exec_path
            && m.args@.map_values(|x: String| x@) == args,
        Process::External(_) => false,
    }
}

/// The first managed process started on `display_handle` with the same executable
/// and arguments (the environment is not compared).
pub fn process_query(
    processes: &GenVec<Process>,
    display_handle: DisplayHandle,
    exec_path: &str,
    args: &[String],
) -> (r: Option<ProcessHandle>)
    requires
        processes.vec@.len() <= u32::MAX + 1,
    ensures
        first_match(processes.vec@,
            |p: Process| is_same_launch(p, display_handle, exec_path@, args@.map_values(|x: String| x@)), r),
{
    let ghost a = args@.map_values(|x: String| x@);
    let mut idx: usize = 0;
    while idx < processes.vec.len()
        invariant
            idx <= processes.vec@.len() <= u32::MAX + 1,
            a == args@.map_values(|x: String| x@),
            forall|i: int| 0 <= i < idx && #[trigger] processes.vec@[i] is Some
                ==> !is_same_launch(processes.vec@[i]->0.obj, display_handle, exec_path@, a),
        decreases processes.vec@.len() - idx,
    {
        match &processes.vec[idx] {
            Some(cell) => {
                match &cell.obj {
                    Process::Managed(m) => {
                        if m.display_handle == display_handle && str_eq(m.exec_path.as_str(), exec_path)
                            && strings_eq(&m.args, args) {
                            return Some(GenVec::get_handle(cell, idx));
                        }
                    },
                    Process::External(_) => {},
                }
            },
            None => {},
        }
        idx = idx + 1;
    }
    None
}

/// A process started with this auth key on a display that still exists.
pub open spec fn is_auth_match(p: Process, auth_key: Seq<char>, displays: GenVec<Display>) -> bool {
    match p {
        Process::Managed(m) => m.auth_key@ == auth_key && displays.lookup(m.display_handle) is Some,
        Process::External(_) => false,
    }
}

/// The display a connecting client belongs to: that of the first managed process
/// started with the client's auth key, if that display still exists.
pub fn display_for_auth_key(processes: &GenVec<Process>, displays: &GenVec<Display>, auth_key: &str) -> (r: Option<DisplayHandle>)
    ensures
        match r {
            Some(h) => exists|i: int| 0 <= i < processes.vec@.len() && #[trigger] processes.vec@[i] is Some
                && is_auth_match(processes.vec@[i]->0.obj, auth_key@, *displays)
                && processes.vec@[i]->0.obj.spec_display_handle() == h
                && forall|j: int| 0 <= j < i && #[trigger] processes.vec@[j] is Some
                    ==> !is_auth_match(processes.vec@[j]->0.obj, auth_key@, *displays),
            None => forall|i: int| 0 <= i < processes.vec@.len() && #[trigger] processes.vec@[i] is Some
                ==> !is_auth_match(processes.vec@[i]->0.obj, auth_key@, *displays),
        },
{
    let mut idx: usize = 0;
    while idx < processes.vec.len()
        invariant
            idx <= processes.vec@.len(),
            forall|i: int| 0 <= i < idx && #[trigger] processes.vec@[i] is Some
                ==> !is_auth_match(processes.vec@[i]->0.obj, auth_key@, *displays),
        decreases processes.vec@.len() - idx,
    {
        match &processes.vec[idx] {
            Some(cell) => {
                match &cell.obj {
                    Process::Managed(m) => {
                        if str_eq(m.auth_key.as_str(), auth_key) && displays.get(&m.display_handle).is_some() {
                            return Some(m.display_handle);
                        }
                    },
                    Process::External(_) => {},
                }
            },
            None => {},
        }
        idx = idx + 1;
    }
    None
}

/// What the compositor knows of a process it did not start: the display's
/// authentication key and name read from its environment.
#[derive(Clone)]
pub struct ProcessWayVREnv {
    pub display_auth: Option<String>,
    /// Set for a process spawned externally by a user script.
    pub display_name: Option<String>,
}

/// The Wayland socket a display is reachable at.
pub struct WaylandEnv {
    pub display_num: u32,
}

impl WaylandEnv {
    /// The socket name, e.g. "wayland-20".
    pub fn display_num_string(&self) -> (r: String)
        ensures
            r@ == "wayland-"@ + decimal(self.display_num as nat),
    {
        let mut s = String::new();
        push_str(&mut s, "wayland-");
        push_decimal(&mut s, self.display_num as u64);
        s
    }
}

/// `uuid::Uuid::new_v4()` written with `to_string`: a random version-4 UUID in
/// its hyphenated lowercase form. The contract gives its shape (36 characters,
/// hyphens after the 8th, 12th, 16th and 20th digit, version digit 4); which
/// digits come out is random and not stated.
#[verifier::external_body]
fn generate_auth_key() -> (r: String)
    ensures
        r@.len() == 36,
        r@[8] == '-' && r@[13] == '-' && r@[18] == '-' && r@[23] == '-',
        r@[14] == '4',
{
    uuid::Uuid::new_v4().to_string()
}

/// The environment of a process launched on a display: a fresh auth key, and
/// the variables to set, in order, once `DISPLAY` is removed.
pub struct LaunchEnv {
    pub auth_key: String,
    pub vars: Vec<(String, String)>,
}

/// The environment for a launch on the display reachable at `wayland`: its
/// socket, a new auth key, then the launch's own variables (set last, so they
/// win over the first two).
pub fn launch_env(wayland: &WaylandEnv, env: &[(String, String)]) -> (r: LaunchEnv)
    ensures
        r.auth_key@.len() == 36,
        r.auth_key@[8] == '-' && r.auth_key@[13] == '-' && r.auth_key@[18] == '-' && r.auth_key@[23] == '-',
        r.auth_key@[14] == '4',
        r.vars@.len() == env@.len() + 2,
        r.vars@[0].0@ == "WAYLAND_DISPLAY"@ && r.vars@[0].1@ == "wayland-"@ + decimal(wayland.display_num as nat),
        r.vars@[1].0@ == "WAYVR_DISPLAY_AUTH"@ && r.vars@[1].1@ == r.auth_key@,
        forall|i: int| 0 <= i < env@.len() ==> (#[trigger] r.vars@[i + 2]).0@ == env@[i].0@ && r.vars@[i + 2].1@ == env@[i].1@,
{
    let auth_key = generate_auth_key();
    let mut vars: Vec<(String, String)> = Vec::new();
    let mut name = String::new();
    push_str(&mut name, "WAYLAND_DISPLAY");
    proof { reveal_strlit(""); }
    vars.push((name, wayland.display_num_string()));
    let mut name = String::new();
    push_str(&mut name, "WAYVR_DISPLAY_AUTH");
    vars.push((name, auth_key.clone()));
    let mut i: usize = 0;
    while i < env.len()
        invariant
            i <= env@.len(),
            vars@.len() == i + 2,
            vars@[0].0@ == "WAYLAND_DISPLAY"@ && vars@[0].1@ == "wayland-"@ + decimal(wayland.display_num as nat),
            vars@[1].0@ == "WAYVR_DISPLAY_AUTH"@ && vars@[1].1@ == auth_key@,
            forall|j: int| 0 <= j < i ==> (#[trigger] vars@[j + 2]).0@ == env@[j].0@ && vars@[j + 2].1@ == env@[j].1@,
        decreases env@.len() - i,
    {
        vars.push((env[i].0.clone(), env[i].1.clone()));
        i = i + 1;
    }
    LaunchEnv { auth_key, vars }
}

/// First socket number tried for the compositor.
pub const STARTING_WAYLAND_ADDR_IDX: u32 = 20;

/// The socket number to try after `num` could not be bound, or `None` once
/// twenty numbers past the first were tried.
pub fn next_display_num(num: u32) -> (r: Option<u32>)
    requires
        num <= STARTING_WAYLAND_ADDR_IDX + 20,
    ensures
        r == (if num + 1 > STARTING_WAYLAND_ADDR_IDX + 20 { None } else { Some((num + 1) as u32) }),
{
    let next = num + 1;
    if next > STARTING_WAYLAND_ADDR_IDX + 20 {
        None
    } else {
        Some(next)
    }
}

/// Which mouse button.
#[derive(Clone, Copy, PartialEq, Eq, Structural, Debug)]
pub enum MouseIndex {
    Left,
    Center,
    Right,
}

/// The evdev button code of a mouse button.
pub fn get_mouse_index_number(index: MouseIndex) -> (n: u32)
    ensures
        n == match index {
            MouseIndex::Left => 0x110u32,
            MouseIndex::Center => 0x112u32,
            MouseIndex::Right => 0x111u32,
        },
{
    match index {
        MouseIndex::Left => 0x110,
        MouseIndex::Center => 0x112,
        MouseIndex::Right => 0x111,
    }
}

/// The environment variable that carries a display's auth key to its processes.
pub open spec fn auth_var_name() -> Seq<char> {
    seq!['W', 'A', 'Y', 'V', 'R', '_', 'D', 'I', 'S', 'P', 'L', 'A', 'Y', '_', 'A', 'U', 'T', 'H']
}

/// The entries of a `/proc/<pid>/environ` blob: the non-empty parts between NUL characters.
pub open spec fn environ_entries(s: Seq<char>, cur: Seq<char>) -> Seq<Seq<char>>
    decreases s.len(),
{
    if s.len() == 0 {
        if cur.len() > 0 { seq![cur] } else { seq![] }
    } else if s[0] == '\0' {
        (if cur.len() > 0 { seq![cur] } else { Seq::<Seq<char>>::empty() }) + environ_entries(s.drop_first(), seq![])
    } else {
        environ_entries(s.drop_first(), cur.push(s[0]))
    }
}

/// The value of the first entry of `entries` whose name (before its first `=`)
/// is the auth variable.
pub open spec fn auth_value(entries: Seq<Seq<char>>) -> Option<Seq<char>>
    decreases entries.len(),
{
    if entries.len() == 0 {
        None
    } else {
        match crate::server_ipc::split_env(entries[0]) {
            Some((k, v)) => if k == auth_var_name() { Some(v) } else { auth_value(entries.drop_first()) },
            None => auth_value(entries.drop_first()),
        }
    }
}

fn environ_split(cs: &Vec<char>) -> (r: Vec<Vec<char>>)
    ensures
        r@.map_values(|x: Vec<char>| x@) == environ_entries(cs@, seq![]),
{
    let ghost s = cs@;
    let mut out: Vec<Vec<char>> = Vec::new();
    let mut cur: Vec<char> = Vec::new();
    let mut i: usize = 0;
    assert(s.skip(0) == s);
    assert(out@.map_values(|x: Vec<char>| x@) == Seq::<Seq<char>>::empty());
    assert(Seq::<Seq<char>>::empty() + environ_entries(s, seq![]) == environ_entries(s, seq![]));
    while i < cs.len()
        invariant
            s == cs@,
            i <= s.len(),
            out@.map_values(|x: Vec<char>| x@) + environ_entries(s.skip(i as int), cur@) == environ_entries(s, seq![]),
        decreases s.len() - i,
    {
        let c = cs[i];
        let ghost rest = s.skip(i as int);
        assert(rest.drop_first() == s.skip(i + 1));
        assert(rest[0] == c);
        if c == '\0' {
            if cur.len() > 0 {
                let ghost before = out@.map_values(|x: Vec<char>| x@);
                let ghost w = cur@;
                out.push(cur);
                assert(out@.map_values(|x: Vec<char>| x@) == before.push(w));
                assert(before + (seq![w] + environ_entries(rest.drop_first(), seq![]))
                    == before.push(w) + environ_entries(rest.drop_first(), seq![]));
            } else {
                assert(Seq::<Seq<char>>::empty() + environ_entries(rest.drop_first(), seq![]) == environ_entries(rest.drop_first(), seq![]));
            }
            cur = Vec::new();
            assert(cur@ == Seq::<char>::empty());
        } else {
            cur.push(c);
        }
        i = i + 1;
    }
    assert(s.skip(i as int).len() == 0);
    if cur.len() > 0 {
        let ghost before = out@.map_values(|x: Vec<char>| x@);
        let ghost w = cur@;
        out.push(cur);
        assert(out@.map_values(|x: Vec<char>| x@) == before.push(w));
        assert(before + seq![w] == before.push(w));
    } else {
        assert(out@.map_values(|x: Vec<char>| x@) + Seq::<Seq<char>>::empty() == out@.map_values(|x: Vec<char>| x@));
    }
    out
}

fn chars_eq(a: &Vec<char>, b: &Vec<char>) -> (r: bool)
    ensures
        r == (a@ == b@),
{
    if a.len() != b.len() {
        return false;
    }
    let mut i: usize = 0;
    while i < a.len()
        invariant
            a@.len() == b@.len(),
            i <= a@.len(),
            forall|j: int| 0 <= j < i ==> a@[j] == b@[j],
        decreases a@.len() - i,
    {
        if a[i] != b[i] {
            return false;
        }
        i = i + 1;
    }
    assert(a@ =~= b@);
    true
}

/// The display auth key in a process environment (the contents of
/// `/proc/<pid>/environ`): the value of its first `WAYVR_DISPLAY_AUTH` entry.
pub fn find_display_auth(env_data: &str) -> (r: Option<String>)
    ensures
        match r {
            Some(v) => auth_value(environ_entries(env_data@, seq![])) == Some(v@),
            None => auth_value(environ_entries(env_data@, seq![])) is None,
        },
{
    let cs = chars_of(env_data);
    let entries = environ_split(&cs);
    let name: Vec<char> = vec!['W', 'A', 'Y', 'V', 'R', '_', 'D', 'I', 'S', 'P', 'L', 'A', 'Y', '_', 'A', 'U', 'T', 'H'];
    assert(name@ == auth_var_name());
    let ghost all = entries@.map_values(|x: Vec<char>| x@);
    let mut i: usize = 0;
    assert(all.skip(0) == all);
    while i < entries.len()
        invariant
            i <= entries@.len(),
            all == entries@.map_values(|x: Vec<char>| x@),
            all == environ_entries(env_data@, seq![]),
            name@ == auth_var_name(),
            auth_value(all) == auth_value(all.skip(i as int)),
        decreases entries@.len() - i,
    {
        let ghost rest = all.skip(i as int);
        assert(rest.drop_first() == all.skip(i + 1));
        assert(rest[0] == entries@[i as int]@);
        let entry = crate::text::string_from_chars(&entries[i]);
        match crate::server_ipc::split_once_eq(entry.as_str()) {
            Some((k, v)) => {
                let kc = chars_of(k.as_str());
                if chars_eq(&kc, &name) {
                    return Some(v);
                }
            },
            None => {},
        }
        i = i + 1;
    }
    None
}

/// Whether the cursor at (`x`, `y`) is over the window.
pub open spec fn window_contains(w: Window, x: u32, y: u32) -> bool {
    let cx = x as i32;
    let cy = y as i32;
    cx >= w.pos_x && cx < w.pos_x + (w.size_x as i32) && cy >= w.pos_y && cy < w.pos_y + (w.size_y as i32)
}

/// The window edges can be computed without overflow.
pub open spec fn window_fits(w: Window) -> bool {
    i32::MIN <= w.pos_x + (w.size_x as i32) <= i32::MAX && i32::MIN <= w.pos_y + (w.size_y as i32) <= i32::MAX
}

/// The window of `h` exists and is under the cursor.
pub open spec fn is_hovered(wm: WindowManager, h: WindowHandle, x: u32, y: u32) -> bool {
    match wm.windows.lookup(h) {
        Some(w) => window_contains(w, x, y),
        None => false,
    }
}

/// The window of `h`, if it exists, has edges that fit in `i32`.
pub open spec fn fits_if_present(wm: WindowManager, h: WindowHandle) -> bool {
    match wm.windows.lookup(h) {
        Some(w) => window_fits(w),
        None => true,
    }
}

/// The first window of `displayed` (that still exists) under the cursor.
pub fn get_hovered_window(displayed: &Vec<DisplayWindow>, wm: &WindowManager, cursor_x: u32, cursor_y: u32) -> (r: Option<WindowHandle>)
    requires
        forall|i: int| 0 <= i < displayed@.len() ==> fits_if_present(*wm, #[trigger] displayed@[i].window_handle),
    ensures
        match r {
            Some(h) => exists|i: int| 0 <= i < displayed@.len() && #[trigger] displayed@[i].window_handle == h
                && is_hovered(*wm, h, cursor_x, cursor_y)
                && forall|j: int| 0 <= j < i ==> !is_hovered(*wm, #[trigger] displayed@[j].window_handle, cursor_x, cursor_y),
            None => forall|i: int| 0 <= i < displayed@.len() ==> !is_hovered(*wm, #[trigger] displayed@[i].window_handle, cursor_x, cursor_y),
        },
{
    #[verifier::truncate]
    let cx = cursor_x as i32;
    #[verifier::truncate]
    let cy = cursor_y as i32;
    let mut i: usize = 0;
    while i < displayed.len()
        invariant
            i <= displayed@.len(),
            cx == cursor_x as i32 && cy == cursor_y as i32,
            forall|k: int| 0 <= k < displayed@.len() ==> fits_if_present(*wm, #[trigger] displayed@[k].window_handle),
            forall|j: int| 0 <= j < i ==> !is_hovered(*wm, #[trigger] displayed@[j].window_handle, cursor_x, cursor_y),
        decreases displayed@.len() - i,
    {
        let h = displayed[i].window_handle;
        match wm.windows.get(&h) {
            Some(w) => {
                assert(wm.windows.lookup(displayed@[i as int].window_handle) == Some(*w));
                assert(fits_if_present(*wm, displayed@[i as int].window_handle));
                #[verifier::truncate]
                let sx = w.size_x as i32;
                #[verifier::truncate]
                let sy = w.size_y as i32;
                if cx >= w.pos_x && cx < w.pos_x + sx && cy >= w.pos_y && cy < w.pos_y + sy {
                    return Some(h);
                }
            },
            None => {},
        }
        i = i + 1;
    }
    None
}

/// What changed in the compositor, broadcast to IPC clients.
#[derive(Clone, Copy, PartialEq, Eq, Structural, Debug)]
pub enum StateChange {
    DisplayCreated,
    DisplayRemoved,
    ProcessCreated,
    ProcessRemoved,
    WindowCreated,
}

/// Signals for the rest of the application.
#[derive(Clone, Copy, PartialEq, Eq, Structural, Debug)]
pub enum WayVRSignal {
    DisplayVisibility(DisplayHandle, bool),
    BroadcastStateChanged(StateChange),
}

/// Work the compositor asks of itself or of the application.
#[derive(Clone, Copy, PartialEq, Eq, Structural, Debug)]
pub enum WayVRTask {
    DropOverlay(usize),
    ProcessTerminationRequest(ProcessHandle),
}

/// Why a display could not be destroyed.
#[derive(Debug)]
pub enum DestroyDisplayError {
    NotFound,
    /// The display still shows windows or runs processes (those listed).
    NotEmpty(Vec<ProcessHandle>),
    /// A Wayland client still belongs to the display.
    ClientStillExists,
}

/// Whether `h` is one of `hs`.
pub fn contains_handle(hs: &[Handle], h: Handle) -> (r: bool)
    ensures
        r == hs@.contains(h),
{
    let mut i: usize = 0;
    while i < hs.len()
        invariant
            i <= hs@.len(),
            forall|j: int| 0 <= j < i ==> hs@[j] != h,
        decreases hs@.len() - i,
    {
        if hs[i] == h {
            return true;
        }
        i = i + 1;
    }
    false
}

/// The processes of `pairs` (process, display) that ran on `d`, in order.
pub open spec fn cleanups_for(pairs: Seq<(ProcessHandle, DisplayHandle)>, d: DisplayHandle) -> Seq<ProcessHandle>
    decreases pairs.len(),
{
    if pairs.len() == 0 {
        seq![]
    } else {
        let rest = cleanups_for(pairs.drop_last(), d);
        if pairs.last().1 == d { rest.push(pairs.last().0) } else { rest }
    }
}

/// Whether `h` is the process of one of `pairs`.
pub open spec fn mentions_process(pairs: Seq<(ProcessHandle, DisplayHandle)>, h: ProcessHandle) -> bool {
    exists|i: int| 0 <= i < pairs.len() && (#[trigger] pairs[i]).0 == h
}

/// Whether `d` is the display of one of `pairs`.
pub open spec fn mentions_display(pairs: Seq<(ProcessHandle, DisplayHandle)>, d: DisplayHandle) -> bool {
    exists|i: int| 0 <= i < pairs.len() && (#[trigger] pairs[i]).1 == d
}

/// `d` after the ended processes of `pairs` were noted on it.
pub open spec fn display_after_reap(d: Display, old_d: Display, pairs: Seq<(ProcessHandle, DisplayHandle)>, h: DisplayHandle) -> bool {
    &&& d.width == old_d.width && d.height == old_d.height && d.name == old_d.name
    &&& d.primary == old_d.primary && d.visible == old_d.visible && d.overlay_id == old_d.overlay_id
    &&& d.displayed_windows == old_d.displayed_windows
    &&& d.wants_redraw == (old_d.wants_redraw || mentions_display(pairs, h))
    &&& d.pending_cleanup@ == old_d.pending_cleanup@ + cleanups_for(pairs, h)
}

/// The process slots after a termination request for `h`: a process started
/// elsewhere is forgotten (its pid set to 0); a started one stays until it ends.
pub open spec fn terminated_slots(s: Seq<Option<Cell<Process>>>, h: Handle) -> Seq<Option<Cell<Process>>> {
    match slot_lookup(s, h) {
        Some(Process::External(e)) => s.update(
            h.idx as int,
            Some(Cell { obj: Process::External(ExternalProcess { pid: 0, display_handle: e.display_handle }), generation: h.generation }),
        ),
        _ => s,
    }
}

/// The signal a termination request for `h` sends, and to which pid.
pub open spec fn termination_signal(s: Seq<Option<Cell<Process>>>, h: Handle) -> Option<(u32, TermSignal)> {
    match slot_lookup(s, h) {
        Some(Process::Managed(m)) => Some((m.pid, TermSignal::Term)),
        Some(Process::External(e)) => if e.pid != 0 { Some((e.pid, TermSignal::Interrupt)) } else { None },
        None => None,
    }
}

/// What the application does for a task the compositor queued.
#[derive(Clone, Copy, PartialEq, Eq, Structural, Debug)]
pub enum TickAction {
    /// Drop the overlay with this id.
    DropOverlay(usize),
    /// Send this signal to this pid.
    Signal(u32, TermSignal),
}

/// The actions for one queued task, and the process slots afterwards.
pub open spec fn task_step(s: Seq<Option<Cell<Process>>>, task: WayVRTask) -> (Seq<Option<Cell<Process>>>, Seq<TickAction>) {
    match task {
        WayVRTask::DropOverlay(id) => (s, seq![TickAction::DropOverlay(id)]),
        WayVRTask::ProcessTerminationRequest(h) => (
            terminated_slots(s, h),
            match termination_signal(s, h) {
                Some((pid, sig)) => seq![TickAction::Signal(pid, sig)],
                None => seq![],
            },
        ),
    }
}

/// The actions for the queued tasks, in order, and the process slots afterwards.
pub open spec fn run_tasks(s: Seq<Option<Cell<Process>>>, tasks: Seq<WayVRTask>) -> (Seq<Option<Cell<Process>>>, Seq<TickAction>)
    decreases tasks.len(),
{
    if tasks.len() == 0 {
        (s, seq![])
    } else {
        let (s1, a1) = run_tasks(s, tasks.drop_last());
        let (s2, a2) = task_step(s1, tasks.last());
        (s2, a1 + a2)
    }
}

/// Signals sent to end a process.
#[derive(Clone, Copy, PartialEq, Eq, Structural, Debug)]
pub enum TermSignal {
    /// Graceful stop of a process the compositor started.
    Term,
    /// Ctrl-C for a process started elsewhere.
    Interrupt,
}

/// A window as listed to IPC clients.
pub struct WindowEntry {
    pub handle: WindowHandle,
    pub process_handle: ProcessHandle,
    pub pos_x: i32,
    pub pos_y: i32,
    pub size_x: u32,
    pub size_y: u32,
    pub visible: bool,
    pub display_handle: DisplayHandle,
}

/// The entries of the windows of `ws` that still exist, in display order.
pub open spec fn window_entries(ws: Seq<DisplayWindow>, wm: WindowManager, display: DisplayHandle) -> Seq<WindowEntry>
    decreases ws.len(),
{
    if ws.len() == 0 {
        seq![]
    } else {
        let rest = window_entries(ws.drop_last(), wm, display);
        let dw = ws.last();
        match wm.windows.lookup(dw.window_handle) {
            Some(w) => rest.push(WindowEntry {
                handle: dw.window_handle,
                process_handle: dw.process_handle,
                pos_x: w.pos_x,
                pos_y: w.pos_y,
                size_x: w.size_x,
                size_y: w.size_y,
                visible: w.visible,
                display_handle: display,
            }),
            None => rest,
        }
    }
}

/// A display as described to IPC clients.
pub open spec fn display_packet(d: Display, h: Handle) -> (u32, u32, Seq<char>, bool, crate::ipc::DisplayHandle) {
    (d.width, d.height, d.name@, d.visible, crate::ipc::DisplayHandle { idx: h.idx, generation: h.generation })
}

pub open spec fn packet_view(p: crate::ipc::Display) -> (u32, u32, Seq<char>, bool, crate::ipc::DisplayHandle) {
    (p.width, p.height, p.name@, p.visible, p.handle)
}

/// The IPC description of every display, in slot order.
pub open spec fn display_packets(s: Seq<Option<Cell<Display>>>) -> Seq<(u32, u32, Seq<char>, bool, crate::ipc::DisplayHandle)>
    decreases s.len(),
{
    if s.len() == 0 {
        seq![]
    } else {
        let rest = display_packets(s.drop_last());
        match s.last() {
            Some(c) => rest.push(display_packet(c.obj, Handle { idx: (s.len() - 1) as u32, generation: c.generation })),
            None => rest,
        }
    }
}

impl Display {
    /// This display as described to IPC clients.
    pub fn as_packet(&self, handle: Handle) -> (p: crate::ipc::Display)
        ensures
            packet_view(p) == display_packet(*self, handle),
    {
        crate::ipc::Display {
            width: self.width,
            height: self.height,
            name: self.name.clone(),
            visible: self.visible,
            handle: crate::ipc::DisplayHandle { idx: handle.idx, generation: handle.generation },
        }
    }
}

/// Every display, as listed to IPC clients.
pub fn display_list(displays: &GenVec<Display>) -> (r: Vec<crate::ipc::Display>)
    requires
        displays.vec@.len() <= u32::MAX + 1,
    ensures
        r@.map_values(|p: crate::ipc::Display| packet_view(p)) == display_packets(displays.vec@),
{
    let mut out: Vec<crate::ipc::Display> = Vec::new();
    let mut i: usize = 0;
    while i < displays.vec.len()
        invariant
            i <= displays.vec@.len() <= u32::MAX + 1,
            out@.map_values(|p: crate::ipc::Display| packet_view(p)) == display_packets(displays.vec@.take(i as int)),
        decreases displays.vec@.len() - i,
    {
        let ghost t = displays.vec@.take(i + 1);
        assert(t.drop_last() == displays.vec@.take(i as int));
        let ghost before = out@.map_values(|p: crate::ipc::Display| packet_view(p));
        match &displays.vec[i] {
            Some(cell) => {
                let p = cell.obj.as_packet(GenVec::get_handle(cell, i));
                out.push(p);
                assert(out@.map_values(|p: crate::ipc::Display| packet_view(p)) == before.push(packet_view(p)));
            },
            None => {},
        }
        i = i + 1;
    }
    assert(displays.vec@.take(displays.vec@.len() as int) == displays.vec@);
    out
}

/// One display, as described to IPC clients, if it exists.
pub fn display_get(displays: &GenVec<Display>, handle: Handle) -> (r: Option<crate::ipc::Display>)
    ensures
        match displays.lookup(handle) {
            Some(d) => r matches Some(p) && packet_view(p) == display_packet(d, handle),
            None => r is None,
        },
{
    match displays.get(&handle) {
        Some(d) => Some(d.as_packet(handle)),
        None => None,
    }
}

/// The answer to a client's request about the displays.
pub fn respond(displays: &GenVec<Display>, packet: &crate::ipc::PacketClient) -> (r: crate::ipc::PacketServer)
    requires
        displays.vec@.len() <= u32::MAX + 1,
    ensures
        match *packet {
            crate::ipc::PacketClient::ListDisplays(s) => r matches crate::ipc::PacketServer::ListDisplaysResponse(s2, l)
                && s2 == s && l.list@.map_values(|p: crate::ipc::Display| packet_view(p)) == display_packets(displays.vec@),
            crate::ipc::PacketClient::GetDisplay(s, h) => r matches crate::ipc::PacketServer::GetDisplayResponse(s2, d)
                && s2 == s && match displays.lookup(Handle { idx: h.idx, generation: h.generation }) {
                    Some(dd) => d matches Some(p) && packet_view(p) == display_packet(dd, Handle { idx: h.idx, generation: h.generation }),
                    None => d is None,
                },
        },
{
    match packet {
        crate::ipc::PacketClient::ListDisplays(serial) => {
            crate::ipc::PacketServer::ListDisplaysResponse(*serial, crate::ipc::DisplayList { list: display_list(displays) })
        },
        crate::ipc::PacketClient::GetDisplay(serial, h) => {
            crate::ipc::PacketServer::GetDisplayResponse(*serial, display_get(displays, Handle { idx: h.idx, generation: h.generation }))
        },
    }
}

/// Why a new window could not be attached.
#[derive(Clone, Copy, PartialEq, Eq, Structural, Debug)]
pub enum AttachError {
    /// No process with the client's pid was registered.
    UnknownProcess,
    /// The client's display is gone (the window was still created).
    DisplayMissing,
}

/// The compositor's displays, processes and windows, and its outgoing queues.
pub struct WayVRState {
    pub displays: GenVec<Display>,
    pub processes: GenVec<Process>,
    pub wm: WindowManager,
    pub dashboard_display: Option<DisplayHandle>,
    pub ticks: u64,
    pub cur_modifiers: u8,
    pub tasks: SyncEventQueue<WayVRTask>,
    pub signals: SyncEventQueue<WayVRSignal>,
}

/// The processes (in slot order) that run on `display`.
pub open spec fn processes_on(s: Seq<Option<Cell<Process>>>, display: DisplayHandle) -> Seq<ProcessHandle>
    decreases s.len(),
{
    if s.len() == 0 {
        seq![]
    } else {
        let rest = processes_on(s.drop_last(), display);
        let i = s.len() - 1;
        match s.last() {
            Some(c) => if c.obj.spec_display_handle() == display {
                rest.push(Handle { idx: i as u32, generation: c.generation })
            } else {
                rest
            },
            None => rest,
        }
    }
}

/// The processes listed for a display are exactly the live processes, started
/// by the compositor or attached from elsewhere, that run on it: a handle is
/// listed if and only if it resolves to a process whose display is `display`.
pub proof fn law_processes_on_lists_every_process(s: Seq<Option<Cell<Process>>>, display: DisplayHandle, h: ProcessHandle)
    requires
        s.len() <= u32::MAX + 1,
    ensures
        processes_on(s, display).contains(h)
            <==> (slot_lookup(s, h) matches Some(p) && p.spec_display_handle() == display),
    decreases s.len(),
{
    if s.len() > 0 {
        let rest = s.drop_last();
        let i = s.len() - 1;
        let r = processes_on(rest, display);
        let p = processes_on(s, display);
        law_processes_on_lists_every_process(rest, display, h);
        if h.idx < rest.len() {
            assert(rest[h.idx as int] == s[h.idx as int]);
            assert(slot_lookup(rest, h) == slot_lookup(s, h));
        } else {
            assert(slot_lookup(rest, h) is None);
            assert(!r.contains(h));
        }
        match s.last() {
            Some(c) => {
                if c.obj.spec_display_handle() == display {
                    let x = Handle { idx: i as u32, generation: c.generation };
                    assert(p == r.push(x));
                    if p.contains(h) && !r.contains(h) {
                        let k = choose|k: int| 0 <= k < p.len() && p[k] == h;
                        if k < r.len() {
                            assert(r[k] == h);
                        }
                        assert(h == x);
                    }
                    if r.contains(h) {
                        let k = choose|k: int| 0 <= k < r.len() && r[k] == h;
                        assert(p[k] == h);
                    }
                    if h == x {
                        assert(p[r.len() as int] == x);
                        assert(s[i] == s.last());
                    }
                } else {
                    assert(p == r);
                    if h.idx as int == i {
                        assert(s[i] == s.last());
                    }
                }
            },
            None => {
                assert(p == r);
                if h.idx as int == i {
                    assert(s[i] == s.last());
                }
            },
        }
    }
}

impl WayVRState {
    pub open spec fn wf(&self) -> bool {
        &&& self.displays.wf()
        &&& self.processes.wf()
        &&& self.wm.windows.wf()
    }

    pub fn new() -> (s: WayVRState)
        ensures
            s.wf(),
            s.displays.vec@.len() == 0 && s.processes.vec@.len() == 0 && s.wm.windows.vec@.len() == 0,
            s.displays.cur_generation == 0 && s.processes.cur_generation == 0 && s.wm.windows.cur_generation == 0,
            s.dashboard_display is None,
            s.ticks == 0,
            s.cur_modifiers == 0,
            s.tasks.pending().len() == 0,
            s.signals.pending().len() == 0,
    {
        WayVRState {
            displays: GenVec::new(),
            processes: GenVec::new(),
            wm: WindowManager::new(),
            dashboard_display: None,
            ticks: 0,
            cur_modifiers: 0,
            tasks: SyncEventQueue::new(),
            signals: SyncEventQueue::new(),
        }
    }

    /// Whether this tick is one of every 200 on which stale clients are cleaned up.
    pub fn tick(&mut self) -> (cleanup: bool)
        requires
            old(self).ticks < u64::MAX,
        ensures
            cleanup == (old(self).ticks % 200 == 0),
            *final(self) == (WayVRState { ticks: (old(self).ticks + 1) as u64, ..*old(self) }),
    {
        let cleanup = self.ticks % 200 == 0;
        self.ticks = self.ticks + 1;
        cleanup
    }

    /// Registers a newly created display and announces it.
    pub fn add_display(&mut self, display: Display) -> (h: DisplayHandle)
        requires
            old(self).wf(),
            old(self).displays.cur_generation < u64::MAX,
            old(self).displays.vec@.len() < u32::MAX,
        ensures
            final(self).wf(),
            final(self).displays.lookup(h) == Some(display),
            forall|h2: Handle| h2 != h ==> #[trigger] final(self).displays.lookup(h2) == old(self).displays.lookup(h2),
            final(self).processes == old(self).processes,
            final(self).signals.pending() == old(self).signals.pending().push(
                WayVRSignal::BroadcastStateChanged(StateChange::DisplayCreated)),
            final(self).tasks.pending() == old(self).tasks.pending(),
    {
        let h = self.displays.add(display);
        self.signals.send(WayVRSignal::BroadcastStateChanged(StateChange::DisplayCreated));
        h
    }

    /// The dashboard display, if one was made and still exists.
    pub fn live_dashboard_display(&self) -> (r: Option<DisplayHandle>)
        ensures
            r == (match self.dashboard_display {
                Some(h) => if self.displays.lookup(h) is Some { Some(h) } else { None },
                None => None,
            }),
    {
        match self.dashboard_display {
            Some(h) => {
                if self.displays.get(&h).is_some() {
                    Some(h)
                } else {
                    None
                }
            },
            None => None,
        }
    }

    /// The processes that run on `display`, in slot order.
    pub fn processes_on_display(&self, display: DisplayHandle) -> (r: Vec<ProcessHandle>)
        requires
            self.processes.vec@.len() <= u32::MAX + 1,
        ensures
            r@ == processes_on(self.processes.vec@, display),
    {
        let mut out: Vec<ProcessHandle> = Vec::new();
        let mut i: usize = 0;
        while i < self.processes.vec.len()
            invariant
                i <= self.processes.vec@.len() <= u32::MAX + 1,
                out@ == processes_on(self.processes.vec@.take(i as int), display),
            decreases self.processes.vec@.len() - i,
        {
            let ghost t = self.processes.vec@.take(i + 1);
            assert(t.drop_last() == self.processes.vec@.take(i as int));
            match &self.processes.vec[i] {
                Some(cell) => {
                    if cell.obj.display_handle() == display {
                        out.push(GenVec::get_handle(cell, i));
                    }
                },
                None => {},
            }
            i = i + 1;
        }
        assert(self.processes.vec@.take(self.processes.vec@.len() as int) == self.processes.vec@);
        out
    }

    /// Destroys an empty display. The display's overlay is dropped as soon as the
    /// display is found; the display is then kept if it still shows windows, runs
    /// processes, or has a Wayland client (`client_displays` are the displays of
    /// the connected clients).
    pub fn destroy_display(&mut self, handle: DisplayHandle, client_displays: &[DisplayHandle]) -> (r: Result<(), DestroyDisplayError>)
        requires
            old(self).wf(),
            old(self).processes.vec@.len() <= u32::MAX + 1,
        ensures
            final(self).wf(),
            final(self).processes == old(self).processes,
            old(self).displays.lookup(handle) is None ==> r == Err::<(), DestroyDisplayError>(DestroyDisplayError::NotFound)
                && final(self).displays == old(self).displays
                && final(self).tasks.pending() == old(self).tasks.pending()
                && final(self).signals.pending() == old(self).signals.pending(),
            old(self).displays.lookup(handle) matches Some(d) ==> {
                &&& final(self).tasks.pending() == match d.overlay_id {
                    Some(id) => old(self).tasks.pending().push(WayVRTask::DropOverlay(id)),
                    None => old(self).tasks.pending(),
                }
                &&& if d.displayed_windows@.len() > 0 || processes_on(old(self).processes.vec@, handle).len() > 0 {
                    &&& r matches Err(DestroyDisplayError::NotEmpty(ps)) && ps@ == processes_on(old(self).processes.vec@, handle)
                    &&& final(self).displays == old(self).displays
                    &&& final(self).signals.pending() == old(self).signals.pending()
                } else if client_displays@.contains(handle) {
                    &&& r == Err::<(), DestroyDisplayError>(DestroyDisplayError::ClientStillExists)
                    &&& final(self).displays == old(self).displays
                    &&& final(self).signals.pending() == old(self).signals.pending()
                } else {
                    &&& r is Ok
                    &&& final(self).displays.vec@ == crate::gen_vec::slots_removed(old(self).displays.vec@, handle)
                    &&& final(self).displays.lookup(handle) is None
                    &&& final(self).signals.pending() == old(self).signals.pending().push(
                        WayVRSignal::BroadcastStateChanged(StateChange::DisplayRemoved))
                }
            },
    {
        let (overlay_id, has_windows) = match self.displays.get(&handle) {
            None => {
                return Err(DestroyDisplayError::NotFound);
            },
            Some(d) => (d.overlay_id, d.displayed_windows.len() > 0),
        };
        match overlay_id {
            Some(id) => {
                self.tasks.send(WayVRTask::DropOverlay(id));
            },
            None => {},
        }
        let procs = self.processes_on_display(handle);
        if has_windows || procs.len() > 0 {
            return Err(DestroyDisplayError::NotEmpty(procs));
        }
        if contains_handle(client_displays, handle) {
            return Err(DestroyDisplayError::ClientStillExists);
        }
        self.displays.remove(&handle);
        self.signals.send(WayVRSignal::BroadcastStateChanged(StateChange::DisplayRemoved));
        Ok(())
    }

    /// Registers a process started outside the compositor on `display_handle`.
    pub fn add_external_process(&mut self, display_handle: DisplayHandle, pid: u32) -> (h: ProcessHandle)
        requires
            old(self).wf(),
            old(self).processes.cur_generation < u64::MAX,
            old(self).processes.vec@.len() < u32::MAX,
        ensures
            final(self).wf(),
            final(self).processes.lookup(h) == Some(Process::External(ExternalProcess { pid, display_handle })),
            forall|h2: Handle| h2 != h ==> #[trigger] final(self).processes.lookup(h2) == old(self).processes.lookup(h2),
            final(self).displays == old(self).displays,
            final(self).signals.pending() == old(self).signals.pending(),
    {
        self.processes.add(Process::External(ExternalProcess { display_handle, pid }))
    }

    /// Registers a process the compositor started on a display, and announces it.
    pub fn add_managed_process(&mut self, process: ManagedProcess) -> (h: ProcessHandle)
        requires
            old(self).wf(),
            old(self).processes.cur_generation < u64::MAX,
            old(self).processes.vec@.len() < u32::MAX,
        ensures
            final(self).wf(),
            final(self).processes.lookup(h) == Some(Process::Managed(process)),
            forall|h2: Handle| h2 != h ==> #[trigger] final(self).processes.lookup(h2) == old(self).processes.lookup(h2),
            final(self).displays == old(self).displays,
            final(self).signals.pending() == old(self).signals.pending().push(
                WayVRSignal::BroadcastStateChanged(StateChange::ProcessCreated)),
    {
        let h = self.processes.add(Process::Managed(process));
        self.signals.send(WayVRSignal::BroadcastStateChanged(StateChange::ProcessCreated));
        h
    }

    /// Asks for a process to be terminated at the next tick.
    pub fn terminate_process(&mut self, process_handle: ProcessHandle)
        ensures
            final(self).tasks.pending() == old(self).tasks.pending().push(WayVRTask::ProcessTerminationRequest(process_handle)),
            final(self).displays == old(self).displays,
            final(self).processes == old(self).processes,
            final(self).signals.pending() == old(self).signals.pending(),
    {
        self.tasks.send(WayVRTask::ProcessTerminationRequest(process_handle));
    }

    /// Asks for a display to be shown or hidden.
    pub fn request_display_visibility(&mut self, display: DisplayHandle, visible: bool)
        ensures
            final(self).signals.pending() == old(self).signals.pending().push(WayVRSignal::DisplayVisibility(display, visible)),
            final(self).displays == old(self).displays,
            final(self).processes == old(self).processes,
            final(self).tasks.pending() == old(self).tasks.pending(),
    {
        self.signals.send(WayVRSignal::DisplayVisibility(display, visible));
    }

    /// The key events (X11 key code, pressed) that bring the compositor keyboard's
    /// modifiers to `modifiers`.
    pub fn set_modifiers(&mut self, modifiers: u8) -> (r: Vec<(u32, bool)>)
        ensures
            final(self).cur_modifiers == modifiers,
            r@.len() == crate::input::modifier_events(old(self).cur_modifiers, modifiers, 8).len(),
            forall|i: int| 0 <= i < r@.len() ==> (#[trigger] r@[i]).0 == crate::input::modifier_events(old(self).cur_modifiers, modifiers, 8)[i].0
                && r@[i].1 == crate::input::modifier_events(old(self).cur_modifiers, modifiers, 8)[i].1,
            final(self).displays == old(self).displays,
            final(self).processes == old(self).processes,
    {
        let events = crate::input::modifier_key_events(self.cur_modifiers, modifiers, 8);
        let mut out: Vec<(u32, bool)> = Vec::new();
        let mut i: usize = 0;
        while i < events.len()
            invariant
                i <= events@.len(),
                events@ == crate::input::modifier_events(old(self).cur_modifiers, modifiers, 8),
                out@.len() == i,
                forall|j: int| 0 <= j < i ==> (#[trigger] out@[j]).0 == events@[j].0 && out@[j].1 == events@[j].1,
            decreases events@.len() - i,
        {
            let (code, down) = events[i];
            out.push((code as u32, down));
            i = i + 1;
        }
        self.cur_modifiers = modifiers;
        out
    }

    /// Attaches a new toplevel surface of the client with process id `pid`, which
    /// connected to `client_display`: a window is created for it and shown on
    /// that display, after which the display's windows need to be laid out again.
    pub fn attach_toplevel(&mut self, client_display: DisplayHandle, pid: u32) -> (r: Result<WindowHandle, AttachError>)
        requires
            old(self).wf(),
            old(self).processes.vec@.len() <= u32::MAX + 1,
            old(self).wm.windows.cur_generation < u64::MAX,
            old(self).wm.windows.vec@.len() < u32::MAX,
        ensures
            final(self).wf(),
            final(self).processes == old(self).processes,
            r == Err::<WindowHandle, AttachError>(AttachError::UnknownProcess) <==>
                forall|i: int| 0 <= i < old(self).processes.vec@.len() && #[trigger] old(self).processes.vec@[i] is Some
                    ==> old(self).processes.vec@[i]->0.obj.spec_pid() != pid,
            r == Err::<WindowHandle, AttachError>(AttachError::UnknownProcess) ==> final(self).wm.windows == old(self).wm.windows
                && final(self).displays == old(self).displays
                && final(self).signals.pending() == old(self).signals.pending(),
            r != Err::<WindowHandle, AttachError>(AttachError::UnknownProcess) ==> (r == Err::<WindowHandle, AttachError>(AttachError::DisplayMissing)
                <==> old(self).displays.lookup(client_display) is None),
            r matches Ok(w) ==> {
                &&& final(self).wm.windows.lookup(w) == Some(Window::new_spec(client_display))
                &&& final(self).displays.lookup(client_display) matches Some(d)
                &&& old(self).displays.lookup(client_display) matches Some(d0)
                &&& d.displayed_windows@.len() == d0.displayed_windows@.len() + 1
                &&& d.displayed_windows@.last().window_handle == w
                &&& first_match(old(self).processes.vec@, |q: Process| q.spec_pid() == pid,
                        Some(d.displayed_windows@.last().process_handle))
                &&& final(self).signals.pending() == old(self).signals.pending().push(
                    WayVRSignal::BroadcastStateChanged(StateChange::WindowCreated))
            },
    {
        let process_handle = match find_by_pid(&self.processes, pid) {
            Some(p) => p,
            None => {
                return Err(AttachError::UnknownProcess);
            },
        };
        let window_handle = self.wm.create_window(client_display);
        match self.displays.get_mut(&client_display) {
            Some(display) => {
                display.displayed_windows.push(DisplayWindow { window_handle, process_handle });
            },
            None => {
                return Err(AttachError::DisplayMissing);
            },
        }
        self.signals.send(WayVRSignal::BroadcastStateChanged(StateChange::WindowCreated));
        Ok(window_handle)
    }

    /// Forgets the processes that ended (each with the display it ran on): their
    /// displays are told to drop their windows and to redraw, and the removal is
    /// announced if there was any.
    pub fn reap_processes(&mut self, ended: &[(ProcessHandle, DisplayHandle)])
        requires
            old(self).wf(),
        ensures
            final(self).wf(),
            forall|h: ProcessHandle| mentions_process(ended@, h) ==> #[trigger] final(self).processes.lookup(h) is None,
            forall|h: ProcessHandle| !mentions_process(ended@, h) ==> #[trigger] final(self).processes.lookup(h) == old(self).processes.lookup(h),
            forall|h: DisplayHandle| (#[trigger] final(self).displays.lookup(h) is Some) == (old(self).displays.lookup(h) is Some),
            forall|h: DisplayHandle| #[trigger] old(self).displays.lookup(h) matches Some(d0)
                ==> display_after_reap(final(self).displays.lookup(h)->0, d0, ended@, h),
            final(self).signals.pending() == if ended@.len() > 0 {
                old(self).signals.pending().push(WayVRSignal::BroadcastStateChanged(StateChange::ProcessRemoved))
            } else {
                old(self).signals.pending()
            },
            final(self).wm == old(self).wm,
            final(self).tasks == old(self).tasks,
            final(self).ticks == old(self).ticks,
    {
        let mut i: usize = 0;
        while i < ended.len()
            invariant
                i <= ended@.len(),
                self.wf(),
                self.signals == old(self).signals,
                self.wm == old(self).wm,
                self.tasks == old(self).tasks,
                self.ticks == old(self).ticks,
                forall|h: ProcessHandle| mentions_process(ended@.take(i as int), h) ==> #[trigger] self.processes.lookup(h) is None,
                forall|h: ProcessHandle| !mentions_process(ended@.take(i as int), h) ==> #[trigger] self.processes.lookup(h) == old(self).processes.lookup(h),
                forall|h: DisplayHandle| (#[trigger] self.displays.lookup(h) is Some) == (old(self).displays.lookup(h) is Some),
                forall|h: DisplayHandle| #[trigger] old(self).displays.lookup(h) matches Some(d0)
                    ==> display_after_reap(self.displays.lookup(h)->0, d0, ended@.take(i as int), h),
            decreases ended@.len() - i,
        {
            let (p, d) = ended[i];
            let ghost pre = ended@.take(i as int);
            let ghost post = ended@.take(i + 1);
            assert(post.drop_last() == pre);
            assert(post.last() == (p, d));
            let ghost procs0 = self.processes;
            self.processes.remove(&p);
            assert forall|h: ProcessHandle| mentions_process(post, h) implies #[trigger] self.processes.lookup(h) is None by {
                if h != p {
                    let k = choose|k: int| 0 <= k < post.len() && (#[trigger] post[k]).0 == h;
                    assert(pre[k] == post[k]);
                    assert(mentions_process(pre, h));
                    if h.idx == p.idx {
                        assert(procs0.lookup(h) is None);
                    }
                }
            }
            assert forall|h: ProcessHandle| !mentions_process(post, h) implies #[trigger] self.processes.lookup(h) == old(self).processes.lookup(h) by {
                assert(h != p) by {
                    assert(post[i as int].0 == p);
                }
                assert forall|k: int| 0 <= k < pre.len() implies (#[trigger] pre[k]).0 != h by {
                    assert(post[k] == pre[k]);
                }
                if h.idx == p.idx {
                    if procs0.lookup(p) is Some {
                        assert(procs0.vec@[p.idx as int]->0.generation == p.generation);
                    }
                }
            }
            let ghost disps0 = self.displays;
            match self.displays.get_mut(&d) {
                Some(display) => {
                    display.pending_cleanup.push(p);
                    display.wants_redraw = true;
                },
                None => {},
            }
            assert forall|h: DisplayHandle| #[trigger] old(self).displays.lookup(h) is Some
                implies display_after_reap(self.displays.lookup(h)->0, old(self).displays.lookup(h)->0, post, h) by {
                assert(cleanups_for(post, h) == if h == d { cleanups_for(pre, h).push(p) } else { cleanups_for(pre, h) });
                if h == d {
                    assert(mentions_display(post, h)) by {
                        assert(post[i as int].1 == d);
                    }
                } else {
                    if mentions_display(post, h) {
                        let k = choose|k: int| 0 <= k < post.len() && (#[trigger] post[k]).1 == h;
                        assert(pre[k] == post[k]);
                        assert(mentions_display(pre, h));
                    }
                    if mentions_display(pre, h) {
                        let k = choose|k: int| 0 <= k < pre.len() && (#[trigger] pre[k]).1 == h;
                        assert(pre[k] == post[k]);
                    }
                    if h.idx == d.idx && disps0.lookup(d) is Some {
                        assert(disps0.vec@[d.idx as int]->0.generation == d.generation);
                    }
                }
                assert(self.displays.lookup(h) is Some);
            }
            assert forall|h: DisplayHandle| (#[trigger] self.displays.lookup(h) is Some) == (old(self).displays.lookup(h) is Some) by {
                if h.idx == d.idx && disps0.lookup(d) is Some && h != d {
                    assert(disps0.vec@[d.idx as int]->0.generation == d.generation);
                }
            }
            i = i + 1;
        }
        assert(ended@.take(ended@.len() as int) == ended@);
        if ended.len() > 0 {
            self.signals.send(WayVRSignal::BroadcastStateChanged(StateChange::ProcessRemoved));
        }
    }

    /// Carries out a termination request: the process to signal and how, if any.
    /// A process started elsewhere is signalled once and then forgotten.
    pub fn terminate_request(&mut self, h: ProcessHandle) -> (r: Option<(u32, TermSignal)>)
        requires
            old(self).wf(),
        ensures
            final(self).wf(),
            final(self).displays == old(self).displays,
            final(self).signals == old(self).signals,
            match old(self).processes.lookup(h) {
                None => r is None && final(self).processes.vec@ == old(self).processes.vec@,
                Some(Process::Managed(m)) => r == Some((m.pid, TermSignal::Term)) && final(self).processes.vec@ == old(self).processes.vec@,
                Some(Process::External(e)) => {
                    &&& r == (if e.pid != 0 { Some((e.pid, TermSignal::Interrupt)) } else { None::<(u32, TermSignal)> })
                    &&& final(self).processes.lookup(h) == Some(Process::External(ExternalProcess { pid: 0, display_handle: e.display_handle }))
                    &&& forall|h2: Handle| h2.idx != h.idx ==> #[trigger] final(self).processes.lookup(h2) == old(self).processes.lookup(h2)
                },
            },
            final(self).processes.vec@ == terminated_slots(old(self).processes.vec@, h),
            r == termination_signal(old(self).processes.vec@, h),
            final(self).processes.cur_generation == old(self).processes.cur_generation,
            final(self).wm == old(self).wm,
            final(self).tasks == old(self).tasks,
            final(self).ticks == old(self).ticks,
    {
        match self.processes.get_mut(&h) {
            Some(p) => match p {
                Process::Managed(m) => Some((m.pid, TermSignal::Term)),
                Process::External(e) => match e.terminate() {
                    Some(pid) => Some((pid, TermSignal::Interrupt)),
                    None => None,
                },
            },
            None => None,
        }
    }

    /// Carries out the compositor's queued tasks, oldest first: overlays to drop
    /// are handed to the application, termination requests end their process
    /// (the signal to send is handed on). The queue is left empty.
    pub fn take_tasks(&mut self) -> (r: Vec<TickAction>)
        requires
            old(self).wf(),
        ensures
            final(self).wf(),
            final(self).tasks.pending().len() == 0,
            (final(self).processes.vec@, r@) == run_tasks(old(self).processes.vec@, old(self).tasks.pending()),
            final(self).processes.cur_generation == old(self).processes.cur_generation,
            final(self).displays == old(self).displays,
            final(self).signals == old(self).signals,
            final(self).wm == old(self).wm,
            final(self).ticks == old(self).ticks,
    {
        let ghost s0 = self.processes.vec@;
        let ghost t0 = self.tasks.pending();
        let mut out: Vec<TickAction> = Vec::new();
        let ghost mut k: int = 0;
        loop
            invariant
                self.wf(),
                0 <= k <= t0.len(),
                self.tasks.pending() == t0.skip(k),
                (self.processes.vec@, out@) == run_tasks(s0, t0.take(k)),
                self.processes.cur_generation == old(self).processes.cur_generation,
                self.displays == old(self).displays,
                self.signals == old(self).signals,
                self.wm == old(self).wm,
                self.ticks == old(self).ticks,
            ensures
                self.wf(),
                self.ticks == old(self).ticks,
                self.tasks.pending().len() == 0,
                (self.processes.vec@, out@) == run_tasks(s0, t0),
                self.processes.cur_generation == old(self).processes.cur_generation,
                self.displays == old(self).displays,
                self.signals == old(self).signals,
                self.wm == old(self).wm,
            decreases t0.len() - k,
        {
            let task = self.tasks.read();
            match task {
                None => {
                    proof {
                        assert(k == t0.len());
                        assert(t0.take(k) =~= t0);
                    }
                    break;
                },
                Some(task) => {
                    proof {
                        assert(task == t0[k]);
                        assert(t0.take(k + 1).drop_last() =~= t0.take(k));
                        assert(t0.take(k + 1).last() == t0[k]);
                    }
                    let ghost a0 = out@;
                    match task {
                        WayVRTask::DropOverlay(id) => {
                            out.push(TickAction::DropOverlay(id));
                        },
                        WayVRTask::ProcessTerminationRequest(h) => {
                            match self.terminate_request(h) {
                                Some((pid, sig)) => out.push(TickAction::Signal(pid, sig)),
                                None => {},
                            }
                        },
                    }
                    proof {
                        assert(self.tasks.pending() =~= t0.skip(k + 1));
                        let (s1, a1) = run_tasks(s0, t0.take(k));
                        let (s2, a2) = task_step(s1, t0[k]);
                        assert(out@ =~= a1 + a2);
                        k = k + 1;
                    }
                },
            }
        }
        out
    }

    /// One tick of the compositor's bookkeeping: the processes that ended
    /// (each with its display) are forgotten and their displays told to drop
    /// their windows and redraw, the queued tasks are carried out, oldest
    /// first, and the tick is counted. Gives the actions for the application
    /// and whether stale clients are due to be cleaned up (every 200 ticks).
    pub fn tick_events(&mut self, ended: &[(ProcessHandle, DisplayHandle)]) -> (r: (Vec<TickAction>, bool))
        requires
            old(self).wf(),
            old(self).ticks < u64::MAX,
        ensures
            final(self).wf(),
            r.1 == (old(self).ticks % 200 == 0),
            final(self).ticks == old(self).ticks + 1,
            final(self).tasks.pending().len() == 0,
            exists|mid: Seq<Option<Cell<Process>>>| #![trigger run_tasks(mid, old(self).tasks.pending())]
                (forall|h: ProcessHandle| mentions_process(ended@, h) ==> #[trigger] slot_lookup(mid, h) is None)
                && (forall|h: ProcessHandle| !mentions_process(ended@, h) ==> #[trigger] slot_lookup(mid, h) == old(self).processes.lookup(h))
                && (final(self).processes.vec@, r.0@) == run_tasks(mid, old(self).tasks.pending()),
            forall|h: DisplayHandle| (#[trigger] final(self).displays.lookup(h) is Some) == (old(self).displays.lookup(h) is Some),
            forall|h: DisplayHandle| #[trigger] old(self).displays.lookup(h) matches Some(d0)
                ==> display_after_reap(final(self).displays.lookup(h)->0, d0, ended@, h),
            final(self).signals.pending() == if ended@.len() > 0 {
                old(self).signals.pending().push(WayVRSignal::BroadcastStateChanged(StateChange::ProcessRemoved))
            } else {
                old(self).signals.pending()
            },
            final(self).wm == old(self).wm,
    {
        let ghost old_procs = self.processes;
        let ghost t0 = self.tasks.pending();
        self.reap_processes(ended);
        let ghost mid = self.processes.vec@;
        proof {
            assert forall|h: ProcessHandle| mentions_process(ended@, h) implies #[trigger] slot_lookup(mid, h) is None by {
                assert(self.processes.lookup(h) is None);
            }
            assert forall|h: ProcessHandle| !mentions_process(ended@, h) implies #[trigger] slot_lookup(mid, h) == old_procs.lookup(h) by {
                assert(self.processes.lookup(h) == old_procs.lookup(h));
            }
        }
        let actions = self.take_tasks();
        let cleanup = self.tick();
        proof {
            assert((self.processes.vec@, actions@) == run_tasks(mid, t0));
        }
        (actions, cleanup)
    }

    /// Shows or hides a window; gives the display whose windows must be laid out
    /// and rendered again, if the window and its display exist.
    pub fn set_window_visible(&mut self, h: WindowHandle, visible: bool) -> (r: Option<DisplayHandle>)
        requires
            old(self).wf(),
        ensures
            final(self).wf(),
            final(self).processes == old(self).processes,
            final(self).signals == old(self).signals,
            match old(self).wm.windows.lookup(h) {
                None => r is None && final(self).wm.windows.vec@ == old(self).wm.windows.vec@
                    && final(self).displays.vec@ == old(self).displays.vec@,
                Some(w) => {
                    &&& final(self).wm.windows.lookup(h) == Some(Window { visible, ..w })
                    &&& forall|h2: Handle| h2.idx != h.idx ==> #[trigger] final(self).wm.windows.lookup(h2) == old(self).wm.windows.lookup(h2)
                    &&& r == (if old(self).displays.lookup(w.display_handle) is Some { Some(w.display_handle) } else { None::<DisplayHandle> })
                    &&& match old(self).displays.lookup(w.display_handle) {
                        Some(d) => final(self).displays.lookup(w.display_handle) == Some(Display { wants_redraw: true, ..d })
                            && forall|h2: Handle| h2.idx != w.display_handle.idx ==> #[trigger] final(self).displays.lookup(h2) == old(self).displays.lookup(h2),
                        None => final(self).displays.vec@ == old(self).displays.vec@,
                    }
                },
            },
    {
        let to_resize = match self.wm.windows.get_mut(&h) {
            Some(window) => {
                window.visible = visible;
                window.display_handle
            },
            None => {
                return None;
            },
        };
        match self.displays.get_mut(&to_resize) {
            Some(display) => {
                display.wants_redraw = true;
                Some(to_resize)
            },
            None => None,
        }
    }

    /// The windows shown on a display, for IPC clients; `None` when the display does not exist.
    pub fn display_window_list(&self, display: DisplayHandle) -> (r: Option<Vec<WindowEntry>>)
        ensures
            match self.displays.lookup(display) {
                None => r is None,
                Some(d) => r matches Some(v) && v@ == window_entries(d.displayed_windows@, self.wm, display),
            },
    {
        let d = match self.displays.get(&display) {
            Some(d) => d,
            None => {
                return None;
            },
        };
        let mut out: Vec<WindowEntry> = Vec::new();
        let mut i: usize = 0;
        while i < d.displayed_windows.len()
            invariant
                i <= d.displayed_windows@.len(),
                out@ == window_entries(d.displayed_windows@.take(i as int), self.wm, display),
            decreases d.displayed_windows@.len() - i,
        {
            let dw = d.displayed_windows[i];
            let ghost t = d.displayed_windows@.take(i + 1);
            assert(t.drop_last() == d.displayed_windows@.take(i as int));
            assert(t.last() == dw);
            match self.wm.windows.get(&dw.window_handle) {
                Some(w) => {
                    out.push(WindowEntry {
                        handle: dw.window_handle,
                        process_handle: dw.process_handle,
                        pos_x: w.pos_x,
                        pos_y: w.pos_y,
                        size_x: w.size_x,
                        size_y: w.size_y,
                        visible: w.visible,
                        display_handle: display,
                    });
                },
                None => {},
            }
            i = i + 1;
        }
        assert(d.displayed_windows@.take(d.displayed_windows@.len() as int) == d.displayed_windows@);
        Some(out)
    }
}

} // verus!