//! Keeping the screen overlays in step with the desktop's outputs: the
//! decisions taken for each output change that the capture reports. Capturing
//! and rendering stay with the caller.

use vstd::prelude::*;
use crate::overlay::{ids_unique, index_of_id, OverlayContainer, OverlayID, OverlaySelector, OverlayState, ScreenMeta};

verus! {

/// A change of the desktop's outputs, by the output's native handle.
#[derive(Clone, Copy, PartialEq, Eq, Structural, Debug)]
pub enum OutputChange {
    /// Outputs appeared.
    Create,
    /// An output went away.
    Destroy(u32),
    /// An output's position or size on the desktop changed.
    Logical(u32),
    /// An output's mode changed.
    Physical(u32),
}

/// What the caller does for one output change.
pub enum OutputStep {
    /// Nothing: outputs were already captured in this update, or no screen (or
    /// no overlay) belongs to the output.
    Skip,
    /// Capture the outputs and hand the new screens to `add_screens`.
    CreateScreens,
    /// The screen's overlay was taken out; the caller drops it.
    Removed(OverlayState),
    /// Give the screen's overlay a new input mapping (logical change) or a new
    /// renderer (physical change).
    Reconfigure(OverlayID),
}

/// What one round of output changes has noted so far.
#[derive(Clone, Copy, PartialEq, Eq, Structural, Debug)]
pub struct OutputUpdate {
    pub create_ran: bool,
    pub extent_dirty: bool,
    pub watch_dirty: bool,
}

/// The first screen of `screens` with the given native handle.
pub open spec fn screen_index(screens: Seq<ScreenMeta>, handle: u32) -> Option<int> {
    if exists|i: int| 0 <= i < screens.len() && screens[i].native_handle == handle
        && forall|j: int| 0 <= j < i ==> (#[trigger] screens[j]).native_handle != handle {
        Some(choose|i: int| 0 <= i < screens.len() && screens[i].native_handle == handle
            && forall|j: int| 0 <= j < i ==> (#[trigger] screens[j]).native_handle != handle)
    } else {
        None
    }
}

/// The overlays after taking out the one at `i`: the last takes its place.
pub open spec fn view_swap_removed(s: Seq<OverlayState>, i: int) -> Seq<OverlayState> {
    if i == s.len() - 1 {
        s.drop_last()
    } else {
        s.update(i, s.last()).drop_last()
    }
}

/// The overlay that a screen stands for exists (the update relies on it).
pub open spec fn screen_has_overlay(c: OverlayContainer, screens: Seq<ScreenMeta>, handle: u32) -> bool {
    match screen_index(screens, handle) {
        Some(i) => index_of_id(c.view(), screens[i].id.0) is Some,
        None => true,
    }
}

/// A moved or changed output: its screen's overlay, if there is one, is
/// reconfigured and the desktop's extent is noted as changed; otherwise the
/// change is skipped.
pub open spec fn reconfigured(view: Seq<OverlayState>, screens: Seq<ScreenMeta>, h: u32, r: OutputStep, u0: OutputUpdate, u1: OutputUpdate) -> bool {
    match screen_index(screens, h) {
        Some(i) => if screens[i].id.0 < u32::MAX && index_of_id(view, screens[i].id.0) is Some {
            &&& r == OutputStep::Reconfigure(screens[i].id)
            &&& u1 == (OutputUpdate { extent_dirty: true, ..u0 })
        } else {
            r is Skip && u1 == u0
        },
        None => r is Skip && u1 == u0,
    }
}

/// The first screen with a native handle: its index, found by a scan.
fn find_screen(screens: &Vec<ScreenMeta>, handle: u32) -> (r: Option<usize>)
    ensures
        match r {
            Some(i) => screen_index(screens@, handle) == Some(i as int),
            None => screen_index(screens@, handle) is None,
        },
{
    let mut k: usize = 0;
    while k < screens.len()
        invariant
            k <= screens@.len(),
            forall|j: int| 0 <= j < k ==> (#[trigger] screens@[j]).native_handle != handle,
        decreases screens@.len() - k,
    {
        if screens[k].native_handle == handle {
            proof {
                assert(screens@[k as int].native_handle == handle);
                let w = choose|i: int| 0 <= i < screens@.len() && screens@[i].native_handle == handle
                    && forall|j: int| 0 <= j < i ==> (#[trigger] screens@[j]).native_handle != handle;
                if w < k {
                    assert(screens@[w].native_handle != handle);
                } else if w > k {
                    assert(screens@[k as int].native_handle != handle);
                }
                assert(w == k);
            }
            return Some(k);
        }
        k = k + 1;
    }
    None
}

impl OutputUpdate {
    /// Nothing noted yet.
    pub fn new() -> (u: OutputUpdate)
        ensures
            u == (OutputUpdate { create_ran: false, extent_dirty: false, watch_dirty: false }),
    {
        OutputUpdate { create_ran: false, extent_dirty: false, watch_dirty: false }
    }

    /// What is left to do once the changes are handled: set the desktop's
    /// extent anew (when an output moved and none was captured, since capturing
    /// sets it), and rebuild the watch's screen list (when screens came or went).
    pub fn finish(&self) -> (r: (bool, bool))
        ensures
            r == (self.extent_dirty && !self.create_ran, self.watch_dirty),
    {
        (self.extent_dirty && !self.create_ran, self.watch_dirty)
    }
}

impl OverlayContainer {
    /// Adds the screens that a capture found: their overlays after the present
    /// ones and their descriptions after the known screens. New overlays get
    /// ids never handed out before, so all ids stay distinct. When any screen
    /// came, the watch's screen list is due for a rebuild.
    pub fn add_screens(&mut self, screens: &mut Vec<ScreenMeta>, update: &mut OutputUpdate, created: Vec<(ScreenMeta, OverlayState)>)
        requires
            old(self).wf(),
            ids_unique(old(self).view() + created@.map_values(|p: (ScreenMeta, OverlayState)| p.1)),
            forall|i: int| 0 <= i < created@.len() ==> (#[trigger] created@[i]).1.id.0 < u32::MAX,
            old(self).view().len() + created@.len() + 1 < u32::MAX,
        ensures
            final(self).wf(),
            final(self).view() == old(self).view() + created@.map_values(|p: (ScreenMeta, OverlayState)| p.1),
            final(screens)@ == old(screens)@ + created@.map_values(|p: (ScreenMeta, OverlayState)| p.0),
            *final(update) == (if created@.len() > 0 { OutputUpdate { watch_dirty: true, ..*old(update) } } else { *old(update) }),
    {
        let ghost v0 = self.view();
        let ghost m0 = screens@;
        let ghost c0 = created@;
        let ghost want = v0 + c0.map_values(|p: (ScreenMeta, OverlayState)| p.1);
        let n = created.len();
        let mut rest = created;
        let mut k: usize = 0;
        while k < n
            invariant
                n == c0.len(),
                k <= n,
                rest@ == c0.subrange(k as int, n as int),
                self.wf(),
                self.view() == want.subrange(0, v0.len() + k),
                screens@ == m0 + c0.subrange(0, k as int).map_values(|p: (ScreenMeta, OverlayState)| p.0),
                want == v0 + c0.map_values(|p: (ScreenMeta, OverlayState)| p.1),
                ids_unique(want),
                forall|i: int| 0 <= i < c0.len() ==> (#[trigger] c0[i]).1.id.0 < u32::MAX,
                v0.len() + n + 1 < u32::MAX,
                *update == (if k > 0 { OutputUpdate { watch_dirty: true, ..*old(update) } } else { *old(update) }),
            decreases n - k,
        {
            let (meta, state) = rest.remove(0);
            proof {
                assert(state == c0[k as int].1);
                assert(want[v0.len() + k] == state);
                crate::overlay::lemma_prefix_fresh(want, v0.len() + k);
            }
            self.add(state);
            screens.push(meta);
            update.watch_dirty = true;
            proof {
                assert(self.view() =~= want.subrange(0, v0.len() + k + 1));
                assert(screens@ =~= m0 + c0.subrange(0, k + 1).map_values(|p: (ScreenMeta, OverlayState)| p.0));
                assert(rest@ =~= c0.subrange(k + 1, n as int));
            }
            k = k + 1;
        }
        proof {
            assert(self.view() =~= want);
            assert(c0.subrange(0, n as int) =~= c0);
        }
    }

    /// Handles one output change: outputs are captured once per update; a
    /// removed output takes its screen's overlay and description with it; a
    /// changed output has its overlay reconfigured. Changes for outputs without
    /// a screen are skipped.
    pub fn on_output_change(&mut self, screens: &mut Vec<ScreenMeta>, update: &mut OutputUpdate, change: OutputChange) -> (r: OutputStep)
        requires
            old(self).wf(),
            match change {
                OutputChange::Destroy(h) => screen_has_overlay(*old(self), old(screens)@, h),
                _ => true,
            },
        ensures
            final(self).wf(),
            match change {
                OutputChange::Create => {
                    &&& final(self).view() == old(self).view()
                    &&& final(screens)@ == old(screens)@
                    &&& if old(update).create_ran {
                        r is Skip && *final(update) == *old(update)
                    } else {
                        r is CreateScreens && *final(update) == (OutputUpdate { create_ran: true, ..*old(update) })
                    }
                },
                OutputChange::Destroy(h) => match screen_index(old(screens)@, h) {
                    Some(i) => {
                        let k = index_of_id(old(self).view(), old(screens)@[i].id.0)->0;
                        &&& r == OutputStep::Removed(old(self).view()[k])
                        &&& final(self).view() == view_swap_removed(old(self).view(), k)
                        &&& final(screens)@ == old(screens)@.remove(i)
                        &&& *final(update) == (OutputUpdate { extent_dirty: true, watch_dirty: true, ..*old(update) })
                    },
                    None => {
                        &&& r is Skip
                        &&& final(self).view() == old(self).view()
                        &&& final(screens)@ == old(screens)@
                        &&& *final(update) == *old(update)
                    },
                },
                OutputChange::Logical(h) => {
                    &&& final(self).view() == old(self).view()
                    &&& final(screens)@ == old(screens)@
                    &&& reconfigured(old(self).view(), old(screens)@, h, r, *old(update), *final(update))
                },
                OutputChange::Physical(h) => {
                    &&& final(self).view() == old(self).view()
                    &&& final(screens)@ == old(screens)@
                    &&& reconfigured(old(self).view(), old(screens)@, h, r, *old(update), *final(update))
                },
            },
    {
        match change {
            OutputChange::Create => {
                if update.create_ran {
                    OutputStep::Skip
                } else {
                    update.create_ran = true;
                    OutputStep::CreateScreens
                }
            },
            OutputChange::Destroy(h) => {
                match find_screen(screens, h) {
                    None => OutputStep::Skip,
                    Some(idx) => {
                        let ghost v0 = self.view();
                        let id = screens[idx].id.0;
                        let ghost k = index_of_id(v0, id)->0;
                        proof {
                            assert(v0[k].id.0 == id);
                        }
                        let removed = self.remove_by_selector(&OverlaySelector::Id(id));
                        proof {
                            assert(removed is Some);
                            let sel = OverlaySelector::Id(id);
                            let w = choose|w: int| crate::overlay::selects(v0, sel, w) && v0[w] == removed->0
                                && self.view() == (if w == v0.len() - 1 { v0.drop_last() } else { v0.update(w, v0.last()).drop_last() });
                            if w != k {
                                assert(v0[w].id.0 != v0[k].id.0);
                            }
                        }
                        screens.remove(idx);
                        update.extent_dirty = true;
                        update.watch_dirty = true;
                        match removed {
                            Some(o) => OutputStep::Removed(o),
                            None => OutputStep::Skip,
                        }
                    },
                }
            },
            OutputChange::Logical(h) | OutputChange::Physical(h) => {
                let found = find_screen(screens, h);
                match found {
                    None => OutputStep::Skip,
                    Some(idx) => {
                        let id = screens[idx].id;
                        if id.0 < (u32::MAX as usize) && self.get_by_id(id.0).is_some() {
                            update.extent_dirty = true;
                            OutputStep::Reconfigure(id)
                        } else {
                            OutputStep::Skip
                        }
                    },
                }
            },
        }
    }
}

} // verus!
