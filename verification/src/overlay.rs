//! The set of overlays and the decisions that show, hide and find them.
//! Placement in space (transforms) stays with the caller.

use vstd::prelude::*;
use crate::text::str_eq;
use idmap::IdMap;

verus! {

/// Identity of an overlay.
#[derive(Clone, Copy, PartialEq, Eq, Structural, Debug, Default)]
pub struct OverlayID(pub usize);

/// What an overlay is positioned relative to.
#[derive(Clone, Copy, PartialEq, Eq, Structural, Debug)]
pub enum RelativeTo {
    /// Stays in place unless recentered.
    Unanchored,
    /// Stays in position relative to the HMD.
    Head,
    /// Stays in position relative to a hand.
    Hand(usize),
    /// Stays in place, no recentering.
    Stage,
}

/// An overlay named by id or by name.
pub enum OverlaySelector {
    Id(usize),
    Name(String),
}

/// The state of an overlay that the decisions read.
pub struct OverlayState {
    pub id: OverlayID,
    pub name: String,
    pub want_visible: bool,
    pub show_hide: bool,
    pub grabbable: bool,
    pub interactable: bool,
    pub recenter: bool,
    pub anchored: bool,
    pub dirty: bool,
    pub z_order: u32,
    pub relative_to: RelativeTo,
    pub primary_pointer: Option<usize>,
}

/// What the renderer of an overlay is told when its visibility changes.
#[derive(Clone, Copy, PartialEq, Eq, Structural, Debug)]
pub enum VisibilityChange {
    Resume,
    Pause,
}

impl OverlayState {
    /// Shows or hides the overlay. The renderer is resumed or paused only when
    /// the visibility actually changes.
    pub fn set_visible(&mut self, visible: bool) -> (r: Option<VisibilityChange>)
        ensures
            *final(self) == (OverlayState { want_visible: visible, ..*old(self) }),
            r == (if visible == old(self).want_visible {
                None
            } else if visible {
                Some(VisibilityChange::Resume)
            } else {
                Some(VisibilityChange::Pause)
            }),
    {
        let old_visible = self.want_visible;
        self.want_visible = visible;
        if visible != old_visible {
            if visible { Some(VisibilityChange::Resume) } else { Some(VisibilityChange::Pause) }
        } else {
            None
        }
    }
}

/// A renderer that has nothing to show.
pub struct FallbackRenderer;

/// The overlays by id, held in an `idmap::IdMap` that the proofs see only
/// through `idmap_entries`.
#[verifier::external_body]
pub struct OverlayMap {
    map: IdMap<usize, OverlayState>,
}

/// The entries of an id map (key and value) in the map's order: insertion
/// order, where a removal moves the last entry into the removed one's place.
pub uninterp spec fn idmap_entries(m: OverlayMap) -> Seq<(usize, OverlayState)>;

/// No key occurs twice.
pub open spec fn keys_unique(e: Seq<(usize, OverlayState)>) -> bool {
    forall|i: int, j: int| 0 <= i < e.len() && 0 <= j < e.len() && i != j ==> (#[trigger] e[i]).0 != (#[trigger] e[j]).0
}

/// Where `key` is among the entries, if it is.
pub open spec fn key_index(e: Seq<(usize, OverlayState)>, key: usize) -> Option<int> {
    if exists|i: int| 0 <= i < e.len() && e[i].0 == key {
        Some(choose|i: int| 0 <= i < e.len() && e[i].0 == key)
    } else {
        None
    }
}

/// The entries after removing the one at `i`: the last entry takes its place.
pub open spec fn swap_removed(e: Seq<(usize, OverlayState)>, i: int) -> Seq<(usize, OverlayState)> {
    if i == e.len() - 1 {
        e.drop_last()
    } else {
        e.update(i, e.last()).drop_last()
    }
}

/// `IdMap::new`: an empty map.
#[verifier::external_body]
fn idmap_new() -> (m: OverlayMap)
    ensures
        idmap_entries(m) == Seq::<(usize, OverlayState)>::empty(),
{
    OverlayMap { map: IdMap::new() }
}

/// `IdMap::insert`: a present key gets the new value in place (the old one is
/// returned), a new key is appended. Keys and the entry count must stay below
/// `u32::MAX` (the map panics otherwise).
#[verifier::external_body]
fn idmap_insert(m: &mut OverlayMap, key: usize, value: OverlayState) -> (r: Option<OverlayState>)
    requires
        keys_unique(idmap_entries(*old(m))),
        key < u32::MAX,
        idmap_entries(*old(m)).len() < u32::MAX,
    ensures
        match key_index(idmap_entries(*old(m)), key) {
            Some(i) => r == Some(idmap_entries(*old(m))[i].1)
                && idmap_entries(*final(m)) == idmap_entries(*old(m)).update(i, (key, value)),
            None => r is None && idmap_entries(*final(m)) == idmap_entries(*old(m)).push((key, value)),
        },
{
    m.map.insert(key, value)
}

/// `IdMap::get`: the value of `key` (which must be below `u32::MAX`).
#[verifier::external_body]
fn idmap_get(m: &OverlayMap, key: usize) -> (r: Option<&OverlayState>)
    requires
        keys_unique(idmap_entries(*m)),
        key < u32::MAX,
    ensures
        match key_index(idmap_entries(*m), key) {
            Some(i) => r is Some && *r.unwrap() == idmap_entries(*m)[i].1,
            None => r is None,
        },
{
    m.map.get(key)
}

/// `IdMap::get_mut`: the value of `key` (which must be below `u32::MAX`), to
/// change in place.
#[verifier::external_body]
fn idmap_get_mut(m: &mut OverlayMap, key: usize) -> (r: Option<&mut OverlayState>)
    requires
        keys_unique(idmap_entries(*old(m))),
        key < u32::MAX,
    ensures
        match key_index(idmap_entries(*old(m)), key) {
            Some(i) => r is Some && *r.unwrap() == idmap_entries(*old(m))[i].1
                && idmap_entries(*final(m)) == idmap_entries(*old(m)).update(i, (key, *final(r.unwrap()))),
            None => r is None && idmap_entries(*final(m)) == idmap_entries(*old(m)),
        },
{
    m.map.get_mut(key)
}

/// `IdMap::remove`: takes out the value of `key` (which must be below
/// `u32::MAX`); the last entry moves into its place.
#[verifier::external_body]
fn idmap_remove(m: &mut OverlayMap, key: usize) -> (r: Option<OverlayState>)
    requires
        keys_unique(idmap_entries(*old(m))),
        key < u32::MAX,
    ensures
        match key_index(idmap_entries(*old(m)), key) {
            Some(i) => r == Some(idmap_entries(*old(m))[i].1)
                && idmap_entries(*final(m)) == swap_removed(idmap_entries(*old(m)), i),
            None => r is None && idmap_entries(*final(m)) == idmap_entries(*old(m)),
        },
{
    m.map.remove(key)
}

/// `IdMap::keys`, collected: the keys in the map's order.
#[verifier::external_body]
fn idmap_keys(m: &OverlayMap) -> (r: Vec<usize>)
    ensures
        r@ == idmap_entries(*m).map_values(|p: (usize, OverlayState)| p.0),
{
    m.map.keys().copied().collect()
}

/// The overlays by id, in the order the map keeps them.
pub struct OverlayContainer {
    overlays: OverlayMap,
}

/// No two overlays share an id.
pub open spec fn ids_unique(s: Seq<OverlayState>) -> bool {
    forall|i: int, j: int| 0 <= i < s.len() && 0 <= j < s.len() && i != j ==> (#[trigger] s[i]).id.0 != (#[trigger] s[j]).id.0
}

/// What a show/hide toggle does to one overlay.
#[derive(Clone, Copy, PartialEq, Eq, Structural, Debug)]
pub struct ResetRequest {
    pub id: OverlayID,
    /// A hard reset also forgets the overlay's saved placement.
    pub hard: bool,
}

/// The index of the overlay with `id` in `s`, if any.
pub open spec fn index_of_id(s: Seq<OverlayState>, id: usize) -> Option<int> {
    if exists|i: int| 0 <= i < s.len() && s[i].id.0 == id {
        Some(choose|i: int| 0 <= i < s.len() && s[i].id.0 == id)
    } else {
        None
    }
}

/// The first overlay of `s` that a selector names: by id, or the first by name.
pub open spec fn selects(s: Seq<OverlayState>, selector: OverlaySelector, i: int) -> bool {
    &&& 0 <= i < s.len()
    &&& match selector {
        OverlaySelector::Id(id) => s[i].id.0 == id,
        OverlaySelector::Name(n) => s[i].name@ == n@ && forall|j: int| 0 <= j < i ==> (#[trigger] s[j]).name@ != n@,
    }
}

/// No overlay of `s` is named by the selector.
pub open spec fn selects_none(s: Seq<OverlayState>, selector: OverlaySelector) -> bool {
    forall|i: int| 0 <= i < s.len() ==> match selector {
        OverlaySelector::Id(id) => (#[trigger] s[i]).id.0 != id,
        OverlaySelector::Name(n) => s[i].name@ != n@,
    }
}

/// The ids of a selector that the map can hold.
pub open spec fn selector_ok(selector: OverlaySelector) -> bool {
    match selector {
        OverlaySelector::Id(id) => id < u32::MAX,
        OverlaySelector::Name(_) => true,
    }
}

impl OverlayContainer {
    /// The map's entries.
    pub closed spec fn entries(&self) -> Seq<(usize, OverlayState)> {
        idmap_entries(self.overlays)
    }

    /// The overlays, in the map's order.
    pub open spec fn view(&self) -> Seq<OverlayState> {
        self.entries().map_values(|p: (usize, OverlayState)| p.1)
    }

    /// Each overlay is stored under its own id, ids are unique and below
    /// `u32::MAX`, and there are fewer than `u32::MAX` overlays.
    pub open spec fn wf(&self) -> bool {
        &&& forall|i: int| 0 <= i < self.entries().len() ==> (#[trigger] self.entries()[i]).0 == self.entries()[i].1.id.0
        &&& forall|i: int| 0 <= i < self.view().len() ==> (#[trigger] self.view()[i]).id.0 < u32::MAX
        &&& ids_unique(self.view())
        &&& self.view().len() < u32::MAX
    }

    proof fn lemma_wf_keys(&self)
        requires
            self.wf(),
        ensures
            keys_unique(self.entries()),
            forall|id: usize| #[trigger] key_index(self.entries(), id) == index_of_id(self.view(), id),
            forall|i: int| 0 <= i < self.entries().len() ==> (#[trigger] self.entries()[i]).1 == self.view()[i],
    {
        let e = self.entries();
        let v = self.view();
        assert forall|i: int| 0 <= i < e.len() implies (#[trigger] e[i]).1 == v[i] by {}
        assert forall|i: int, j: int| 0 <= i < e.len() && 0 <= j < e.len() && i != j implies (#[trigger] e[i]).0 != (#[trigger] e[j]).0 by {
            assert(e[i].0 == v[i].id.0 && e[j].0 == v[j].id.0);
        }
        assert forall|id: usize| #[trigger] key_index(e, id) == index_of_id(v, id) by {
            if exists|i: int| 0 <= i < e.len() && e[i].0 == id {
                let i = choose|i: int| 0 <= i < e.len() && e[i].0 == id;
                assert(v[i].id.0 == id);
                let k = choose|k: int| 0 <= k < v.len() && v[k].id.0 == id;
                assert(e[k].0 == id);
                if i != k {
                    assert(v[i].id.0 != v[k].id.0);
                }
            } else {
                assert forall|i: int| 0 <= i < v.len() implies v[i].id.0 != id by {
                    assert(e[i].0 == v[i].id.0);
                }
            }
        }
    }

    pub fn new() -> (c: OverlayContainer)
        ensures
            c.wf(),
            c.view().len() == 0,
    {
        let c = OverlayContainer { overlays: idmap_new() };
        assert(c.view() =~= Seq::<OverlayState>::empty());
        c
    }

    /// The overlays' ids, in the map's order.
    pub fn ids(&self) -> (r: Vec<usize>)
        requires
            self.wf(),
        ensures
            r@.len() == self.view().len(),
            forall|i: int| 0 <= i < r@.len() ==> r@[i] == (#[trigger] self.view()[i]).id.0,
    {
        let r = idmap_keys(&self.overlays);
        assert forall|i: int| 0 <= i < r@.len() implies r@[i] == (#[trigger] self.view()[i]).id.0 by {
            assert(r@[i] == self.entries()[i].0);
        }
        r
    }

    /// Adds an overlay under its id, in place of one with the same id.
    pub fn add(&mut self, overlay: OverlayState)
        requires
            old(self).wf(),
            overlay.id.0 < u32::MAX,
            old(self).view().len() + 1 < u32::MAX,
        ensures
            final(self).wf(),
            final(self).view() == match index_of_id(old(self).view(), overlay.id.0) {
                Some(i) => old(self).view().update(i, overlay),
                None => old(self).view().push(overlay),
            },
    {
        proof { self.lemma_wf_keys(); }
        let ghost e0 = self.entries();
        let ghost key = overlay.id.0;
        let ghost ov = overlay;
        idmap_insert(&mut self.overlays, overlay.id.0, overlay);
        proof {
            let v0 = e0.map_values(|p: (usize, OverlayState)| p.1);
            match index_of_id(v0, key) {
                Some(i) => {
                    assert(self.view() =~= v0.update(i, ov));
                    assert forall|a: int, b: int| 0 <= a < self.view().len() && 0 <= b < self.view().len() && a != b
                        implies (#[trigger] self.view()[a]).id.0 != (#[trigger] self.view()[b]).id.0 by {
                        if a == i {
                            assert(v0[i].id.0 == key);
                        } else if b == i {
                            assert(v0[i].id.0 == key);
                        }
                    }
                },
                None => {
                    assert(self.view() =~= v0.push(ov));
                    assert forall|a: int, b: int| 0 <= a < self.view().len() && 0 <= b < self.view().len() && a != b
                        implies (#[trigger] self.view()[a]).id.0 != (#[trigger] self.view()[b]).id.0 by {
                        if a == v0.len() as int {
                            assert(v0[b].id.0 != key);
                        } else if b == v0.len() as int {
                            assert(v0[a].id.0 != key);
                        }
                    }
                },
            }
        }
    }

    /// The overlay with the given id.
    pub fn get_by_id(&self, id: usize) -> (r: Option<&OverlayState>)
        requires
            self.wf(),
            id < u32::MAX,
        ensures
            match index_of_id(self.view(), id) {
                Some(i) => r is Some && *r.unwrap() == self.view()[i],
                None => r is None,
            },
    {
        proof { self.lemma_wf_keys(); }
        idmap_get(&self.overlays, id)
    }

    /// Sets which pointer is the primary one on the overlay with `id`.
    pub fn set_primary_pointer(&mut self, id: usize, p: Option<usize>)
        requires
            old(self).wf(),
            id < u32::MAX,
        ensures
            final(self).wf(),
            final(self).view() == with_primary(old(self).view(), id, p),
    {
        proof { self.lemma_wf_keys(); }
        let ghost v0 = self.view();
        match idmap_get_mut(&mut self.overlays, id) {
            Some(o) => {
                o.primary_pointer = p;
            },
            None => {},
        }
        proof {
            assert(self.view() =~= with_primary(v0, id, p)) by {
                match index_of_id(v0, id) {
                    Some(i) => {
                        assert forall|k: int| 0 <= k < v0.len() && k != i implies v0[k].id.0 != id by {
                            assert(v0[k].id.0 != v0[i].id.0);
                        }
                    },
                    None => {},
                }
            }
        }
    }

    /// The first overlay (in the map's order) with the given name.
    pub fn get_by_name(&self, name: &str) -> (r: Option<&OverlayState>)
        requires
            self.wf(),
        ensures
            match r {
                Some(o) => exists|i: int| 0 <= i < self.view().len() && self.view()[i] == *o && o.name@ == name@
                    && forall|j: int| 0 <= j < i ==> (#[trigger] self.view()[j]).name@ != name@,
                None => forall|i: int| 0 <= i < self.view().len() ==> (#[trigger] self.view()[i]).name@ != name@,
            },
    {
        match self.find_id(&OverlaySelector::Name(name.to_owned())) {
            Some(id) => {
                proof { self.lemma_wf_keys(); }
                idmap_get(&self.overlays, id)
            },
            None => None,
        }
    }

    /// The id of the overlay a selector names: by id, or the first by name.
    pub fn find_id(&self, selector: &OverlaySelector) -> (r: Option<usize>)
        requires
            self.wf(),
        ensures
            match r {
                Some(id) => id < u32::MAX && exists|i: int| selects(self.view(), *selector, i) && self.view()[i].id.0 == id,
                None => selects_none(self.view(), *selector),
            },
    {
        let ids = self.ids();
        proof { self.lemma_wf_keys(); }
        let mut k: usize = 0;
        while k < ids.len()
            invariant
                self.wf(),
                k <= ids@.len(),
                ids@.len() == self.view().len(),
                keys_unique(self.entries()),
                forall|id: usize| #[trigger] key_index(self.entries(), id) == index_of_id(self.view(), id),
                forall|i: int| 0 <= i < ids@.len() ==> ids@[i] == (#[trigger] self.view()[i]).id.0,
                forall|j: int| 0 <= j < k ==> match *selector {
                    OverlaySelector::Id(id) => (#[trigger] self.view()[j]).id.0 != id,
                    OverlaySelector::Name(n) => self.view()[j].name@ != n@,
                },
            decreases ids@.len() - k,
        {
            let id = ids[k];
            assert(self.view()[k as int].id.0 == id);
            let o = idmap_get(&self.overlays, id);
            proof {
                assert(index_of_id(self.view(), id) == Some(k as int)) by {
                    let c = choose|i: int| 0 <= i < self.view().len() && self.view()[i].id.0 == id;
                    if c != k {
                        assert(self.view()[c].id.0 != self.view()[k as int].id.0);
                    }
                }
            }
            let o = o.unwrap();
            assert(self.entries()[k as int].1 == self.view()[k as int]);
            assert(*o == self.view()[k as int]);
            let hit = match selector {
                OverlaySelector::Id(want) => o.id.0 == *want,
                OverlaySelector::Name(n) => str_eq(o.name.as_str(), n.as_str()),
            };
            if hit {
                assert(selects(self.view(), *selector, k as int));
                return Some(id);
            }
            k = k + 1;
        }
        None
    }

    /// The overlay a selector names.
    pub fn mut_by_selector(&mut self, selector: &OverlaySelector) -> (r: Option<&mut OverlayState>)
        requires
            old(self).wf(),
        ensures
            match r {
                Some(o) => exists|i: int| selects(old(self).view(), *selector, i) && old(self).view()[i] == *o
                    && final(self).view() == old(self).view().update(i, *final(o)),
                None => selects_none(old(self).view(), *selector) && final(self).view() == old(self).view(),
            },
    {
        let ghost v0 = self.view();
        match self.find_id(selector) {
            Some(id) => {
                proof { self.lemma_wf_keys(); }
                let ghost i = index_of_id(v0, id)->0;
                proof {
                    let w = choose|w: int| selects(v0, *selector, w) && v0[w].id.0 == id;
                    let c = choose|c: int| 0 <= c < v0.len() && v0[c].id.0 == id;
                    if w != c {
                        assert(v0[w].id.0 != v0[c].id.0);
                    }
                }
                idmap_get_mut(&mut self.overlays, id)
            },
            None => None,
        }
    }

    /// The overlay with the given id, to change in place.
    pub fn mut_by_id(&mut self, id: usize) -> (r: Option<&mut OverlayState>)
        requires
            old(self).wf(),
            id < u32::MAX,
        ensures
            match index_of_id(old(self).view(), id) {
                Some(i) => r is Some && *r.unwrap() == old(self).view()[i]
                    && final(self).view() == old(self).view().update(i, *final(r.unwrap())),
                None => r is None && final(self).view() == old(self).view(),
            },
    {
        proof { self.lemma_wf_keys(); }
        idmap_get_mut(&mut self.overlays, id)
    }

    /// The first overlay (in the map's order) with the given name, to change in
    /// place.
    pub fn mut_by_name(&mut self, name: &str) -> (r: Option<&mut OverlayState>)
        requires
            old(self).wf(),
        ensures
            match r {
                Some(o) => exists|i: int| 0 <= i < old(self).view().len() && old(self).view()[i] == *o
                    && o.name@ == name@
                    && (forall|j: int| 0 <= j < i ==> (#[trigger] old(self).view()[j]).name@ != name@)
                    && final(self).view() == old(self).view().update(i, *final(o)),
                None => (forall|i: int| 0 <= i < old(self).view().len() ==> (#[trigger] old(self).view()[i]).name@ != name@)
                    && final(self).view() == old(self).view(),
            },
    {
        self.mut_by_selector(&OverlaySelector::Name(name.to_owned()))
    }

    /// Removes and returns the overlay a selector names; the last overlay takes
    /// its place in the map's order.
    pub fn remove_by_selector(&mut self, selector: &OverlaySelector) -> (r: Option<OverlayState>)
        requires
            old(self).wf(),
            selector_ok(*selector),
        ensures
            final(self).wf(),
            match r {
                Some(o) => exists|i: int| selects(old(self).view(), *selector, i) && old(self).view()[i] == o
                    && final(self).view() == if i == old(self).view().len() - 1 {
                        old(self).view().drop_last()
                    } else {
                        old(self).view().update(i, old(self).view().last()).drop_last()
                    },
                None => selects_none(old(self).view(), *selector) && final(self).view() == old(self).view(),
            },
    {
        let ghost v0 = self.view();
        let ghost e0 = self.entries();
        proof { self.lemma_wf_keys(); }
        let id = match selector {
            OverlaySelector::Id(id) => *id,
            OverlaySelector::Name(_) => match self.find_id(selector) {
                Some(id) => id,
                None => {
                    return None;
                },
            },
        };
        let r = idmap_remove(&mut self.overlays, id);
        proof {
            match index_of_id(v0, id) {
                Some(i) => {
                    let n = self.view();
                    let expect = if i == v0.len() - 1 { v0.drop_last() } else { v0.update(i, v0.last()).drop_last() };
                    assert(n =~= expect);
                    assert(selects(v0, *selector, i)) by {
                        match *selector {
                            OverlaySelector::Id(_) => {},
                            OverlaySelector::Name(_) => {
                                let w = choose|w: int| selects(v0, *selector, w) && v0[w].id.0 == id;
                                if w != i {
                                    assert(v0[w].id.0 != v0[i].id.0);
                                }
                            },
                        }
                    }
                    assert forall|a: int| 0 <= a < self.entries().len() implies (#[trigger] self.entries()[a]).0 == self.entries()[a].1.id.0 by {
                        if a == i && i != v0.len() - 1 {
                            assert(self.entries()[a] == e0.last());
                        } else {
                            assert(self.entries()[a] == e0[a]);
                        }
                    }
                    assert forall|a: int, b: int| 0 <= a < n.len() && 0 <= b < n.len() && a != b
                        implies (#[trigger] n[a]).id.0 != (#[trigger] n[b]).id.0 by {
                        let a0 = if a == i && i != v0.len() - 1 { v0.len() - 1 } else { a };
                        let b0 = if b == i && i != v0.len() - 1 { v0.len() - 1 } else { b };
                        assert(n[a] == v0[a0] && n[b] == v0[b0]);
                    }
                },
                None => {
                    match *selector {
                        OverlaySelector::Id(_) => {},
                        OverlaySelector::Name(_) => {
                            assert(false);
                        },
                    }
                },
            }
        }
        r
    }

    /// Toggles the overlays of the show/hide set: when any of them is visible all
    /// of them are hidden, otherwise all are shown. Returns whether any was
    /// visible before (when none was, the set is being shown and the caller
    /// first recenters the anchor in front of the head) and the resets to
    /// carry out, in the map's order: a soft reset for each shown overlay that
    /// recenters (when realigning on show is enabled) and, when showing, a hard
    /// reset of the watch, which brings it back if it was hidden.
    pub fn show_hide(&mut self, realign_on_showhide: bool, watch_name: &str) -> (r: (bool, Vec<ResetRequest>))
        requires
            old(self).wf(),
        ensures
            final(self).wf(),
            r.0 == any_shown(old(self).view()),
            final(self).view() == toggled(old(self).view()),
            r.1@ == show_hide_resets(final(self).view(), realign_on_showhide, !r.0, watch_name@),
    {
        let ids = self.ids();
        proof { self.lemma_wf_keys(); }
        let ghost s = self.view();
        let mut any: bool = false;
        let mut i: usize = 0;
        while i < ids.len()
            invariant
                self.wf(),
                self.view() == s,
                i <= ids@.len(),
                ids@.len() == s.len(),
                forall|id: usize| #[trigger] key_index(self.entries(), id) == index_of_id(s, id),
                forall|k: int| 0 <= k < ids@.len() ==> ids@[k] == (#[trigger] s[k]).id.0,
                keys_unique(self.entries()),
                ids_unique(s),
                forall|a: int| 0 <= a < self.entries().len() ==> (#[trigger] self.entries()[a]).1 == s[a],
                any == exists|j: int| 0 <= j < i && #[trigger] s[j].show_hide && s[j].want_visible,
            decreases ids@.len() - i,
        {
            let id = ids[i];
            proof { lemma_index_of_unique(s, i as int); }
            let o = idmap_get(&self.overlays, id).unwrap();
            if o.show_hide && o.want_visible {
                any = true;
            }
            i = i + 1;
        }
        let mut resets: Vec<ResetRequest> = Vec::new();
        let mut k: usize = 0;
        while k < ids.len()
            invariant
                ids@.len() == s.len(),
                k <= ids@.len(),
                any == any_shown(s),
                ids_unique(s),
                forall|j: int| 0 <= j < ids@.len() ==> ids@[j] == (#[trigger] s[j]).id.0,
                forall|j: int| 0 <= j < s.len() ==> (#[trigger] s[j]).id.0 < u32::MAX,
                s.len() < u32::MAX,
                self.view().len() == s.len(),
                forall|a: int| 0 <= a < self.entries().len() ==> (#[trigger] self.entries()[a]).0 == self.entries()[a].1.id.0,
                forall|j: int| 0 <= j < k ==> #[trigger] self.view()[j] == toggled(s)[j],
                forall|j: int| k <= j < s.len() ==> #[trigger] self.view()[j] == s[j],
                resets@ == show_hide_resets(toggled(s).take(k as int), realign_on_showhide, !any, watch_name@),
            decreases ids@.len() - k,
        {
            let id = ids[k];
            let ghost v1 = self.view();
            proof {
                assert forall|a: int, b: int| 0 <= a < v1.len() && 0 <= b < v1.len() && a != b
                    implies (#[trigger] v1[a]).id.0 != (#[trigger] v1[b]).id.0 by {
                    assert(v1[a].id.0 == s[a].id.0 && v1[b].id.0 == s[b].id.0);
                }
                assert(self.wf());
                self.lemma_wf_keys();
                lemma_index_of_unique(v1, k as int);
                assert(v1[k as int].id.0 == id);
            }
            let o = idmap_get_mut(&mut self.overlays, id).unwrap();
            if o.show_hide {
                o.want_visible = !any;
            }
            let ghost t = *o;
            let ghost r0 = resets@;
            if o.show_hide && o.want_visible && realign_on_showhide && o.recenter {
                resets.push(ResetRequest { id: o.id, hard: false });
            }
            if !any && str_eq(o.name.as_str(), watch_name) {
                resets.push(ResetRequest { id: o.id, hard: true });
            }
            proof {
                assert(t == toggled(s)[k as int]);
                assert(self.view() =~= v1.update(k as int, t));
                let tk = toggled(s).take(k + 1);
                assert(tk.drop_last() =~= toggled(s).take(k as int));
                assert(tk.last() == t);
            }
            k = k + 1;
        }
        proof {
            assert(self.view() =~= toggled(s));
            assert(toggled(s).take(s.len() as int) =~= toggled(s));
            assert forall|a: int, b: int| 0 <= a < self.view().len() && 0 <= b < self.view().len() && a != b
                implies (#[trigger] self.view()[a]).id.0 != (#[trigger] self.view()[b]).id.0 by {
                assert(self.view()[a].id.0 == s[a].id.0 && self.view()[b].id.0 == s[b].id.0);
            }
        }
        (any, resets)
    }
}

/// In overlays with unique ids, the overlay at `k` is the one with its id.
proof fn lemma_index_of_unique(s: Seq<OverlayState>, k: int)
    requires
        ids_unique(s),
        0 <= k < s.len(),
    ensures
        index_of_id(s, s[k].id.0) == Some(k),
{
    let c = choose|i: int| 0 <= i < s.len() && s[i].id.0 == s[k].id.0;
    if c != k {
        assert(s[c].id.0 != s[k].id.0);
    }
}

/// The overlays with the primary pointer of the one with `id` set to `p`.
pub open spec fn with_primary(s: Seq<OverlayState>, id: usize, p: Option<usize>) -> Seq<OverlayState> {
    Seq::new(s.len(), |i: int| if s[i].id.0 == id { OverlayState { primary_pointer: p, ..s[i] } } else { s[i] })
}

/// Whether any overlay of the show/hide set is visible.
pub open spec fn any_shown(s: Seq<OverlayState>) -> bool {
    exists|i: int| 0 <= i < s.len() && #[trigger] s[i].show_hide && s[i].want_visible
}

/// The overlays after a show/hide toggle.
pub open spec fn toggled(s: Seq<OverlayState>) -> Seq<OverlayState> {
    Seq::new(s.len(), |i: int| if s[i].show_hide {
        OverlayState { want_visible: !any_shown(s), ..s[i] }
    } else {
        s[i]
    })
}

/// After a toggle, the show/hide set is all shown or all hidden; toggling again
/// flips it to the opposite, and overlays outside the set are never touched.
pub proof fn law_show_hide_toggles_back(s: Seq<OverlayState>, k: int)
    requires
        0 <= k < s.len(),
        s[k].show_hide,
    ensures
        toggled(s)[k].want_visible == !any_shown(s),
        toggled(toggled(s))[k].want_visible == any_shown(s),
        forall|i: int| 0 <= i < s.len() && !s[i].show_hide ==> #[trigger] toggled(toggled(s))[i] == s[i],
{
    let t = toggled(s);
    if !any_shown(s) {
        assert(t[k].show_hide && t[k].want_visible);
        assert(any_shown(t));
    } else {
        if any_shown(t) {
            let i = choose|i: int| 0 <= i < t.len() && #[trigger] t[i].show_hide && t[i].want_visible;
            assert(t[i].want_visible == !any_shown(s));
        }
    }
}

/// The resets a show/hide toggle asks for, over the toggled overlays `s` in order.
pub open spec fn show_hide_resets(s: Seq<OverlayState>, realign: bool, showing: bool, watch_name: Seq<char>) -> Seq<ResetRequest>
    decreases s.len(),
{
    if s.len() == 0 {
        seq![]
    } else {
        let rest = show_hide_resets(s.drop_last(), realign, showing, watch_name);
        let o = s.last();
        let soft = if o.show_hide && o.want_visible && realign && o.recenter {
            seq![ResetRequest { id: o.id, hard: false }]
        } else {
            seq![]
        };
        let hard = if showing && o.name@ == watch_name { seq![ResetRequest { id: o.id, hard: true }] } else { seq![] };
        rest + soft + hard
    }
}


/// A captured screen.
pub struct ScreenMeta {
    pub name: String,
    pub id: OverlayID,
    pub native_handle: u32,
}

/// Whether a screen starts in the show/hide set: it is one of the configured
/// screens or, when none is configured, the first screen found.
pub open spec fn starts_shown(show: Seq<Seq<char>>, first: Option<Seq<char>>, name: Seq<char>) -> bool {
    if show.len() == 0 {
        first == Some(name)
    } else {
        show.contains(name)
    }
}

/// A screen's overlay as the container starts with it.
pub open spec fn screen_at_start(show: Seq<Seq<char>>, first: Option<Seq<char>>, s: OverlayState) -> OverlayState {
    OverlayState { show_hide: s.show_hide || starts_shown(show, first, s.name@), ..s }
}

/// The name of the first screen, if any.
pub open spec fn first_screen_name(screens: Seq<(ScreenMeta, OverlayState)>) -> Option<Seq<char>> {
    if screens.len() == 0 { None } else { Some(screens[0].1.name@) }
}

/// The overlays a new container holds, in order: the screens, the anchor, the
/// watch (visible) and the keyboard (in the show/hide set, hidden).
pub open spec fn overlays_at_start(
    screens: Seq<(ScreenMeta, OverlayState)>,
    show: Seq<Seq<char>>,
    anchor: OverlayState,
    watch: OverlayState,
    keyboard: OverlayState,
) -> Seq<OverlayState> {
    screens_at_start(screens, show)
        + seq![
        anchor,
        OverlayState { want_visible: true, ..watch },
        OverlayState { show_hide: true, want_visible: false, ..keyboard },
    ]
}

/// The overlays as they were created, before the start settings.
pub open spec fn created_overlays(
    screens: Seq<(ScreenMeta, OverlayState)>,
    anchor: OverlayState,
    watch: OverlayState,
    keyboard: OverlayState,
) -> Seq<OverlayState> {
    screens.map_values(|p: (ScreenMeta, OverlayState)| p.1) + seq![anchor, watch, keyboard]
}

/// Whether `name` is one of `names`.
pub fn contains_name(names: &Vec<String>, name: &str) -> (r: bool)
    ensures
        r == names@.map_values(|s: String| s@).contains(name@),
{
    let ghost v = names@.map_values(|s: String| s@);
    let mut k: usize = 0;
    while k < names.len()
        invariant
            k <= names@.len(),
            v == names@.map_values(|s: String| s@),
            forall|j: int| 0 <= j < k ==> v[j] != name@,
        decreases names@.len() - k,
    {
        if str_eq(names[k].as_str(), name) {
            assert(v[k as int] == name@);
            return true;
        }
        k = k + 1;
    }
    false
}

/// The start settings keep every overlay's id.
proof fn lemma_start_ids(
    screens: Seq<(ScreenMeta, OverlayState)>,
    show: Seq<Seq<char>>,
    anchor: OverlayState,
    watch: OverlayState,
    keyboard: OverlayState,
)
    requires
        ids_unique(created_overlays(screens, anchor, watch, keyboard)),
        forall|i: int| 0 <= i < created_overlays(screens, anchor, watch, keyboard).len()
            ==> (#[trigger] created_overlays(screens, anchor, watch, keyboard)[i]).id.0 < u32::MAX,
    ensures
        ids_unique(overlays_at_start(screens, show, anchor, watch, keyboard)),
        overlays_at_start(screens, show, anchor, watch, keyboard).len() == screens.len() + 3,
        forall|i: int| 0 <= i < overlays_at_start(screens, show, anchor, watch, keyboard).len()
            ==> (#[trigger] overlays_at_start(screens, show, anchor, watch, keyboard)[i]).id.0 < u32::MAX,
{
    let want = overlays_at_start(screens, show, anchor, watch, keyboard);
    let created = created_overlays(screens, anchor, watch, keyboard);
    assert(want.len() == created.len());
    assert forall|i: int| 0 <= i < want.len() implies (#[trigger] want[i]).id == created[i].id by {
        if i < screens.len() {
            assert(want[i] == screen_at_start(show, first_screen_name(screens), screens[i].1));
            assert(created[i] == screens[i].1);
        }
    }
    assert forall|i: int, j: int| 0 <= i < want.len() && 0 <= j < want.len() && i != j
        implies (#[trigger] want[i]).id.0 != (#[trigger] want[j]).id.0 by {
        assert(created[i].id.0 != created[j].id.0);
    }
    assert forall|i: int| 0 <= i < want.len() implies (#[trigger] want[i]).id.0 < u32::MAX by {
        assert(created[i].id.0 < u32::MAX);
    }
}

/// An overlay whose id no earlier overlay has is not found among them.
pub(crate) proof fn lemma_prefix_fresh(want: Seq<OverlayState>, k: int)
    requires
        ids_unique(want),
        0 <= k < want.len(),
    ensures
        index_of_id(want.subrange(0, k), want[k].id.0) is None,
{
    let p = want.subrange(0, k);
    assert forall|i: int| 0 <= i < p.len() implies p[i].id.0 != want[k].id.0 by {
        assert(p[i] == want[i]);
    }
}

/// The screens' overlays as the container starts with them, in order.
pub open spec fn screens_at_start(screens: Seq<(ScreenMeta, OverlayState)>, show: Seq<Seq<char>>) -> Seq<OverlayState> {
    screens.map_values(|p: (ScreenMeta, OverlayState)| screen_at_start(show, first_screen_name(screens), p.1))
}

/// Marks the screens that start in the show/hide set, and splits the screens'
/// descriptions from their overlays.
fn mark_start_screens(screens: Vec<(ScreenMeta, OverlayState)>, show_screens: &Vec<String>) -> (r: (Vec<OverlayState>, Vec<ScreenMeta>))
    ensures
        r.0@ == screens_at_start(screens@, show_screens@.map_values(|s: String| s@)),
        r.1@ == screens@.map_values(|p: (ScreenMeta, OverlayState)| p.0),
{
    let ghost s0 = screens@;
    let ghost show = show_screens@.map_values(|s: String| s@);
    let ghost first = first_screen_name(s0);
    let use_first = show_screens.len() == 0;
    let mut states: Vec<OverlayState> = Vec::new();
    let mut metas: Vec<ScreenMeta> = Vec::new();
    let mut rest = screens;
    let mut first_name: Option<String> = None;
    let n = rest.len();
    let mut k: usize = 0;
    while k < n
        invariant
            n == s0.len(),
            k <= n,
            rest@ == s0.subrange(k as int, n as int),
            states@ == screens_at_start(s0, show).subrange(0, k as int),
            metas@ == s0.subrange(0, k as int).map_values(|p: (ScreenMeta, OverlayState)| p.0),
            use_first == (show.len() == 0),
            show == show_screens@.map_values(|s: String| s@),
            first == first_screen_name(s0),
            k > 0 ==> first_name is Some && first_name->0@ == first->0,
        decreases n - k,
    {
        let (meta, mut state) = rest.remove(0);
        assert(state == s0[k as int].1);
        if k == 0 {
            first_name = Some(state.name.clone());
        }
        let shown = if use_first {
            match &first_name {
                Some(f) => str_eq(f.as_str(), state.name.as_str()),
                None => false,
            }
        } else {
            contains_name(show_screens, state.name.as_str())
        };
        if shown {
            state.show_hide = true;
        }
        proof {
            assert(state == screens_at_start(s0, show)[k as int]);
        }
        states.push(state);
        metas.push(meta);
        proof {
            assert(states@ =~= screens_at_start(s0, show).subrange(0, k + 1));
            assert(metas@ =~= s0.subrange(0, k + 1).map_values(|p: (ScreenMeta, OverlayState)| p.0));
            assert(rest@ =~= s0.subrange(k + 1, n as int));
        }
        k = k + 1;
    }
    assert(states@ =~= screens_at_start(s0, show));
    assert(metas@ =~= s0.map_values(|p: (ScreenMeta, OverlayState)| p.0));
    (states, metas)
}

impl OverlayContainer {
    /// A container holding `overlays`, in that order (their ids are distinct).
    fn from_overlays(overlays: Vec<OverlayState>) -> (c: OverlayContainer)
        requires
            ids_unique(overlays@),
            forall|i: int| 0 <= i < overlays@.len() ==> (#[trigger] overlays@[i]).id.0 < u32::MAX,
            overlays@.len() + 1 < u32::MAX,
        ensures
            c.wf(),
            c.view() == overlays@,
    {
        let ghost all = overlays@;
        let mut c = OverlayContainer::new();
        let mut rest = overlays;
        let n = rest.len();
        let mut k: usize = 0;
        while k < n
            invariant
                n == all.len(),
                k <= n,
                rest@ == all.subrange(k as int, n as int),
                c.wf(),
                c.view() == all.subrange(0, k as int),
                ids_unique(all),
                forall|i: int| 0 <= i < all.len() ==> (#[trigger] all[i]).id.0 < u32::MAX,
                n + 1 < u32::MAX,
            decreases n - k,
        {
            let o = rest.remove(0);
            proof {
                assert(o == all[k as int]);
                lemma_prefix_fresh(all, k as int);
            }
            c.add(o);
            proof {
                assert(c.view() =~= all.subrange(0, k + 1));
                assert(rest@ =~= all.subrange(k + 1, n as int));
            }
            k = k + 1;
        }
        assert(c.view() =~= all);
        c
    }

    /// The container that starting up builds from the overlays it created: each
    /// captured screen (those in the show/hide set marked so), then the anchor,
    /// the watch (shown) and the keyboard (in the show/hide set, hidden); with
    /// the screens' descriptions in the order found. Overlay ids are handed out
    /// once each, so the created overlays have distinct ids.
    pub fn from_created(
        screens: Vec<(ScreenMeta, OverlayState)>,
        show_screens: &Vec<String>,
        anchor: OverlayState,
        watch: OverlayState,
        keyboard: OverlayState,
    ) -> (r: (OverlayContainer, Vec<ScreenMeta>))
        requires
            ids_unique(created_overlays(screens@, anchor, watch, keyboard)),
            forall|i: int| 0 <= i < created_overlays(screens@, anchor, watch, keyboard).len()
                ==> (#[trigger] created_overlays(screens@, anchor, watch, keyboard)[i]).id.0 < u32::MAX,
            screens@.len() + 4 < u32::MAX,
        ensures
            r.0.wf(),
            r.0.view() == overlays_at_start(screens@, show_screens@.map_values(|s: String| s@), anchor, watch, keyboard),
            r.1@ == screens@.map_values(|p: (ScreenMeta, OverlayState)| p.0),
    {
        let ghost s0 = screens@;
        let ghost show = show_screens@.map_values(|s: String| s@);
        let ghost want = overlays_at_start(s0, show, anchor, watch, keyboard);
        proof { lemma_start_ids(s0, show, anchor, watch, keyboard); }
        let (mut all, metas) = mark_start_screens(screens, show_screens);
        let mut watch = watch;
        watch.want_visible = true;
        let mut keyboard = keyboard;
        keyboard.show_hide = true;
        keyboard.want_visible = false;
        all.push(anchor);
        all.push(watch);
        all.push(keyboard);
        assert(all@ =~= want);
        let c = OverlayContainer::from_overlays(all);
        (c, metas)
    }
}

/// The names of the screens that a desktop-less session pretends to have.
pub open spec fn dummy_screen_names() -> Seq<Seq<char>> {
    seq!["HDMI-A-1"@, "DP-2"@, "DP-3"@]
}

/// Adds the pretended screens (for panel development without a desktop).
pub fn add_dummy_screens(screens: &mut Vec<ScreenMeta>)
    ensures
        final(screens)@.len() == old(screens)@.len() + 3,
        forall|i: int| 0 <= i < old(screens)@.len() ==> #[trigger] final(screens)@[i] == old(screens)@[i],
        forall|k: int| 0 <= k < 3 ==> {
            let m = #[trigger] final(screens)@[old(screens)@.len() + k];
            &&& m.name@ == dummy_screen_names()[k]
            &&& m.id == OverlayID(0)
            &&& m.native_handle == 0
        },
{
    let names: [&str; 3] = ["HDMI-A-1", "DP-2", "DP-3"];
    let ghost n0 = screens@.len();
    let mut k: usize = 0;
    while k < 3
        invariant
            k <= 3,
            names@ == seq!["HDMI-A-1", "DP-2", "DP-3"],
            screens@.len() == n0 + k,
            n0 == old(screens)@.len(),
            forall|i: int| 0 <= i < n0 ==> #[trigger] screens@[i] == old(screens)@[i],
            forall|j: int| 0 <= j < k ==> {
                let m = #[trigger] screens@[n0 + j];
                &&& m.name@ == dummy_screen_names()[j]
                &&& m.id == OverlayID(0)
                &&& m.native_handle == 0
            },
        decreases 3 - k,
    {
        let mut name = String::new();
        crate::text::push_str(&mut name, names[k]);
        proof { reveal_strlit(""); }
        screens.push(ScreenMeta { name, id: OverlayID(0), native_handle: 0 });
        k = k + 1;
    }
}

} // verus!
