//! Plain descriptions of graphics resources: swapchain options and shared
//! DMA-BUF buffers. The GPU work itself stays with the caller.

use vstd::prelude::*;

verus! {

/// Options of a swapchain.
#[derive(Clone, Copy, PartialEq, Eq, Structural, Debug)]
pub struct SwapchainOpts {
    /// The swapchain holds a static image (rendered once).
    pub immutable: bool,
}

impl SwapchainOpts {
    pub fn new() -> (o: Self)
        ensures
            !o.immutable,
    {
        SwapchainOpts { immutable: false }
    }

    /// The same options, for a static image.
    pub fn immutable(self) -> (o: Self)
        ensures
            o.immutable,
    {
        let mut s = self;
        s.immutable = true;
        s
    }
}

/// Marks a command buffer that records graphics work.
pub struct GraphicsBuffer;

/// Marks a command buffer that records uploads.
pub struct UploadBuffer;

/// The format of a DMA-BUF: its fourcc code and the modifiers it may use.
#[derive(Clone, Debug)]
pub struct DMAbufModifierInfo {
    pub modifiers: Vec<u64>,
    pub fourcc: u32,
}

/// A DMA-BUF plane shared with the compositor.
#[derive(Clone, Debug)]
pub struct DMAbufData {
    pub fd: i32,
    pub stride: i32,
    pub offset: i32,
    pub mod_info: DMAbufModifierInfo,
}


/// The pixel format the compositor's buffers use (XB24).
pub const DMABUF_FOURCC: u32 = 0x34324258;

/// Tiling modifiers that are used alone when the driver offers them: passing
/// every offered modifier corrupts the image on these GPUs (AMD Navi32, then Navi33).
pub const NAVI32_MODIFIER: u64 = 0x20000002086bf04;
pub const NAVI33_MODIFIER: u64 = 0x20000001866bf04;

/// Why no modifier list could be chosen.
#[derive(Clone, Copy, PartialEq, Eq, Structural, Debug)]
pub enum ModifierError {
    /// The driver offered no modifier.
    NoModifiers,
    /// The driver's first modifier is the invalid one (all bits set).
    InvalidModifier,
}

/// The modifiers handed on for the offered `mods`: a known-good one (and the
/// linear modifier) when offered, else all of them.
pub open spec fn chosen_modifiers(mods: Seq<u64>) -> Seq<u64> {
    if mods.contains(NAVI32_MODIFIER) {
        seq![NAVI32_MODIFIER, 0]
    } else if mods.contains(NAVI33_MODIFIER) {
        seq![NAVI33_MODIFIER, 0]
    } else {
        mods
    }
}

fn contains_u64(v: &Vec<u64>, x: u64) -> (r: bool)
    ensures
        r == v@.contains(x),
{
    let mut i: usize = 0;
    while i < v.len()
        invariant
            i <= v@.len(),
            forall|j: int| 0 <= j < i ==> v@[j] != x,
        decreases v@.len() - i,
    {
        if v[i] == x {
            assert(v@[i as int] == x);
            return true;
        }
        i = i + 1;
    }
    false
}

/// Chooses the modifiers of the compositor's buffers from the ones the driver offers.
pub fn select_dmabuf_modifiers(mods: Vec<u64>) -> (r: Result<DMAbufModifierInfo, ModifierError>)
    ensures
        mods@.len() == 0 ==> r == Err::<DMAbufModifierInfo, ModifierError>(ModifierError::NoModifiers),
        mods@.len() > 0 && mods@[0] == u64::MAX ==> r == Err::<DMAbufModifierInfo, ModifierError>(ModifierError::InvalidModifier),
        mods@.len() > 0 && mods@[0] != u64::MAX ==> r is Ok && r->Ok_0.modifiers@ == chosen_modifiers(mods@)
            && r->Ok_0.fourcc == DMABUF_FOURCC,
{
    if mods.len() == 0 {
        return Err(ModifierError::NoModifiers);
    }
    if mods[0] == 0xFFFF_FFFF_FFFF_FFFF {
        return Err(ModifierError::InvalidModifier);
    }
    let modifiers = if contains_u64(&mods, NAVI32_MODIFIER) {
        vec![NAVI32_MODIFIER, 0]
    } else if contains_u64(&mods, NAVI33_MODIFIER) {
        vec![NAVI33_MODIFIER, 0]
    } else {
        mods
    };
    Ok(DMAbufModifierInfo { modifiers, fourcc: DMABUF_FOURCC })
}

} // verus!
