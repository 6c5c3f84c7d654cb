use vstd::prelude::*;

use crate::index::of_kind;
use crate::linux::LinuxBridge;
use crate::model::{descriptor_views, DescriptorView, Hardware, HardwareKind};
use crate::windows::WindowsBridge;

verus! {

/// The backend selected at startup.
pub enum Bridge {
    Linux(LinuxBridge),
    Windows(WindowsBridge),
}

/// The descriptors of kind `k` that a backend exports.
pub open spec fn exported(b: Bridge, k: HardwareKind) -> Seq<DescriptorView> {
    match b {
        Bridge::Linux(l) => of_kind(l@, k),
        Bridge::Windows(w) => of_kind(w@, k),
    }
}

/// The hardware context, built once and passed to whatever needs hardware
/// access: the backend and the snapshot taken of it.
pub struct AppState {
    pub hardware: Hardware,
    pub bridge: Bridge,
}

impl AppState {
    /// Takes the snapshot of `bridge` and keeps both.
    pub fn new(bridge: Bridge) -> (r: AppState)
        ensures
            r.bridge == bridge,
            descriptor_views(r.hardware.controls@) == exported(bridge, HardwareKind::Control),
            descriptor_views(r.hardware.fans@) == exported(bridge, HardwareKind::Fan),
            descriptor_views(r.hardware.temps@) == exported(bridge, HardwareKind::Temp),
    {
        let hardware = match &bridge {
            Bridge::Linux(l) => l.hardware(),
            Bridge::Windows(w) => w.hardware(),
        };
        AppState { hardware, bridge }
    }
}

} // verus!
