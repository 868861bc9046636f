//! Messages between the service layer and the overlays.
use vstd::prelude::*;

use crate::map_overlay::{data_changes, source_view, MapData, MapOverlay};

verus! {

/// Actions the raid overlay asks the service to perform on the registry.
#[derive(Debug, Clone, Copy, PartialEq, Eq, Structural)]
pub enum RaidRegistryAction {
    /// Swap two slots.
    SwapSlots(u8, u8),
    /// Clear a slot.
    ClearSlot(u8),
}

/// Position and size of an overlay window.
#[derive(Debug, Clone, Copy, PartialEq, Eq, Structural)]
pub struct OverlayPosition {
    pub x: i32,
    pub y: i32,
    pub width: u32,
    pub height: u32,
}

/// Data sent to overlays for display updates.
#[derive(Debug, Clone)]
pub enum OverlayData {
    /// Encounter/phase map (raw SVG source, or none to clear).
    EncounterMap(MapData),
}

impl MapOverlay {
    /// Take a display update addressed to overlays; returns whether the map
    /// overlay changed and must re-render.
    pub fn update_overlay_data(&mut self, data: OverlayData) -> (changed: bool)
        ensures
            match data {
                OverlayData::EncounterMap(d) => {
                    &&& final(self).map_source() == source_view(d.svg)
                    &&& final(self).placeholder() == source_view(d.placeholder)
                    &&& changed == data_changes(*old(self), source_view(d.svg), source_view(d.placeholder))
                },
            },
    {
        match data {
            OverlayData::EncounterMap(d) => self.update_data(d),
        }
    }
}

} // verus!
