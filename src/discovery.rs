use vstd::prelude::*;

use crate::directory::{dead_handles, is_lowest_free, used_slots, Directory, HandleStatus};
use crate::handle::WindowHandle;
use crate::layout::{slot_geometry, spec_slot_geometry, Geometry};
use crate::title::{
    is_target_title, parse_slot_title, parse_target_title, slot_of_title, slot_title,
    title_for_slot,
};

verus! {

/// What the discoverer does with one window that the enumeration found.
#[derive(Clone, Debug)]
pub enum Discovery {
    /// The title is neither slotted nor that of the target application: leave the window alone.
    Ignore,
    /// The window is registered already.
    Known,
    /// A slotted window, now registered under the slot that its title names: apply the
    /// geometry, if any, and start its worker.
    Claim { slot: usize, geometry: Option<Geometry> },
    /// A target-application window, now registered under the lowest free slot: give it
    /// `title`, apply the geometry, if any, and start its worker.
    Relabel { slot: usize, title: Vec<u16>, geometry: Option<Geometry> },
}

/// Handles one enumerated window with handle `handle` and title `title`. `statuses` reports the
/// registered windows as the scan for a free slot needs them, and `layout` holds the
/// configured geometry of each slot.
pub fn discover(
    directory: &mut Directory,
    handle: WindowHandle,
    title: &Vec<u16>,
    statuses: &Vec<HandleStatus>,
    layout: &Vec<Option<Geometry>>,
) -> (r: Discovery)
    requires
        statuses@.len() < usize::MAX,
    ensures
        old(directory).registered().contains(handle) ==> r is Known && *final(directory)
            == *old(directory),
        !old(directory).registered().contains(handle) ==> match slot_of_title(title@) {
            Some(k) => r == (Discovery::Claim {
                slot: k,
                geometry: spec_slot_geometry(layout@, k),
            }) && final(directory).registered() == old(directory).registered().insert(handle)
                && final(directory).slot_map() == old(directory).slot_map().insert(k, handle),
            None => if is_target_title(title@) {
                match r {
                    Discovery::Relabel { slot, title: new_title, geometry } => {
                        &&& is_lowest_free(used_slots(statuses@, old(directory).registered()), slot)
                        &&& new_title@ == title_for_slot(slot as nat)
                        &&& geometry == spec_slot_geometry(layout@, slot)
                        &&& final(directory).registered() == old(directory).registered().difference(
                            dead_handles(statuses@),
                        ).insert(handle)
                        &&& final(directory).slot_map() == old(directory).slot_map().insert(
                            slot,
                            handle,
                        )
                    },
                    _ => false,
                }
            } else {
                r is Ignore && *final(directory) == *old(directory)
            },
        },
{
    if directory.is_registered(handle) {
        return Discovery::Known;
    }
    match parse_slot_title(title) {
        Some(slot) => {
            directory.try_register(handle);
            directory.bind_slot(slot, handle);
            Discovery::Claim { slot, geometry: slot_geometry(layout, slot) }
        },
        None => {
            if parse_target_title(title) {
                let slot = directory.lowest_free_slot(statuses);
                directory.try_register(handle);
                directory.bind_slot(slot, handle);
                Discovery::Relabel {
                    slot,
                    title: slot_title(slot),
                    geometry: slot_geometry(layout, slot),
                }
            } else {
                Discovery::Ignore
            }
        },
    }
}

} // verus!
