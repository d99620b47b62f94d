//! What a given device behind a bridge actually is.

use vstd::prelude::*;
use crate::host;
use crate::host::{Instance, InstanceView};

verus! {

/// What a device is, worked out from the properties that its adoption set.
#[derive(Clone, Copy, Debug, PartialEq, Eq, Structural)]
pub enum Role {
    /// The hub. Holds the address and key, owns the event stream, and is not in any room.
    Bridge,
    Bulb,
    Motion,
    /// A keypad, remote, wall module or dial.
    Control,
}

/// A bulb has a light id, a sensor a motion id, a control a first button or a dial; what has none
/// of them is the bridge.
pub open spec fn role_of(inst: InstanceView) -> Role {
    if host::has_property(inst, "Light id"@) {
        Role::Bulb
    } else if host::has_property(inst, "Motion id"@) {
        Role::Motion
    } else if host::has_property(inst, "Button 1 id"@) || host::has_property(inst, "Rotary id"@) {
        Role::Control
    } else {
        Role::Bridge
    }
}

/// A list with a binding at its end where the device has the property for it.
pub open spec fn bound(list: Seq<u32>, inst: InstanceView, name: Seq<char>, id: u32) -> Seq<u32> {
    if host::has_property(inst, name) {
        list.push(id)
    } else {
        list
    }
}

/// Every binding of a device: one for a bridge or a bulb, one per measurement of a sensor, one per
/// button and one for the dial of a control.
pub open spec fn bindings_of(role: Role, inst: InstanceView) -> Seq<u32> {
    match role {
        Role::Bridge | Role::Bulb => seq![1u32],
        Role::Motion => {
            let a = bound(seq![], inst, "Motion id"@, 1);
            let b = bound(a, inst, "Temperature id"@, 2);
            bound(b, inst, "Light level id"@, 3)
        },
        Role::Control => {
            let a = bound(seq![], inst, "Button 1 id"@, 1);
            let b = bound(a, inst, "Button 2 id"@, 2);
            let c = bound(b, inst, "Button 3 id"@, 3);
            let d = bound(c, inst, "Button 4 id"@, 4);
            bound(d, inst, "Rotary id"@, 5)
        },
    }
}

fn bind(list: &mut Vec<u32>, inst: &Instance, name: &str, id: u32)
    ensures
        final(list)@ == bound(old(list)@, inst@, name@, id),
{
    if inst.has(name) {
        list.push(id);
    }
}

impl Role {
    /// What a device is.
    pub fn of(inst: &Instance) -> (r: Role)
        ensures
            r == role_of(inst@),
    {
        if inst.has("Light id") {
            Role::Bulb
        } else if inst.has("Motion id") {
            Role::Motion
        } else if inst.has("Button 1 id") || inst.has("Rotary id") {
            Role::Control
        } else {
            Role::Bridge
        }
    }

    /// Every binding this device has, so all of them can be brought online.
    pub fn bindings(self, inst: &Instance) -> (r: Vec<u32>)
        ensures
            r@ == bindings_of(self, inst@),
    {
        let mut list: Vec<u32> = Vec::new();
        match self {
            Role::Bridge | Role::Bulb => {
                list.push(1);
            },
            Role::Motion => {
                bind(&mut list, inst, "Motion id", 1);
                bind(&mut list, inst, "Temperature id", 2);
                bind(&mut list, inst, "Light level id", 3);
            },
            Role::Control => {
                bind(&mut list, inst, "Button 1 id", 1);
                bind(&mut list, inst, "Button 2 id", 2);
                bind(&mut list, inst, "Button 3 id", 3);
                bind(&mut list, inst, "Button 4 id", 4);
                bind(&mut list, inst, "Rotary id", 5);
            },
        }
        list
    }
}

} // verus!
