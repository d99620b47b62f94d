//! Laws of offers: what each remote and each sensor is offered as.

use vstd::prelude::*;
use crate::json;
use crate::json::{JView, Members};
use crate::laws::listing;
use crate::offer;
use crate::text;

verus! {

/// The texts under a key of a device, in their order.
pub open spec fn texts_in(device: JView, key: Seq<char>) -> Seq<Seq<char>> {
    match device.get(key) {
        Some(JView::Arr(items)) => listing::texts(items),
        _ => seq![],
    }
}

/// The text under a key of a device, if it is one.
pub open spec fn text_in(device: JView, key: Seq<char>) -> Option<Seq<char>> {
    match device.get(key) {
        Some(JView::Str(s)) => Some(s),
        _ => None,
    }
}

/// A text as a property, where there is one.
pub open spec fn property(text: Option<Seq<char>>) -> Option<JView> {
    match text {
        Some(s) => Some(JView::Str(s)),
        None => None,
    }
}

/// What a device is called.
pub open spec fn called(device: JView) -> Seq<char> {
    match text_in(device, "name"@) {
        Some(name) => name,
        None => "Hue device"@,
    }
}

/// Where a device is: its own room, or the first that it drives, or nowhere.
pub open spec fn is_where(device: JView, room: Seq<char>) -> bool {
    match text_in(device, "room"@) {
        Some(own) => room == own,
        None => if texts_in(device, "controls"@).len() > 0 {
            room == texts_in(device, "controls"@)[0]
        } else {
            room == ""@
        },
    }
}

proof fn texts_are(device: JView, key: Seq<char>)
    ensures
        json::strings(json::list_or_empty(json::as_array(device.get(key)))) == texts_in(
            device,
            key,
        ),
{
    match device.get(key) {
        Some(JView::Arr(items)) => {
            listing::texts_of_an_array(items);
        },
        _ => {
            assert(json::strings(seq![]) =~= seq![]);
        },
    }
}

/// The driver of a remote: by its dial, and otherwise by the number of its buttons; and how many
/// buttons that driver binds.
pub open spec fn is_driver(buttons: nat, dial: bool, driver: Seq<char>, slots: nat) -> bool {
    if dial {
        driver == "signify.hue.tap_dial"@ && slots == 4
    } else if buttons == 1 {
        driver == "signify.hue.smart_button"@ && slots == 1
    } else if buttons == 2 {
        driver == "signify.hue.wall_switch"@ && slots == 2
    } else {
        driver == "signify.hue.dimmer"@ && slots == 4
    }
}

proof fn property_keys()
    ensures
        "Bridge address"@[0] == 'B' && "Bridge address"@[1] == 'r',
        "Application key"@[0] == 'A',
        "Power id"@[0] == 'P',
        "Rotary id"@[0] == 'R',
        "Motion id"@[0] == 'M',
        "Temperature id"@[0] == 'T',
        "Light level id"@[0] == 'L',
        "Button 1 id"@[0] == 'B' && "Button 1 id"@[1] == 'u' && "Button 1 id"@[7] == '1',
        "Button 2 id"@[0] == 'B' && "Button 2 id"@[1] == 'u' && "Button 2 id"@[7] == '2',
        "Button 3 id"@[0] == 'B' && "Button 3 id"@[1] == 'u' && "Button 3 id"@[7] == '3',
        "Button 4 id"@[0] == 'B' && "Button 4 id"@[1] == 'u' && "Button 4 id"@[7] == '4',
{
    reveal_strlit("Bridge address");
    reveal_strlit("Application key");
    reveal_strlit("Power id");
    reveal_strlit("Rotary id");
    reveal_strlit("Motion id");
    reveal_strlit("Temperature id");
    reveal_strlit("Light level id");
    reveal_strlit("Button 1 id");
    reveal_strlit("Button 2 id");
    reveal_strlit("Button 3 id");
    reveal_strlit("Button 4 id");
}

/// The id of the button at `i`, from one, of those a driver binds.
pub open spec fn bound_button(buttons: Seq<Seq<char>>, slots: nat, i: nat) -> Option<JView> {
    if 1 <= i <= slots && i <= buttons.len() {
        Some(JView::Str(buttons[i - 1]))
    } else {
        None
    }
}

proof fn base_is(device: JView, address: Seq<char>, key: Seq<char>, other: Seq<char>)
    ensures
        json::lookup(offer::base_properties(device, address, key), other) == if other
            == "Bridge address"@ {
            Some(JView::Str(address))
        } else if other == "Application key"@ {
            Some(JView::Str(key))
        } else if other == "Power id"@ {
            property(text_in(device, "power"@))
        } else {
            None
        },
{
    broadcast use json::lookup_put;

    property_keys();
    json::lookup_put(seq![], "Bridge address"@, JView::Str(address), other);
    assert(json::lookup(Members::empty(), other) is None);
}

proof fn buttons_are_put(props: Members, buttons: Seq<Seq<char>>, bound: nat, other: Seq<char>)
    requires
        bound <= 4,
        bound <= buttons.len(),
    ensures
        json::lookup(offer::put_buttons(props, buttons, bound), other) == if other
            == "Button 1 id"@ && bound >= 1 {
            Some(JView::Str(buttons[0]))
        } else if other == "Button 2 id"@ && bound >= 2 {
            Some(JView::Str(buttons[1]))
        } else if other == "Button 3 id"@ && bound >= 3 {
            Some(JView::Str(buttons[2]))
        } else if other == "Button 4 id"@ && bound >= 4 {
            Some(JView::Str(buttons[3]))
        } else {
            json::lookup(props, other)
        },
    decreases bound,
{
    broadcast use json::lookup_put;

    property_keys();
    crate::laws::offer::button_property_names();
    if bound > 0 {
        buttons_are_put(props, buttons, (bound - 1) as nat, other);
    }
}

/// What is said of a remote: how many buttons it has and what it is, and how many of them its
/// driver has no place for; and the rooms that it drives.
pub open spec fn is_note(note: Seq<char>, device: JView, slots: nat) -> bool {
    let count = texts_in(device, "buttons"@).len();
    let controls = texts_in(device, "controls"@);
    let product = text_in(device, "product"@);
    let shape = if count > slots {
        text::decimal(count) + " buttons, "@ + text::decimal((count - slots) as nat)
            + " more than this driver has bindings for — report it"@
    } else if product is Some && product->0.len() > 0 {
        product->0 + " — "@ + text::decimal(count) + " button(s)"@
    } else {
        match text_in(device, "model"@) {
            Some(model) => text::decimal(count) + " button(s) on "@ + model,
            None => text::decimal(count) + " button(s) on "@ + ""@,
        }
    };
    note == if controls.len() == 0 {
        shape
    } else {
        shape + ", controls "@ + text::joined(controls, controls.len(), " and "@)
    }
}

/// A device with buttons is offered as a remote: under its own name, to the driver for its dial or
/// its number of buttons, in its room, with the connection, its battery, its buttons in their order
/// as far as the driver binds them, and its dial, and with no other property.
pub proof fn a_remote_is_offered_as_it_is(
    device: JView,
    address: Seq<char>,
    key: Seq<char>,
    other: Seq<char>,
)
    requires
        texts_in(device, "buttons"@).len() > 0,
    ensures
        offer::candidate_of(device, address, key) matches Some(c) && {
            let buttons = texts_in(device, "buttons"@);
            let dial = text_in(device, "rotary"@);
            &&& c.label == called(device)
            &&& c.kind == "keypad"@
            &&& is_where(device, c.room)
            &&& exists|slots: nat|
                is_driver(buttons.len(), dial is Some, c.driver_id, slots) && #[trigger] is_note(
                    c.verified,
                    device,
                    slots,
                ) && json::lookup(c.properties, other) == if other == "Bridge address"@ {
                    Some(JView::Str(address))
                } else if other == "Application key"@ {
                    Some(JView::Str(key))
                } else if other == "Power id"@ {
                    property(text_in(device, "power"@))
                } else if other == "Rotary id"@ {
                    property(dial)
                } else if other == "Button 1 id"@ {
                    bound_button(buttons, slots, 1)
                } else if other == "Button 2 id"@ {
                    bound_button(buttons, slots, 2)
                } else if other == "Button 3 id"@ {
                    bound_button(buttons, slots, 3)
                } else if other == "Button 4 id"@ {
                    bound_button(buttons, slots, 4)
                } else {
                    None
                }
        },
{
    broadcast use json::lookup_put;

    texts_are(device, "buttons"@);
    texts_are(device, "controls"@);
    property_keys();
    let buttons = texts_in(device, "buttons"@);
    let dial = text_in(device, "rotary"@);
    let (driver, slots) = offer::driver_of(buttons.len(), dial is Some)->Some_0;
    let bound = if buttons.len() < slots {
        buttons.len()
    } else {
        slots
    };
    base_is(device, address, key, other);
    let base = offer::base_properties(device, address, key);
    buttons_are_put(base, buttons, bound, other);
    let c = offer::candidate_of(device, address, key)->Some_0;
    assert(c == offer::keypad(device, address, key, driver, slots));
    assert(is_driver(buttons.len(), dial is Some, c.driver_id, slots));
    assert(is_note(c.verified, device, slots));
}

/// A device without buttons that sees motion is offered as a sensor: under its own name, in its
/// room, with the connection, its battery and the ids of what it measures, with no other property,
/// and with a note that names what it measures.
pub proof fn a_sensor_is_offered_as_it_is(
    device: JView,
    address: Seq<char>,
    key: Seq<char>,
    motion: Seq<char>,
    other: Seq<char>,
)
    requires
        texts_in(device, "buttons"@).len() == 0,
        device.get("motion"@) == Some(JView::Str(motion)),
    ensures
        offer::candidate_of(device, address, key) matches Some(c) && {
            let product = text_in(device, "product"@);
            let warmth = text_in(device, "temperature"@) is Some;
            let light = text_in(device, "light_level"@) is Some;
            let reports = if warmth && light {
                "reports motion, temperature, light level"@
            } else if warmth {
                "reports motion, temperature"@
            } else if light {
                "reports motion, light level"@
            } else {
                "reports motion"@
            };
            &&& c.label == called(device)
            &&& c.kind == "sensor"@
            &&& c.driver_id == "signify.hue.motion"@
            &&& is_where(device, c.room)
            &&& c.verified == if product is Some && product->0.len() > 0 {
                product->0 + " — "@ + reports
            } else {
                reports
            }
            &&& json::lookup(c.properties, other) == if other == "Bridge address"@ {
                Some(JView::Str(address))
            } else if other == "Application key"@ {
                Some(JView::Str(key))
            } else if other == "Power id"@ {
                property(text_in(device, "power"@))
            } else if other == "Motion id"@ {
                Some(JView::Str(motion))
            } else if other == "Temperature id"@ {
                property(text_in(device, "temperature"@))
            } else if other == "Light level id"@ {
                property(text_in(device, "light_level"@))
            } else {
                None
            }
        },
{
    broadcast use json::lookup_put;

    texts_are(device, "buttons"@);
    texts_are(device, "controls"@);
    property_keys();
    base_is(device, address, key, other);
    measures_are_named(device);
}

proof fn measures_are_named(device: JView)
    ensures
        ({
            let some = offer::measure(seq!["motion"@], device, "temperature"@, "temperature"@);
            let all = offer::measure(some, device, "light_level"@, "light level"@);
            let warmth = text_in(device, "temperature"@) is Some;
            let light = text_in(device, "light_level"@) is Some;
            "reports "@ + text::joined(all, all.len(), ", "@) == if warmth && light {
                "reports motion, temperature, light level"@
            } else if warmth {
                "reports motion, temperature"@
            } else if light {
                "reports motion, light level"@
            } else {
                "reports motion"@
            }
        }),
{
    reveal_strlit("motion");
    reveal_strlit("temperature");
    reveal_strlit("light level");
    reveal_strlit(", ");
    reveal_strlit("reports ");
    reveal_strlit("reports motion");
    reveal_strlit("reports motion, temperature");
    reveal_strlit("reports motion, light level");
    reveal_strlit("reports motion, temperature, light level");
    reveal_with_fuel(text::joined, 4);
    let some = offer::measure(seq!["motion"@], device, "temperature"@, "temperature"@);
    let all = offer::measure(some, device, "light_level"@, "light level"@);
    let said = "reports "@ + text::joined(all, all.len(), ", "@);
    let warmth = text_in(device, "temperature"@) is Some;
    let light = text_in(device, "light_level"@) is Some;
    if warmth && light {
        assert(all.len() == 3);
        assert(said =~= "reports motion, temperature, light level"@);
    } else if warmth {
        assert(all.len() == 2);
        assert(said =~= "reports motion, temperature"@);
    } else if light {
        assert(all.len() == 2);
        assert(said =~= "reports motion, light level"@);
    } else {
        assert(all.len() == 1);
        assert(said =~= "reports motion"@);
    }
}

/// A device without buttons and without motion is not offered.
pub proof fn nothing_else_is_offered(device: JView, address: Seq<char>, key: Seq<char>)
    requires
        texts_in(device, "buttons"@).len() == 0,
        text_in(device, "motion"@) is None,
    ensures
        offer::candidate_of(device, address, key) is None,
{
    texts_are(device, "buttons"@);
}

/// Whether a device is offered: it has buttons, or it sees motion.
pub open spec fn is_offered(device: JView) -> bool {
    texts_in(device, "buttons"@).len() > 0 || text_in(device, "motion"@) is Some
}

/// Every device with buttons or motion is offered, and no other.
pub proof fn every_remote_and_sensor_is_offered(
    catalog: Seq<JView>,
    n: nat,
    address: Seq<char>,
    key: Seq<char>,
)
    requires
        n <= catalog.len(),
    ensures
        offer::offers(catalog, n, address, key).to_multiset() == catalog.take(n as int).filter(
            |d: JView| is_offered(d),
        ).map_values(|d: JView| offer::candidate_of(d, address, key)->0).to_multiset(),
    decreases n,
{
    broadcast use {vstd::seq_lib::to_multiset_build, vstd::seq_lib::to_multiset_insert};

    reveal(Seq::filter);
    let is = |d: JView| is_offered(d);
    let made = |d: JView| offer::candidate_of(d, address, key)->0;
    if n == 0 {
        assert(catalog.take(0).filter(is).map_values(made) =~= seq![]);
    } else {
        every_remote_and_sensor_is_offered(catalog, (n - 1) as nat, address, key);
        texts_are(catalog[n - 1], "buttons"@);
        assert(catalog.take(n as int).drop_last() =~= catalog.take(n - 1));
        let before = catalog.take(n - 1).filter(is);
        assert(before.push(catalog[n - 1]).map_values(made) =~= before.map_values(made).push(
            made(catalog[n - 1]),
        ));
        let rest = offer::offers(catalog, (n - 1) as nat, address, key);
        match offer::candidate_of(catalog[n - 1], address, key) {
            Some(c) => {
                crate::laws::offer::slot_bounds(rest, c.label, 0);
            },
            None => {},
        }
    }
}

} // verus!
