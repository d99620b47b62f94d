//! Everything in the catalog, as devices that could be adopted.

use vstd::prelude::*;
use vstd::string::StringExecFns;
use crate::behaviour;
use crate::host::{Candidate, CandidateView};
use crate::json;
use crate::json::{JView, Json, Members, Object};
use crate::text;

verus! {

/// Which driver a control surface with this many buttons gets, and how many buttons it binds.
pub open spec fn driver_of(buttons: nat, rotary: bool) -> Option<(Seq<char>, nat)> {
    if buttons == 0 {
        None
    } else if rotary {
        Some(("signify.hue.tap_dial"@, 4))
    } else if buttons == 1 {
        Some(("signify.hue.smart_button"@, 1))
    } else if buttons == 2 {
        Some(("signify.hue.wall_switch"@, 2))
    } else {
        Some(("signify.hue.dimmer"@, 4))
    }
}

/// Which driver a control surface gets, from its shape rather than its model number, and how many
/// buttons that driver binds.
///
/// The bridge is a Zigbee hub and not everything on it is a Hue: counting buttons works for a
/// remote from any vendor. Three buttons, or five, round up to the four-button driver: a surplus
/// binding that never fires is harmless, and rounding down would drop a button somebody can press.
pub fn driver_for(buttons: usize, rotary: bool) -> (r: Option<(&'static str, usize)>)
    ensures
        match r {
            Some((driver, slots)) => driver_of(buttons as nat, rotary) == Some(
                (driver@, slots as nat),
            ) && slots <= 4,
            None => driver_of(buttons as nat, rotary) is None,
        },
{
    if buttons == 0 {
        None
    } else if rotary {
        Some(("signify.hue.tap_dial", 4))
    } else if buttons == 1 {
        Some(("signify.hue.smart_button", 1))
    } else if buttons == 2 {
        Some(("signify.hue.wall_switch", 2))
    } else {
        Some(("signify.hue.dimmer", 4))
    }
}

/// What the maker calls a device, where that says anything.
pub open spec fn product_of(device: JView) -> Option<Seq<char>> {
    match json::as_str(device.get("product"@)) {
        Some(p) => if p.len() > 0 {
            Some(p)
        } else {
            None
        },
        None => None,
    }
}

/// The buttons of a device.
pub open spec fn buttons_of(device: JView) -> Seq<Seq<char>> {
    json::strings(json::list_or_empty(json::as_array(device.get("buttons"@))))
}

/// Where a device is: where the bridge says, and failing that where what it drives is.
pub open spec fn room_for(device: JView) -> Seq<char> {
    match json::as_str(device.get("room"@)) {
        Some(room) => room,
        None => if behaviour::controls_of(device).len() > 0 {
            behaviour::controls_of(device)[0]
        } else {
            ""@
        },
    }
}

/// Properties with one more, where there is a value for it.
pub open spec fn put_text(props: Members, key: Seq<char>, value: Option<Seq<char>>) -> Members {
    match value {
        Some(v) => json::put(props, key, JView::Str(v)),
        None => props,
    }
}

/// The properties that every device behind a bridge has.
pub open spec fn base_properties(device: JView, address: Seq<char>, key: Seq<char>) -> Members {
    let a = json::one("Bridge address"@, JView::Str(address));
    let b = json::put(a, "Application key"@, JView::Str(key));
    put_text(b, "Power id"@, json::as_str(device.get("power"@)))
}

/// The property that holds the id of a button, counted from one.
pub open spec fn button_property(n: nat) -> Seq<char> {
    "Button "@ + text::decimal(n) + " id"@
}

/// Properties with the ids of the first `n` buttons.
pub open spec fn put_buttons(props: Members, buttons: Seq<Seq<char>>, n: nat) -> Members
    decreases n,
{
    if n == 0 {
        props
    } else {
        json::put(
            put_buttons(props, buttons, (n - 1) as nat),
            button_property(n),
            JView::Str(buttons[n - 1]),
        )
    }
}

/// What is said of a control surface: how many buttons it has, plainly where there are more than
/// can be bound, and what the bridge has it wired to.
pub open spec fn keypad_note(device: JView, slots: nat) -> Seq<char> {
    let count = buttons_of(device).len();
    let controls = behaviour::controls_of(device);
    let shape = if count > slots {
        text::decimal(count) + " buttons, "@ + text::decimal((count - slots) as nat)
            + " more than this driver has bindings for — report it"@
    } else {
        match product_of(device) {
            Some(p) => p + " — "@ + text::decimal(count) + " button(s)"@,
            None => text::decimal(count) + " button(s) on "@ + json::str_or(
                json::as_str(device.get("model"@)),
                ""@,
            ),
        }
    };
    if controls.len() > 0 {
        shape + ", controls "@ + text::joined(controls, controls.len(), " and "@)
    } else {
        shape
    }
}

/// A control surface, as a device that could be adopted.
pub open spec fn keypad(
    device: JView,
    address: Seq<char>,
    key: Seq<char>,
    driver: Seq<char>,
    slots: nat,
) -> CandidateView {
    let buttons = buttons_of(device);
    let bound = if buttons.len() < slots {
        buttons.len()
    } else {
        slots
    };
    CandidateView {
        label: json::str_or(json::as_str(device.get("name"@)), "Hue device"@),
        kind: "keypad"@,
        driver_id: driver,
        properties: put_text(
            put_buttons(base_properties(device, address, key), buttons, bound),
            "Rotary id"@,
            json::as_str(device.get("rotary"@)),
        ),
        verified: keypad_note(device, slots),
        room: room_for(device),
    }
}

/// A list with one more name, where a device has the field it stands for.
pub open spec fn measure(
    list: Seq<Seq<char>>,
    device: JView,
    field: Seq<char>,
    name: Seq<char>,
) -> Seq<Seq<char>> {
    if json::as_str(device.get(field)) is Some {
        list.push(name)
    } else {
        list
    }
}

/// What is said of a sensor: what it measures.
pub open spec fn sensor_note(device: JView) -> Seq<char> {
    let some = measure(seq!["motion"@], device, "temperature"@, "temperature"@);
    let all = measure(some, device, "light_level"@, "light level"@);
    let reports = "reports "@ + text::joined(all, all.len(), ", "@);
    match product_of(device) {
        Some(p) => p + " — "@ + reports,
        None => reports,
    }
}

/// A sensor, as a device that could be adopted.
pub open spec fn sensor(
    device: JView,
    address: Seq<char>,
    key: Seq<char>,
    motion: Seq<char>,
) -> CandidateView {
    let a = json::put(base_properties(device, address, key), "Motion id"@, JView::Str(motion));
    let b = put_text(a, "Temperature id"@, json::as_str(device.get("temperature"@)));
    CandidateView {
        label: json::str_or(json::as_str(device.get("name"@)), "Hue device"@),
        kind: "sensor"@,
        driver_id: "signify.hue.motion"@,
        properties: put_text(b, "Light level id"@, json::as_str(device.get("light_level"@))),
        verified: sensor_note(device),
        room: room_for(device),
    }
}

/// A device of the catalog, as one that could be adopted: a control surface where it has buttons,
/// else a sensor where it has one. Bulbs are not offered here.
pub open spec fn candidate_of(device: JView, address: Seq<char>, key: Seq<char>) -> Option<
    CandidateView,
> {
    let rotary = json::as_str(device.get("rotary"@)) is Some;
    match driver_of(buttons_of(device).len(), rotary) {
        Some((driver, slots)) => Some(keypad(device, address, key, driver, slots)),
        None => match json::as_str(device.get("motion"@)) {
            Some(motion) => Some(sensor(device, address, key, motion)),
            None => None,
        },
    }
}

/// How many candidates from position `i` on have a label no later than `label`, stopping at the
/// first that has a later one, counted from the start.
pub open spec fn label_slot(list: Seq<CandidateView>, label: Seq<char>, i: nat) -> nat
    decreases list.len() - i,
{
    if i < list.len() && !text::less(label, list[i as int].label) {
        label_slot(list, label, i + 1)
    } else {
        i
    }
}

/// What is offered of the first `n` devices, by label; candidates with the same label keep their
/// order.
pub open spec fn offers(catalog: Seq<JView>, n: nat, address: Seq<char>, key: Seq<char>) -> Seq<
    CandidateView,
>
    decreases n,
{
    if n == 0 {
        seq![]
    } else {
        let rest = offers(catalog, (n - 1) as nat, address, key);
        match candidate_of(catalog[n - 1], address, key) {
            Some(c) => rest.insert(label_slot(rest, c.label, 0) as int, c),
            None => rest,
        }
    }
}

fn product_in(device: &Json) -> (r: Option<&str>)
    ensures
        text::view_of(r) == product_of(device@),
{
    match json::str_of(device.get("product")) {
        Some(p) => {
            if text::is_empty(p) {
                None
            } else {
                Some(p)
            }
        },
        None => None,
    }
}

fn room_in(device: &Json) -> (r: String)
    ensures
        r@ == room_for(device@),
{
    match json::str_of(device.get("room")) {
        Some(room) => room.to_string(),
        None => {
            let controls = json::strings_of(device.get("controls"));
            assert(text::views(controls@).len() == controls@.len());
            if controls.len() > 0 {
                controls[0].clone()
            } else {
                "".to_string()
            }
        },
    }
}

fn name_in(device: &Json) -> (r: String)
    ensures
        r@ == json::str_or(json::as_str(device@.get("name"@)), "Hue device"@),
{
    match json::str_of(device.get("name")) {
        Some(s) => s.to_string(),
        None => "Hue device".to_string(),
    }
}

fn add_text(props: Object, key: &str, value: Option<&str>) -> (r: Object)
    ensures
        r@ == put_text(props@, key@, text::view_of(value)),
{
    match value {
        Some(v) => props.with(key, Json::text(v)),
        None => props,
    }
}

fn properties_in(device: &Json, address: &str, key: &str) -> (r: Object)
    ensures
        r@ == base_properties(device@, address@, key@),
{
    let a = Object::new().with("Bridge address", Json::text(address));
    let b = a.with("Application key", Json::text(key));
    add_text(b, "Power id", json::str_of(device.get("power")))
}

fn add_buttons(props: Object, buttons: &Vec<String>, bound: usize) -> (r: Object)
    requires
        bound <= buttons.len(),
        bound <= 4,
    ensures
        r@ == put_buttons(props@, text::views(buttons@), bound as nat),
{
    let ghost start = props@;
    let mut out = props;
    let mut i: usize = 0;
    while i < bound
        invariant
            i <= bound <= buttons.len(),
            bound <= 4,
            out@ == put_buttons(start, text::views(buttons@), i as nat),
        decreases bound - i,
    {
        let mut name = "Button ".to_string();
        name.append(text::decimal_text((i + 1) as u64).as_str());
        name.append(" id");
        out.insert(name.as_str(), Json::text(buttons[i].as_str()));
        i = i + 1;
    }
    out
}

fn note_of_keypad(device: &Json, buttons: &Vec<String>, slots: usize) -> (r: String)
    requires
        text::views(buttons@) == buttons_of(device@),
    ensures
        r@ == keypad_note(device@, slots as nat),
{
    assert(text::views(buttons@).len() == buttons@.len());
    let count = text::decimal_text(buttons.len() as u64);
    let mut note = if buttons.len() > slots {
        let mut n = count;
        n.append(" buttons, ");
        n.append(text::decimal_text((buttons.len() - slots) as u64).as_str());
        n.append(" more than this driver has bindings for — report it");
        n
    } else {
        match product_in(device) {
            Some(p) => {
                let mut n = p.to_string();
                n.append(" — ");
                n.append(count.as_str());
                n.append(" button(s)");
                n
            },
            None => {
                let model = match json::str_of(device.get("model")) {
                    Some(m) => m,
                    None => "",
                };
                let mut n = count;
                n.append(" button(s) on ");
                n.append(model);
                n
            },
        }
    };
    let controls = json::strings_of(device.get("controls"));
    assert(text::views(controls@).len() == controls@.len());
    if controls.len() > 0 {
        note.append(", controls ");
        note.append(text::join(&controls, " and ").as_str());
    }
    note
}

fn note_of_sensor(device: &Json) -> (r: String)
    ensures
        r@ == sensor_note(device@),
{
    broadcast use text::views_push;

    let mut measures: Vec<String> = Vec::new();
    assert(text::views(measures@) =~= seq![]);
    measures.push("motion".to_string());
    assert(text::views(measures@) =~= seq!["motion"@]);
    if json::str_of(device.get("temperature")).is_some() {
        measures.push("temperature".to_string());
    }
    if json::str_of(device.get("light_level")).is_some() {
        measures.push("light level".to_string());
    }
    assert(text::views(measures@).len() == measures@.len());
    let mut reports = "reports ".to_string();
    reports.append(text::join(&measures, ", ").as_str());
    match product_in(device) {
        Some(p) => {
            let mut n = p.to_string();
            n.append(" — ");
            n.append(reports.as_str());
            n
        },
        None => reports,
    }
}

fn candidate(device: &Json, address: &str, key: &str) -> (r: Option<Candidate>)
    ensures
        text::view_of(r) == candidate_of(device@, address@, key@),
{
    let buttons = json::strings_of(device.get("buttons"));
    assert(text::views(buttons@).len() == buttons@.len());
    let rotary = json::str_of(device.get("rotary"));
    match driver_for(buttons.len(), rotary.is_some()) {
        Some((driver, slots)) => {
            let bound = if buttons.len() < slots {
                buttons.len()
            } else {
                slots
            };
            let props = add_buttons(properties_in(device, address, key), &buttons, bound);
            Some(
                Candidate {
                    label: name_in(device),
                    kind: "keypad".to_string(),
                    driver_id: driver.to_string(),
                    properties: add_text(props, "Rotary id", rotary),
                    verified: note_of_keypad(device, &buttons, slots),
                    room: room_in(device),
                },
            )
        },
        None => match json::str_of(device.get("motion")) {
            Some(motion) => {
                let a = properties_in(device, address, key).with("Motion id", Json::text(motion));
                let b = add_text(a, "Temperature id", json::str_of(device.get("temperature")));
                Some(
                    Candidate {
                        label: name_in(device),
                        kind: "sensor".to_string(),
                        driver_id: "signify.hue.motion".to_string(),
                        properties: add_text(
                            b,
                            "Light level id",
                            json::str_of(device.get("light_level")),
                        ),
                        verified: note_of_sensor(device),
                        room: room_in(device),
                    },
                )
            },
            None => None,
        },
    }
}

/// Puts a candidate into its place in a list that is ordered by label.
pub fn place(list: &mut Vec<Candidate>, c: Candidate)
    ensures
        text::views(final(list)@) == text::views(old(list)@).insert(
            label_slot(text::views(old(list)@), c@.label, 0) as int,
            c@,
        ),
{
    let mut i: usize = 0;
    while i < list.len() && !text::before(c.label.as_str(), list[i].label.as_str())
        invariant
            i <= list.len(),
            list@ == old(list)@,
            label_slot(text::views(list@), c@.label, 0) == label_slot(
                text::views(list@),
                c@.label,
                i as nat,
            ),
        decreases list.len() - i,
    {
        i = i + 1;
    }
    let ghost start = text::views(list@);
    let ghost added = c@;
    list.insert(i, c);
    assert(text::views(list@) =~= start.insert(i as int, added));
}

/// The control surfaces and sensors in the catalog, as devices that could be adopted, by label.
pub fn candidates(catalog: &Vec<Json>, address: &str, key: &str) -> (r: Vec<Candidate>)
    ensures
        text::views(r@) == offers(text::views(catalog@), catalog@.len(), address@, key@),
{
    let mut out: Vec<Candidate> = Vec::new();
    assert(text::views(out@) =~= seq![]);
    let mut n: usize = 0;
    while n < catalog.len()
        invariant
            n <= catalog.len(),
            text::views(out@) == offers(text::views(catalog@), n as nat, address@, key@),
        decreases catalog.len() - n,
    {
        match candidate(&catalog[n], address, key) {
            Some(c) => place(&mut out, c),
            None => {},
        }
        n = n + 1;
    }
    out
}

} // verus!
