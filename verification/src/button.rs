//! Presses, and the dial on a Tap Dial.
//!
//! A button has nothing to say about its own state, so everything here is an event, and the whole
//! point of the module is getting the event onto the right binding with the right name. Hue's own
//! vocabulary is transport-shaped, `short_release`, `long_press`, and is put into a household's
//! words rather than passed through.

use vstd::prelude::*;
use vstd::string::StringExecFns;
use crate::host;
use crate::host::{HostCall, HostCallView, Instance, InstanceView};
use crate::imports;
use crate::json;
use crate::json::{JView, Json, Object};
use crate::sensor;
use crate::text;

verus! {

/// What happened, in a household's words. The press at the start of every interaction is nothing:
/// it is always followed by one of the others.
pub open spec fn action_of(event: Seq<char>) -> Option<Seq<char>> {
    if event == "short_release"@ {
        Some("clicked"@)
    } else if event == "double_short_release"@ {
        Some("double_clicked"@)
    } else if event == "triple_short_release"@ {
        Some("triple_clicked"@)
    } else if event == "long_press"@ {
        Some("held"@)
    } else if event == "long_release"@ {
        Some("released"@)
    } else if event == "repeat"@ {
        Some("repeating"@)
    } else {
        None
    }
}

/// What the bridge calls it, and what it is.
///
/// `initial_press` is deliberately dropped: reporting it would fire a rule on the way to firing the
/// real one. The press that matters is only known once the finger comes off.
pub fn action(event: &str) -> (r: Option<&'static str>)
    ensures
        text::view_of(r) == action_of(event@),
{
    if text::same(event, "short_release") {
        Some("clicked")
    } else if text::same(event, "double_short_release") {
        Some("double_clicked")
    } else if text::same(event, "triple_short_release") {
        Some("triple_clicked")
    } else if text::same(event, "long_press") {
        Some("held")
    } else if text::same(event, "long_release") {
        Some("released")
    } else if text::same(event, "repeat") {
        Some("repeating")
    } else {
        None
    }
}

/// The first of two values that is there.
pub open spec fn either(a: Option<JView>, b: Option<JView>) -> Option<JView> {
    match a {
        Some(v) => Some(v),
        None => b,
    }
}

/// The event a resource is reporting, newest form first.
pub open spec fn event_of(resource: JView) -> Option<Seq<char>> {
    json::as_str(
        either(
            resource.get3("button"@, "button_report"@, "event"@),
            resource.get2("button"@, "last_event"@),
        ),
    )
}

/// The event a resource is reporting, newest form first.
pub fn event(resource: &Json) -> (r: Option<&str>)
    ensures
        text::view_of(r) == event_of(resource@),
{
    match resource.get3("button", "button_report", "event") {
        Some(v) => json::str_of(Some(v)),
        None => json::str_of(resource.get2("button", "last_event")),
    }
}

/// The rotation a resource is reporting, newest form first: which way, and how far. A report
/// without steps is the dial saying it started moving, which is not yet a rotation.
pub open spec fn rotation_of(resource: JView) -> Option<(Seq<char>, u64)> {
    let report = match resource.get3("relative_rotary"@, "rotary_report"@, "rotation"@) {
        Some(v) => Some(v),
        None => resource.get3("relative_rotary"@, "last_event"@, "rotation"@),
    };
    match report {
        Some(last) => match (
            json::as_str(last.get("direction"@)),
            json::as_u64(last.get("steps"@)),
        ) {
            (Some(direction), Some(steps)) => Some((direction, steps)),
            _ => None,
        },
        None => None,
    }
}

/// The rotation a resource is reporting, newest form first.
pub fn rotation(resource: &Json) -> (r: Option<(&str, u64)>)
    ensures
        match r {
            Some((direction, steps)) => rotation_of(resource@) == Some((direction@, steps)),
            None => rotation_of(resource@) is None,
        },
{
    let report = match resource.get3("relative_rotary", "rotary_report", "rotation") {
        Some(v) => Some(v),
        None => resource.get3("relative_rotary", "last_event", "rotation"),
    };
    match report {
        Some(last) => {
            let direction = json::str_of(last.get("direction"));
            let steps = json::u64_of(last.get("steps"));
            match (direction, steps) {
                (Some(direction), Some(steps)) => Some((direction, steps)),
                _ => None,
            }
        },
        None => None,
    }
}

/// Which key of a device a resource is about, numbered from one.
pub open spec fn key_of(inst: InstanceView, resource: JView) -> Option<u64> {
    if sensor::is_about(inst, "Button 1 id"@, resource) {
        Some(1)
    } else if sensor::is_about(inst, "Button 2 id"@, resource) {
        Some(2)
    } else if sensor::is_about(inst, "Button 3 id"@, resource) {
        Some(3)
    } else if sensor::is_about(inst, "Button 4 id"@, resource) {
        Some(4)
    } else {
        None
    }
}

fn key_in(inst: &Instance, resource: &Json) -> (r: Option<u64>)
    ensures
        r == key_of(inst@, resource@),
{
    if sensor::concerns(inst, "Button 1 id", resource) {
        Some(1)
    } else if sensor::concerns(inst, "Button 2 id", resource) {
        Some(2)
    } else if sensor::concerns(inst, "Button 3 id", resource) {
        Some(3)
    } else if sensor::concerns(inst, "Button 4 id", resource) {
        Some(4)
    } else {
        None
    }
}

/// An event on the remote's binding, and what its tile shows of it.
pub open spec fn told(name: Seq<char>, key: Seq<char>, value: u64, shown: Seq<char>) -> Seq<
    HostCallView,
> {
    seq![
        host::notification(imports::KEYPAD, name, json::one(key, json::int_value(value))),
        HostCallView::SetState {
            proxy: imports::KEYPAD,
            key: "last_action"@,
            value: JView::Str(shown),
        },
    ]
}

/// What is reported of a press: nothing of the one on the way to a click.
pub open spec fn press_calls(key: u64, resource: JView) -> Seq<HostCallView> {
    let name = match event_of(resource) {
        Some(event) => action_of(event),
        None => None,
    };
    match name {
        Some(name) => told(
            name,
            "key"@,
            key,
            "key "@ + text::decimal(key as nat) + " "@ + name,
        ),
        None => seq![],
    }
}

/// What is reported of the dial. Anticlockwise is anything that is not clockwise.
pub open spec fn dial_calls(resource: JView) -> Seq<HostCallView> {
    match rotation_of(resource) {
        Some((direction, steps)) => {
            let name = if direction == "clock_wise"@ {
                "rotated_clockwise"@
            } else {
                "rotated_counter_clockwise"@
            };
            told(name, "steps"@, steps, name)
        },
        None => seq![],
    }
}

/// What one resource comes to for a control: nothing where it is about something else.
pub open spec fn reported(inst: InstanceView, resource: JView) -> Seq<HostCallView> {
    match key_of(inst, resource) {
        Some(key) => press_calls(key, resource),
        None => if sensor::is_about(inst, "Rotary id"@, resource) {
            dial_calls(resource)
        } else {
            sensor::battery_calls(inst, resource)
        },
    }
}

fn tell(name: &str, key: &str, value: u64, shown: &str) -> (r: Vec<HostCall>)
    ensures
        text::views(r@) == told(name@, key@, value, shown@),
{
    broadcast use text::views_push;

    let mut calls = host::one_call(
        HostCall::notify(imports::KEYPAD, name, Object::new().with(key, Json::integer(value))),
    );
    calls.push(
        HostCall::SetState {
            proxy: imports::KEYPAD,
            key: "last_action".to_string(),
            value: Json::text(shown),
        },
    );
    assert(text::views(calls@) =~= told(name@, key@, value, shown@));
    calls
}

/// One resource, as it concerns this control. Empty when it is about something else.
pub fn report(inst: &Instance, resource: &Json) -> (r: Vec<HostCall>)
    ensures
        text::views(r@) == reported(inst@, resource@),
{
    match key_in(inst, resource) {
        Some(key) => {
            let name = match event(resource) {
                Some(event) => action(event),
                None => None,
            };
            match name {
                Some(name) => {
                    // The number, not the label: the label is known where it is shown, and a copy
                    // of it here would go stale when somebody renames the key.
                    let mut shown = "key ".to_string();
                    shown.append(text::decimal_text(key).as_str());
                    shown.append(" ");
                    shown.append(name);
                    tell(name, "key", key, shown.as_str())
                },
                None => host::no_calls(),
            }
        },
        None => {
            if sensor::concerns(inst, "Rotary id", resource) {
                match rotation(resource) {
                    Some((direction, steps)) => {
                        let name = if text::same(direction, "clock_wise") {
                            "rotated_clockwise"
                        } else {
                            "rotated_counter_clockwise"
                        };
                        tell(name, "steps", steps, name)
                    },
                    None => host::no_calls(),
                }
            } else {
                sensor::battery(inst, resource)
            }
        },
    }
}

} // verus!
