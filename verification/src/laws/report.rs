//! Laws of reports: what each thing the bridge says of a device comes to.

use vstd::prelude::*;
use crate::bulb;
use crate::button;
use crate::host::{Conversion, HostCallView, HttpRequestView, InstanceView};
use crate::json;
use crate::json::{JView, NumberView};
use crate::number;
use crate::role;
use crate::role::Role;
use crate::sensor;
use crate::text;

verus! {

/// Whether a property of a device holds the id of a resource.
pub open spec fn is_named(inst: InstanceView, property: Seq<char>, resource: JView) -> bool {
    resource.get("id"@) matches Some(JView::Str(id)) && json::lookup(inst.properties, property)
        == Some(JView::Str(id))
}

/// Whether a property of a device is text that is not empty.
pub open spec fn is_set(inst: InstanceView, property: Seq<char>) -> bool {
    json::lookup(inst.properties, property) matches Some(JView::Str(id)) && id.len() > 0
}

/// The value under three keys in turn, or the one under two others where there is none.
pub open spec fn newest(newer: Option<JView>, older: Option<JView>) -> Option<JView> {
    if newer is Some {
        newer
    } else {
        older
    }
}

proof fn report_names()
    ensures
        "motion"@ + "_report"@ == "motion_report"@,
        "temperature"@ + "_report"@ == "temperature_report"@,
        "light_level"@ + "_report"@ == "light_level_report"@,
{
    reveal_strlit("motion");
    reveal_strlit("temperature");
    reveal_strlit("light_level");
    reveal_strlit("_report");
    reveal_strlit("motion_report");
    reveal_strlit("temperature_report");
    reveal_strlit("light_level_report");
    assert("motion"@ + "_report"@ =~= "motion_report"@);
    assert("temperature"@ + "_report"@ =~= "temperature_report"@);
    assert("light_level"@ + "_report"@ =~= "light_level_report"@);
}

/// What a device is, is told by the properties it has: a bulb by its light, a sensor by its motion,
/// a control by its first button or its dial, and a bridge by none of them.
pub proof fn a_device_is_what_its_properties_say(inst: InstanceView)
    ensures
        role::role_of(inst) == Role::Bulb <==> is_set(inst, "Light id"@),
        role::role_of(inst) == Role::Motion <==> !is_set(inst, "Light id"@) && is_set(
            inst,
            "Motion id"@,
        ),
        role::role_of(inst) == Role::Control <==> !is_set(inst, "Light id"@) && !is_set(
            inst,
            "Motion id"@,
        ) && (is_set(inst, "Button 1 id"@) || is_set(inst, "Rotary id"@)),
{
}

/// A sensor's own motion resource that says whether somebody was seen is one report of exactly
/// that, on the first binding; the newer form counts before the older one.
pub proof fn motion_is_reported_as_it_is(inst: InstanceView, resource: JView, seen: bool)
    requires
        is_named(inst, "Motion id"@, resource),
        newest(
            resource.get3("motion"@, "motion_report"@, "motion"@),
            resource.get2("motion"@, "motion"@),
        ) == Some(JView::Bool(seen)),
    ensures
        sensor::reported(inst, resource) == seq![
            HostCallView::Notify {
                proxy: 1,
                name: "detected_changed"@,
                args: seq![("detected"@, JView::Bool(seen))],
            },
        ],
{
    broadcast use json::one_is_one;

    report_names();
}

/// A sensor's own temperature is one report of exactly the number the bridge wrote, in degrees
/// Celsius, on the second binding.
pub proof fn temperature_is_reported_as_it_is(inst: InstanceView, resource: JView, raw: NumberView)
    requires
        is_named(inst, "Temperature id"@, resource),
        !is_named(inst, "Motion id"@, resource),
        newest(
            resource.get3("temperature"@, "temperature_report"@, "temperature"@),
            resource.get2("temperature"@, "temperature"@),
        ) == Some(JView::Num(raw)),
    ensures
        sensor::reported(inst, resource) == seq![
            HostCallView::NotifyConverted {
                proxy: 2,
                name: "value_changed"@,
                key: "value"@,
                conversion: Conversion::Celsius,
                raw,
            },
        ],
{
    report_names();
}

/// A sensor's own light level is one report of exactly the number the bridge wrote, to be made
/// lux, on the third binding.
pub proof fn light_level_is_reported_as_it_is(inst: InstanceView, resource: JView, raw: NumberView)
    requires
        is_named(inst, "Light level id"@, resource),
        !is_named(inst, "Motion id"@, resource),
        !is_named(inst, "Temperature id"@, resource),
        newest(
            resource.get3("light"@, "light_level_report"@, "light_level"@),
            resource.get2("light"@, "light_level"@),
        ) == Some(JView::Num(raw)),
    ensures
        sensor::reported(inst, resource) == seq![
            HostCallView::NotifyConverted {
                proxy: 3,
                name: "value_changed"@,
                key: "value"@,
                conversion: Conversion::Lux,
                raw,
            },
        ],
{
    report_names();
}

/// A resource of a sensor without a reading of its kind is not reported.
pub proof fn no_reading_is_no_report(inst: InstanceView, resource: JView)
    ensures
        is_named(inst, "Motion id"@, resource) && !(newest(
            resource.get3("motion"@, "motion_report"@, "motion"@),
            resource.get2("motion"@, "motion"@),
        ) matches Some(JView::Bool(_))) ==> sensor::reported(inst, resource).len() == 0,
        !is_named(inst, "Motion id"@, resource) && is_named(inst, "Temperature id"@, resource) && !(
        newest(
            resource.get3("temperature"@, "temperature_report"@, "temperature"@),
            resource.get2("temperature"@, "temperature"@),
        ) matches Some(JView::Num(_))) ==> sensor::reported(inst, resource).len() == 0,
        !is_named(inst, "Motion id"@, resource) && !is_named(inst, "Temperature id"@, resource)
            && is_named(inst, "Light level id"@, resource) && !(newest(
            resource.get3("light"@, "light_level_report"@, "light_level"@),
            resource.get2("light"@, "light_level"@),
        ) matches Some(JView::Num(_))) ==> sensor::reported(inst, resource).len() == 0,
{
    report_names();
}

/// A device's own battery is one report of its charge, never more than all of it, on the first
/// binding, and so for a sensor and for a control.
pub proof fn a_charge_is_reported_as_it_is(inst: InstanceView, resource: JView, percent: u64)
    requires
        is_named(inst, "Power id"@, resource),
        resource.get2("power_state"@, "battery_level"@) == Some(
            JView::Num(NumberView::PosInt(percent)),
        ),
    ensures
        ({
            let told = seq![
                HostCallView::Notify {
                    proxy: 1,
                    name: "battery_changed"@,
                    args: seq![
                        (
                            "percent"@,
                            JView::Num(
                                NumberView::PosInt(
                                    if percent < 100 {
                                        percent
                                    } else {
                                        100
                                    },
                                ),
                            ),
                        ),
                    ],
                },
            ];
            &&& !is_named(inst, "Motion id"@, resource) && !is_named(
                inst,
                "Temperature id"@,
                resource,
            ) && !is_named(inst, "Light level id"@, resource) ==> sensor::reported(inst, resource)
                == told
            &&& !is_named(inst, "Button 1 id"@, resource) && !is_named(
                inst,
                "Button 2 id"@,
                resource,
            ) && !is_named(inst, "Button 3 id"@, resource) && !is_named(
                inst,
                "Button 4 id"@,
                resource,
            ) && !is_named(inst, "Rotary id"@, resource) ==> button::reported(inst, resource)
                == told
        }),
{
    broadcast use json::one_is_one;

}

/// Whether a resource is about a key of a control and about none before it.
pub open spec fn is_key(inst: InstanceView, key: u64, resource: JView) -> bool {
    &&& key == 1 || key == 2 || key == 3 || key == 4
    &&& key == 1 <==> is_named(inst, "Button 1 id"@, resource)
    &&& key == 2 ==> is_named(inst, "Button 2 id"@, resource)
    &&& key == 3 ==> is_named(inst, "Button 3 id"@, resource) && !is_named(
        inst,
        "Button 2 id"@,
        resource,
    )
    &&& key == 4 ==> is_named(inst, "Button 4 id"@, resource) && !is_named(
        inst,
        "Button 2 id"@,
        resource,
    ) && !is_named(inst, "Button 3 id"@, resource)
}

/// What a key was, in the bridge's words and in a household's.
pub open spec fn gestures() -> Seq<(Seq<char>, Seq<char>)> {
    seq![
        ("short_release"@, "clicked"@),
        ("double_short_release"@, "double_clicked"@),
        ("triple_short_release"@, "triple_clicked"@),
        ("long_press"@, "held"@),
        ("long_release"@, "released"@),
        ("repeat"@, "repeating"@),
    ]
}

proof fn gestures_differ()
    ensures
        "short_release"@.len() == 13,
        "double_short_release"@.len() == 20 && "double_short_release"@[0] == 'd',
        "triple_short_release"@.len() == 20 && "triple_short_release"@[0] == 't',
        "long_press"@.len() == 10,
        "long_release"@.len() == 12,
        "repeat"@.len() == 6,
{
    reveal_strlit("short_release");
    reveal_strlit("double_short_release");
    reveal_strlit("triple_short_release");
    reveal_strlit("long_press");
    reveal_strlit("long_release");
    reveal_strlit("repeat");
}

/// A gesture on a key is told with the number of that key, under its name in a household's words,
/// and shown as the last thing that happened; the newer form counts before the older one.
pub proof fn a_gesture_is_told_with_its_key(
    inst: InstanceView,
    resource: JView,
    key: u64,
    k: int,
)
    requires
        is_key(inst, key, resource),
        0 <= k < gestures().len(),
        newest(
            resource.get3("button"@, "button_report"@, "event"@),
            resource.get2("button"@, "last_event"@),
        ) == Some(JView::Str(gestures()[k].0)),
    ensures
        button::reported(inst, resource) == seq![
            HostCallView::Notify {
                proxy: 1,
                name: gestures()[k].1,
                args: seq![("key"@, JView::Num(NumberView::PosInt(key)))],
            },
            HostCallView::SetState {
                proxy: 1,
                key: "last_action"@,
                value: JView::Str("key "@ + text::decimal(key as nat) + " "@ + gestures()[k].1),
            },
        ],
{
    broadcast use json::one_is_one;

    gestures_differ();
    assert(k == 0 || k == 1 || k == 2 || k == 3 || k == 4 || k == 5);
}

/// Any other word for a key is not told.
pub proof fn any_other_gesture_is_not_told(inst: InstanceView, resource: JView, key: u64)
    requires
        is_key(inst, key, resource),
        forall|k: int|
            0 <= k < gestures().len() ==> newest(
                resource.get3("button"@, "button_report"@, "event"@),
                resource.get2("button"@, "last_event"@),
            ) != Some(JView::Str(#[trigger] gestures()[k].0)),
    ensures
        button::reported(inst, resource).len() == 0,
{
    let g = gestures();
    assert(g[0].0 == "short_release"@ && g[1].0 == "double_short_release"@ && g[2].0
        == "triple_short_release"@ && g[3].0 == "long_press"@ && g[4].0 == "long_release"@ && g[5].0
        == "repeat"@);
}

/// A turn of the dial is told with its steps and the way it went, and shown as the last thing that
/// happened; the newer form counts before the older one.
pub proof fn a_turn_is_told_with_its_steps(
    inst: InstanceView,
    resource: JView,
    turn: JView,
    direction: Seq<char>,
    steps: u64,
)
    requires
        is_named(inst, "Rotary id"@, resource),
        forall|key: u64| 1 <= key <= 4 ==> !#[trigger] is_key(inst, key, resource),
        newest(
            resource.get3("relative_rotary"@, "rotary_report"@, "rotation"@),
            resource.get3("relative_rotary"@, "last_event"@, "rotation"@),
        ) == Some(turn),
        turn.get("direction"@) == Some(JView::Str(direction)),
        turn.get("steps"@) == Some(JView::Num(NumberView::PosInt(steps))),
    ensures
        ({
            let name = if direction == "clock_wise"@ {
                "rotated_clockwise"@
            } else {
                "rotated_counter_clockwise"@
            };
            button::reported(inst, resource) == seq![
                HostCallView::Notify {
                    proxy: 1,
                    name,
                    args: seq![("steps"@, JView::Num(NumberView::PosInt(steps)))],
                },
                HostCallView::SetState {
                    proxy: 1,
                    key: "last_action"@,
                    value: JView::Str(name),
                },
            ]
        }),
{
    broadcast use json::one_is_one;

    assert(!is_key(inst, 1, resource) && !is_key(inst, 2, resource) && !is_key(inst, 3, resource)
        && !is_key(inst, 4, resource));
}

/// A dial that says no way or no number of steps has only started to move, and is not told.
pub proof fn a_turn_without_steps_is_not_told(inst: InstanceView, resource: JView, turn: JView)
    requires
        is_named(inst, "Rotary id"@, resource),
        forall|key: u64| 1 <= key <= 4 ==> !#[trigger] is_key(inst, key, resource),
        newest(
            resource.get3("relative_rotary"@, "rotary_report"@, "rotation"@),
            resource.get3("relative_rotary"@, "last_event"@, "rotation"@),
        ) == Some(turn),
        !(turn.get("direction"@) matches Some(JView::Str(_))) || !(turn.get("steps"@) matches Some(
            JView::Num(NumberView::PosInt(_)),
        )),
    ensures
        button::reported(inst, resource).len() == 0,
{
    assert(!is_key(inst, 1, resource) && !is_key(inst, 2, resource) && !is_key(inst, 3, resource)
        && !is_key(inst, 4, resource));
}

/// What a sensor or a control hears is what is reported of the resource, and it remembers nothing.
pub proof fn an_accessory_hears_its_reports(inst: InstanceView, resource: JView)
    requires
        !is_set(inst, "Light id"@),
    ensures
        is_set(inst, "Motion id"@) ==> bulb::heard(inst, resource) == (
            inst,
            sensor::reported(inst, resource),
        ),
        !is_set(inst, "Motion id"@) && (is_set(inst, "Button 1 id"@) || is_set(inst, "Rotary id"@))
            ==> bulb::heard(inst, resource) == (inst, button::reported(inst, resource)),
{
}

/// Whether a light's report and memory say a level: one report, first, and a device that remembers
/// the level unless it is nothing, and that it is on unless it is.
pub open spec fn says_level(
    inst: InstanceView,
    outcome: (InstanceView, Seq<HostCallView>),
    level: u64,
) -> bool {
    let (after, calls) = outcome;
    &&& calls.len() > 0
    &&& calls[0] == HostCallView::Notify {
        proxy: 1,
        name: "level_changed"@,
        args: seq![("level"@, JView::Num(NumberView::PosInt(level)))],
    }
    &&& json::lookup(after.scratch, "on"@) == Some(JView::Bool(level > 0))
    &&& json::lookup(after.scratch, "level"@) == if level > 0 {
        Some(JView::Num(NumberView::PosInt(level)))
    } else {
        json::lookup(inst.scratch, "level"@)
    }
}

proof fn level_is_said(inst: InstanceView, light: JView, level: u64)
    requires
        is_set(inst, "Light id"@),
        is_named(inst, "Light id"@, light),
        bulb::light_level(inst, light) == Some(level),
    ensures
        says_level(inst, bulb::heard(inst, light), level),
{
    broadcast use {json::one_is_one, json::lookup_put};

    reveal_strlit("on");
    reveal_strlit("level");
    assert("on"@.len() != "level"@.len());
}

/// A light that goes out is reported at nothing, whatever brightness it goes with, and keeps the
/// level it was last at.
pub proof fn a_light_that_goes_out_is_at_nothing(inst: InstanceView, light: JView)
    requires
        is_set(inst, "Light id"@),
        is_named(inst, "Light id"@, light),
        light.get2("on"@, "on"@) == Some(JView::Bool(false)),
    ensures
        says_level(inst, bulb::heard(inst, light), 0),
{
    level_is_said(inst, light, 0);
}

/// A light that is on is reported at the brightness it says, and at the level it was last known at
/// where it says none, or at full where none is known.
pub proof fn a_light_that_is_on_is_at_its_brightness(inst: InstanceView, light: JView)
    requires
        is_set(inst, "Light id"@),
        is_named(inst, "Light id"@, light),
        light.get2("on"@, "on"@) == Some(JView::Bool(true)),
    ensures
        match number::brightness(light.get2("dimming"@, "brightness"@)) {
            Some(level) => says_level(inst, bulb::heard(inst, light), level),
            None => match json::lookup(inst.scratch, "level"@) {
                Some(JView::Num(NumberView::PosInt(known))) => says_level(
                    inst,
                    bulb::heard(inst, light),
                    known,
                ),
                _ => says_level(inst, bulb::heard(inst, light), 100),
            },
        },
{
    level_is_said(inst, light, bulb::light_level(inst, light)->0);
}

/// A light that only says its brightness is reported at it, unless it is known to be out.
pub proof fn a_dimmed_light_is_at_its_brightness(inst: InstanceView, light: JView, level: u64)
    requires
        is_set(inst, "Light id"@),
        is_named(inst, "Light id"@, light),
        !(light.get2("on"@, "on"@) matches Some(JView::Bool(_))),
        number::brightness(light.get2("dimming"@, "brightness"@)) == Some(level),
    ensures
        says_level(
            inst,
            bulb::heard(inst, light),
            if json::lookup(inst.scratch, "on"@) == Some(JView::Bool(false)) {
                0
            } else {
                level
            },
        ),
{
    level_is_said(inst, light, bulb::light_level(inst, light)->0);
}

/// A light that says a colour temperature is reported at the kelvin its mireds stand for, once, and
/// one that says none is not.
pub proof fn a_colour_temperature_is_in_kelvin(inst: InstanceView, light: JView, k: int)
    requires
        is_set(inst, "Light id"@),
        is_named(inst, "Light id"@, light),
        0 <= k < bulb::heard(inst, light).1.len(),
        bulb::heard(inst, light).1[k] matches HostCallView::Notify { name, .. } && name
            == "cct_changed"@,
    ensures
        ({
            let call = bulb::heard(inst, light).1[k];
            match (light.get2("color_temperature"@, "mirek"@), call) {
                (
                    Some(JView::Num(NumberView::PosInt(mirek))),
                    HostCallView::Notify { proxy, args, .. },
                ) => mirek > 0 && proxy == 1 && args.len() == 1 && args[0].0 == "kelvin"@ && (
                args[0].1 matches JView::Num(NumberView::PosInt(kelvin)) && kelvin * mirek
                    <= 1_000_000 < (kelvin + 1) * mirek),
                _ => false,
            }
        }),
{
    broadcast use json::one_is_one;

    names_differ();
    let mirek = json::as_u64(light.get2("color_temperature"@, "mirek"@));
    if mirek is Some && mirek->0 > 0 {
        let m = mirek->0 as int;
        let kelvin = 1_000_000int / m;
        assert(kelvin * m <= 1_000_000 < (kelvin + 1) * m) by (nonlinear_arith)
            requires
                m > 0,
                kelvin == 1_000_000int / m,
        ;
    }
}

proof fn names_differ()
    ensures
        "level_changed"@[0] == 'l',
        "cct_changed"@[1] == 'c' && "cct_changed"@[0] == 'c',
        "color_changed"@[1] == 'o' && "color_changed"@[0] == 'c',
        "hue"@[0] == 'h',
        "sat"@[0] == 's',
{
    reveal_strlit("level_changed");
    reveal_strlit("cct_changed");
    reveal_strlit("color_changed");
    reveal_strlit("hue");
    reveal_strlit("sat");
}

/// A light is reported with its level where it says one, then its colour temperature where it says
/// one, then its colour where it says one, and with nothing else.
pub proof fn a_light_is_reported_with_what_it_says(inst: InstanceView, light: JView)
    requires
        is_set(inst, "Light id"@),
        is_named(inst, "Light id"@, light),
    ensures
        ({
            let calls = bulb::heard(inst, light).1;
            let lit: int = if light.get2("on"@, "on"@) matches Some(JView::Bool(_)) {
                1
            } else if json::lookup(inst.scratch, "on"@) matches Some(JView::Bool(_)) {
                1
            } else if number::brightness(light.get2("dimming"@, "brightness"@)) is Some {
                1
            } else {
                0
            };
            let warm: int = if light.get2("color_temperature"@, "mirek"@) matches Some(
                JView::Num(NumberView::PosInt(mirek)),
            ) && mirek > 0 {
                1
            } else {
                0
            };
            let point = (light.get3("color"@, "xy"@, "x"@), light.get3("color"@, "xy"@, "y"@));
            &&& lit == 1 ==> calls.len() > 0 && (calls[0] matches HostCallView::Notify { name, .. }
                && name == "level_changed"@)
            &&& warm == 1 ==> calls.len() > lit && (calls[lit] matches HostCallView::Notify {
                name,
                ..
            } && name == "cct_changed"@)
            &&& lit + warm <= calls.len() <= lit + warm + 1
            &&& calls.len() == lit + warm + 1 ==> match (calls[lit + warm], point.0, point.1) {
                (
                    HostCallView::Notify { proxy, name, args },
                    Some(JView::Num(x)),
                    Some(JView::Num(y)),
                ) => proxy == 1 && name == "color_changed"@ && number::floated(x) is Some
                    && number::floated(y) is Some && json::lookup(args, "hue"@) == Some(
                    JView::Num(number::floated(x)->0),
                ) && json::lookup(args, "sat"@) == Some(JView::Num(number::floated(y)->0)),
                _ => false,
            }
            &&& calls.len() == lit + warm ==> !(point.0 matches Some(JView::Num(x))
                && number::floated(x) is Some) || !(point.1 matches Some(JView::Num(y))
                && number::floated(y) is Some)
        }),
{
    broadcast use json::lookup_put;

    names_differ();
}

/// Every measurement of a sensor is reported reachable on its own binding, in order, and nothing
/// else is done.
pub proof fn a_sensor_starts_by_its_measurements(inst: InstanceView, k: int)
    requires
        !is_set(inst, "Light id"@),
        is_set(inst, "Motion id"@),
    ensures
        ({
            let calls = bulb::bound(inst);
            let warmth: int = if is_set(inst, "Temperature id"@) {
                1
            } else {
                0
            };
            let light: int = if is_set(inst, "Light level id"@) {
                1
            } else {
                0
            };
            &&& calls.len() == 1 + warmth + light
            &&& calls[0] == reachable(1)
            &&& warmth == 1 ==> calls[1] == reachable(2)
            &&& light == 1 ==> calls[1 + warmth] == reachable(3)
        }),
{
    broadcast use json::one_is_one;

}

/// A report that a binding can be reached.
pub open spec fn reachable(binding: u32) -> HostCallView {
    HostCallView::Notify {
        proxy: binding,
        name: "online_changed"@,
        args: seq![("online"@, JView::Bool(true))],
    }
}

/// The property that gives a control a binding.
pub open spec fn control_property(binding: u32) -> Seq<char> {
    if binding == 1 {
        "Button 1 id"@
    } else if binding == 2 {
        "Button 2 id"@
    } else if binding == 3 {
        "Button 3 id"@
    } else if binding == 4 {
        "Button 4 id"@
    } else {
        "Rotary id"@
    }
}

proof fn binding_pushed(list: Seq<u32>, x: u32, y: u32)
    ensures
        list.push(x).contains(y) <==> list.contains(y) || x == y,
{
    let more = list.push(x);
    assert(more[list.len() as int] == x);
    if list.contains(y) {
        let k = list.index_of(y);
        assert(more[k] == y);
    }
    if more.contains(y) {
        let k = more.index_of(y);
        if k < list.len() {
            assert(list[k] == y);
        }
    }
}

/// Every button and the dial of a control is reported reachable on its own binding, each once, and
/// nothing else is done.
pub proof fn a_control_starts_by_its_buttons(inst: InstanceView, binding: u32)
    requires
        !is_set(inst, "Light id"@),
        !is_set(inst, "Motion id"@),
        is_set(inst, "Button 1 id"@) || is_set(inst, "Rotary id"@),
    ensures
        bulb::bound(inst).contains(reachable(binding)) <==> 1 <= binding <= 5 && is_set(
            inst,
            control_property(binding),
        ),
        bulb::bound(inst).no_duplicates(),
        forall|k: int|
            0 <= k < bulb::bound(inst).len() ==> (#[trigger] bulb::bound(inst)[k] matches
                HostCallView::Notify { proxy, .. } && bulb::bound(inst)[k] == reachable(proxy)),
{
    broadcast use json::one_is_one;

    let list = role::bindings_of(Role::Control, inst);
    let calls = bulb::bound(inst);
    assert(calls =~= list.map_values(|b: u32| bulb::online(b)));
    assert forall|k: int| 0 <= k < list.len() implies calls[k] == reachable(list[k]) by {}
    let a = role::bound(seq![], inst, "Button 1 id"@, 1);
    let b = role::bound(a, inst, "Button 2 id"@, 2);
    let c = role::bound(b, inst, "Button 3 id"@, 3);
    let d = role::bound(c, inst, "Button 4 id"@, 4);
    binding_pushed(seq![], 1u32, binding);
    binding_pushed(a, 2u32, binding);
    binding_pushed(b, 3u32, binding);
    binding_pushed(c, 4u32, binding);
    binding_pushed(d, 5u32, binding);
    assert(list.contains(binding) <==> 1 <= binding <= 5 && is_set(inst, control_property(binding)));
    if list.contains(binding) {
        let k = list.index_of(binding);
        assert(calls[k] == reachable(binding));
    }
    if calls.contains(reachable(binding)) {
        let k = calls.index_of(reachable(binding));
        assert(calls[k] == reachable(list[k]));
        assert(list[k] == binding);
    }
    assert(forall|i: int, j: int| 0 <= i < j < list.len() ==> list[i] < list[j]);
    assert forall|i: int, j: int| 0 <= i < j < calls.len() implies calls[i] != calls[j] by {
        assert(calls[i] == reachable(list[i]) && calls[j] == reachable(list[j]));
    }
}

/// A bulb starts by being reported reachable, and with nothing else.
pub proof fn a_bulb_starts_quietly(inst: InstanceView)
    requires
        is_set(inst, "Light id"@),
    ensures
        bulb::bound(inst) == seq![reachable(1)],
{
    broadcast use json::one_is_one;

    assert(bulb::bound(inst) =~= seq![reachable(1)]);
}

/// A bridge with an address and a key is reported reachable, opens its event stream with one
/// request, and then reads the states of lights, motions, temperatures, light levels and batteries,
/// in this order, each with the key.
pub proof fn a_bridge_starts_by_asking(inst: InstanceView, bridge: Seq<char>, key: Seq<char>)
    requires
        !is_set(inst, "Light id"@),
        !is_set(inst, "Motion id"@),
        !is_set(inst, "Button 1 id"@),
        !is_set(inst, "Rotary id"@),
        json::lookup(inst.properties, "Bridge address"@) == Some(JView::Str(bridge)),
        json::lookup(inst.properties, "Application key"@) == Some(JView::Str(key)),
    ensures
        bulb::bound(inst) == seq![
            reachable(1),
            HostCallView::Tx {
                control: 0,
                data: vstd::utf8::encode_utf8(
                    "GET /eventstream/clip/v2 HTTP/1.1\r\nHost: "@ + bridge
                        + "\r\nAccept: text/event-stream\r\nCache-Control: no-cache\r\nhue-application-key: "@
                        + key + "\r\n\r\n"@,
                ),
            },
            read(bridge, key, "light"@),
            read(bridge, key, "motion"@),
            read(bridge, key, "temperature"@),
            read(bridge, key, "light_level"@),
            read(bridge, key, "device_power"@),
        ],
{
    broadcast use json::one_is_one;

    assert(seq![("hue-application-key"@, key)] =~= Seq::<(Seq<char>, Seq<char>)>::empty().push(
        ("hue-application-key"@, key),
    ));
    let calls = bulb::bound(inst);
    assert(calls =~= seq![
        reachable(1),
        calls[1],
        read(bridge, key, "light"@),
        read(bridge, key, "motion"@),
        read(bridge, key, "temperature"@),
        read(bridge, key, "light_level"@),
        read(bridge, key, "device_power"@),
    ]);
}

/// A request for a collection of the bridge.
pub open spec fn read(bridge: Seq<char>, key: Seq<char>, collection: Seq<char>) -> HostCallView {
    HostCallView::Http(
        HttpRequestView {
            method: "GET"@,
            url: "https://"@ + bridge + "/clip/v2/resource/"@ + collection,
            headers: seq![("hue-application-key"@, key)],
            body: None,
        },
    )
}

} // verus!
