//! Laws of what is offered: devices, rules and scenes.

use vstd::prelude::*;
use crate::behaviour;
use crate::borrowed;
use crate::host::{CandidateView, ImportedActionView, ImportedRuleView};
use crate::imports;
use crate::json;
use crate::json::{JView, Members};
use crate::offer;
use crate::text;

verus! {

/// A driver is never short of bindings for a remote of up to four buttons: the number of buttons is
/// rounded up, not down.
pub proof fn a_driver_rounds_up(buttons: nat, rotary: bool)
    requires
        1 <= buttons <= 4,
    ensures
        offer::driver_of(buttons, rotary) matches Some((_, slots)) && slots >= buttons,
{
}

/// A device has a driver for its buttons if and only if it has any.
pub proof fn only_buttons_make_a_control(buttons: nat, rotary: bool)
    ensures
        offer::driver_of(buttons, rotary) is Some <==> buttons > 0,
{
}

/// A bulb is not offered as a device: it has neither buttons nor a motion sensor.
pub proof fn a_bulb_is_not_offered(device: JView, address: Seq<char>, key: Seq<char>)
    requires
        offer::buttons_of(device).len() == 0,
        json::as_str(device.get("motion"@)) is None,
    ensures
        offer::candidate_of(device, address, key) is None,
{
}

/// What is offered of the first `n` devices, in the order of the devices.
pub open spec fn unsorted(catalog: Seq<JView>, n: nat, address: Seq<char>, key: Seq<char>) -> Seq<
    CandidateView,
>
    decreases n,
{
    if n == 0 {
        seq![]
    } else {
        let rest = unsorted(catalog, (n - 1) as nat, address, key);
        match offer::candidate_of(catalog[n - 1], address, key) {
            Some(c) => rest.push(c),
            None => rest,
        }
    }
}

/// Whether candidates come by label.
pub open spec fn by_label(list: Seq<CandidateView>) -> bool {
    forall|i: int, j: int|
        0 <= i < j < list.len() ==> !text::less(
            (#[trigger] list[j]).label,
            (#[trigger] list[i]).label,
        )
}

/// Those of some candidates that have a label.
pub open spec fn labelled(list: Seq<CandidateView>, label: Seq<char>) -> Seq<CandidateView> {
    list.filter(|c: CandidateView| c.label == label)
}

pub(crate) proof fn slot_bounds(list: Seq<CandidateView>, label: Seq<char>, i: nat)
    requires
        i <= list.len(),
    ensures
        i <= offer::label_slot(list, label, i) <= list.len(),
        forall|k: int|
            i <= k < offer::label_slot(list, label, i) ==> !text::less(
                label,
                (#[trigger] list[k]).label,
            ),
        offer::label_slot(list, label, i) < list.len() ==> text::less(
            label,
            list[offer::label_slot(list, label, i) as int].label,
        ),
    decreases list.len() - i,
{
    if i < list.len() && !text::less(label, list[i as int].label) {
        slot_bounds(list, label, i + 1);
    }
}

/// A candidate put into its place keeps a list ordered by label, and comes behind those with the
/// same label.
pub proof fn placing_keeps_labels_in_order(list: Seq<CandidateView>, c: CandidateView)
    requires
        by_label(list),
    ensures
        offer::label_slot(list, c.label, 0) <= list.len(),
        by_label(list.insert(offer::label_slot(list, c.label, 0) as int, c)),
        forall|label: Seq<char>|
            #![trigger labelled(list, label)]
            labelled(list.insert(offer::label_slot(list, c.label, 0) as int, c), label) == if c.label
                == label {
                labelled(list, label).push(c)
            } else {
                labelled(list, label)
            },
{
    let slot = offer::label_slot(list, c.label, 0) as int;
    slot_bounds(list, c.label, 0);
    let after = list.insert(slot, c);
    assert forall|k: int| slot <= k < list.len() implies text::less(c.label, (#[trigger] list[k]).label) by {
        if k > slot {
            text::less_total(c.label, list[k].label, 0);
            if c.label == list[k].label {
                assert(text::less(list[k].label, list[slot].label));
            } else if text::less(list[k].label, c.label) {
                text::less_transitive(list[k].label, c.label, list[slot].label, 0);
            }
        }
    }
    assert forall|i: int, j: int| 0 <= i < j < after.len() implies !text::less(
        (#[trigger] after[j]).label,
        (#[trigger] after[i]).label,
    ) by {
        if i == slot {
            let y = j - 1;
            assert(after[j] == list[y]);
            if text::less(list[y].label, c.label) {
                text::less_transitive(c.label, list[y].label, c.label, 0);
                text::less_irreflexive(c.label, 0);
            }
        } else if j == slot {
            assert(after[i] == list[i]);
        } else {
            let x = if i < slot {
                i
            } else {
                i - 1
            };
            let y = if j < slot {
                j
            } else {
                j - 1
            };
            assert(after[i] == list[x] && after[j] == list[y]);
        }
    }
    assert forall|label: Seq<char>|
        #![trigger labelled(list, label)]
        labelled(after, label) == if c.label == label {
            labelled(list, label).push(c)
        } else {
            labelled(list, label)
        } by {
        let p = |x: CandidateView| x.label == label;
        if p(c) {
            assert forall|k: int| slot <= k < list.len() implies !p(#[trigger] list[k]) by {
                text::less_irreflexive(label, 0);
            }
        }
        crate::laws::catalog::filter_insert(list, slot, c, p);
    }
}

proof fn sorted_upto(catalog: Seq<JView>, n: nat, address: Seq<char>, key: Seq<char>)
    requires
        n <= catalog.len(),
    ensures
        by_label(offer::offers(catalog, n, address, key)),
        offer::offers(catalog, n, address, key).to_multiset() == unsorted(
            catalog,
            n,
            address,
            key,
        ).to_multiset(),
        forall|label: Seq<char>|
            #[trigger] labelled(offer::offers(catalog, n, address, key), label) == labelled(
                unsorted(catalog, n, address, key),
                label,
            ),
    decreases n,
{
    broadcast use {vstd::seq_lib::to_multiset_build, vstd::seq_lib::to_multiset_insert};

    if n > 0 {
        sorted_upto(catalog, (n - 1) as nat, address, key);
        let rest = offer::offers(catalog, (n - 1) as nat, address, key);
        let plain = unsorted(catalog, (n - 1) as nat, address, key);
        match offer::candidate_of(catalog[n - 1], address, key) {
            Some(c) => {
                placing_keeps_labels_in_order(rest, c);
                assert forall|label: Seq<char>|
                    #[trigger] labelled(
                        offer::offers(catalog, n, address, key),
                        label,
                    ) == labelled(unsorted(catalog, n, address, key), label) by {
                    let p = |x: CandidateView| x.label == label;
                    crate::laws::catalog::filter_insert(plain, plain.len() as int, c, p);
                    assert(plain.insert(plain.len() as int, c) =~= plain.push(c));
                    assert(labelled(rest, label) == labelled(plain, label));
                }
            },
            None => {},
        }
    }
}

/// What is offered comes by label, loses no candidate and adds none, and keeps the order of the
/// devices among those with the same label.
pub proof fn offers_come_by_label(
    catalog: Seq<JView>,
    address: Seq<char>,
    key: Seq<char>,
    label: Seq<char>,
)
    ensures
        by_label(offer::offers(catalog, catalog.len(), address, key)),
        offer::offers(catalog, catalog.len(), address, key).to_multiset() == unsorted(
            catalog,
            catalog.len(),
            address,
            key,
        ).to_multiset(),
        labelled(offer::offers(catalog, catalog.len(), address, key), label) == labelled(
            unsorted(catalog, catalog.len(), address, key),
            label,
        ),
{
    sorted_upto(catalog, catalog.len(), address, key);
}

/// The properties of the first four buttons, as they are named elsewhere.
pub proof fn button_property_names()
    ensures
        offer::button_property(1) == "Button 1 id"@,
        offer::button_property(2) == "Button 2 id"@,
        offer::button_property(3) == "Button 3 id"@,
        offer::button_property(4) == "Button 4 id"@,
{
    reveal_strlit("Button ");
    reveal_strlit(" id");
    reveal_strlit("Button 1 id");
    reveal_strlit("Button 2 id");
    reveal_strlit("Button 3 id");
    reveal_strlit("Button 4 id");
    assert(offer::button_property(1) =~= "Button 1 id"@);
    assert(offer::button_property(2) =~= "Button 2 id"@);
    assert(offer::button_property(3) =~= "Button 3 id"@);
    assert(offer::button_property(4) =~= "Button 4 id"@);
}

proof fn button_properties_differ(a: nat, b: nat)
    requires
        a != b,
    ensures
        offer::button_property(a) != offer::button_property(b),
{
    let front = "Button "@;
    let back = " id"@;
    text::decimal_injective(a, b);
    if offer::button_property(a) == offer::button_property(b) {
        let x = offer::button_property(a);
        assert(x.subrange(front.len() as int, x.len() - back.len()) =~= text::decimal(a));
        assert(offer::button_property(b).len() == x.len());
        assert(x.subrange(front.len() as int, x.len() - back.len()) =~= text::decimal(b));
    }
}

proof fn bound_upto(props: Members, buttons: Seq<Seq<char>>, n: nat, i: nat)
    requires
        1 <= i <= n <= buttons.len(),
    ensures
        json::lookup(offer::put_buttons(props, buttons, n), offer::button_property(i)) == Some(
            JView::Str(buttons[i - 1]),
        ),
    decreases n,
{
    json::lookup_put(
        offer::put_buttons(props, buttons, (n - 1) as nat),
        offer::button_property(n),
        JView::Str(buttons[n - 1]),
        offer::button_property(i),
    );
    if i < n {
        button_properties_differ(n, i);
        bound_upto(props, buttons, (n - 1) as nat, i);
    }
}

proof fn kept_upto(props: Members, buttons: Seq<Seq<char>>, n: nat, other: Seq<char>)
    requires
        forall|i: nat| other != #[trigger] offer::button_property(i),
    ensures
        json::lookup(offer::put_buttons(props, buttons, n), other) == json::lookup(props, other),
    decreases n,
{
    if n > 0 {
        kept_upto(props, buttons, (n - 1) as nat, other);
        json::lookup_put(
            offer::put_buttons(props, buttons, (n - 1) as nat),
            offer::button_property(n),
            JView::Str(buttons[n - 1]),
            other,
        );
    }
}

/// A remote is offered with its buttons bound in their order: the property of the `i`-th holds the
/// id of the `i`-th, for as many as its driver binds.
pub proof fn buttons_are_bound_in_order(
    device: JView,
    address: Seq<char>,
    key: Seq<char>,
    i: nat,
)
    requires
        1 <= i <= offer::buttons_of(device).len(),
        offer::driver_of(
            offer::buttons_of(device).len(),
            json::as_str(device.get("rotary"@)) is Some,
        ) matches Some((_, slots)) && i <= slots,
    ensures
        offer::candidate_of(device, address, key) matches Some(c) && c.kind == "keypad"@
            && json::lookup(c.properties, offer::button_property(i)) == Some(
            JView::Str(offer::buttons_of(device)[i - 1]),
        ),
{
    let buttons = offer::buttons_of(device);
    let rotary = json::as_str(device.get("rotary"@));
    let (_, slots) = offer::driver_of(buttons.len(), rotary is Some)->Some_0;
    let bound = if buttons.len() < slots {
        buttons.len()
    } else {
        slots
    };
    let base = offer::base_properties(device, address, key);
    bound_upto(base, buttons, bound, i);
    reveal_strlit("Button ");
    reveal_strlit("Rotary id");
    assert(offer::button_property(i)[0] == 'B');
    assert("Rotary id"@[0] == 'R');
    match rotary {
        Some(id) => {
            json::lookup_put(
                offer::put_buttons(base, buttons, bound),
                "Rotary id"@,
                JView::Str(id),
                offer::button_property(i),
            );
        },
        None => {},
    }
}

proof fn base_lookup(device: JView, address: Seq<char>, key: Seq<char>)
    ensures
        json::lookup(offer::base_properties(device, address, key), "Bridge address"@) == Some(
            JView::Str(address),
        ),
        json::lookup(offer::base_properties(device, address, key), "Application key"@) == Some(
            JView::Str(key),
        ),
{
    reveal_strlit("Bridge address");
    reveal_strlit("Application key");
    reveal_strlit("Power id");
    assert("Bridge address"@[0] == 'B' && "Application key"@[0] == 'A' && "Power id"@[0] == 'P');
    let a = json::one("Bridge address"@, JView::Str(address));
    let b = json::put(a, "Application key"@, JView::Str(key));
    json::lookup_put(seq![], "Bridge address"@, JView::Str(address), "Bridge address"@);
    json::lookup_put(a, "Application key"@, JView::Str(key), "Bridge address"@);
    json::lookup_put(a, "Application key"@, JView::Str(key), "Application key"@);
    match json::as_str(device.get("power"@)) {
        Some(power) => {
            json::lookup_put(b, "Power id"@, JView::Str(power), "Bridge address"@);
            json::lookup_put(b, "Power id"@, JView::Str(power), "Application key"@);
        },
        None => {},
    }
}

proof fn put_text_keeps(props: Members, key: Seq<char>, value: Option<Seq<char>>, other: Seq<char>)
    requires
        key != other,
    ensures
        json::lookup(offer::put_text(props, key, value), other) == json::lookup(props, other),
{
    match value {
        Some(v) => {
            json::lookup_put(props, key, JView::Str(v), other);
        },
        None => {},
    }
}

/// Everything that is offered carries the address of its bridge and the key it was paired with,
/// and is a keypad or a sensor.
pub proof fn offers_carry_their_connection(device: JView, address: Seq<char>, key: Seq<char>)
    requires
        offer::candidate_of(device, address, key) is Some,
    ensures
        offer::candidate_of(device, address, key) matches Some(c) && {
            &&& json::lookup(c.properties, "Bridge address"@) == Some(JView::Str(address))
            &&& json::lookup(c.properties, "Application key"@) == Some(JView::Str(key))
            &&& c.kind == "keypad"@ || c.kind == "sensor"@
        },
{
    base_lookup(device, address, key);
    let base = offer::base_properties(device, address, key);
    let rotary = json::as_str(device.get("rotary"@));
    reveal_strlit("Bridge address");
    reveal_strlit("Application key");
    reveal_strlit("Rotary id");
    reveal_strlit("Button ");
    reveal_strlit("Motion id");
    reveal_strlit("Temperature id");
    reveal_strlit("Light level id");
    let (x, y) = ("Bridge address"@, "Application key"@);
    assert(x[0] == 'B' && x[1] == 'r' && y[0] == 'A');
    match offer::driver_of(offer::buttons_of(device).len(), rotary is Some) {
        Some((_, slots)) => {
            let buttons = offer::buttons_of(device);
            let bound = if buttons.len() < slots {
                buttons.len()
            } else {
                slots
            };
            assert forall|i: nat| x != #[trigger] offer::button_property(i)
                && y != offer::button_property(i) by {
                assert(offer::button_property(i)[0] == 'B');
                assert(offer::button_property(i)[1] == 'u');
            }
            kept_upto(base, buttons, bound, x);
            kept_upto(base, buttons, bound, y);
            assert("Rotary id"@[0] == 'R');
            put_text_keeps(offer::put_buttons(base, buttons, bound), "Rotary id"@, rotary, x);
            put_text_keeps(offer::put_buttons(base, buttons, bound), "Rotary id"@, rotary, y);
        },
        None => {
            let motion = json::as_str(device.get("motion"@));
            assert("Motion id"@[0] == 'M' && "Temperature id"@[0] == 'T' && "Light level id"@[0]
                == 'L');
            let a = offer::put_text(base, "Motion id"@, motion);
            let t = json::as_str(device.get("temperature"@));
            let b = offer::put_text(a, "Temperature id"@, t);
            let l = json::as_str(device.get("light_level"@));
            put_text_keeps(base, "Motion id"@, motion, x);
            put_text_keeps(base, "Motion id"@, motion, y);
            put_text_keeps(a, "Temperature id"@, t, x);
            put_text_keeps(a, "Temperature id"@, t, y);
            put_text_keeps(b, "Light level id"@, l, x);
            put_text_keeps(b, "Light level id"@, l, y);
        },
    }
}

proof fn found_in_range(offered: Seq<CandidateView>, id: Seq<char>, i: nat)
    ensures
        imports::offered_at(offered, id, i) matches Some(index) ==> index < offered.len()
            && imports::is_offered_as(offered[index as int], id),
    decreases offered.len() - i,
{
    if i < offered.len() && !imports::is_offered_as(offered[i as int], id) {
        found_in_range(offered, id, i + 1);
    }
}

/// What holds of every rule that is proposed for a device: it is triggered by the binding of that
/// device among those offered, and sends one command to the room that the device drives.
pub open spec fn is_sound_rule(
    rule: ImportedRuleView,
    device: JView,
    offered: Seq<CandidateView>,
) -> bool {
    &&& rule.when_device < offered.len()
    &&& rule.when_proxy == 1
    &&& imports::first_id(device) matches Some(id) && imports::is_offered_as(
        offered[rule.when_device as int],
        id,
    )
    &&& behaviour::controls_of(device).len() > 0
    &&& rule.actions.len() == 1
    &&& rule.actions[0] matches ImportedActionView::Room { room, .. } && room
        == behaviour::controls_of(device)[0]
}

proof fn device_rules_are_sound(device: JView, offered: Seq<CandidateView>)
    requires
        offered.len() <= usize::MAX,
    ensures
        forall|k: int|
            0 <= k < imports::device_rules(device, offered).len() ==> is_sound_rule(
                #[trigger] imports::device_rules(device, offered)[k],
                device,
                offered,
            ),
{
    match imports::first_id(device) {
        Some(id) => {
            found_in_range(offered, id, 0);
        },
        None => {},
    }
}

/// Every rule that is proposed belongs to a device of the catalog that was offered and that the
/// bridge has driving a room; a device that drives nothing is proposed none.
pub proof fn rules_are_sound(catalog: Seq<JView>, n: nat, offered: Seq<CandidateView>, k: int)
    requires
        n <= catalog.len(),
        offered.len() <= usize::MAX,
        0 <= k < imports::proposed(catalog, n, offered).len(),
    ensures
        exists|i: int|
            0 <= i < n && is_sound_rule(
                imports::proposed(catalog, n, offered)[k],
                #[trigger] catalog[i],
                offered,
            ),
    decreases n,
{
    let rest = imports::proposed(catalog, (n - 1) as nat, offered);
    let last = imports::device_rules(catalog[n - 1], offered);
    let rule = imports::proposed(catalog, n, offered)[k];
    if k < rest.len() {
        rules_are_sound(catalog, (n - 1) as nat, offered, k);
        let i = choose|i: int|
            0 <= i < n - 1 && is_sound_rule(rest[k], #[trigger] catalog[i], offered);
        assert(is_sound_rule(rule, catalog[i], offered));
    } else {
        device_rules_are_sound(catalog[n - 1], offered);
        assert(rule == last[k - rest.len()]);
        assert(is_sound_rule(rule, catalog[n - 1], offered));
    }
}

/// A switch that the bridge drives nothing with is proposed no rules.
pub proof fn a_switch_wired_to_nothing_has_no_rules(device: JView, offered: Seq<CandidateView>)
    requires
        behaviour::controls_of(device).len() == 0,
    ensures
        imports::device_rules(device, offered).len() == 0,
{
}

/// The dial and the scene buttons of a remote with a dial are left alone: it is proposed no rules.
pub proof fn a_dial_is_left_alone(device: JView, offered: Seq<CandidateView>)
    requires
        device.get("rotary"@) is Some,
    ensures
        imports::device_rules(device, offered).len() == 0,
{
}

proof fn light_in_range(offered: Seq<CandidateView>, rid: Seq<char>, i: nat)
    ensures
        imports::light_at(offered, rid, i) matches Some(index) ==> index < offered.len(),
    decreases offered.len() - i,
{
    if i < offered.len() {
        light_in_range(offered, rid, i + 1);
    }
}

/// What holds of every step of a scene that is proposed: it goes to one of the devices offered,
/// and sets a level of at most 100 or a colour temperature.
pub open spec fn is_sound_step(step: ImportedActionView, offered: Seq<CandidateView>) -> bool {
    step matches ImportedActionView::Device { device, proxy, command, args } && {
        &&& device < offered.len()
        &&& proxy == 1
        &&& (command == "set_level"@ && exists|level: u64|
            level <= 100 && args == #[trigger] json::one("level"@, json::int_value(level))) || (
        command == "set_cct"@ && exists|kelvin: u64|
            args == #[trigger] json::one("kelvin"@, json::int_value(kelvin)))
    }
}

/// Whether rooms say something and come once each.
pub open spec fn are_distinct_rooms(rooms: Seq<Seq<char>>) -> bool {
    &&& rooms.no_duplicates()
    &&& forall|i: int| 0 <= i < rooms.len() ==> (#[trigger] rooms[i]).len() > 0
}

proof fn state_level_bound(state: JView)
    ensures
        borrowed::state_level(state) <= 100,
{
}

proof fn gathered_is_sound(actions: Seq<JView>, n: nat, offered: Seq<CandidateView>)
    requires
        n <= actions.len(),
        offered.len() <= usize::MAX,
    ensures
        imports::gathered(actions, n, offered) matches Some((rooms, steps)) ==> {
            &&& are_distinct_rooms(rooms)
            &&& forall|k: int|
                0 <= k < steps.len() ==> is_sound_step(#[trigger] steps[k], offered)
        },
    decreases n,
{
    if n > 0 {
        gathered_is_sound(actions, (n - 1) as nat, offered);
        let action = actions[n - 1];
        match (
            imports::gathered(actions, (n - 1) as nat, offered),
            json::as_str(action.get2("target"@, "rid"@)),
            action.get("action"@),
        ) {
            (Some((rooms, steps)), Some(rid), Some(state)) => {
                light_in_range(offered, rid, 0);
                match imports::light_at(offered, rid, 0) {
                    Some(i) => {
                        state_level_bound(state);
                        let level = borrowed::state_level(state);
                        let more = imports::state_steps(i, state);
                        assert(more[0] == imports::to_device(
                            i,
                            "set_level"@,
                            "level"@,
                            level,
                        ));
                        assert(is_sound_step(more[0], offered)) by {
                            assert(json::one("level"@, json::int_value(level)) == json::one(
                                "level"@,
                                json::int_value(level),
                            ));
                        }
                        match borrowed::state_kelvin(state) {
                            Some(kelvin) => {
                                assert(more[1] == imports::to_device(
                                    i,
                                    "set_cct"@,
                                    "kelvin"@,
                                    kelvin,
                                ));
                                assert(is_sound_step(more[1], offered));
                            },
                            None => {},
                        }
                    },
                    None => {},
                }
            },
            _ => {},
        }
    }
}

/// A scene that is proposed has a step, its steps go to devices that were offered, and it names
/// each room that it touches once.
pub proof fn scenes_are_sound(scene: JView, offered: Seq<CandidateView>)
    requires
        offered.len() <= usize::MAX,
    ensures
        imports::imported(scene, offered) matches Some(s) ==> {
            &&& s.steps.len() > 0
            &&& are_distinct_rooms(s.rooms)
            &&& forall|k: int|
                0 <= k < s.steps.len() ==> is_sound_step(#[trigger] s.steps[k], offered)
        },
{
    match json::as_array(scene.get("actions"@)) {
        Some(actions) => {
            gathered_is_sound(actions, actions.len(), offered);
        },
        None => {},
    }
}

proof fn nothing_gathered(actions: Seq<JView>, n: nat, offered: Seq<CandidateView>)
    requires
        n <= actions.len(),
        forall|k: int|
            0 <= k < n ==> match json::as_str((#[trigger] actions[k]).get2("target"@, "rid"@)) {
                Some(rid) => imports::light_at(offered, rid, 0) is None,
                None => true,
            },
    ensures
        imports::gathered(actions, n, offered) == Some(
            (Seq::<Seq<char>>::empty(), Seq::<ImportedActionView>::empty()),
        ),
    decreases n,
{
    if n > 0 {
        nothing_gathered(actions, (n - 1) as nat, offered);
    }
}

/// A scene that touches nothing that was offered is not proposed at all.
pub proof fn a_scene_without_adopted_lights_is_dropped(
    scene: JView,
    offered: Seq<CandidateView>,
)
    requires
        forall|k: int|
            0 <= k < json::list_or_empty(json::as_array(scene.get("actions"@))).len()
                ==> match json::as_str(
                (#[trigger] json::list_or_empty(json::as_array(scene.get("actions"@)))[k]).get2(
                    "target"@,
                    "rid"@,
                ),
            ) {
                Some(rid) => imports::light_at(offered, rid, 0) is None,
                None => true,
            },
    ensures
        imports::imported(scene, offered) is None,
{
    let actions = json::list_or_empty(json::as_array(scene.get("actions"@)));
    nothing_gathered(actions, actions.len(), offered);
}

} // verus!
