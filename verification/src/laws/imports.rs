//! Laws of proposals: which rules each remote comes with, and what each scene comes to.

use vstd::prelude::*;
use crate::host::{CandidateView, ImportedActionView, ImportedRuleView};
use crate::imports;
use crate::json;
use crate::json::{JView, NumberView};
use crate::laws::borrowed;

verus! {

/// Whether a candidate carries an id, as its first button's or its motion sensor's.
pub open spec fn carries(c: CandidateView, id: Seq<char>) -> bool {
    json::lookup(c.properties, "Button 1 id"@) == Some(JView::Str(id)) || json::lookup(
        c.properties,
        "Motion id"@,
    ) == Some(JView::Str(id))
}

/// Whether the candidate at `i` is the first that carries an id.
pub open spec fn is_first(offered: Seq<CandidateView>, id: Seq<char>, i: nat) -> bool {
    &&& i < offered.len() <= usize::MAX
    &&& carries(offered[i as int], id)
    &&& forall|j: int| 0 <= j < i ==> !carries(#[trigger] offered[j], id)
}

/// Whether a room is the first that a device drives.
pub open spec fn drives(device: JView, room: Seq<char>) -> bool {
    device.get("controls"@) matches Some(JView::Arr(rooms)) && exists|j: int|
        0 <= j < rooms.len() && #[trigger] rooms[j] == JView::Str(room) && (forall|i: int|
            0 <= i < j ==> !(#[trigger] rooms[i] is Str))
}

/// What a device is called.
pub open spec fn called(device: JView) -> Seq<char> {
    match device.get("name"@) {
        Some(JView::Str(name)) => name,
        _ => "Hue control"@,
    }
}

/// Whether a rule has a key of a remote, in some gestures, send a command to a room.
pub open spec fn on_key(
    rule: ImportedRuleView,
    label: Seq<char>,
    device: nat,
    key: u64,
    events: Seq<Seq<char>>,
    room: Seq<char>,
    command: Seq<char>,
) -> bool {
    &&& rule.label == label
    &&& rule.when_device == device
    &&& rule.when_proxy == 1
    &&& rule.when_key == ""@
    &&& rule.when_becomes is None
    &&& rule.when_params == seq![("key"@, JView::Num(NumberView::PosInt(key)))]
    &&& rule.when_events == events
    &&& rule.actions == seq![ImportedActionView::Room { room, command, args: seq![] }]
}

proof fn first_is_found(offered: Seq<CandidateView>, id: Seq<char>, i: nat, from: nat)
    requires
        is_first(offered, id, i),
        from <= i,
    ensures
        imports::offered_at(offered, id, from) == Some(i),
    decreases i - from,
{
    if from < i {
        assert(!carries(offered[from as int], id));
        first_is_found(offered, id, i, from + 1);
    }
}

proof fn none_is_found(offered: Seq<CandidateView>, id: Seq<char>, from: nat)
    requires
        forall|j: int| 0 <= j < offered.len() ==> !carries(#[trigger] offered[j], id),
    ensures
        imports::offered_at(offered, id, from) is None,
    decreases offered.len() - from,
{
    if from < offered.len() {
        assert(!carries(offered[from as int], id));
        none_is_found(offered, id, from + 1);
    }
}

proof fn first_string(items: Seq<JView>, s: Seq<char>, j: int, n: nat)
    requires
        0 <= j < items.len(),
        n <= items.len(),
        items[j] == JView::Str(s),
        forall|i: int| 0 <= i < j ==> !(#[trigger] items[i] is Str),
    ensures
        n <= j ==> json::strings_upto(items, n).len() == 0,
        n > j ==> json::strings_upto(items, n).len() > 0 && json::strings_upto(items, n)[0] == s,
    decreases n,
{
    if n > 0 {
        first_string(items, s, j, (n - 1) as nat);
        assert(n - 1 < j ==> !(items[n - 1] is Str));
    }
}

proof fn room_is_first(device: JView, room: Seq<char>)
    requires
        drives(device, room),
    ensures
        crate::behaviour::controls_of(device).len() > 0,
        crate::behaviour::controls_of(device)[0] == room,
{
    let rooms = device.get("controls"@)->0->Arr_0;
    let j = choose|j: int|
        0 <= j < rooms.len() && #[trigger] rooms[j] == JView::Str(room) && (forall|i: int|
            0 <= i < j ==> !(#[trigger] rooms[i] is Str));
    first_string(rooms, room, j, rooms.len());
}

/// Whether a device is a remote without a dial that was offered, and drives a room.
pub open spec fn is_remote(
    device: JView,
    offered: Seq<CandidateView>,
    buttons: Seq<JView>,
    id: Seq<char>,
    i: nat,
    room: Seq<char>,
) -> bool {
    &&& device.get("buttons"@) == Some(JView::Arr(buttons))
    &&& buttons.len() > 0
    &&& buttons[0] == JView::Str(id)
    &&& device.get("rotary"@) is None
    &&& is_first(offered, id, i)
    &&& drives(device, room)
}

/// A remote with one button switches its room on with a press and off with a hold, and does
/// nothing else.
pub proof fn one_button_is_press_and_hold(
    device: JView,
    offered: Seq<CandidateView>,
    buttons: Seq<JView>,
    id: Seq<char>,
    i: nat,
    room: Seq<char>,
)
    requires
        is_remote(device, offered, buttons, id, i, room),
        buttons.len() == 1,
    ensures
        ({
            let rules = imports::device_rules(device, offered);
            let name = called(device) + " — "@;
            &&& rules.len() == 2
            &&& on_key(
                rules[0],
                name + "press"@,
                i,
                1,
                seq!["clicked"@],
                room,
                "all_lights_on"@,
            )
            &&& on_key(rules[1], name + "hold"@, i, 1, seq!["held"@], room, "all_lights_off"@)
        }),
{
    broadcast use json::one_is_one;

    first_is_found(offered, id, i, 0);
    room_is_first(device, room);
}

/// A switch with two buttons switches its room on with the top and off with the bottom, and does
/// nothing else.
pub proof fn two_buttons_are_on_and_off(
    device: JView,
    offered: Seq<CandidateView>,
    buttons: Seq<JView>,
    id: Seq<char>,
    i: nat,
    room: Seq<char>,
)
    requires
        is_remote(device, offered, buttons, id, i, room),
        buttons.len() == 2,
    ensures
        ({
            let rules = imports::device_rules(device, offered);
            let name = called(device) + " — "@;
            &&& rules.len() == 2
            &&& on_key(rules[0], name + "top"@, i, 1, seq!["clicked"@], room, "all_lights_on"@)
            &&& on_key(
                rules[1],
                name + "bottom"@,
                i,
                2,
                seq!["clicked"@],
                room,
                "all_lights_off"@,
            )
        }),
{
    broadcast use json::one_is_one;

    first_is_found(offered, id, i, 0);
    room_is_first(device, room);
}

/// A remote with more buttons switches its room on with the first, makes it brighter and dimmer
/// with the two in the middle, also while they are held, switches it off with the fourth, and does
/// nothing else.
pub proof fn more_buttons_dim_in_the_middle(
    device: JView,
    offered: Seq<CandidateView>,
    buttons: Seq<JView>,
    id: Seq<char>,
    i: nat,
    room: Seq<char>,
)
    requires
        is_remote(device, offered, buttons, id, i, room),
        buttons.len() > 2,
    ensures
        ({
            let rules = imports::device_rules(device, offered);
            let name = called(device) + " — "@;
            let turning = seq!["clicked"@, "repeating"@];
            &&& rules.len() == 4
            &&& on_key(rules[0], name + "on"@, i, 1, seq!["clicked"@], room, "all_lights_on"@)
            &&& on_key(rules[1], name + "brighter"@, i, 2, turning, room, "dim_up"@)
            &&& on_key(rules[2], name + "dimmer"@, i, 3, turning, room, "dim_down"@)
            &&& on_key(rules[3], name + "off"@, i, 4, seq!["clicked"@], room, "all_lights_off"@)
        }),
{
    broadcast use json::one_is_one;

    first_is_found(offered, id, i, 0);
    room_is_first(device, room);
}

/// Whatever remote it is, a click of its first key switches its room on, and no click of that key
/// does anything else.
pub proof fn the_first_key_switches_on(
    device: JView,
    offered: Seq<CandidateView>,
    buttons: Seq<JView>,
    id: Seq<char>,
    i: nat,
    room: Seq<char>,
    k: int,
)
    requires
        is_remote(device, offered, buttons, id, i, room),
        0 <= k < imports::device_rules(device, offered).len(),
    ensures
        imports::device_rules(device, offered)[0].when_params == seq![
            ("key"@, JView::Num(NumberView::PosInt(1))),
        ],
        imports::device_rules(device, offered)[0].when_events.contains("clicked"@),
        ({
            let rule = imports::device_rules(device, offered)[k];
            rule.when_params == seq![("key"@, JView::Num(NumberView::PosInt(1)))]
                && rule.when_events.contains("clicked"@) ==> rule.actions == seq![
                ImportedActionView::Room { room, command: "all_lights_on"@, args: seq![] },
            ]
        }),
{
    reveal_strlit("clicked");
    reveal_strlit("held");
    assert("clicked"@.len() != "held"@.len());
    let rules = imports::device_rules(device, offered);
    let key = |n: u64| seq![("key"@, JView::Num(NumberView::PosInt(n)))];
    assert(key(1)[0] != key(2)[0] && key(1)[0] != key(3)[0] && key(1)[0] != key(4)[0]);
    assert(seq!["clicked"@][0] == "clicked"@);
    if buttons.len() == 1 {
        one_button_is_press_and_hold(device, offered, buttons, id, i, room);
        assert(seq!["held"@][0] != "clicked"@);
    } else if buttons.len() == 2 {
        two_buttons_are_on_and_off(device, offered, buttons, id, i, room);
    } else {
        more_buttons_dim_in_the_middle(device, offered, buttons, id, i, room);
    }
}

/// A motion sensor that was offered and drives a room switches that room on when it sees somebody,
/// and does nothing else.
pub proof fn movement_switches_on(
    device: JView,
    offered: Seq<CandidateView>,
    id: Seq<char>,
    i: nat,
    room: Seq<char>,
)
    requires
        device.get("buttons"@) is None || device.get("buttons"@) == Some(JView::Arr(seq![])),
        device.get("motion"@) == Some(JView::Str(id)),
        device.get("rotary"@) is None,
        is_first(offered, id, i),
        drives(device, room),
    ensures
        ({
            let rules = imports::device_rules(device, offered);
            &&& rules.len() == 1
            &&& rules[0].label == called(device) + " — "@ + "movement"@
            &&& rules[0].when_device == i
            &&& rules[0].when_proxy == 1
            &&& rules[0].when_key == "detected"@
            &&& rules[0].when_becomes == Some(JView::Bool(true))
            &&& rules[0].when_params == Seq::<(Seq<char>, JView)>::empty()
            &&& rules[0].when_events == Seq::<Seq<char>>::empty()
            &&& rules[0].actions == seq![
                ImportedActionView::Room { room, command: "all_lights_on"@, args: seq![] },
            ]
        }),
{
    first_is_found(offered, id, i, 0);
    room_is_first(device, room);
}

/// A remote that was not offered comes with no rules.
pub proof fn a_remote_not_offered_has_no_rules(
    device: JView,
    offered: Seq<CandidateView>,
    buttons: Seq<JView>,
    id: Seq<char>,
)
    requires
        device.get("buttons"@) == Some(JView::Arr(buttons)),
        buttons.len() > 0,
        buttons[0] == JView::Str(id),
        forall|j: int| 0 <= j < offered.len() ==> !carries(#[trigger] offered[j], id),
    ensures
        imports::device_rules(device, offered).len() == 0,
{
    none_is_found(offered, id, 0);
}

/// The rules that are proposed are those of each device, one device after the other in the order
/// of the catalog.
pub proof fn rules_come_device_by_device(
    catalog: Seq<JView>,
    n: nat,
    offered: Seq<CandidateView>,
)
    requires
        n <= catalog.len(),
    ensures
        imports::proposed(catalog, n, offered) == catalog.take(n as int).map_values(
            |d: JView| imports::device_rules(d, offered),
        ).flatten(),
    decreases n,
{
    let rules = |d: JView| imports::device_rules(d, offered);
    let all = catalog.take(n as int).map_values(rules);
    all.lemma_flatten_and_flatten_alt_are_equivalent();
    if n > 0 {
        rules_come_device_by_device(catalog, (n - 1) as nat, offered);
        let before = catalog.take(n - 1).map_values(rules);
        before.lemma_flatten_and_flatten_alt_are_equivalent();
        assert(all.drop_last() =~= before);
        assert(all.last() == imports::device_rules(catalog[n - 1], offered));
    }
}

/// The light that an action goes to, among those offered: the first with its id.
pub open spec fn goes_to(action: JView, offered: Seq<CandidateView>, i: nat) -> bool {
    &&& i < offered.len()
    &&& action.get2("target"@, "rid"@) is Some
    &&& action.get2("target"@, "rid"@)->0 is Str
    &&& json::lookup(offered[i as int].properties, "Light id"@) == action.get2("target"@, "rid"@)
    &&& forall|j: int|
        0 <= j < i ==> json::lookup((#[trigger] offered[j]).properties, "Light id"@)
            != action.get2("target"@, "rid"@)
}

/// Whether an action goes to a light that was offered.
pub open spec fn is_adopted(action: JView, offered: Seq<CandidateView>) -> bool {
    exists|i: nat| goes_to(action, offered, i)
}

/// Where among those offered the light of an action is.
pub open spec fn adopted_as(action: JView, offered: Seq<CandidateView>) -> nat {
    choose|i: nat| goes_to(action, offered, i)
}

proof fn light_is_found(action: JView, offered: Seq<CandidateView>, rid: Seq<char>, from: nat)
    requires
        action.get2("target"@, "rid"@) == Some(JView::Str(rid)),
        from <= offered.len(),
        forall|j: int|
            0 <= j < from ==> json::lookup((#[trigger] offered[j]).properties, "Light id"@)
                != action.get2("target"@, "rid"@),
    ensures
        match imports::light_at(offered, rid, from) {
            Some(i) => is_adopted(action, offered) && adopted_as(action, offered) == i,
            None => !is_adopted(action, offered),
        },
    decreases offered.len() - from,
{
    if from < offered.len() {
        if json::lookup(offered[from as int].properties, "Light id"@) == action.get2(
            "target"@,
            "rid"@,
        ) {
            assert(goes_to(action, offered, from));
            let i = adopted_as(action, offered);
            assert(goes_to(action, offered, i));
            if i < from {
                assert(json::lookup(offered[i as int].properties, "Light id"@) != action.get2(
                    "target"@,
                    "rid"@,
                ));
            } else if i > from {
                assert(json::lookup(offered[from as int].properties, "Light id"@) != action.get2(
                    "target"@,
                    "rid"@,
                ));
            }
        } else {
            light_is_found(action, offered, rid, from + 1);
        }
    } else if is_adopted(action, offered) {
        let i = adopted_as(action, offered);
        assert(goes_to(action, offered, i));
    }
}

/// How many steps come before those of the action at `k`: one for each adopted action, and one
/// more for each of these that is on with a colour temperature.
pub open spec fn steps_before(actions: Seq<JView>, offered: Seq<CandidateView>, k: nat) -> nat
    decreases k,
{
    if k == 0 {
        0
    } else {
        let action = actions[k - 1];
        steps_before(actions, offered, (k - 1) as nat) + if !is_adopted(action, offered) {
            0nat
        } else if borrowed::mireds(action.get("action"@)->0) is Some {
            2nat
        } else {
            1nat
        }
    }
}

/// Whether a step is a command to one of the devices offered, with one whole number.
pub open spec fn is_step(
    step: ImportedActionView,
    device: nat,
    command: Seq<char>,
    key: Seq<char>,
    value: u64,
) -> bool {
    step matches ImportedActionView::Device { device: to, proxy, command: said, args } && to
        == device && proxy == 1 && said == command && args == seq![
        (key, JView::Num(NumberView::PosInt(value))),
    ]
}

/// Whether the steps from `at` on are those of an action for a device: its level, and then its
/// colour temperature in kelvin where it is on with one.
pub open spec fn carried_out(
    action: JView,
    device: nat,
    steps: Seq<ImportedActionView>,
    at: int,
) -> bool {
    let state = action.get("action"@)->0;
    &&& exists|level: u64|
        #[trigger] borrowed::level_given(state, level) && is_step(
            steps[at],
            device,
            "set_level"@,
            "level"@,
            level,
        )
    &&& match borrowed::mireds(state) {
        Some(mirek) => exists|kelvin: u64|
            #[trigger] is_step(steps[at + 1], device, "set_cct"@, "kelvin"@, kelvin) && kelvin
                * mirek <= 1_000_000 < (kelvin + 1) * mirek,
        None => true,
    }
}

/// Whether the action at `k` of those up to `n` goes to an adopted light in a room.
pub open spec fn touches(
    actions: Seq<JView>,
    n: nat,
    offered: Seq<CandidateView>,
    k: int,
    room: Seq<char>,
) -> bool {
    &&& 0 <= k < n
    &&& room.len() > 0
    &&& is_adopted(actions[k], offered)
    &&& offered[adopted_as(actions[k], offered) as int].room == room
}

/// Whether rooms are those that the actions up to `n` touch, in the order they are first touched.
pub open spec fn are_touched(
    rooms: Seq<Seq<char>>,
    actions: Seq<JView>,
    n: nat,
    offered: Seq<CandidateView>,
) -> bool {
    &&& rooms.no_duplicates()
    &&& forall|k: int, room: Seq<char>|
        #[trigger] touches(actions, n, offered, k, room) ==> rooms.contains(room)
    &&& forall|p: int|
        0 <= p < rooms.len() ==> first_touched(#[trigger] rooms.take(p), actions, n, offered, rooms[p])
}

/// Whether a room is touched by an action before which only other given rooms are.
pub open spec fn first_touched(
    earlier: Seq<Seq<char>>,
    actions: Seq<JView>,
    n: nat,
    offered: Seq<CandidateView>,
    room: Seq<char>,
) -> bool {
    exists|k: int| #[trigger]
        touches(actions, n, offered, k, room) && (forall|j: int, r: Seq<char>|
            j < k && #[trigger] touches(actions, n, offered, j, r) ==> earlier.contains(r))
}

proof fn action_is_carried_out(action: JView, device: nat, before: Seq<ImportedActionView>)
    requires
        action.get("action"@) is Some,
        device <= usize::MAX,
    ensures
        ({
            let steps = before + imports::state_steps(device, action.get("action"@)->0);
            &&& carried_out(action, device, steps, before.len() as int)
            &&& steps.len() == before.len() + if borrowed::mireds(action.get("action"@)->0) is Some {
                2int
            } else {
                1int
            }
        }),
{
    broadcast use json::one_is_one;

    let state = action.get("action"@)->0;
    let steps = before + imports::state_steps(device, state);
    let at = before.len() as int;
    let level = crate::borrowed::state_level(state);
    assert(borrowed::level_given(state, level));
    assert(is_step(steps[at], device, "set_level"@, "level"@, level));
    match borrowed::mireds(state) {
        Some(mirek) => {
            let m = mirek as int;
            let kelvin = 1_000_000int / m;
            assert(kelvin * m <= 1_000_000 < (kelvin + 1) * m) by (nonlinear_arith)
                requires
                    m > 0,
                    kelvin == 1_000_000int / m,
            ;
            assert(is_step(steps[at + 1], device, "set_cct"@, "kelvin"@, kelvin as u64));
        },
        None => {},
    }
}

proof fn steps_come_in_order(actions: Seq<JView>, offered: Seq<CandidateView>, k: nat, n: nat)
    requires
        k <= n,
    ensures
        steps_before(actions, offered, k) <= steps_before(actions, offered, n),
    decreases n,
{
    if k < n {
        steps_come_in_order(actions, offered, k, (n - 1) as nat);
    }
}

proof fn action_is_looked_up(action: JView, offered: Seq<CandidateView>)
    ensures
        match json::as_str(action.get2("target"@, "rid"@)) {
            Some(rid) => match imports::light_at(offered, rid, 0) {
                Some(i) => is_adopted(action, offered) && adopted_as(action, offered) == i && i
                    < offered.len(),
                None => !is_adopted(action, offered),
            },
            None => !is_adopted(action, offered),
        },
{
    match json::as_str(action.get2("target"@, "rid"@)) {
        Some(rid) => {
            light_is_found(action, offered, rid, 0);
        },
        None => {},
    }
    if is_adopted(action, offered) {
        assert(goes_to(action, offered, adopted_as(action, offered)));
    }
}

proof fn rooms_are_touched(
    rooms: Seq<Seq<char>>,
    actions: Seq<JView>,
    n: nat,
    offered: Seq<CandidateView>,
)
    requires
        n > 0,
        are_touched(rooms, actions, (n - 1) as nat, offered),
    ensures
        are_touched(
            if is_adopted(actions[n - 1], offered) {
                imports::with_room(
                    rooms,
                    offered[adopted_as(actions[n - 1], offered) as int].room,
                )
            } else {
                rooms
            },
            actions,
            n,
            offered,
        ),
{
    let m = (n - 1) as nat;
    let room = offered[adopted_as(actions[n - 1], offered) as int].room;
    let more = if is_adopted(actions[n - 1], offered) {
        imports::with_room(rooms, room)
    } else {
        rooms
    };
    assert forall|x: Seq<char>| rooms.contains(x) implies #[trigger] more.contains(x) by {
        let p = rooms.index_of(x);
        assert(more[p] == x);
    }
    assert forall|k: int, r: Seq<char>| #[trigger]
        touches(actions, n, offered, k, r) implies more.contains(r) by {
        if k < m {
            assert(touches(actions, m, offered, k, r));
        } else if !rooms.contains(room) {
            assert(more[rooms.len() as int] == r);
        }
    }
    assert forall|p: int| 0 <= p < more.len() implies first_touched(
        #[trigger] more.take(p),
        actions,
        n,
        offered,
        more[p],
    ) by {
        let k = if p < rooms.len() {
            assert(more.take(p) =~= rooms.take(p));
            assert(first_touched(rooms.take(p), actions, m, offered, rooms[p]));
            choose|k: int| #[trigger]
                touches(actions, m, offered, k, rooms[p]) && (forall|j: int, r: Seq<char>|
                    j < k && #[trigger] touches(actions, m, offered, j, r) ==> rooms.take(
                        p,
                    ).contains(r))
        } else {
            assert(more.take(p) =~= rooms);
            n - 1
        };
        assert(touches(actions, n, offered, k, more[p]));
        assert forall|j: int, r: Seq<char>|
            j < k && #[trigger] touches(actions, n, offered, j, r) implies more.take(p).contains(
            r,
        ) by {
            assert(touches(actions, m, offered, j, r));
        }
    }
}

proof fn actions_are_carried_out(actions: Seq<JView>, n: nat, offered: Seq<CandidateView>)
    requires
        n <= actions.len(),
        offered.len() <= usize::MAX,
        forall|k: int|
            0 <= k < n && is_adopted(#[trigger] actions[k], offered) ==> actions[k].get(
                "action"@,
            ) is Some,
    ensures
        imports::gathered(actions, n, offered) is Some,
        imports::gathered(actions, n, offered) matches Some((rooms, steps)) ==> {
            &&& are_touched(rooms, actions, n, offered)
            &&& steps.len() == steps_before(actions, offered, n)
            &&& forall|k: int|
                0 <= k < n && is_adopted(#[trigger] actions[k], offered) ==> carried_out(
                    actions[k],
                    adopted_as(actions[k], offered),
                    steps,
                    steps_before(actions, offered, k as nat) as int,
                )
        },
    decreases n,
{
    if n > 0 {
        let m = (n - 1) as nat;
        actions_are_carried_out(actions, m, offered);
        let (rooms, before) = imports::gathered(actions, m, offered)->0;
        let last = actions[n - 1];
        action_is_looked_up(last, offered);
        rooms_are_touched(rooms, actions, n, offered);
        if is_adopted(last, offered) {
            let device = adopted_as(last, offered);
            assert(goes_to(last, offered, device));
            action_is_carried_out(last, device, before);
        }
        let (_, steps) = imports::gathered(actions, n, offered)->0;
        assert forall|k: int| 0 <= k < n && is_adopted(#[trigger] actions[k], offered) implies
            carried_out(
            actions[k],
            adopted_as(actions[k], offered),
            steps,
            steps_before(actions, offered, k as nat) as int,
        ) by {
            if k < m {
                let at = steps_before(actions, offered, k as nat) as int;
                let device = adopted_as(actions[k], offered);
                assert(carried_out(actions[k], device, before, at));
                steps_come_in_order(actions, offered, (k + 1) as nat, m);
                assert(steps_before(actions, offered, (k + 1) as nat) > at);
                assert(steps[at] == before[at]);
                let state = actions[k].get("action"@)->0;
                if borrowed::mireds(state) is Some {
                    assert(steps[at + 1] == before[at + 1]);
                }
            }
        }
    }
}

proof fn unreadable_is_nothing(
    actions: Seq<JView>,
    k: int,
    n: nat,
    offered: Seq<CandidateView>,
)
    requires
        0 <= k < n <= actions.len(),
        is_adopted(actions[k], offered),
        actions[k].get("action"@) is None,
    ensures
        imports::gathered(actions, n, offered) is None,
    decreases n,
{
    if k < n - 1 {
        unreadable_is_nothing(actions, k, (n - 1) as nat, offered);
    } else {
        action_is_looked_up(actions[k], offered);
    }
}

proof fn none_before(actions: Seq<JView>, offered: Seq<CandidateView>, n: nat)
    ensures
        steps_before(actions, offered, n) > 0 <==> exists|k: int|
            0 <= k < n && is_adopted(#[trigger] actions[k], offered),
    decreases n,
{
    if n > 0 {
        none_before(actions, offered, (n - 1) as nat);
        if exists|k: int| 0 <= k < n && is_adopted(#[trigger] actions[k], offered) {
            let k = choose|k: int| 0 <= k < n && is_adopted(#[trigger] actions[k], offered);
            if k < n - 1 {
                assert(steps_before(actions, offered, (n - 1) as nat) > 0);
            }
        }
        if steps_before(actions, offered, n) > 0 && !is_adopted(actions[n - 1], offered) {
            let k = choose|k: int| 0 <= k < n - 1 && is_adopted(#[trigger] actions[k], offered);
            assert(is_adopted(actions[k], offered));
        }
    }
}

/// Whether a scene is one that can be proposed: it has a name, an id and actions, one of them goes
/// to an adopted light, and each that does can be read.
pub open spec fn can_be_proposed(scene: JView, offered: Seq<CandidateView>) -> bool {
    &&& scene.get2("metadata"@, "name"@) matches Some(JView::Str(_))
    &&& scene.get("id"@) matches Some(JView::Str(_))
    &&& scene.get("actions"@) matches Some(JView::Arr(actions)) && (exists|k: int|
        0 <= k < actions.len() && is_adopted(#[trigger] actions[k], offered)) && (forall|k: int|
        0 <= k < actions.len() && is_adopted(#[trigger] actions[k], offered) ==> actions[k].get(
            "action"@,
        ) is Some)
}

/// A scene is proposed exactly where it can be: under its own name and id, as one that moves
/// exactly where its palette has something in it, with a level for each adopted light of its
/// actions, and a colour temperature where the action has one, in the order of the actions, with no
/// other steps, and with the rooms of these lights, in the order they are first touched.
pub proof fn a_scene_is_proposed_action_by_action(scene: JView, offered: Seq<CandidateView>)
    requires
        offered.len() <= usize::MAX,
    ensures
        imports::imported(scene, offered) is Some <==> can_be_proposed(scene, offered),
        imports::imported(scene, offered) matches Some(s) ==> {
            let actions = scene.get("actions"@)->0->Arr_0;
            &&& Some(JView::Str(s.title)) == scene.get2("metadata"@, "name"@)
            &&& s.native is Some
            &&& Some(JView::Str(s.native->0.resource)) == scene.get("id"@)
            &&& s.native->0.dynamic_palette <==> borrowed::palette_holds(scene, "color"@) || borrowed::palette_holds(
                scene,
                "effects"@,
            )
            &&& are_touched(s.rooms, actions, actions.len(), offered)
            &&& s.steps.len() == steps_before(actions, offered, actions.len())
            &&& forall|k: int|
                0 <= k < actions.len() && is_adopted(#[trigger] actions[k], offered)
                    ==> carried_out(
                    actions[k],
                    adopted_as(actions[k], offered),
                    s.steps,
                    steps_before(actions, offered, k as nat) as int,
                )
        },
{
    match scene.get("actions"@) {
        Some(JView::Arr(actions)) => {
            let n = actions.len();
            none_before(actions, offered, n);
            if forall|k: int|
                0 <= k < n && is_adopted(#[trigger] actions[k], offered) ==> actions[k].get(
                    "action"@,
                ) is Some {
                actions_are_carried_out(actions, n, offered);
            } else {
                let k = choose|k: int|
                    0 <= k < n && is_adopted(#[trigger] actions[k], offered) && actions[k].get(
                        "action"@,
                    ) is None;
                unreadable_is_nothing(actions, k, n, offered);
            }
        },
        _ => {},
    }
}

/// Every scene on the bridge that can be proposed is, in the order the bridge lists them, and no
/// other.
pub proof fn every_scene_that_can_be_is_proposed(
    data: Seq<JView>,
    n: nat,
    offered: Seq<CandidateView>,
)
    requires
        n <= data.len(),
        offered.len() <= usize::MAX,
    ensures
        imports::imported_upto(data, n, offered) == data.take(n as int).filter(
            |s: JView| can_be_proposed(s, offered),
        ).map_values(|s: JView| imports::imported(s, offered)->0),
    decreases n,
{
    let can = |s: JView| can_be_proposed(s, offered);
    let made = |s: JView| imports::imported(s, offered)->0;
    reveal(Seq::filter);
    if n == 0 {
        assert(data.take(0).filter(can).map_values(made) =~= seq![]);
    } else {
        every_scene_that_can_be_is_proposed(data, (n - 1) as nat, offered);
        a_scene_is_proposed_action_by_action(data[n - 1], offered);
        assert(data.take(n as int).drop_last() =~= data.take(n - 1));
        assert(data.take(n as int).last() == data[n - 1]);
        let before = data.take(n - 1).filter(can);
        assert(before.push(data[n - 1]).map_values(made) =~= before.map_values(made).push(
            imports::imported(data[n - 1], offered)->0,
        ));
    }
}

} // verus!
