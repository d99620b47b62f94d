//! The rules and the scenes that the bridge already has, as proposals.

use vstd::prelude::*;
use vstd::string::StringExecFns;
use crate::behaviour;
use crate::borrowed;
use crate::catalog;
use crate::host::{
    Candidate, CandidateView, ImportedAction, ImportedActionView, ImportedRule, ImportedRuleView,
    ImportedScene, ImportedSceneResource, ImportedSceneResourceView, ImportedSceneView,
};
use crate::json;
use crate::json::{JView, Json, Object};
use crate::text;

verus! {

/// The binding that a whole remote is.
pub const KEYPAD: u32 = 1;

/// The id by which a device is found among those offered: its first button's, or its motion
/// sensor's.
pub open spec fn first_id(device: JView) -> Option<Seq<char>> {
    match json::as_str(device.get("buttons"@)) {
        Some(id) => Some(id),
        None => {
            let buttons = json::list_or_empty(json::as_array(device.get("buttons"@)));
            if buttons.len() > 0 && json::as_str(Some(buttons[0])) is Some {
                json::as_str(Some(buttons[0]))
            } else {
                json::as_str(device.get("motion"@))
            }
        },
    }
}

/// Whether a candidate carries an id as its first button's or its motion sensor's.
pub open spec fn is_offered_as(c: CandidateView, id: Seq<char>) -> bool {
    json::as_str(json::lookup(c.properties, "Button 1 id"@)) == Some(id) || json::as_str(
        json::lookup(c.properties, "Motion id"@),
    ) == Some(id)
}

/// The first candidate, from the `i`-th on, that carries an id.
pub open spec fn offered_at(offered: Seq<CandidateView>, id: Seq<char>, i: nat) -> Option<nat>
    decreases offered.len() - i,
{
    if i >= offered.len() {
        None
    } else if is_offered_as(offered[i as int], id) {
        Some(i)
    } else {
        offered_at(offered, id, i + 1)
    }
}

/// A command to everything in a room.
pub open spec fn to_room(room: Seq<char>, command: Seq<char>) -> Seq<ImportedActionView> {
    seq![ImportedActionView::Room { room, command, args: seq![] }]
}

/// A rule about a key of a remote.
pub open spec fn key_rule(
    name: Seq<char>,
    device: nat,
    room: Seq<char>,
    suffix: Seq<char>,
    key: u64,
    events: Seq<Seq<char>>,
    command: Seq<char>,
) -> ImportedRuleView {
    ImportedRuleView {
        label: name + " — "@ + suffix,
        when_device: device as usize,
        when_proxy: KEYPAD,
        when_key: ""@,
        when_becomes: None,
        when_params: json::one("key"@, json::int_value(key)),
        when_events: events,
        actions: to_room(room, command),
    }
}

/// The rule about a motion sensor.
pub open spec fn movement_rule(name: Seq<char>, device: nat, room: Seq<char>) -> ImportedRuleView {
    ImportedRuleView {
        label: name + " — "@ + "movement"@,
        when_device: device as usize,
        when_proxy: 1,
        when_key: "detected"@,
        when_becomes: Some(JView::Bool(true)),
        when_params: seq![],
        when_events: seq![],
        actions: to_room(room, "all_lights_on"@),
    }
}

/// The rules that a device with this many buttons, with or without a dial, is proposed: the layout
/// every Hue remote has had since the first one. A remote with a dial is left alone.
pub open spec fn layout(
    name: Seq<char>,
    device: nat,
    room: Seq<char>,
    buttons: nat,
    rotary: bool,
) -> Seq<ImportedRuleView> {
    let press = seq!["clicked"@];
    let press_or_hold = seq!["clicked"@, "repeating"@];
    let hold = seq!["held"@];
    if rotary {
        seq![]
    } else if buttons == 0 {
        seq![movement_rule(name, device, room)]
    } else if buttons == 1 {
        seq![
            key_rule(name, device, room, "press"@, 1, press, "all_lights_on"@),
            key_rule(name, device, room, "hold"@, 1, hold, "all_lights_off"@),
        ]
    } else if buttons == 2 {
        seq![
            key_rule(name, device, room, "top"@, 1, press, "all_lights_on"@),
            key_rule(name, device, room, "bottom"@, 2, press, "all_lights_off"@),
        ]
    } else {
        seq![
            key_rule(name, device, room, "on"@, 1, press, "all_lights_on"@),
            key_rule(name, device, room, "brighter"@, 2, press_or_hold, "dim_up"@),
            key_rule(name, device, room, "dimmer"@, 3, press_or_hold, "dim_down"@),
            key_rule(name, device, room, "off"@, 4, press, "all_lights_off"@),
        ]
    }
}

/// The rules that one device is proposed: none where the bridge has it wired to nothing, and none
/// where it was not offered.
pub open spec fn device_rules(device: JView, offered: Seq<CandidateView>) -> Seq<ImportedRuleView> {
    let controls = behaviour::controls_of(device);
    match first_id(device) {
        Some(id) => match offered_at(offered, id, 0) {
            Some(index) => if controls.len() == 0 {
                seq![]
            } else {
                layout(
                    json::str_or(json::as_str(device.get("name"@)), "Hue control"@),
                    index,
                    controls[0],
                    json::list_or_empty(json::as_array(device.get("buttons"@))).len(),
                    device.get("rotary"@) is Some,
                )
            },
            None => seq![],
        },
        None => seq![],
    }
}

/// The rules that the first `n` devices are proposed.
pub open spec fn proposed(catalog: Seq<JView>, n: nat, offered: Seq<CandidateView>) -> Seq<
    ImportedRuleView,
>
    decreases n,
{
    if n == 0 {
        seq![]
    } else {
        proposed(catalog, (n - 1) as nat, offered) + device_rules(catalog[n - 1], offered)
    }
}

fn id_of_first(device: &Json) -> (r: Option<&str>)
    ensures
        text::view_of(r) == first_id(device@),
{
    match json::str_of(device.get("buttons")) {
        Some(id) => {
            return Some(id);
        },
        None => {},
    }
    match json::array_of(device.get("buttons")) {
        Some(buttons) => {
            assert(text::views(buttons@).len() == buttons@.len());
            if buttons.len() > 0 {
                match json::str_of(Some(&buttons[0])) {
                    Some(id) => {
                        return Some(id);
                    },
                    None => {},
                }
            }
        },
        None => {},
    }
    json::str_of(device.get("motion"))
}

fn carries(c: &Candidate, property: &str, id: &str) -> (r: bool)
    ensures
        r == (json::as_str(json::lookup(c@.properties, property@)) == Some(id@)),
{
    match json::str_of(c.properties.get(property)) {
        Some(s) => text::same(s, id),
        None => false,
    }
}

fn place_among(offered: &Vec<Candidate>, id: &str) -> (r: Option<usize>)
    ensures
        match r {
            Some(index) => offered_at(text::views(offered@), id@, 0) == Some(index as nat)
                && index < offered.len(),
            None => offered_at(text::views(offered@), id@, 0) is None,
        },
{
    let mut i: usize = 0;
    while i < offered.len()
        invariant
            i <= offered.len(),
            offered_at(text::views(offered@), id@, 0) == offered_at(
                text::views(offered@),
                id@,
                i as nat,
            ),
        decreases offered.len() - i,
    {
        assert(text::views(offered@)[i as int] == offered@[i as int]@);
        if carries(&offered[i], "Button 1 id", id) || carries(&offered[i], "Motion id", id) {
            return Some(i);
        }
        i = i + 1;
    }
    None
}

fn room_action(room: &str, command: &str) -> (r: Vec<ImportedAction>)
    ensures
        text::views(r@) == to_room(room@, command@),
{
    broadcast use text::views_push;

    let mut actions: Vec<ImportedAction> = Vec::new();
    actions.push(
        ImportedAction::Room {
            room: room.to_string(),
            command: command.to_string(),
            args: Object::new(),
        },
    );
    assert(text::views(actions@) =~= to_room(room@, command@));
    actions
}

fn label_of(name: &str, suffix: &str) -> (r: String)
    ensures
        r@ == name@ + " — "@ + suffix@,
{
    let mut label = name.to_string();
    label.append(" — ");
    label.append(suffix);
    label
}

fn one_event(a: &str) -> (r: Vec<String>)
    ensures
        text::views(r@) == seq![a@],
{
    let mut events: Vec<String> = Vec::new();
    events.push(a.to_string());
    assert(text::views(events@) =~= seq![a@]);
    events
}

fn two_events(a: &str, b: &str) -> (r: Vec<String>)
    ensures
        text::views(r@) == seq![a@, b@],
{
    broadcast use text::views_push;

    let mut events = one_event(a);
    events.push(b.to_string());
    assert(text::views(events@) =~= seq![a@, b@]);
    events
}

fn rule_for_key(
    name: &str,
    device: usize,
    room: &str,
    suffix: &str,
    key: u64,
    events: Vec<String>,
    command: &str,
) -> (r: ImportedRule)
    ensures
        r@ == key_rule(
            name@,
            device as nat,
            room@,
            suffix@,
            key,
            text::views(events@),
            command@,
        ),
{
    ImportedRule {
        label: label_of(name, suffix),
        when_device: device,
        when_proxy: KEYPAD,
        when_key: "".to_string(),
        when_becomes: None,
        when_params: Object::new().with("key", Json::integer(key)),
        when_events: events,
        actions: room_action(room, command),
    }
}

fn rule_for_movement(name: &str, device: usize, room: &str) -> (r: ImportedRule)
    ensures
        r@ == movement_rule(name@, device as nat, room@),
{
    let events: Vec<String> = Vec::new();
    assert(text::views(events@) =~= seq![]);
    ImportedRule {
        label: label_of(name, "movement"),
        when_device: device,
        when_proxy: 1,
        when_key: "detected".to_string(),
        when_becomes: Some(Json::Bool(true)),
        when_params: Object::new(),
        when_events: events,
        actions: room_action(room, "all_lights_on"),
    }
}

fn add_layout(
    out: &mut Vec<ImportedRule>,
    name: &str,
    device: usize,
    room: &str,
    buttons: usize,
    rotary: bool,
)
    ensures
        text::views(final(out)@) == text::views(old(out)@) + layout(
            name@,
            device as nat,
            room@,
            buttons as nat,
            rotary,
        ),
{
    broadcast use text::views_push;

    let ghost start = text::views(out@);
    if rotary {
        // The keys of a remote with a dial recall scenes, and which is not known here.
    } else if buttons == 0 {
        out.push(rule_for_movement(name, device, room));
    } else if buttons == 1 {
        let press = one_event("clicked");
        let hold = one_event("held");
        out.push(rule_for_key(name, device, room, "press", 1, press, "all_lights_on"));
        out.push(rule_for_key(name, device, room, "hold", 1, hold, "all_lights_off"));
    } else if buttons == 2 {
        let top = one_event("clicked");
        let bottom = one_event("clicked");
        out.push(rule_for_key(name, device, room, "top", 1, top, "all_lights_on"));
        out.push(rule_for_key(name, device, room, "bottom", 2, bottom, "all_lights_off"));
    } else {
        let on = one_event("clicked");
        let up = two_events("clicked", "repeating");
        let down = two_events("clicked", "repeating");
        let off = one_event("clicked");
        out.push(rule_for_key(name, device, room, "on", 1, on, "all_lights_on"));
        out.push(rule_for_key(name, device, room, "brighter", 2, up, "dim_up"));
        out.push(rule_for_key(name, device, room, "dimmer", 3, down, "dim_down"));
        out.push(rule_for_key(name, device, room, "off", 4, off, "all_lights_off"));
    }
    assert(text::views(out@) =~= start + layout(
        name@,
        device as nat,
        room@,
        buttons as nat,
        rotary,
    ));
}

fn add_rules(out: &mut Vec<ImportedRule>, device: &Json, offered: &Vec<Candidate>)
    ensures
        text::views(final(out)@) == text::views(old(out)@) + device_rules(
            device@,
            text::views(offered@),
        ),
{
    let controls = json::strings_of(device.get("controls"));
    assert(text::views(controls@).len() == controls@.len());
    assert(text::views(out@) + seq![] =~= text::views(out@));
    if controls.len() == 0 {
        return;
    }
    let name = match json::str_of(device.get("name")) {
        Some(s) => s,
        None => "Hue control",
    };
    let index = match id_of_first(device) {
        Some(id) => place_among(offered, id),
        None => None,
    };
    match index {
        Some(index) => {
            let buttons = match json::array_of(device.get("buttons")) {
                Some(items) => {
                    assert(text::views(items@).len() == items@.len());
                    items.len()
                },
                None => 0,
            };
            let rotary = device.get("rotary").is_some();
            add_layout(out, name, index, controls[0].as_str(), buttons, rotary);
        },
        None => {},
    }
}

/// The rules the bridge already has, as rules this house could have.
///
/// A behaviour says that a switch drives a room; the detail per button is buried in a script. So
/// what is proposed is the layout every Hue remote has had since the first one: top turns the room
/// on, bottom turns it off, and the two in the middle go up and down.
///
/// The dial and the scene buttons of a Tap Dial are left alone: its buttons recall scenes, and
/// guessing a brightness for one would be inventing something nobody asked for.
pub fn rules(catalog: &Vec<Json>, offered: &Vec<Candidate>) -> (r: Vec<ImportedRule>)
    ensures
        text::views(r@) == proposed(
            text::views(catalog@),
            catalog@.len(),
            text::views(offered@),
        ),
{
    let mut out: Vec<ImportedRule> = Vec::new();
    assert(text::views(out@) =~= seq![]);
    let mut i: usize = 0;
    while i < catalog.len()
        invariant
            i <= catalog.len(),
            text::views(out@) == proposed(
                text::views(catalog@),
                i as nat,
                text::views(offered@),
            ),
        decreases catalog.len() - i,
    {
        add_rules(&mut out, &catalog[i], offered);
        i = i + 1;
    }
    out
}

/// The first candidate, from the `i`-th on, that is the light with this resource id.
pub open spec fn light_at(offered: Seq<CandidateView>, rid: Seq<char>, i: nat) -> Option<nat>
    decreases offered.len() - i,
{
    if i >= offered.len() {
        None
    } else if json::as_str(json::lookup(offered[i as int].properties, "Light id"@)) == Some(rid) {
        Some(i)
    } else {
        light_at(offered, rid, i + 1)
    }
}

/// A command to one of the devices offered.
pub open spec fn to_device(
    device: nat,
    command: Seq<char>,
    key: Seq<char>,
    value: u64,
) -> ImportedActionView {
    ImportedActionView::Device {
        device: device as usize,
        proxy: 1,
        command,
        args: json::one(key, json::int_value(value)),
    }
}

/// What a state in a scene comes to for one of the devices offered: a level, and a colour
/// temperature where the scene sets one and the light is on.
pub open spec fn state_steps(device: nat, state: JView) -> Seq<ImportedActionView> {
    let level = to_device(device, "set_level"@, "level"@, borrowed::state_level(state));
    match borrowed::state_kelvin(state) {
        Some(kelvin) => seq![level, to_device(device, "set_cct"@, "kelvin"@, kelvin)],
        None => seq![level],
    }
}

/// Rooms with one more, unless it says nothing or is there already.
pub open spec fn with_room(rooms: Seq<Seq<char>>, room: Seq<char>) -> Seq<Seq<char>> {
    if room.len() == 0 || rooms.contains(room) {
        rooms
    } else {
        rooms.push(room)
    }
}

/// The rooms that the first `n` actions of a scene touch and the steps they come to. An action
/// whose light was not offered comes to nothing; one without a state makes the whole unreadable.
pub open spec fn gathered(actions: Seq<JView>, n: nat, offered: Seq<CandidateView>) -> Option<
    (Seq<Seq<char>>, Seq<ImportedActionView>),
>
    decreases n,
{
    if n == 0 {
        Some((seq![], seq![]))
    } else {
        let action = actions[n - 1];
        let index = match json::as_str(action.get2("target"@, "rid"@)) {
            Some(rid) => light_at(offered, rid, 0),
            None => None,
        };
        match gathered(actions, (n - 1) as nat, offered) {
            Some((rooms, steps)) => match index {
                Some(i) => match action.get("action"@) {
                    Some(state) => Some(
                        (with_room(rooms, offered[i as int].room), steps + state_steps(i, state)),
                    ),
                    None => None,
                },
                None => Some((rooms, steps)),
            },
            None => None,
        }
    }
}

proof fn unreadable_stays(actions: Seq<JView>, n: nat, m: nat, offered: Seq<CandidateView>)
    requires
        n <= m,
        gathered(actions, n, offered) is None,
    ensures
        gathered(actions, m, offered) is None,
    decreases m,
{
    if n < m {
        unreadable_stays(actions, n, (m - 1) as nat, offered);
    }
}

/// A scene on the bridge as a proposal: nothing of one without a name, an id or readable actions,
/// and nothing of one that touches no light that was offered.
pub open spec fn imported(scene: JView, offered: Seq<CandidateView>) -> Option<ImportedSceneView> {
    match (
        json::as_str(scene.get2("metadata"@, "name"@)),
        json::as_array(scene.get("actions"@)),
        json::as_str(scene.get("id"@)),
    ) {
        (Some(title), Some(actions), Some(resource)) => match gathered(
            actions,
            actions.len(),
            offered,
        ) {
            Some((rooms, steps)) => if steps.len() == 0 {
                None
            } else {
                Some(
                    ImportedSceneView {
                        title,
                        rooms,
                        steps,
                        native: Some(
                            ImportedSceneResourceView {
                                resource,
                                dynamic_palette: borrowed::moves(scene),
                            },
                        ),
                    },
                )
            },
            None => None,
        },
        _ => None,
    }
}

/// The first `n` scenes on the bridge as proposals.
pub open spec fn imported_upto(data: Seq<JView>, n: nat, offered: Seq<CandidateView>) -> Seq<
    ImportedSceneView,
>
    decreases n,
{
    if n == 0 {
        seq![]
    } else {
        let rest = imported_upto(data, (n - 1) as nat, offered);
        match imported(data[n - 1], offered) {
            Some(s) => rest.push(s),
            None => rest,
        }
    }
}

fn light_among(offered: &Vec<Candidate>, rid: &str) -> (r: Option<usize>)
    ensures
        match r {
            Some(index) => light_at(text::views(offered@), rid@, 0) == Some(index as nat)
                && index < offered.len(),
            None => light_at(text::views(offered@), rid@, 0) is None,
        },
{
    let mut i: usize = 0;
    while i < offered.len()
        invariant
            i <= offered.len(),
            light_at(text::views(offered@), rid@, 0) == light_at(
                text::views(offered@),
                rid@,
                i as nat,
            ),
        decreases offered.len() - i,
    {
        assert(text::views(offered@)[i as int] == offered@[i as int]@);
        if carries(&offered[i], "Light id", rid) {
            return Some(i);
        }
        i = i + 1;
    }
    None
}

fn device_action(device: usize, command: &str, key: &str, value: u64) -> (r: ImportedAction)
    ensures
        r@ == to_device(device as nat, command@, key@, value),
{
    ImportedAction::Device {
        device,
        proxy: 1,
        command: command.to_string(),
        args: Object::new().with(key, Json::integer(value)),
    }
}

fn gather(actions: &Vec<Json>, offered: &Vec<Candidate>) -> (r: Option<
    (Vec<String>, Vec<ImportedAction>),
>)
    ensures
        match r {
            Some((rooms, steps)) => gathered(
                text::views(actions@),
                actions@.len(),
                text::views(offered@),
            ) == Some((text::views(rooms@), text::views(steps@))),
            None => gathered(text::views(actions@), actions@.len(), text::views(offered@)) is None,
        },
{
    let mut rooms: Vec<String> = Vec::new();
    let mut steps: Vec<ImportedAction> = Vec::new();
    assert(text::views(rooms@) =~= seq![]);
    assert(text::views(steps@) =~= seq![]);
    let mut i: usize = 0;
    while i < actions.len()
        invariant
            i <= actions.len(),
            gathered(text::views(actions@), i as nat, text::views(offered@)) == Some(
                (text::views(rooms@), text::views(steps@)),
            ),
        decreases actions.len() - i,
    {
        broadcast use text::views_push;

        let action = &actions[i];
        let index = match json::str_of(action.get2("target", "rid")) {
            Some(rid) => light_among(offered, rid),
            None => None,
        };
        match index {
            Some(index) => {
                match action.get("action") {
                    Some(state) => {
                        let room = offered[index].room.as_str();
                        assert(text::views(offered@)[index as int] == offered@[index as int]@);
                        if !text::is_empty(room) && !text::has(&rooms, room) {
                            rooms.push(room.to_string());
                        }
                        let ghost before = text::views(steps@);
                        steps.push(
                            device_action(index, "set_level", "level", borrowed::level_in(state)),
                        );
                        match borrowed::kelvin_in(state) {
                            Some(kelvin) => {
                                steps.push(device_action(index, "set_cct", "kelvin", kelvin));
                            },
                            None => {},
                        }
                        assert(text::views(steps@) =~= before + state_steps(
                            index as nat,
                            state@,
                        ));
                    },
                    None => {
                        proof {
                            unreadable_stays(
                                text::views(actions@),
                                (i + 1) as nat,
                                actions@.len(),
                                text::views(offered@),
                            );
                        }
                        return None;
                    },
                }
            },
            None => {},
        }
        i = i + 1;
    }
    Some((rooms, steps))
}

fn import(scene: &Json, offered: &Vec<Candidate>) -> (r: Option<ImportedScene>)
    ensures
        text::view_of(r) == imported(scene@, text::views(offered@)),
{
    let title = json::str_of(scene.get2("metadata", "name"));
    let actions = json::array_of(scene.get("actions"));
    let resource = json::str_of(scene.get("id"));
    match (title, actions, resource) {
        (Some(title), Some(actions), Some(resource)) => {
            assert(text::views(actions@).len() == actions@.len());
            match gather(actions, offered) {
                Some((rooms, steps)) => {
                    assert(text::views(steps@).len() == steps@.len());
                    if steps.len() == 0 {
                        None
                    } else {
                        Some(
                            ImportedScene {
                                title: title.to_string(),
                                rooms,
                                steps,
                                native: Some(
                                    ImportedSceneResource {
                                        resource: resource.to_string(),
                                        dynamic_palette: borrowed::has_dynamic_palette(scene),
                                    },
                                ),
                            },
                        )
                    }
                },
                None => None,
            }
        },
        _ => None,
    }
}

/// The bridge's own named arrangements, as scenes this house could have.
///
/// Only the lights that were actually adopted contribute, and the rooms are read off those lights
/// rather than off the group a scene names, since a zone does not follow walls. Scenes with no
/// adopted light vanish.
pub fn scenes(response: Option<&Json>, offered: &Vec<Candidate>) -> (r: Vec<ImportedScene>)
    ensures
        text::views(r@) == imported_upto(
            catalog::data_or_none(text::view_of(response)),
            catalog::data_or_none(text::view_of(response)).len(),
            text::views(offered@),
        ),
{
    let mut out: Vec<ImportedScene> = Vec::new();
    assert(text::views(out@) =~= seq![]);
    match catalog::data_of(response) {
        Some(data) => {
            let mut i: usize = 0;
            while i < data.len()
                invariant
                    i <= data.len(),
                    text::views(out@) == imported_upto(
                        text::views(data@),
                        i as nat,
                        text::views(offered@),
                    ),
                decreases data.len() - i,
            {
                broadcast use text::views_push;

                match import(&data[i], offered) {
                    Some(s) => out.push(s),
                    None => {},
                }
                i = i + 1;
            }
            assert(text::views(data@).len() == data@.len());
        },
        None => {},
    }
    out
}

} // verus!
