//! What is behind the bridge, as devices, rules and scenes.

use signify_hue::behaviour::{apply_behaviours, can_apply};
use signify_hue::catalog::{
    assign_rooms, compact, merge_names, order_buttons, room_names, room_of_light,
};
use signify_hue::host::{Candidate, ImportedAction};
use signify_hue::imports::{rules, scenes, KEYPAD};
use signify_hue::json;
use signify_hue::json::{Json, Object};
use signify_hue::offer::{candidates, driver_for};
use signify_hue::wire;

fn doc(source: &str) -> Json {
    wire::parse(source).unwrap()
}

fn device(name: &str, services: &str) -> String {
    format!(
        r#"{{ "id": "dev-{name}", "metadata": {{ "name": "{name}" }},
              "product_data": {{ "model_id": "TEST", "product_name": "Test device" }},
              "services": {services} }}"#
    )
}

fn devices(list: &[String]) -> Json {
    doc(&format!(r#"{{ "data": [{}] }}"#, list.join(",")))
}

fn left_lamp() -> Json {
    doc(
        r#"{ "data": [
            { "id": "dev-1", "metadata": { "name": "Left Lamp" },
              "product_data": { "product_name": "Hue color lamp" },
              "services": [ { "rtype": "light", "rid": "light-1" } ] }
        ]}"#,
    )
}

fn offered_light(label: &str, room: &str, id: &str) -> Candidate {
    Candidate {
        label: label.to_string(),
        kind: String::new(),
        driver_id: String::new(),
        properties: Object::new().with("Light id", Json::text(id)),
        verified: String::new(),
        room: room.to_string(),
    }
}

fn strings(v: &Json, key: &str) -> Vec<String> {
    json::strings_of(v.get(key))
}

#[test]
fn a_lights_room_is_found_through_the_device_that_owns_it() {
    let mut found = compact(Some(&left_lamp()));
    assert_eq!(found.len(), 1, "the bulb's device is kept");

    let rooms = doc(
        r#"{ "data": [
            { "id": "room-1", "metadata": { "name": "Living Room" },
              "children": [ { "rid": "dev-1", "rtype": "device" } ] }
        ]}"#,
    );
    assign_rooms(&mut found, Some(&rooms));

    assert_eq!(room_of_light(&found, "light-1").as_deref(), Some("Living Room"));
}

#[test]
fn a_zone_naming_light_services_places_its_bulbs_too() {
    let mut found = compact(Some(&left_lamp()));
    let zones = doc(
        r#"{ "data": [
            { "id": "zone-1", "metadata": { "name": "Living Room" },
              "children": [ { "rid": "light-1", "rtype": "light" } ] }
        ]}"#,
    );
    assign_rooms(&mut found, Some(&zones));

    assert_eq!(room_of_light(&found, "light-1").as_deref(), Some("Living Room"));
}

#[test]
fn a_room_already_set_is_not_replaced_by_a_zone() {
    let mut found = compact(Some(&left_lamp()));
    assign_rooms(
        &mut found,
        Some(&doc(
            r#"{ "data": [
                { "id": "room-1", "metadata": { "name": "Kitchen" },
                  "children": [ { "rid": "dev-1", "rtype": "device" } ] }
            ]}"#,
        )),
    );
    assign_rooms(
        &mut found,
        Some(&doc(
            r#"{ "data": [
                { "id": "zone-1", "metadata": { "name": "Downstairs" },
                  "children": [ { "rid": "light-1", "rtype": "light" } ] }
            ]}"#,
        )),
    );
    assert_eq!(room_of_light(&found, "light-1").as_deref(), Some("Kitchen"));
}

#[test]
fn a_bulb_is_kept_for_its_room_but_not_offered_as_a_device() {
    let response = devices(&[
        device("Bridge", r#"[{ "rid": "b1", "rtype": "bridge" }]"#),
        device("Kitchen bulb", r#"[{ "rid": "l1", "rtype": "light" }]"#),
        device(
            "Hall sensor",
            r#"[{ "rid": "m1", "rtype": "motion" },
                { "rid": "t1", "rtype": "temperature" },
                { "rid": "p1", "rtype": "device_power" }]"#,
        ),
    ]);
    let catalog = compact(Some(&response));
    let names: Vec<&str> = catalog.iter().filter_map(|d| json::str_of(d.get("name"))).collect();
    assert_eq!(
        names,
        vec!["Kitchen bulb", "Hall sensor"],
        "the bridge is not a device"
    );

    let offered: Vec<String> = candidates(&catalog, "10.0.0.2", "key")
        .into_iter()
        .map(|c| c.label)
        .collect();
    assert_eq!(offered, vec!["Hall sensor".to_string()]);
}

#[test]
fn a_bulb_finds_its_room_through_the_device_that_owns_it() {
    let response = devices(&[device(
        "Hue color lamp 3",
        r#"[{ "rid": "l1", "rtype": "light" }]"#,
    )]);
    let mut catalog = compact(Some(&response));
    let rooms = doc(
        r#"{ "data": [{
            "id": "room-1",
            "metadata": { "name": "Kitchen" },
            "children": [{ "rid": "dev-Hue color lamp 3", "rtype": "device" }]
        }]}"#,
    );
    assign_rooms(&mut catalog, Some(&rooms));
    assert_eq!(room_of_light(&catalog, "l1").as_deref(), Some("Kitchen"));
    assert_eq!(room_of_light(&catalog, "nobody"), None);
}

#[test]
fn a_dimmer_the_bridge_drives_a_room_with_becomes_four_rules() {
    let response = devices(&[device(
        "Hall dimmer",
        r#"[{ "rid": "b1", "rtype": "button" }, { "rid": "b2", "rtype": "button" },
            { "rid": "b3", "rtype": "button" }, { "rid": "b4", "rtype": "button" }]"#,
    )]);
    let mut catalog = compact(Some(&response));
    let rooms = doc(
        r#"{ "data": [
            { "id": "room-1", "metadata": { "name": "Hall" }, "children": [] }
        ]}"#,
    );
    let behaviours = doc(
        r#"{ "data": [{
            "configuration": {
                "device": { "rid": "dev-Hall dimmer", "rtype": "device" },
                "where": [{ "group": { "rid": "room-1", "rtype": "room" } }]
            }
        }]}"#,
    );
    apply_behaviours(&mut catalog, Some(&behaviours), &room_names(Some(&rooms)));

    let offered = candidates(&catalog, "10.0.0.2", "key");
    let made = rules(&catalog, &offered);

    // Which key is a parameter, not a binding. All four rules name the one keypad.
    let summary: Vec<(Json, Vec<String>, String)> = made
        .iter()
        .map(|r| {
            let command = match &r.actions[0] {
                ImportedAction::Room { command, .. } => command.clone(),
                _ => "?".into(),
            };
            (
                json::value_or_null(r.when_params.get("key")),
                r.when_events.clone(),
                command,
            )
        })
        .collect();
    assert_eq!(
        summary,
        vec![
            (
                Json::integer(1),
                vec!["clicked".to_string()],
                "all_lights_on".to_string()
            ),
            (
                Json::integer(2),
                vec!["clicked".to_string(), "repeating".to_string()],
                "dim_up".to_string()
            ),
            (
                Json::integer(3),
                vec!["clicked".to_string(), "repeating".to_string()],
                "dim_down".to_string()
            ),
            (
                Json::integer(4),
                vec!["clicked".to_string()],
                "all_lights_off".to_string()
            ),
        ]
    );
    assert!(
        made.iter().all(|r| r.when_proxy == KEYPAD),
        "a remote is one binding; the key is what tells the rules apart"
    );
    assert!(made.iter().all(|r| r.when_device == 0));
    assert!(
        made.iter().all(|r| r.label.starts_with("Hall dimmer — ")),
        "each rule says which remote it came off"
    );
}

#[test]
fn a_scene_becomes_a_level_and_a_colour_per_light() {
    let offered = vec![
        offered_light("Lamp", "Lounge", "l1"),
        offered_light("Downlight", "Kitchen", "l2"),
    ];
    let response = doc(
        r#"{ "data": [{
            "id": "scene-relax",
            "metadata": { "name": "Relax" },
            "group": { "rid": "room-1", "rtype": "room" },
            "actions": [
                { "target": { "rid": "l1", "rtype": "light" },
                  "action": { "on": { "on": true }, "dimming": { "brightness": 40.0 },
                              "color_temperature": { "mirek": 454 } } },
                { "target": { "rid": "l2", "rtype": "light" },
                  "action": { "on": { "on": false } } },
                { "target": { "rid": "gone", "rtype": "light" },
                  "action": { "on": { "on": true } } }
            ]
        }]}"#,
    );

    let made = scenes(Some(&response), &offered);
    assert_eq!(made.len(), 1);
    assert_eq!(made[0].title, "Relax");
    assert_eq!(
        made[0].native.as_ref().map(|native| native.resource.as_str()),
        Some("scene-relax")
    );
    // Read off the lights it touches rather than the group it names.
    assert_eq!(made[0].rooms, vec!["Lounge".to_string(), "Kitchen".to_string()]);

    let steps: Vec<(usize, String, Json)> = made[0]
        .steps
        .iter()
        .map(|s| match s {
            ImportedAction::Device { device, command, args, .. } => (
                *device,
                command.clone(),
                args.entries.first().map(|e| e.1.clone()).unwrap_or(Json::Null),
            ),
            _ => (999, "?".into(), Json::Null),
        })
        .collect();
    assert_eq!(
        steps,
        vec![
            (0, "set_level".to_string(), Json::integer(40)),
            // 1_000_000 / 454 mirek is 2202 K, the warm end of a Hue bulb.
            (0, "set_cct".to_string(), Json::integer(2202)),
            (1, "set_level".to_string(), Json::integer(0)),
        ]
    );
}

#[test]
fn a_scene_with_no_adopted_lights_is_dropped() {
    let offered = vec![offered_light("Lamp", "", "l1")];
    let response = doc(
        r#"{ "data": [{
            "metadata": { "name": "Energize" },
            "group": { "rid": "room-9", "rtype": "room" },
            "actions": [{ "target": { "rid": "somebody-elses", "rtype": "light" },
                          "action": { "on": { "on": true } } }]
        }]}"#,
    );
    assert!(scenes(Some(&response), &offered).is_empty());
}

#[test]
fn a_switch_wired_to_nothing_imports_no_rules() {
    let response = devices(&[device(
        "Spare remote",
        r#"[{ "rid": "b1", "rtype": "button" }]"#,
    )]);
    let catalog = compact(Some(&response));
    let offered = candidates(&catalog, "10.0.0.2", "key");
    assert!(rules(&catalog, &offered).is_empty());
}

#[test]
fn a_switch_is_placed_and_named_by_what_the_bridge_has_it_driving() {
    let response = devices(&[device(
        "Hue dimmer switch 2",
        r#"[{ "rid": "btn1", "rtype": "button" },
            { "rid": "btn2", "rtype": "button" },
            { "rid": "btn3", "rtype": "button" },
            { "rid": "btn4", "rtype": "button" }]"#,
    )]);
    let mut catalog = compact(Some(&response));
    let rooms = doc(
        r#"{ "data": [
            { "id": "room-1", "metadata": { "name": "Kitchen" }, "children": [] }
        ]}"#,
    );
    let names = room_names(Some(&rooms));
    let behaviours = doc(
        r#"{ "data": [{
            "id": "beh-1",
            "configuration": {
                "device": { "rid": "dev-Hue dimmer switch 2", "rtype": "device" },
                "where": [{ "group": { "rid": "room-1", "rtype": "room" } }]
            }
        }]}"#,
    );
    apply_behaviours(&mut catalog, Some(&behaviours), &names);

    let offered = candidates(&catalog, "10.0.0.2", "key");
    assert_eq!(
        offered[0].room, "Kitchen",
        "it goes where the thing it drives is"
    );
    assert!(
        offered[0].verified.contains("controls Kitchen"),
        "and says so in the list: {}",
        offered[0].verified
    );
    // Never "switch": that is a light that does not dim.
    assert_eq!(offered[0].kind, "keypad");
}

#[test]
fn buttons_come_back_in_the_order_they_are_printed() {
    let response = devices(&[device(
        "Dimmer",
        r#"[{ "rid": "third", "rtype": "button" },
            { "rid": "first", "rtype": "button" },
            { "rid": "second", "rtype": "button" }]"#,
    )]);
    let mut catalog = compact(Some(&response));
    let buttons = doc(
        r#"{ "data": [
            { "id": "first",  "metadata": { "control_id": 1 } },
            { "id": "second", "metadata": { "control_id": 2 } },
            { "id": "third",  "metadata": { "control_id": 3 } }
        ]}"#,
    );
    order_buttons(&mut catalog, Some(&buttons));
    assert_eq!(
        catalog[0].get("buttons"),
        Some(&doc(r#"["first", "second", "third"]"#))
    );
}

#[test]
fn the_shape_of_a_remote_picks_its_driver() {
    assert_eq!(driver_for(1, false).unwrap().0, "signify.hue.smart_button");
    assert_eq!(driver_for(2, false).unwrap().0, "signify.hue.wall_switch");
    assert_eq!(driver_for(4, false).unwrap().0, "signify.hue.dimmer");
    assert_eq!(driver_for(4, true).unwrap().0, "signify.hue.tap_dial");
    // Three rounds up rather than down: better an unused binding than an unreachable button.
    assert_eq!(driver_for(3, false).unwrap().0, "signify.hue.dimmer");
    assert!(driver_for(0, false).is_none());
}

#[test]
fn a_sensor_carries_one_property_per_measurement() {
    let response = devices(&[device(
        "Hall",
        r#"[{ "rid": "m1", "rtype": "motion" },
            { "rid": "t1", "rtype": "temperature" },
            { "rid": "l1", "rtype": "light_level" },
            { "rid": "p1", "rtype": "device_power" }]"#,
    )]);
    let catalog = compact(Some(&response));
    let found = candidates(&catalog, "10.0.0.2", "key");
    assert_eq!(found.len(), 1);
    assert_eq!(found[0].driver_id, "signify.hue.motion");
    assert_eq!(found[0].properties.get("Motion id"), Some(&Json::text("m1")));
    assert_eq!(found[0].properties.get("Light level id"), Some(&Json::text("l1")));
    assert_eq!(found[0].properties.get("Power id"), Some(&Json::text("p1")));
}

#[test]
fn a_dial_is_offered_as_a_tap_dial_with_its_rotary_id() {
    let response = devices(&[device(
        "Study dial",
        r#"[{ "rid": "b1", "rtype": "button" },
            { "rid": "b2", "rtype": "button" },
            { "rid": "b3", "rtype": "button" },
            { "rid": "b4", "rtype": "button" },
            { "rid": "r1", "rtype": "relative_rotary" },
            { "rid": "p1", "rtype": "device_power" }]"#,
    )]);
    let mut catalog = compact(Some(&response));
    order_buttons(&mut catalog, None);
    let found = candidates(&catalog, "10.0.0.2", "key");
    assert_eq!(found[0].driver_id, "signify.hue.tap_dial");
    assert_eq!(found[0].properties.get("Rotary id"), Some(&Json::text("r1")));
    assert_eq!(found[0].properties.get("Button 4 id"), Some(&Json::text("b4")));
    // A dial is a keypad that also turns.
    assert_eq!(found[0].kind, "keypad");
}

#[test]
fn a_compact_entry_holds_exactly_what_is_needed() {
    let response = devices(&[device(
        "Hall",
        r#"[{ "rid": "m1", "rtype": "motion" }, { "rid": "m2", "rtype": "motion" },
            { "rid": "l1", "rtype": "light" }, { "rtype": "button" }]"#,
    )]);
    assert_eq!(
        compact(Some(&response)),
        vec![doc(
            r#"{ "id": "dev-Hall", "lights": ["l1"], "model": "TEST", "motion": "m1",
                 "name": "Hall", "product": "Test device" }"#
        )]
    );
    assert!(compact(None).is_empty());
    assert!(compact(Some(&doc(r#"{ "data": [{ "id": "x" }] }"#))).is_empty());
}

#[test]
fn an_unnumbered_button_keeps_its_place_at_the_end() {
    let mut catalog = vec![doc(r#"{ "buttons": ["x", "b", "y", "a"] }"#), doc(r#"{ "id": "bulb" }"#)];
    let buttons = doc(
        r#"{ "data": [
            { "id": "a", "metadata": { "control_id": 1 } },
            { "id": "b", "metadata": { "control_id": 9 } },
            { "id": "b", "metadata": { "control_id": 2 } }
        ]}"#,
    );
    order_buttons(&mut catalog, Some(&buttons));
    assert_eq!(strings(&catalog[0], "buttons"), vec!["a", "b", "x", "y"]);
    assert_eq!(catalog[1], doc(r#"{ "id": "bulb" }"#));
}

#[test]
fn names_that_are_there_already_win() {
    let rooms = doc(r#"{ "1": "Kitchen", "3": "Hall" }"#);
    let zones = doc(r#"{ "1": "Downstairs", "2": "Evening" }"#);
    assert_eq!(
        merge_names(Some(&rooms), zones),
        doc(r#"{ "1": "Kitchen", "2": "Evening", "3": "Hall" }"#)
    );
    assert_eq!(merge_names(None, Json::Null), doc("{}"));
}

#[test]
fn the_last_group_that_holds_a_device_names_its_room() {
    let mut catalog = vec![doc(r#"{ "id": "d", "room": "" }"#), doc(r#"{ "id": "e" }"#)];
    let rooms = doc(
        r#"{ "data": [
            { "metadata": { "name": "First" }, "children": [{ "rid": "d" }] },
            { "children": [{ "rid": "e" }] },
            { "metadata": { "name": "Last" }, "children": [{ "rid": "d" }, { "rtype": "x" }] }
        ]}"#,
    );
    assign_rooms(&mut catalog, Some(&rooms));
    assert_eq!(catalog[0].get("room"), Some(&Json::text("Last")));
    assert_eq!(catalog[1].get("room"), None);
}

#[test]
fn what_is_offered_comes_by_label() {
    let response = devices(&[
        device("Zeta", r#"[{ "rid": "m1", "rtype": "motion" }]"#),
        device("Alpha", r#"[{ "rid": "m2", "rtype": "motion" }]"#),
        device("Mid", r#"[{ "rid": "b1", "rtype": "button" }]"#),
        device("Alpha", r#"[{ "rid": "m3", "rtype": "motion" }]"#),
    ]);
    let found = candidates(&compact(Some(&response)), "10.0.0.2", "key");
    let labels: Vec<&str> = found.iter().map(|c| c.label.as_str()).collect();
    assert_eq!(labels, vec!["Alpha", "Alpha", "Mid", "Zeta"]);
    assert_eq!(found[0].properties.get("Motion id"), Some(&Json::text("m2")));
    assert_eq!(found[1].properties.get("Motion id"), Some(&Json::text("m3")));
    assert_eq!(found[0].verified, "Test device — reports motion");
    assert_eq!(found[2].verified, "Test device — 1 button(s)");
}

#[test]
fn a_fifth_button_is_reported_rather_than_dropped_in_silence() {
    let catalog = vec![doc(
        r#"{ "id": "d", "name": "Odd", "model": "M", "buttons": ["1", "2", "3", "4", "5"],
             "controls": ["Hall", "Attic"] }"#,
    )];
    let found = candidates(&catalog, "10.0.0.2", "key");
    assert_eq!(
        found[0].verified,
        "5 buttons, 1 more than this driver has bindings for — report it, controls Hall and Attic"
    );
    assert_eq!(found[0].properties.get("Button 4 id"), Some(&Json::text("4")));
    assert_eq!(found[0].properties.get("Button 5 id"), None);
    assert_eq!(found[0].room, "Hall");
}

#[test]
fn a_remote_without_a_product_name_says_its_model() {
    let catalog = vec![doc(r#"{ "name": "R", "model": "RDM", "product": "", "buttons": ["1", "2"] }"#)];
    let found = candidates(&catalog, "a", "k");
    assert_eq!(found[0].verified, "2 button(s) on RDM");
    assert_eq!(found[0].driver_id, "signify.hue.wall_switch");
}

#[test]
fn a_behaviour_reaches_a_device_through_its_buttons_once() {
    let mut catalog = vec![
        doc(r#"{ "id": "d", "buttons": ["b1"], "controls": ["Hall"] }"#),
        doc(r#"{ "id": "e" }"#),
    ];
    let names = doc(r#"{ "r1": "Hall", "r2": "Study" }"#);
    let behaviours = doc(
        r#"{ "data": [
            { "x": [[{ "rid": "b1", "rtype": "button" }], { "rid": "r2", "rtype": "room" },
                    { "rid": "r1", "rtype": "room" }, { "rid": "r2", "rtype": "zone" }] },
            { "rid": "e", "rtype": "device" }
        ]}"#,
    );
    assert!(can_apply(&catalog, Some(&behaviours), &names));
    apply_behaviours(&mut catalog, Some(&behaviours), &names);
    assert_eq!(strings(&catalog[0], "controls"), vec!["Hall", "Study"]);
    assert_eq!(catalog[1], doc(r#"{ "id": "e" }"#));
}

#[test]
fn an_entry_that_is_no_object_cannot_be_written_into() {
    let names = doc(r#"{ "r1": "Hall" }"#);
    let behaviours = doc(
        r#"{ "data": [{ "a": { "rid": "", "rtype": "device" }, "b": { "rid": "r1", "rtype": "room" } }] }"#,
    );
    assert!(!can_apply(&vec![Json::text("odd")], Some(&behaviours), &names));
    assert!(can_apply(&vec![Json::text("odd")], None, &names));
    let mut catalog = vec![Json::Null];
    assert!(can_apply(&catalog, Some(&behaviours), &names));
    apply_behaviours(&mut catalog, Some(&behaviours), &names);
    assert_eq!(catalog[0], doc(r#"{ "controls": ["Hall"] }"#));
}

#[test]
fn each_shape_of_remote_gets_its_own_layout() {
    let layout = |entry: &str| {
        let catalog = vec![doc(entry)];
        let offered = candidates(&catalog, "a", "k");
        rules(&catalog, &offered)
    };
    let labels = |entry: &str| {
        layout(entry).into_iter().map(|r| r.label).collect::<Vec<String>>()
    };
    assert_eq!(
        labels(r#"{ "name": "One", "buttons": ["1"], "controls": ["Hall"] }"#),
        vec!["One — press", "One — hold"]
    );
    assert_eq!(
        labels(r#"{ "name": "Two", "buttons": ["1", "2"], "controls": ["Hall"] }"#),
        vec!["Two — top", "Two — bottom"]
    );
    assert_eq!(
        labels(r#"{ "buttons": ["1", "2"], "controls": ["Hall"] }"#),
        vec!["Hue control — top", "Hue control — bottom"]
    );
    let movement = layout(r#"{ "name": "Eye", "motion": "m", "controls": ["Hall", "Attic"] }"#);
    assert_eq!(movement.len(), 1);
    assert_eq!(movement[0].label, "Eye — movement");
    assert_eq!(movement[0].when_key, "detected");
    assert_eq!(movement[0].when_becomes, Some(Json::Bool(true)));
    assert_eq!(
        movement[0].actions,
        vec![ImportedAction::Room {
            room: "Hall".to_string(),
            command: "all_lights_on".to_string(),
            args: Object::new(),
        }]
    );
}

#[test]
fn an_unreadable_action_loses_the_scene_and_an_unadopted_light_does_not() {
    let offered = vec![offered_light("Lamp", "Lounge", "l1"), offered_light("Other", "Lounge", "l2")];
    let response = doc(
        r#"{ "data": [
            { "id": "a", "metadata": { "name": "A" }, "actions": [{ "target": { "rid": "l1" } }] },
            { "metadata": { "name": "B" }, "actions": [{ "target": { "rid": "l1" }, "action": {} }] },
            { "id": "c", "metadata": { "name": "C" }, "palette": { "effects": [1] },
              "actions": [{ "target": { "rid": "gone" } },
                          { "target": { "rid": "l1" }, "action": {} },
                          { "target": { "rid": "l2" },
                            "action": { "dimming": { "brightness": 0.2 } } }] }
        ]}"#,
    );
    let made = scenes(Some(&response), &offered);
    assert_eq!(made.len(), 1);
    assert_eq!(made[0].title, "C");
    assert_eq!(made[0].rooms, vec!["Lounge".to_string()]);
    assert!(made[0].native.as_ref().unwrap().dynamic_palette);
    let levels: Vec<Option<&Json>> = made[0]
        .steps
        .iter()
        .map(|s| match s {
            ImportedAction::Device { args, .. } => args.get("level"),
            _ => None,
        })
        .collect();
    assert_eq!(levels, vec![Some(&Json::integer(100)), Some(&Json::integer(1))]);
}

#[test]
fn everything_offered_carries_its_connection() {
    let catalog = vec![
        doc(r#"{ "name": "S", "motion": "m", "temperature": "t", "power": "p" }"#),
        doc(r#"{ "name": "R", "buttons": ["1", "2", "3"], "rotary": "r" }"#),
        doc(r#"{ "name": "B", "lights": ["l"] }"#),
    ];
    let found = candidates(&catalog, "10.0.0.2", "key");
    assert_eq!(found.len(), 2);
    for c in &found {
        assert_eq!(c.properties.get("Bridge address"), Some(&Json::text("10.0.0.2")));
        assert_eq!(c.properties.get("Application key"), Some(&Json::text("key")));
    }
    assert_eq!(found[0].driver_id, "signify.hue.tap_dial");
    assert_eq!(found[0].properties.get("Button 3 id"), Some(&Json::text("3")));
    assert_eq!(found[1].verified, "reports motion, temperature");
}

#[test]
fn a_tap_dial_is_left_alone() {
    let catalog = vec![doc(
        r#"{ "id": "d1", "name": "Dial", "buttons": ["b1", "b2", "b3", "b4"], "rotary": "r1",
             "controls": ["Study"] }"#,
    )];
    let offered = candidates(&catalog, "10.0.0.2", "key");
    assert_eq!(offered.len(), 1);
    assert!(rules(&catalog, &offered).is_empty());
}

#[test]
fn the_same_automations_twice_change_nothing() {
    let names = doc(r#"{ "r1": "Hall", "r2": "Study" }"#);
    let automations = doc(
        r#"{ "data": [
            { "a": { "rid": "d", "rtype": "device" }, "b": [{ "rid": "r1", "rtype": "room" }] },
            { "a": { "rid": "b1", "rtype": "button" }, "b": [{ "rid": "r2", "rtype": "room" },
                                                             { "rid": "r1", "rtype": "room" }] }
        ]}"#,
    );
    let mut once = vec![
        doc(r#"{ "id": "d", "buttons": ["b1"], "controls": ["Attic"], "zoo": 1 }"#),
        doc(r#"{ "id": "e" }"#),
    ];
    apply_behaviours(&mut once, Some(&automations), &names);
    assert_eq!(strings(&once[0], "controls"), vec!["Attic", "Hall", "Study"]);
    let mut twice = once.clone();
    apply_behaviours(&mut twice, Some(&automations), &names);
    assert_eq!(twice, once);
}
