//! Setting a bridge up, step by step.

use signify_hue::bulb::HueBulb;
use signify_hue::host::{Candidate, HttpRequest, ImportedAction, SetupStep};
use signify_hue::json;
use signify_hue::json::{Json, Object};
use signify_hue::setup::{plural, SetupState};
use signify_hue::steps::{ask_about_scenes, is_ready};
use signify_hue::wire;

fn doc(source: &str) -> Json {
    wire::parse(source).unwrap()
}

fn state(source: &str) -> SetupState {
    SetupState::Values(doc(source))
}

fn input(source: &str) -> Object {
    match doc(source) {
        Json::Obj(o) => o,
        _ => panic!("an object"),
    }
}

fn step(from: SetupState, with: &str) -> (SetupStep, SetupState) {
    let with = input(with);
    assert!(is_ready(&from, &with));
    HueBulb.step(from, &with, Vec::new())
}

fn failure(outcome: (SetupStep, SetupState)) -> String {
    assert_eq!(outcome.1, SetupState::Values(Json::Null));
    match outcome.0 {
        SetupStep::Failed { reason } => reason,
        _ => panic!("expected a failure"),
    }
}

fn fetched(step: &SetupStep) -> (&HttpRequest, &str) {
    match step {
        SetupStep::Fetch { request, note } => (request, note.as_str()),
        _ => panic!("expected a request"),
    }
}

fn values(state: &SetupState) -> &Json {
    match state {
        SetupState::Values(v) => v,
        _ => panic!("expected values"),
    }
}

fn at<'a>(state: &'a SetupState, key: &str) -> Option<&'a Json> {
    values(state).get(key)
}

#[test]
fn nothing_announced_asks_for_an_address() {
    let (asked, next) = step(state("{}"), "{}");
    match asked {
        SetupStep::Form { title, fields, .. } => {
            assert_eq!(title, "Find your Hue bridge");
            assert_eq!(fields.len(), 1);
            assert_eq!(fields[0].name, "address");
            assert!(fields[0].required);
        }
        _ => panic!("expected a form"),
    }
    assert_eq!(next, state(r#"{ "phase": "probe" }"#));
}

#[test]
fn what_announced_itself_is_a_table() {
    let (asked, next) = step(
        state(
            r#"{ "mdns_candidates": [
                { "address": "10.0.0.2", "name": "Hue Bridge - A1._hue._tcp.local",
                  "txt": { "modelid": "BSB002", "bridgeid": "ab12" } },
                { "address": "127.0.0.1" },
                { "name": "no address" },
                { "address": "10.0.0.3", "txt": {} } ] }"#,
        ),
        "{}",
    );
    match asked {
        SetupStep::Pick { title, columns, rows, field, manual, .. } => {
            assert_eq!(title, "Found 3 Hue bridges");
            assert_eq!(columns, vec!["Bridge", "Address", "Model"]);
            assert_eq!(rows[0].cells, vec!["Hue Bridge - A1", "10.0.0.2", "BSB002"]);
            assert_eq!(rows[0].note, "id ab12");
            assert_eq!(rows[1].cells, vec!["Hue bridge", "127.0.0.1", "—"]);
            assert_eq!(rows[1].note, "on this machine only");
            assert_eq!(rows[2].note, "");
            assert_eq!(field, "address");
            assert!(manual.is_some());
        }
        _ => panic!("expected a table"),
    }
    assert_eq!(next, state(r#"{ "phase": "probe" }"#));
}

#[test]
fn an_address_is_checked_before_anyone_presses_anything() {
    let (asked, next) = step(state(r#"{ "phase": "probe" }"#), r#"{ "address": " 10.0.0.2 " }"#);
    assert_eq!(fetched(&asked).0.url, "https://10.0.0.2/api/config");
    assert!(fetched(&asked).0.headers.is_empty());
    assert_eq!(next, state(r#"{ "phase": "probed", "address": "10.0.0.2" }"#));
    // Without one it is asked for again.
    let (asked, _) = step(state(r#"{ "phase": "probe" }"#), "{}");
    assert!(matches!(asked, SetupStep::Form { .. }));
}

#[test]
fn what_is_no_bridge_is_refused() {
    let reason = failure(step(
        state(r#"{ "phase": "probed", "address": "10.0.0.9" }"#),
        r#"{ "response": { "modelid": "TV" } }"#,
    ));
    assert!(reason.starts_with("10.0.0.9 did not answer as a Hue bridge."));
    let (asked, next) = step(
        state(r#"{ "phase": "probed", "address": "10.0.0.2" }"#),
        r#"{ "response": { "modelid": "BSB002", "name": "Attic" } }"#,
    );
    match asked {
        SetupStep::Instruct { title, continue_label, .. } => {
            assert_eq!(title, "Press the link button on Attic");
            assert_eq!(continue_label, "I pressed it");
        }
        _ => panic!("expected an instruction"),
    }
    assert_eq!(
        next,
        state(r#"{ "phase": "pair", "address": "10.0.0.2", "name": "Attic" }"#)
    );
}

#[test]
fn pairing_is_tried_until_the_button_is_pressed_or_time_is_up() {
    let (asked, next) = step(state(r#"{ "phase": "pair", "address": "a" }"#), "{}");
    let (request, note) = fetched(&asked);
    assert_eq!(request.method, "POST");
    assert_eq!(request.url, "https://a/api");
    assert_eq!(
        request.body.as_deref(),
        Some(r#"{"devicetype":"juno#controller","generateclientkey":true}"#)
    );
    assert_eq!(note, "pairing");
    assert_eq!(next, state(r#"{ "phase": "paired", "address": "a", "attempt": 1 }"#));

    let unpressed = r#"{ "response": [{ "error": { "description": "link button not pressed" } }] }"#;
    let mut attempts: u64 = 0;
    let mut current = state(r#"{ "phase": "pair", "address": "a" }"#);
    let reason = loop {
        let (_, asked) = step(current, "{}");
        attempts += 1;
        assert_eq!(at(&asked, "attempt"), Some(&Json::integer(attempts)));
        let (answer, next) = step(asked, unpressed);
        match answer {
            SetupStep::Wait { retry_ms, .. } => assert_eq!(retry_ms, 1000),
            SetupStep::Failed { reason } => break reason,
            _ => panic!("neither waiting nor failed"),
        }
        current = next;
    };
    assert_eq!(attempts, 30);
    assert_eq!(reason, "the link button was not pressed in time — start again");
}

#[test]
fn other_refusals_are_passed_on() {
    let from = || state(r#"{ "phase": "paired", "address": "a", "attempt": 2 }"#);
    assert_eq!(
        failure(step(from(), r#"{ "response": [{ "error": { "description": "no" } }] }"#)),
        "no"
    );
    assert_eq!(failure(step(from(), "{}")), "the bridge did not answer");
}

#[test]
fn attempts_that_cannot_be_counted_cannot_be_made() {
    let full = state(r#"{ "phase": "pair", "attempt": 18446744073709551615 }"#);
    assert!(!is_ready(&full, &Object::new()));
}

#[test]
fn a_whole_bridge_is_set_up() {
    let (asked, next) = step(
        state(r#"{ "phase": "paired", "address": "10.0.0.2", "attempt": 3 }"#),
        r#"{ "response": [{ "success": { "username": "key-1" } }] }"#,
    );
    assert_eq!(fetched(&asked).0.url, "https://10.0.0.2/clip/v2/resource/device");
    assert_eq!(
        fetched(&asked).0.headers,
        vec![("hue-application-key".to_string(), "key-1".to_string())]
    );

    let (asked, next) = step(
        next,
        r#"{ "response": { "data": [
            { "id": "dev-1", "metadata": { "name": "Lamp" },
              "services": [{ "rid": "light-1", "rtype": "light" }] },
            { "id": "dev-2", "metadata": { "name": "Switch" },
              "product_data": { "product_name": "Hue dimmer switch" },
              "services": [{ "rid": "b2", "rtype": "button" }, { "rid": "b1", "rtype": "button" }] }
        ] } }"#,
    );
    assert_eq!(fetched(&asked).0.url, "https://10.0.0.2/clip/v2/resource/button");
    assert_eq!(at(&next, "phase"), Some(&Json::text("buttons")));

    let (asked, next) = step(
        next,
        r#"{ "response": { "data": [
            { "id": "b1", "metadata": { "control_id": 1 } },
            { "id": "b2", "metadata": { "control_id": 2 } } ] } }"#,
    );
    assert_eq!(fetched(&asked).0.url, "https://10.0.0.2/clip/v2/resource/room");

    let (asked, next) = step(
        next,
        r#"{ "response": { "data": [
            { "id": "room-1", "metadata": { "name": "Lounge" },
              "children": [{ "rid": "dev-1", "rtype": "device" }] } ] } }"#,
    );
    assert_eq!(fetched(&asked).0.url, "https://10.0.0.2/clip/v2/resource/behavior_instance");
    assert_eq!(at(&next, "rooms"), Some(&doc(r#"{ "room-1": "Lounge" }"#)));

    let (asked, next) = step(
        next,
        r#"{ "response": { "data": [
            { "configuration": { "device": { "rid": "dev-2", "rtype": "device" },
              "where": [{ "group": { "rid": "room-1", "rtype": "room" } }] } } ] } }"#,
    );
    assert_eq!(fetched(&asked).0.url, "https://10.0.0.2/clip/v2/resource/scene");

    let (asked, next) = step(
        next,
        r#"{ "response": { "data": [
            { "id": "scene-1", "metadata": { "name": "Relax" },
              "actions": [{ "target": { "rid": "light-1" },
                            "action": { "dimming": { "brightness": 40 } } }] } ] } }"#,
    );
    assert_eq!(fetched(&asked).0.url, "https://10.0.0.2/clip/v2/resource/light");
    assert_eq!(fetched(&asked).1, "reading the light list");

    let (asked, next) = step(
        next,
        r#"{ "response": { "errors": [], "data": [
            { "id": "light-1", "metadata": { "name": "Lamp" }, "on": { "on": true },
              "dimming": { "brightness": 10 } } ] } }"#,
    );
    let options = match asked {
        SetupStep::Choose { title, options, multiple, .. } => {
            assert_eq!(title, "1 light(s) and 1 accessory on this bridge");
            assert!(multiple);
            options
        }
        _ => panic!("expected a choice"),
    };
    assert_eq!(options[0].label, "Lamp");
    assert_eq!(options[0].kind, "light");
    assert_eq!(options[0].room, "Lounge");
    assert_eq!(options[0].verified, "dimmable — bridge reports it on");
    assert_eq!(options[1].label, "Switch");
    assert_eq!(options[1].room, "Lounge");
    assert_eq!(options[1].properties.get("Button 1 id"), Some(&Json::text("b1")));
    assert_eq!(at(&next, "key"), Some(&Json::text("key-1")));
    assert_eq!(at(&next, "browse"), Some(&Json::Bool(false)));
    assert_eq!(at(&next, "parent"), Some(&Json::Null));

    let (asked, next) = HueBulb.setup("signify.hue.bridge", next, &Object::new(), options);
    match asked {
        SetupStep::Form { title, body, fields } => {
            assert_eq!(title, "Bring over 1 scene?");
            assert!(body.starts_with("The bridge has 1 saved — Relax. Each is a set of levels"));
            assert_eq!(fields[0].options, vec!["Bring them over", "Leave them"]);
        }
        _ => panic!("expected a question"),
    }

    let (done, after) = step(next, r#"{ "scenes": "Bring them over" }"#);
    assert_eq!(after, SetupState::Values(Json::Null));
    match done {
        SetupStep::Done { devices, rules, scenes } => {
            assert_eq!(devices.len(), 3);
            assert_eq!(devices[0].driver_id, "signify.hue.bridge");
            assert_eq!(devices[0].verified, "2 device(s) behind it");
            assert_eq!(devices[0].properties.get("Application key"), Some(&Json::text("key-1")));
            assert_eq!(devices[1].properties.get("Application key"), None);
            assert_eq!(devices[1].properties.get("Light id"), Some(&Json::text("light-1")));
            assert_eq!(rules.len(), 2);
            assert!(rules.iter().all(|r| r.when_device == 2));
            assert_eq!(scenes.len(), 1);
            assert_eq!(
                scenes[0].steps,
                vec![ImportedAction::Device {
                    device: 1,
                    proxy: 1,
                    command: "set_level".to_string(),
                    args: Object::new().with("level", Json::integer(40)),
                }]
            );
        }
        _ => panic!("expected the end"),
    }
}

fn lamp() -> Candidate {
    Candidate {
        label: "Lamp".to_string(),
        kind: "light".to_string(),
        driver_id: "signify.hue.bulb".to_string(),
        properties: Object::new()
            .with("Bridge address", Json::text("a"))
            .with("Application key", Json::text("k"))
            .with("Light id", Json::text("l1")),
        verified: String::new(),
        room: "Lounge".to_string(),
    }
}

#[test]
fn browsing_adds_only_what_is_behind_the_bridge() {
    let from = || {
        state(
            r#"{ "browse": true, "Bridge address": "10.0.0.2", "Application key": "k",
                 "parent": 7 }"#,
        )
    };
    let (asked, next) = HueBulb.discover("signify.hue.bulb", from(), &Object::new(), Vec::new());
    assert_eq!(fetched(&asked).0.url, "https://10.0.0.2/clip/v2/resource/device");
    assert_eq!(
        next,
        state(
            r#"{ "phase": "devices", "address": "10.0.0.2", "key": "k", "browse": true, "parent": 7 }"#
        )
    );
    let (done, _) = HueBulb.step(
        state(r#"{ "phase": "chosen", "browse": true, "key": "k" }"#),
        &Object::new(),
        vec![lamp()],
    );
    match done {
        SetupStep::Done { devices, rules, scenes } => {
            assert_eq!(devices.len(), 1);
            assert_eq!(devices[0].driver_id, "signify.hue.bulb");
            assert_eq!(devices[0].properties.entries.len(), 1);
            assert!(rules.is_empty() && scenes.is_empty());
        }
        _ => panic!("expected the end"),
    }
    assert_eq!(
        failure(step(state(r#"{ "browse": true, "Bridge address": "a" }"#), "{}")),
        "this bridge has no address or key set — pair it first"
    );
}

#[test]
fn a_bridge_of_accessories_is_not_refused_and_an_empty_one_is() {
    let (asked, _) = step(
        state(
            r#"{ "phase": "lights", "address": "a", "key": "k",
                 "catalog": [{ "id": "d", "motion": "m" }, { "id": "e", "motion": "n" }] }"#,
        ),
        r#"{ "response": { "data": [] } }"#,
    );
    match asked {
        SetupStep::Choose { title, options, .. } => {
            assert_eq!(title, "2 accessories on this bridge");
            assert_eq!(options[0].verified, "reports motion");
        }
        _ => panic!("expected a choice"),
    }
    let lights = || state(r#"{ "phase": "lights", "address": "a", "key": "k" }"#);
    assert_eq!(
        failure(step(lights(), r#"{ "response": { "data": [] } }"#)),
        "the bridge reported nothing paired to it — add your lights and accessories in the Hue app first"
    );
    assert_eq!(
        failure(step(
            lights(),
            r#"{ "response": { "errors": [{ "description": "unauthorized" }] } }"#
        )),
        "the bridge refused the light list: unauthorized"
    );
    assert_eq!(plural(1), "y");
    assert_eq!(plural(0), "ies");
}

#[test]
fn what_a_bulb_can_do_is_said_beside_it() {
    let (asked, _) = step(
        state(r#"{ "phase": "lights", "address": "a", "key": "k" }"#),
        r#"{ "response": { "data": [
            { "id": "1", "metadata": { "name": "D" }, "on": { "on": false } },
            { "id": "2", "metadata": { "name": "C" }, "color": {}, "color_temperature": {} },
            { "id": "3", "metadata": { "name": "B" }, "color_temperature": {}, "on": { "on": true } },
            { "metadata": { "name": "no id" } } ] } }"#,
    );
    match asked {
        SetupStep::Choose { title, options, .. } => {
            assert_eq!(title, "3 light(s) on this bridge");
            let said: Vec<(&str, &str)> = options
                .iter()
                .map(|c| (c.label.as_str(), c.verified.as_str()))
                .collect();
            assert_eq!(
                said,
                vec![
                    ("B", "tunable white — bridge reports it on"),
                    ("C", "colour — bridge cannot reach it — is it powered?"),
                    ("D", "on/off — bridge reports it off"),
                ]
            );
        }
        _ => panic!("expected a choice"),
    }
}

#[test]
fn leaving_the_scenes_takes_everything_else() {
    let response = doc(
        r#"{ "data": [
            { "id": "1", "metadata": { "name": "A" }, "actions": [{ "target": { "rid": "l1" }, "action": {} }] },
            { "id": "2", "metadata": { "name": "B" }, "actions": [{ "target": { "rid": "l1" }, "action": {} }] },
            { "id": "3", "metadata": { "name": "C" }, "actions": [{ "target": { "rid": "l1" }, "action": {} }] },
            { "id": "4", "metadata": { "name": "D" }, "actions": [{ "target": { "rid": "l1" }, "action": {} }] },
            { "id": "5", "metadata": { "name": "E" }, "actions": [{ "target": { "rid": "l1" }, "action": {} }] }
        ] }"#,
    );
    let devices = vec![lamp()];
    let scenes = signify_hue::imports::scenes(Some(&response), &devices);
    let (asked, next) = ask_about_scenes(devices, Vec::new(), scenes);
    match asked {
        SetupStep::Form { title, body, .. } => {
            assert_eq!(title, "Bring over 5 scenes?");
            assert!(body.starts_with("The bridge has 5 saved — A, B, C, D and others. Each is"));
        }
        _ => panic!("expected a question"),
    }
    let (done, _) = step(next, r#"{ "scenes": "Leave them" }"#);
    match done {
        SetupStep::Done { devices, scenes, .. } => {
            assert_eq!(devices.len(), 1);
            assert!(scenes.is_empty());
        }
        _ => panic!("expected the end"),
    }
}

#[test]
fn an_unknown_phase_is_a_failure() {
    assert_eq!(
        failure(step(state(r#"{ "phase": "lunch" }"#), "{}")),
        "unknown setup phase `lunch`"
    );
    let (done, _) = step(state(r#"{ "phase": "scene_choice" }"#), "{}");
    assert!(matches!(done, SetupStep::Done { .. }));
    let unread = state(r#"{ "phase": "scene_choice", "devices": [] }"#);
    assert!(!is_ready(&unread, &Object::new()));
}

#[test]
fn a_catalog_that_cannot_be_written_into_is_noticed() {
    let odd = state(
        r#"{ "phase": "behaviours", "rooms": { "r": "Hall" }, "catalog": ["odd"] }"#,
    );
    let with = input(
        r#"{ "response": { "data": [{ "a": { "rid": "", "rtype": "device" },
                                      "b": { "rid": "r", "rtype": "room" } }] } }"#,
    );
    assert!(!is_ready(&odd, &with));
    assert!(is_ready(&odd, &Object::new()));
    assert_eq!(json::str_of(values(&odd).get("phase")), Some("behaviours"));
}
