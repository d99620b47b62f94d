//! Presses, dials and readings.

use signify_hue::button;
use signify_hue::button::{action, event, rotation};
use signify_hue::host::{Conversion, HostCall, Instance};
use signify_hue::json;
use signify_hue::json::{Json, Number, Object};
use signify_hue::sensor;
use signify_hue::sensor::reading;
use signify_hue::wire;

fn doc(source: &str) -> Json {
    wire::parse(source).unwrap()
}

fn device(properties: &[(&str, &str)]) -> Instance {
    let mut inst = Instance::new();
    for (name, value) in properties {
        inst.properties.insert(name, Json::text(value));
    }
    inst
}

#[test]
fn the_press_on_the_way_to_a_click_is_not_reported() {
    // Every interaction starts with this. Acting on it would fire a rule twice.
    assert_eq!(action("initial_press"), None);
    assert_eq!(action("short_release"), Some("clicked"));
    assert_eq!(action("long_press"), Some("held"));
    assert_eq!(action("long_release"), Some("released"));
    assert_eq!(action("repeat"), Some("repeating"));
}

#[test]
fn both_firmware_shapes_of_an_event_are_read() {
    let old = doc(r#"{ "button": { "last_event": "short_release" } }"#);
    let new = doc(
        r#"{ "button": { "button_report": { "event": "long_press" },
                         "last_event": "short_release" } }"#,
    );
    assert_eq!(event(&old), Some("short_release"));
    // The report is the current one where a bridge sends both.
    assert_eq!(event(&new), Some("long_press"));
}

#[test]
fn a_dial_that_has_only_started_moving_is_not_a_rotation() {
    let started = doc(
        r#"{ "relative_rotary": { "last_event": {
            "action": "start", "rotation": { "direction": "clock_wise" } } } }"#,
    );
    assert_eq!(rotation(&started), None);

    let turned = doc(
        r#"{ "relative_rotary": { "rotary_report": {
            "rotation": { "direction": "counter_clock_wise", "steps": 30 } } } }"#,
    );
    assert_eq!(rotation(&turned), Some(("counter_clock_wise", 30)));
}

#[test]
fn the_deprecated_flat_reading_is_still_read() {
    let old = doc(r#"{ "motion": { "motion": true, "motion_valid": true } }"#);
    let new = doc(r#"{ "motion": { "motion_report": { "motion": true }, "motion": false } }"#);
    assert_eq!(json::bool_of(reading(&old, "motion", "motion")), Some(true));
    // Where both are present the report wins: it is the one the bridge keeps current.
    assert_eq!(json::bool_of(reading(&new, "motion", "motion")), Some(true));
}

#[test]
fn every_gesture_has_a_name_and_nothing_else_does() {
    assert_eq!(action("double_short_release"), Some("double_clicked"));
    assert_eq!(action("triple_short_release"), Some("triple_clicked"));
    assert_eq!(action(""), None);
    assert_eq!(action("Short_release"), None);
}

#[test]
fn a_press_names_its_key_and_shows_it() {
    let inst = device(&[("Button 1 id", "b1"), ("Button 2 id", "b2")]);
    let calls = button::report(
        &inst,
        &doc(r#"{ "id": "b2", "button": { "last_event": "long_press" } }"#),
    );
    assert_eq!(
        calls,
        vec![
            HostCall::notify(1, "held", Object::new().with("key", Json::integer(2))),
            HostCall::SetState {
                proxy: 1,
                key: "last_action".to_string(),
                value: Json::text("key 2 held"),
            },
        ]
    );
}

#[test]
fn an_initial_press_and_somebody_elses_button_report_nothing() {
    let inst = device(&[("Button 1 id", "b1")]);
    let early = doc(r#"{ "id": "b1", "button": { "last_event": "initial_press" } }"#);
    assert!(button::report(&inst, &early).is_empty());
    let other = doc(r#"{ "id": "b9", "button": { "last_event": "short_release" } }"#);
    assert!(button::report(&inst, &other).is_empty());
    let nameless = doc(r#"{ "button": { "last_event": "short_release" } }"#);
    assert!(button::report(&inst, &nameless).is_empty());
}

#[test]
fn a_dial_turns_one_way_or_the_other() {
    let inst = device(&[("Rotary id", "r1")]);
    let right = doc(
        r#"{ "id": "r1", "relative_rotary": { "rotary_report": {
            "rotation": { "direction": "clock_wise", "steps": 15 } } } }"#,
    );
    assert_eq!(
        button::report(&inst, &right),
        vec![
            HostCall::notify(
                1,
                "rotated_clockwise",
                Object::new().with("steps", Json::integer(15))
            ),
            HostCall::SetState {
                proxy: 1,
                key: "last_action".to_string(),
                value: Json::text("rotated_clockwise"),
            },
        ]
    );
    let left = doc(
        r#"{ "id": "r1", "relative_rotary": { "last_event": {
            "rotation": { "direction": "anything else", "steps": 3 } } } }"#,
    );
    assert_eq!(
        button::report(&inst, &left)[0],
        HostCall::notify(
            1,
            "rotated_counter_clockwise",
            Object::new().with("steps", Json::integer(3))
        )
    );
}

#[test]
fn a_battery_is_never_more_than_full() {
    let inst = device(&[("Button 1 id", "b1"), ("Power id", "p1")]);
    let full = doc(r#"{ "id": "p1", "power_state": { "battery_level": 250 } }"#);
    let some = doc(r#"{ "id": "p1", "power_state": { "battery_level": 42 } }"#);
    let percent = |n: u64| {
        vec![HostCall::notify(
            1,
            "battery_changed",
            Object::new().with("percent", Json::integer(n)),
        )]
    };
    assert_eq!(button::report(&inst, &full), percent(100));
    assert_eq!(button::report(&inst, &some), percent(42));
    assert_eq!(sensor::report(&inst, &some), percent(42));
    assert!(button::report(&inst, &doc(r#"{ "id": "p1" }"#)).is_empty());
}

#[test]
fn each_measurement_lands_on_its_own_binding() {
    let inst = device(&[
        ("Motion id", "m1"),
        ("Temperature id", "t1"),
        ("Light level id", "l1"),
    ]);
    assert_eq!(
        sensor::report(&inst, &doc(r#"{ "id": "m1", "motion": { "motion": true } }"#)),
        vec![HostCall::notify(
            1,
            "detected_changed",
            Object::new().with("detected", Json::Bool(true))
        )]
    );
    assert_eq!(
        sensor::report(
            &inst,
            &doc(r#"{ "id": "t1", "temperature": { "temperature": 21.37 } }"#)
        ),
        vec![HostCall::NotifyConverted {
            proxy: 2,
            name: "value_changed".to_string(),
            key: "value".to_string(),
            conversion: Conversion::Celsius,
            raw: Number::Float("21.37".to_string()),
        }]
    );
    assert_eq!(
        sensor::report(
            &inst,
            &doc(r#"{ "id": "l1", "light": { "light_level_report": { "light_level": 20001 } } }"#)
        ),
        vec![HostCall::NotifyConverted {
            proxy: 3,
            name: "value_changed".to_string(),
            key: "value".to_string(),
            conversion: Conversion::Lux,
            raw: Number::PosInt(20001),
        }]
    );
    assert!(sensor::report(&inst, &doc(r#"{ "id": "m1", "motion": { "motion": "yes" } }"#)).is_empty());
    assert!(sensor::report(&inst, &doc(r#"{ "id": "m2", "motion": { "motion": true } }"#)).is_empty());
}
