//! Commands to a bulb, and what is heard of it.

use signify_hue::bulb::{level_body, HueBulb};
use signify_hue::host::{HostCall, HttpRequest, Instance};
use signify_hue::json::{Json, Number, Object};
use signify_hue::role::Role;
use signify_hue::wire;

fn doc(source: &str) -> Json {
    wire::parse(source).unwrap()
}

fn float(t: &str) -> Number {
    Number::Float(t.to_string())
}

fn bulb() -> Instance {
    let mut inst = Instance::new();
    inst.properties.insert("Bridge address", Json::text("192.0.2.10"));
    inst.properties.insert("Application key", Json::text("secret"));
    inst.properties.insert("Light id", Json::text("light-1"));
    inst
}

fn args(members: &[(&str, Json)]) -> Object {
    let mut out = Object::new();
    for (key, value) in members {
        out.insert(key, value.clone());
    }
    out
}

fn command(inst: &mut Instance, cmd: &str, arguments: &Object) -> Vec<HostCall> {
    HueBulb.on_command(inst, 1, cmd, arguments, &float("0.5"), &float("0.25"))
}

fn sent(call: &HostCall) -> &HttpRequest {
    match call {
        HostCall::Http(request) => request,
        _ => panic!("expected a request"),
    }
}

fn level_changed(level: u64) -> HostCall {
    HostCall::notify(1, "level_changed", Object::new().with("level", Json::integer(level)))
}

#[test]
fn a_level_of_nothing_is_off() {
    assert_eq!(level_body(0, None), doc(r#"{ "on": { "on": false } }"#));
    assert_eq!(
        level_body(42, Some(9_999_999)),
        doc(
            r#"{ "on": { "on": true }, "dimming": { "brightness": 42.0 },
                 "dynamics": { "duration": 6553000 } }"#
        )
    );
    assert_eq!(
        level_body(0, Some(400)),
        doc(r#"{ "on": { "on": false }, "dynamics": { "duration": 400 } }"#)
    );
}

#[test]
fn a_command_is_one_request_and_a_report() {
    let mut inst = bulb();
    let calls = command(&mut inst, "set_level", &args(&[("level", Json::integer(35))]));
    assert_eq!(calls.len(), 2);
    let request = sent(&calls[0]);
    assert_eq!(request.method, "PUT");
    assert_eq!(request.url, "https://192.0.2.10/clip/v2/resource/light/light-1");
    assert_eq!(
        request.headers,
        vec![("hue-application-key".to_string(), "secret".to_string())]
    );
    assert_eq!(
        request.body.as_deref(),
        Some(r#"{"dimming":{"brightness":35.0},"on":{"on":true}}"#)
    );
    assert_eq!(calls[1], level_changed(35));
    assert_eq!(inst.scratch.get("level"), Some(&Json::integer(35)));
    assert_eq!(inst.scratch.get("on"), Some(&Json::Bool(true)));
}

#[test]
fn switching_on_restores_the_last_level() {
    let mut inst = bulb();
    let none = Object::new();
    assert_eq!(command(&mut inst, "on", &none)[1], level_changed(100));
    command(&mut inst, "set_level", &args(&[("level", Json::integer(35))]));
    assert_eq!(command(&mut inst, "off", &none)[1], level_changed(0));
    assert_eq!(inst.scratch.get("level"), Some(&Json::integer(35)));
    assert_eq!(command(&mut inst, "on", &none)[1], level_changed(35));
    assert_eq!(command(&mut inst, "toggle", &none)[1], level_changed(0));
    assert_eq!(command(&mut inst, "toggle", &none)[1], level_changed(35));
}

#[test]
fn a_level_beyond_a_byte_wraps() {
    let mut inst = bulb();
    let calls = command(&mut inst, "set_level", &args(&[("level", Json::integer(300))]));
    assert_eq!(calls[1], level_changed(44));
    let calls = command(&mut inst, "set_level", &Object::new());
    assert_eq!(calls[1], level_changed(0));
}

#[test]
fn a_colour_temperature_is_sent_in_mireds() {
    let mut inst = bulb();
    let calls = command(&mut inst, "set_cct", &args(&[("kelvin", Json::integer(4000))]));
    assert_eq!(
        sent(&calls[0]).body.as_deref(),
        Some(r#"{"color_temperature":{"mirek":250}}"#)
    );
    assert_eq!(
        calls[1],
        HostCall::notify(1, "cct_changed", Object::new().with("kelvin", Json::integer(4000)))
    );
    assert_eq!(calls.len(), 2);
    let calls = command(&mut inst, "set_cct", &args(&[("kelvin", Json::integer(0))]));
    assert_eq!(
        sent(&calls[0]).body.as_deref(),
        Some(r#"{"color_temperature":{"mirek":500}}"#)
    );
    let calls = command(&mut inst, "set_cct", &Object::new());
    assert_eq!(
        sent(&calls[0]).body.as_deref(),
        Some(r#"{"color_temperature":{"mirek":370}}"#)
    );
    assert_eq!(calls.len(), 1);
}

#[test]
fn a_colour_is_sent_as_a_point() {
    let mut inst = bulb();
    let calls = command(&mut inst, "set_color", &args(&[("hue", Json::integer(120))]));
    assert_eq!(
        sent(&calls[0]).body.as_deref(),
        Some(r#"{"color":{"xy":{"x":0.5,"y":0.25}}}"#)
    );
    assert_eq!(
        calls[1],
        HostCall::notify(
            1,
            "color_changed",
            Object::new().with("hue", Json::integer(120)).with("sat", doc("0.0"))
        )
    );
}

#[test]
fn a_held_key_is_a_long_fade() {
    let mut inst = bulb();
    let up = args(&[("direction", Json::text("up"))]);
    let calls = command(&mut inst, "ramp_start", &up);
    assert_eq!(
        sent(&calls[0]).body.as_deref(),
        Some(r#"{"dimming":{"brightness":100.0},"dynamics":{"duration":4000},"on":{"on":true}}"#)
    );
    assert_eq!(command(&mut inst, "ramp_start", &Object::new())[1], level_changed(1));
    assert_eq!(command(&mut inst, "ramp_stop", &Object::new())[1], level_changed(1));
}

#[test]
fn what_cannot_be_carried_out_is_a_warning() {
    let mut inst = bulb();
    assert_eq!(
        command(&mut inst, "explode", &Object::new()),
        vec![HostCall::Warn("hue: unhandled `explode`".to_string())]
    );
    inst.properties.insert("Light id", Json::text(""));
    assert_eq!(
        command(&mut inst, "on", &Object::new()),
        vec![HostCall::Warn(
            "hue: set Bridge address and Light id on this device first".to_string()
        )]
    );
    assert_eq!(inst.scratch, Object::new());
}

#[test]
fn a_frame_is_the_whole_house() {
    let mut inst = bulb();
    let line = r#"[{"type":"update","data":[
        {"id":"somebody-else","on":{"on":false}},
        {"id":"light-1","type":"light","dimming":{"brightness":41.5}}]},
        {"data":[{"id":"light-1","color_temperature":{"mirek":250},
                  "color":{"xy":{"x":0.4,"y":1}}}]}]"#;
    let frame = args(&[("data", Json::text(line))]);
    let calls = HueBulb.on_event(&mut inst, 0, "rx", &frame);
    assert_eq!(
        calls,
        vec![
            level_changed(42),
            level_changed(42),
            HostCall::notify(1, "cct_changed", Object::new().with("kelvin", Json::integer(4000))),
            HostCall::notify(
                1,
                "color_changed",
                Object::new().with("hue", doc("0.4")).with("sat", doc("1.0"))
            ),
        ]
    );
    assert_eq!(inst.scratch.get("level"), Some(&Json::integer(42)));
}

#[test]
fn a_keep_alive_is_nothing() {
    let mut inst = bulb();
    for line in [": hi", "[{", "{}", "42"] {
        let frame = args(&[("data", Json::text(line))]);
        assert!(HueBulb.on_stream(&mut inst, &frame).is_empty());
    }
    assert!(HueBulb.on_stream(&mut inst, &Object::new()).is_empty());
    assert!(HueBulb.on_event(&mut inst, 0, "connected", &Object::new()).is_empty());
}

#[test]
fn a_missing_field_keeps_what_was_known() {
    let mut inst = bulb();
    let hear = |inst: &mut Instance, source: &str| HueBulb::report(inst, &doc(source));
    assert!(hear(&mut inst, r#"{ "id": "light-1" }"#).is_empty());
    assert_eq!(hear(&mut inst, r#"{ "dimming": { "brightness": 60 } }"#), vec![level_changed(60)]);
    assert_eq!(hear(&mut inst, r#"{ "on": { "on": false } }"#), vec![level_changed(0)]);
    assert_eq!(inst.scratch.get("level"), Some(&Json::integer(60)));
    assert_eq!(hear(&mut inst, r#"{ "on": { "on": true } }"#), vec![level_changed(60)]);
    assert_eq!(hear(&mut inst, r#"{ "color_temperature": { "mirek": 0 } }"#), vec![level_changed(60)]);
    assert_eq!(
        hear(&mut inst, r#"{ "on": { "on": true }, "dimming": { "brightness": 0.3 } }"#),
        vec![level_changed(1)]
    );
    assert_eq!(
        hear(&mut inst, r#"{ "on": { "on": true }, "dimming": { "brightness": 1e9 } }"#),
        vec![level_changed(100)]
    );
}

#[test]
fn an_answer_is_searched_for_ones_own_lines() {
    let mut inst = bulb();
    let body = doc(
        r#"{ "errors": [], "data": [
            { "id": "light-2", "on": { "on": true } },
            { "id": "light-1", "on": { "on": true }, "dimming": { "brightness": 12.4 } } ] }"#,
    );
    let calls = HueBulb.on_event(&mut inst, 0, "http_response", &args(&[("body", body)]));
    assert_eq!(calls, vec![level_changed(12)]);
    assert!(HueBulb
        .on_event(&mut inst, 0, "http_response", &Object::new())
        .is_empty());
}

#[test]
fn the_bridge_hears_nothing_and_a_sensor_hears_itself() {
    let mut bridge = Instance::new();
    let line = r#"[{"data":[{"id":"m1","motion":{"motion":true}}]}]"#;
    let frame = args(&[("data", Json::text(line))]);
    assert_eq!(Role::of(&bridge), Role::Bridge);
    assert!(HueBulb.on_stream(&mut bridge, &frame).is_empty());
    let mut sensor = Instance::new();
    sensor.properties.insert("Motion id", Json::text("m1"));
    assert_eq!(
        HueBulb.on_stream(&mut sensor, &frame),
        vec![HostCall::notify(
            1,
            "detected_changed",
            Object::new().with("detected", Json::Bool(true))
        )]
    );
    let mut remote = Instance::new();
    remote.properties.insert("Button 1 id", Json::text("b1"));
    let line = r#"[{"data":[{"id":"b1","button":{"last_event":"repeat"}}]}]"#;
    let calls = HueBulb.on_stream(&mut remote, &args(&[("data", Json::text(line))]));
    assert_eq!(calls.len(), 2);
}

#[test]
fn the_bridge_opens_one_stream_and_reads_states_but_no_buttons() {
    let mut inst = Instance::new();
    inst.properties.insert("Bridge address", Json::text("192.0.2.10"));
    inst.properties.insert("Application key", Json::text("secret"));
    let calls = HueBulb.on_bind(&mut inst);
    assert_eq!(calls.len(), 7);
    assert_eq!(
        calls[0],
        HostCall::notify(1, "online_changed", Object::new().with("online", Json::Bool(true)))
    );
    assert_eq!(
        calls[1],
        HostCall::Tx {
            control: 0,
            data: b"GET /eventstream/clip/v2 HTTP/1.1\r\nHost: 192.0.2.10\r\nAccept: text/event-stream\r\nCache-Control: no-cache\r\nhue-application-key: secret\r\n\r\n".to_vec(),
        }
    );
    let urls: Vec<&str> = calls[2..].iter().map(|c| sent(c).url.as_str()).collect();
    assert_eq!(
        urls,
        vec![
            "https://192.0.2.10/clip/v2/resource/light",
            "https://192.0.2.10/clip/v2/resource/motion",
            "https://192.0.2.10/clip/v2/resource/temperature",
            "https://192.0.2.10/clip/v2/resource/light_level",
            "https://192.0.2.10/clip/v2/resource/device_power",
        ]
    );
}

#[test]
fn everything_behind_the_bridge_only_comes_online() {
    let mut dial = Instance::new();
    for name in ["Button 1 id", "Button 2 id", "Button 4 id", "Rotary id"] {
        dial.properties.insert(name, Json::text("x"));
    }
    dial.properties.insert("Bridge address", Json::text("192.0.2.10"));
    dial.properties.insert("Application key", Json::text("secret"));
    let proxies: Vec<u32> = HueBulb
        .on_bind(&mut dial)
        .iter()
        .map(|c| match c {
            HostCall::Notify { proxy, .. } => *proxy,
            _ => panic!("only reports"),
        })
        .collect();
    assert_eq!(proxies, vec![1, 2, 4, 5]);
    let mut sensor = Instance::new();
    sensor.properties.insert("Motion id", Json::text("m"));
    sensor.properties.insert("Light level id", Json::text("l"));
    assert_eq!(Role::of(&sensor).bindings(&sensor), vec![1, 3]);
    assert_eq!(HueBulb.on_bind(&mut bulb()).len(), 1);
}

#[test]
fn an_answer_can_be_cut_anywhere_and_strangers_left_out() {
    let resources = vec![
        doc(r#"{ "id": "light-2", "dimming": { "brightness": 5 } }"#),
        doc(r#"{ "id": "light-1", "dimming": { "brightness": 70 } }"#),
        doc(r#"{ "on": { "on": false } }"#),
        doc(r#"{ "id": "light-1", "on": { "on": false } }"#),
        doc(r#"{ "id": "light-1", "on": { "on": true } }"#),
    ];
    let mut whole = bulb();
    let calls = HueBulb::all_mine(&mut whole, &resources);
    assert_eq!(calls, vec![level_changed(70), level_changed(0), level_changed(70)]);
    let mut cut = bulb();
    let mut some = HueBulb::all_mine(&mut cut, &resources[..3].to_vec());
    some.extend(HueBulb::all_mine(&mut cut, &resources[3..].to_vec()));
    assert_eq!(some, calls);
    assert_eq!(cut, whole);
    let own = vec![resources[1].clone(), resources[3].clone(), resources[4].clone()];
    let mut alone = bulb();
    assert_eq!(HueBulb::all_mine(&mut alone, &own), calls);
    assert_eq!(alone, whole);
}

#[test]
fn a_light_that_cannot_be_addressed_has_no_request() {
    assert!(HueBulb::request(&bulb(), Json::Null).is_some());
    assert!(HueBulb::request(&Instance::new(), Json::Null).is_none());
    assert_eq!(HueBulb::optimistic(7), vec![level_changed(7)]);
}

#[test]
fn a_line_is_heard_the_same_without_strangers() {
    let full = r#"[{"data":[{"id":"light-2","on":{"on":false}},
                            {"id":"light-1","dimming":{"brightness":20}}]},
                   {"data":[{"id":"light-3","on":{"on":true}}]}]"#;
    let own = r#"[{"data":[{"id":"light-1","dimming":{"brightness":20}}]},{"data":[]}]"#;
    let strangers = r#"[{"data":[{"id":"light-2","on":{"on":false}}]}]"#;
    let mut first = bulb();
    let mut second = bulb();
    let mut third = bulb();
    let hear = |inst: &mut Instance, line: &str| {
        HueBulb.on_stream(inst, &args(&[("data", Json::text(line))]))
    };
    assert_eq!(hear(&mut first, full), vec![level_changed(20)]);
    assert_eq!(hear(&mut second, own), vec![level_changed(20)]);
    assert_eq!(first, second);
    assert!(hear(&mut third, strangers).is_empty());
    assert_eq!(third, bulb());
}
