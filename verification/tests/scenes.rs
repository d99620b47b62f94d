//! Scenes on the bridge: borrowed ones and published ones.

use signify_hue::borrowed::borrowed_scene_snapshots;
use signify_hue::bridge::{HUE_BRIDGE_ID, HUE_ZONES};
use signify_hue::follow::{on_collection_response, on_zone_response, zone_write_pending};
use signify_hue::host::{
    GroupDisposition, HostCall, HttpRequest, Instance, SceneAction, SceneAnimation, SceneEffect,
    SceneMember, SceneOperation, SceneOwnership, ScenePaletteColor, SceneRecall, SceneRequest,
    SceneResponse,
};
use signify_hue::json::{Json, Number, Object};
use signify_hue::publish::{
    cache_effects_v2, capabilities, exact_group, hue_action, member_light_ids, owned_scene_name,
    validate_animation, HUE_EFFECTS_V2, HUE_LIGHTS, HUE_ROOMS,
};
use signify_hue::scene::{
    handle, remove_scene_link, scene_link, set_scene_link, status, HUE_SCENES,
};
use signify_hue::wire;

fn doc(source: &str) -> Json {
    wire::parse(source).unwrap()
}

fn float(t: &str) -> Number {
    Number::Float(t.to_string())
}

fn bridge() -> Instance {
    let mut inst = Instance::new();
    inst.properties.insert("Bridge address", Json::text("192.0.2.10"));
    inst.properties.insert("Application key", Json::text("secret"));
    inst.scratch.insert(HUE_BRIDGE_ID, Json::text("BRIDGE-A"));
    inst
}

fn still() -> SceneAnimation {
    SceneAnimation {
        enabled: false,
        palette: Vec::new(),
        speed: None,
        auto_dynamic: false,
        effects: Vec::new(),
    }
}

fn borrowed(operation: SceneOperation) -> SceneRequest {
    SceneRequest {
        scene: 7,
        name: "Relax".into(),
        ownership: SceneOwnership::Borrowed,
        resource: Some("hue-relax".into()),
        members: Vec::new(),
        animation: still(),
        operation,
    }
}

fn member() -> SceneMember {
    let mut light = Instance::new();
    light.properties.insert("Light id", Json::text("light-1"));
    light.scratch.insert(HUE_EFFECTS_V2, doc(r#"["candle", "fire"]"#));
    SceneMember {
        device: 2,
        proxy: 1,
        instance: light,
        actions: vec![SceneAction {
            command: "set_level".into(),
            args: Object::new().with("level", Json::integer(35)),
            x: float("0.0"),
            y: float("0.0"),
        }],
    }
}

fn owned(operation: SceneOperation, effect: &str) -> SceneRequest {
    SceneRequest {
        scene: 8,
        name: "Fireside".into(),
        ownership: SceneOwnership::Juno,
        resource: None,
        members: vec![member()],
        animation: SceneAnimation {
            enabled: true,
            palette: vec![ScenePaletteColor {
                x: float("0.62"),
                y: float("0.34"),
                brightness: Some(float("35.0")),
            }],
            speed: Some(float("0.4")),
            auto_dynamic: true,
            effects: vec![SceneEffect {
                device: 2,
                effect: effect.into(),
            }],
        },
        operation,
    }
}

fn http(response: &SceneResponse) -> &HttpRequest {
    match &response.calls[0] {
        HostCall::Http(request) => request,
        _ => panic!("expected one HTTP request"),
    }
}

fn body_of(request: &HttpRequest) -> Json {
    doc(request.body.as_deref().unwrap())
}

fn item(list: Option<&Json>, i: usize) -> Option<&Json> {
    match list {
        Some(Json::Arr(items)) => items.get(i),
        _ => None,
    }
}

fn answer(method: &str, url: &str, body: Json) -> Object {
    Object::new()
        .with("method", Json::text(method))
        .with("url", Json::text(url))
        .with("status", Json::integer(200))
        .with("body", body)
}

#[test]
fn runtime_scene_inventory_imports_only_hue_owned_resources() {
    let scenes = vec![
        doc(
            r#"{
                "id": "hue-relax",
                "metadata": { "name": "Relax" },
                "palette": { "color": [{ "color": { "xy": { "x": 0.4, "y": 0.3 } } }] },
                "actions": [{
                    "target": { "rid": "light-one", "rtype": "light" },
                    "action": {
                        "on": { "on": true },
                        "dimming": { "brightness": 37.0 },
                        "color_temperature": { "mirek": 250 }
                    }
                }]
            }"#,
        ),
        doc(
            r#"{
                "id": "juno-owned",
                "metadata": { "name": "Evening [Juno 00000007]", "appdata": "juno:00000007" },
                "actions": [{
                    "target": { "rid": "light-one", "rtype": "light" },
                    "action": { "dimming": { "brightness": 10.0 } }
                }]
            }"#,
        ),
    ];
    let imported = borrowed_scene_snapshots(&scenes);
    assert_eq!(imported.len(), 1, "Juno-owned scenes stay Juno-owned");
    assert_eq!(imported[0].resource, "hue-relax");
    assert_eq!(imported[0].title, "Relax");
    assert!(imported[0].dynamic_palette);
    assert_eq!(imported[0].steps.len(), 2);
    assert_eq!(
        imported[0].steps[0].properties.get("Light id"),
        Some(&Json::text("light-one"))
    );
    assert_eq!(imported[0].steps[0].args.get("level"), Some(&Json::integer(37)));
    assert_eq!(imported[0].steps[1].args.get("kelvin"), Some(&Json::integer(4000)));
}

#[test]
fn a_borrowed_scene_can_be_recalled_but_never_synchronized() {
    let mut inst = bridge();
    inst.scratch.insert(
        HUE_SCENES,
        doc(
            r#"[{
                "id": "hue-relax",
                "metadata": { "name": "Relax" },
                "palette": { "color": [{ "color": { "xy": { "x": 0.5, "y": 0.4 } } }] }
            }]"#,
        ),
    );

    let dynamic = handle(
        &mut inst,
        &borrowed(SceneOperation::Recall {
            mode: SceneRecall::Dynamic,
        }),
    );
    assert_eq!(dynamic.disposition, GroupDisposition::Handled);
    assert_eq!(
        dynamic.calls.len(),
        1,
        "recall is one bridge-side operation"
    );
    assert!(http(&dynamic).url.ends_with("/resource/scene/hue-relax"));
    let body = body_of(http(&dynamic));
    assert_eq!(
        body.get2("recall", "action"),
        Some(&Json::text("dynamic_palette"))
    );

    let sync = handle(&mut inst, &borrowed(SceneOperation::Synchronize));
    assert_eq!(sync.disposition, GroupDisposition::Refused);
    assert!(
        sync.calls.is_empty(),
        "borrowed scenes must never be written"
    );
}

#[test]
fn a_supported_effect_is_published_in_one_native_scene_write() {
    let mut inst = bridge();
    inst.scratch.insert(
        HUE_ZONES,
        doc(
            r#"[{
                "id": "zone-1",
                "type": "zone",
                "metadata": { "name": "Lounge" },
                "children": [{ "rid": "light-1", "rtype": "light" }]
            }]"#,
        ),
    );
    inst.scratch.insert(HUE_SCENES, doc("[]"));

    let response = handle(&mut inst, &owned(SceneOperation::Synchronize, "candle"));
    assert_eq!(response.disposition, GroupDisposition::Queued);
    assert_eq!(response.calls.len(), 1);
    assert!(http(&response).url.ends_with("/clip/v2/resource/scene"));
    let body = body_of(http(&response));
    assert_eq!(
        item(body.get("actions"), 0)
            .and_then(|a| a.get("action"))
            .and_then(|a| a.get2("effects", "effect")),
        Some(&Json::text("candle"))
    );
    assert_eq!(
        item(body.get2("palette", "effects"), 0).and_then(|e| e.get("effect")),
        Some(&Json::text("candle"))
    );
    assert_eq!(body.get("auto_dynamic"), Some(&Json::Bool(true)));
}

#[test]
fn an_effect_absent_from_effects_v2_is_refused_before_http() {
    let mut inst = bridge();
    inst.scratch.insert(
        HUE_ZONES,
        doc(
            r#"[{
                "id": "zone-1",
                "children": [{ "rid": "light-1", "rtype": "light" }]
            }]"#,
        ),
    );
    let response = handle(&mut inst, &owned(SceneOperation::Synchronize, "cosmos"));
    assert_eq!(response.disposition, GroupDisposition::Refused);
    assert!(response.calls.is_empty());
    assert!(response.problem.as_deref().unwrap().contains("effects_v2"));
}

#[test]
fn a_scene_spanning_existing_groups_gets_its_own_verified_juno_zone() {
    let mut inst = bridge();
    inst.scratch.insert(HUE_ZONES, doc("[]"));
    inst.scratch.insert(HUE_ROOMS, doc("[]"));
    inst.scratch.insert(HUE_SCENES, doc("[]"));

    let request = owned(SceneOperation::Synchronize, "fire");
    let create_zone = handle(&mut inst, &request);
    assert!(http(&create_zone).url.ends_with("/clip/v2/resource/zone"));
    assert!(zone_write_pending(&inst));
    let zone_body = body_of(http(&create_zone));
    let zone_name = zone_body.get2("metadata", "name").unwrap().clone();

    let created_zone = answer(
        "POST",
        "https://192.0.2.10/clip/v2/resource/zone",
        doc(r#"{ "data": [{ "rid": "scene-zone", "rtype": "zone" }] }"#),
    );
    let refresh_zone = on_zone_response(&mut inst, &created_zone);
    assert_eq!(refresh_zone.len(), 1);

    let zone = Object::new()
        .with("id", Json::text("scene-zone"))
        .with("type", Json::text("zone"))
        .with("metadata", Json::object(Object::new().with("name", zone_name)))
        .with("children", doc(r#"[{ "rid": "light-1", "rtype": "light" }]"#));
    let zone_inventory = answer(
        "GET",
        "https://192.0.2.10/clip/v2/resource/zone",
        Json::object(Object::new().with("data", Json::array(vec![Json::object(zone)]))),
    );
    let create_scene = on_zone_response(&mut inst, &zone_inventory);
    assert_eq!(create_scene.len(), 1);
    let create_scene = match &create_scene[0] {
        HostCall::Http(request) => request,
        _ => panic!("expected scene create"),
    };
    assert!(create_scene.url.ends_with("/clip/v2/resource/scene"));
    let scene_body = body_of(create_scene);

    let created_scene = answer(
        "POST",
        "https://192.0.2.10/clip/v2/resource/scene",
        doc(r#"{ "data": [{ "rid": "scene-owned", "rtype": "scene" }] }"#),
    );
    assert_eq!(
        on_collection_response(&mut inst, &created_scene).unwrap().len(),
        1
    );

    let mut scene = Object::new()
        .with("id", Json::text("scene-owned"))
        .with("type", Json::text("scene"));
    for key in ["metadata", "group", "actions", "palette"] {
        scene.insert(key, scene_body.get(key).cloned().unwrap_or(Json::Null));
    }
    let scene_inventory = answer(
        "GET",
        "https://192.0.2.10/clip/v2/resource/scene",
        Json::object(Object::new().with("data", Json::array(vec![Json::object(scene)]))),
    );
    // The scene it owns is not offered as a borrowed one.
    let offered = on_collection_response(&mut inst, &scene_inventory).unwrap();
    assert_eq!(offered.len(), 0);
    assert_eq!(
        scene_link(&inst, request.scene).and_then(|link| link.get("scene").cloned()),
        Some(Json::text("scene-owned"))
    );

    let recall = handle(
        &mut inst,
        &owned(
            SceneOperation::Recall {
                mode: SceneRecall::Dynamic,
            },
            "fire",
        ),
    );
    assert_eq!(recall.disposition, GroupDisposition::Handled);
    assert_eq!(recall.calls.len(), 1);
    assert!(http(&recall).url.ends_with("/resource/scene/scene-owned"));
}

#[test]
fn the_startup_light_read_caches_each_lights_effects_v2_values() {
    let mut light = Instance::new();
    cache_effects_v2(
        &mut light,
        &doc(
            r#"{
                "effects_v2": {
                    "status": { "effect_values": ["candle", "fire", "underwater"] }
                }
            }"#,
        ),
    );
    assert_eq!(
        light.scratch.get(HUE_EFFECTS_V2),
        Some(&doc(r#"["candle", "fire", "underwater"]"#))
    );
}

fn refusal(inst: &mut Instance, request: &SceneRequest) -> String {
    let before = inst.scratch.clone();
    let response = handle(inst, request);
    assert_eq!(response.disposition, GroupDisposition::Refused);
    assert!(response.calls.is_empty());
    assert_eq!(inst.scratch, before, "a refusal changes nothing");
    response.problem.unwrap()
}

fn recall(mode: SceneRecall) -> SceneOperation {
    SceneOperation::Recall { mode }
}

fn with_zone(inst: &mut Instance) {
    inst.scratch.insert(
        HUE_ZONES,
        doc(
            r#"[{ "id": "zone-1", "metadata": { "name": "Lounge" },
                 "children": [{ "rid": "light-1", "rtype": "light" }] }]"#,
        ),
    );
}

fn link(appdata: &str) -> Json {
    Json::object(
        Object::new()
            .with("ownership", Json::text("juno"))
            .with("bridge_id", Json::text("BRIDGE-A"))
            .with("scene", Json::text("scene-owned"))
            .with("token", Json::text("[Juno 00000008]"))
            .with("appdata", Json::text(appdata)),
    )
}

fn with_scene(inst: &mut Instance) {
    inst.scratch.insert(
        HUE_SCENES,
        doc(
            r#"[{ "id": "scene-owned",
                 "metadata": { "name": "Fireside [Juno 00000008]", "appdata": "juno:00000008" } }]"#,
        ),
    );
}

#[test]
fn only_the_bridge_handles_scenes() {
    let mut light = Instance::new();
    light.properties.insert("Light id", Json::text("light-1"));
    assert_eq!(
        refusal(&mut light, &borrowed(SceneOperation::Status)),
        "Hue native scenes must run on the bridge"
    );
}

#[test]
fn a_borrowed_scene_is_read_only() {
    let mut inst = bridge();
    assert_eq!(
        refusal(&mut inst, &borrowed(SceneOperation::Synchronize)),
        "existing Hue scenes are borrowed and can never be modified by Juno"
    );
    assert_eq!(
        refusal(&mut inst, &borrowed(SceneOperation::Detach)),
        "borrowed Hue scenes remain attached and read-only"
    );
    assert_eq!(
        refusal(&mut inst, &borrowed(recall(SceneRecall::Static))),
        "the imported Hue scene no longer exists"
    );
    let mut nameless = borrowed(recall(SceneRecall::Static));
    nameless.resource = None;
    assert_eq!(
        refusal(&mut inst, &nameless),
        "the imported Hue scene has no resource id"
    );
    inst.scratch.insert(HUE_SCENES, doc(r#"[{ "id": "hue-relax" }]"#));
    assert_eq!(
        refusal(&mut inst, &borrowed(recall(SceneRecall::Dynamic))),
        "this Hue scene has no dynamic palette"
    );
    let response = handle(&mut inst, &borrowed(recall(SceneRecall::Static)));
    assert_eq!(
        http(&response).body.as_deref(),
        Some(r#"{"recall":{"action":"static"}}"#)
    );
    assert_eq!(http(&response).url, "https://192.0.2.10/clip/v2/resource/scene/hue-relax");
    inst.properties.insert("Bridge address", Json::text(""));
    assert_eq!(
        refusal(&mut inst, &borrowed(recall(SceneRecall::Static))),
        "the Hue bridge connection is not configured"
    );
}

#[test]
fn a_link_is_checked_before_it_is_followed() {
    let mut inst = bridge();
    let request = owned(recall(SceneRecall::Static), "fire");
    assert_eq!(
        refusal(&mut inst, &request),
        "this Juno scene has not been published to Hue"
    );
    set_scene_link(&mut inst, 8, doc(r#"{ "ownership": "somebody" }"#));
    assert_eq!(
        refusal(&mut inst, &request),
        "the Hue scene is not recorded as Juno-owned"
    );
    set_scene_link(&mut inst, 8, doc(r#"{ "ownership": "juno", "bridge_id": "B" }"#));
    assert_eq!(
        refusal(&mut inst, &request),
        "the saved scene belongs to a different Hue bridge"
    );
    set_scene_link(&mut inst, 8, doc(r#"{ "ownership": "juno", "bridge_id": "BRIDGE-A" }"#));
    assert_eq!(
        refusal(&mut inst, &request),
        "the saved Hue scene link is incomplete"
    );
    set_scene_link(&mut inst, 8, link("juno:00000008"));
    assert_eq!(
        refusal(&mut inst, &request),
        "the Juno-created Hue scene no longer exists"
    );
    with_scene(&mut inst);
    assert_eq!(handle(&mut inst, &request).calls.len(), 1);
    set_scene_link(&mut inst, 8, link("juno:00000009"));
    assert_eq!(
        refusal(&mut inst, &request),
        "the Juno ownership markers changed; refusing to modify this Hue scene"
    );
}

#[test]
fn links_are_kept_apart() {
    let mut inst = bridge();
    assert_eq!(scene_link(&inst, 8), None);
    remove_scene_link(&mut inst, 8);
    assert_eq!(inst.scratch.entries.len(), 1);
    set_scene_link(&mut inst, 8, Json::integer(1));
    set_scene_link(&mut inst, 80, Json::integer(2));
    assert_eq!(scene_link(&inst, 8), Some(Json::integer(1)));
    remove_scene_link(&mut inst, 8);
    assert_eq!(scene_link(&inst, 8), None);
    assert_eq!(scene_link(&inst, 80), Some(Json::integer(2)));
}

#[test]
fn detaching_forgets_the_link_and_the_problem() {
    let mut inst = bridge();
    set_scene_link(&mut inst, 8, link("juno:00000008"));
    inst.scratch.insert("hue_scene_problem", Json::text("old"));
    let response = handle(&mut inst, &owned(SceneOperation::Detach, "fire"));
    assert_eq!(response.disposition, GroupDisposition::Handled);
    assert!(response.calls.is_empty());
    assert_eq!(scene_link(&inst, 8), None);
    assert_eq!(response.status.get("problem"), Some(&Json::Null));
}

#[test]
fn the_status_tells_everything_but_the_markers() {
    let mut inst = bridge();
    set_scene_link(&mut inst, 8, link("juno:00000008"));
    with_scene(&mut inst);
    let mut request = owned(SceneOperation::Status, "fire");
    request.resource = Some("scene-owned".to_string());
    let shown = status(&inst, &request);
    assert_eq!(
        shown,
        doc(
            r#"{ "bridge_ready": true, "ownership": "juno",
                 "borrowed": { "resource": "scene-owned", "name": "Fireside [Juno 00000008]",
                               "dynamic_palette": false },
                 "linked": { "ownership": "juno", "bridge_id": "BRIDGE-A", "scene": "scene-owned",
                             "valid": true },
                 "effects_v2": [{ "device": 2, "values": ["candle", "fire"] }],
                 "pending": false, "problem": null }"#
        )
    );
    let response = handle(&mut inst, &request);
    assert_eq!(response.disposition, GroupDisposition::Handled);
    assert_eq!(response.status, shown);
    assert!(response.calls.is_empty());
}

#[test]
fn a_scene_that_cannot_be_published_is_refused() {
    let mut inst = bridge();
    with_zone(&mut inst);
    let mut request = owned(SceneOperation::Synchronize, "fire");
    request.members[0].instance.properties.insert("Light id", Json::text(""));
    assert_eq!(refusal(&mut inst, &request), "device 2 has no Hue light id");
    request.members[0].instance.properties.remove("Light id");
    assert_eq!(refusal(&mut inst, &request), "device 2 is not a Hue light");
    request.members.clear();
    assert_eq!(refusal(&mut inst, &request), "the scene has no Hue lights");
    let mut request = owned(SceneOperation::Synchronize, "fire");
    request.members.push(member());
    assert_eq!(
        refusal(&mut inst, &request),
        "the scene contains the same Hue light more than once"
    );
    let mut request = owned(SceneOperation::Synchronize, "fire");
    request.animation.effects.clear();
    request.members[0].actions.clear();
    assert_eq!(
        refusal(&mut inst, &request),
        "the scene has no Hue-compatible light actions"
    );
    inst.scratch.remove(HUE_BRIDGE_ID);
    assert_eq!(
        refusal(&mut inst, &owned(SceneOperation::Synchronize, "fire")),
        "the Hue bridge identity has not loaded yet"
    );
}

#[test]
fn an_animation_has_limits() {
    let problem = |change: &dyn Fn(&mut SceneRequest)| {
        let mut request = owned(SceneOperation::Synchronize, "fire");
        change(&mut request);
        validate_animation(&request).unwrap_err()
    };
    assert!(validate_animation(&owned(SceneOperation::Status, "fire")).is_ok());
    assert_eq!(
        problem(&|r| {
            for _ in 0..9 {
                r.animation.palette.push(ScenePaletteColor {
                    x: float("0.1"),
                    y: float("0.1"),
                    brightness: None,
                });
            }
        }),
        "Hue dynamic palettes support at most 9 colors"
    );
    assert_eq!(
        problem(&|r| r.animation.speed = Some(float("1.01"))),
        "Hue scene speed must be between 0 and 1"
    );
    assert_eq!(
        problem(&|r| r.animation.speed = Some(float("-0.5"))),
        "Hue scene speed must be between 0 and 1"
    );
    assert_eq!(
        problem(&|r| {
            for name in ["a", "b", "c"] {
                r.animation.effects.push(SceneEffect { device: 2, effect: name.to_string() });
            }
        }),
        "Hue scene palettes support at most 3 effects"
    );
    assert_eq!(
        problem(&|r| r.animation.effects[0].device = 9),
        "effect `fire` targets a light outside this scene"
    );
    assert_eq!(
        problem(&|r| r.animation.effects[0].effect = "cosmos".to_string()),
        "device 2 did not report `cosmos` in effects_v2.status.effect_values"
    );
}

#[test]
fn a_published_name_keeps_its_marker() {
    let (name, token, appdata) = owned_scene_name(8, "A very long name for a small scene");
    assert_eq!(name, "A very long name [Juno 00000008]");
    assert_eq!(name.chars().count(), 32);
    assert_eq!(token, "[Juno 00000008]");
    assert_eq!(appdata, "juno:00000008");
    assert_eq!(owned_scene_name(0xABCDEF01, "").0, " [Juno ABCDEF01]");
}

#[test]
fn stored_commands_become_one_action() {
    let mut m = member();
    let action = |command: &str, args: Object| SceneAction {
        command: command.to_string(),
        args,
        x: float("0.4"),
        y: float("0.5"),
    };
    m.actions.push(action("set_cct", Object::new().with("kelvin", Json::integer(4000))));
    m.actions.push(action("set_color", Object::new()));
    m.actions.push(action("dance", Object::new()));
    assert_eq!(
        hue_action(&m, Some("fire")),
        Some(doc(
            r#"{ "target": { "rid": "light-1", "rtype": "light" },
                 "action": { "on": { "on": true }, "dimming": { "brightness": 35.0 },
                             "color_temperature": { "mirek": 250 },
                             "color": { "xy": { "x": 0.4, "y": 0.5 } },
                             "effects": { "effect": "fire" } } }"#
        ))
    );
    m.actions = vec![action("dance", Object::new())];
    assert_eq!(hue_action(&m, None), None);
    m.actions = vec![
        action("set_level", Object::new().with("level", Json::integer(900))),
        action("off", Object::new()),
    ];
    assert_eq!(
        hue_action(&m, None).unwrap().get("action"),
        Some(&doc(r#"{ "on": { "on": false }, "dimming": { "brightness": 100.0 } }"#))
    );
    assert_eq!(capabilities(&m), vec!["candle", "fire"]);
}

#[test]
fn a_group_must_hold_exactly_these_lights() {
    let mut inst = bridge();
    with_zone(&mut inst);
    inst.scratch.insert(
        HUE_LIGHTS,
        doc(
            r#"[{ "id": "light-2", "owner": { "rid": "dev-2" } },
                { "id": "light-3", "owner": { "rid": "dev-2" } },
                { "id": "light-9", "owner": { "rid": "dev-9" } }]"#,
        ),
    );
    inst.scratch.insert(
        HUE_ROOMS,
        doc(r#"[{ "id": "room-1", "children": [{ "rid": "dev-2", "rtype": "device" }] }]"#),
    );
    let group = |ids: &[&str]| {
        exact_group(&inst, &ids.iter().map(|s| s.to_string()).collect::<Vec<String>>())
    };
    assert_eq!(group(&["light-1"]), Some(doc(r#"{ "rid": "zone-1", "rtype": "zone" }"#)));
    assert_eq!(
        group(&["light-2", "light-3"]),
        Some(doc(r#"{ "rid": "room-1", "rtype": "room" }"#))
    );
    assert_eq!(group(&["light-2"]), None);
    let request = owned(SceneOperation::Status, "fire");
    assert_eq!(member_light_ids(&request), Ok(vec!["light-1".to_string()]));
}

#[test]
fn one_write_at_a_time_and_a_rejected_one_ends() {
    let mut inst = bridge();
    with_zone(&mut inst);
    let request = owned(SceneOperation::Synchronize, "fire");
    assert_eq!(handle(&mut inst, &request).disposition, GroupDisposition::Queued);
    assert!(!zone_write_pending(&inst));
    assert_eq!(
        refusal(&mut inst, &request),
        "another Hue scene write is still in progress"
    );
    let url = "https://192.0.2.10/clip/v2/resource/scene";
    let rejected = answer("POST", url, Json::Null).with("status", Json::integer(503));
    assert_eq!(on_collection_response(&mut inst, &rejected), Some(Vec::new()));
    assert_eq!(
        status(&inst, &request).get("problem"),
        Some(&Json::text("Hue rejected the scene write with HTTP 503"))
    );
    assert_eq!(status(&inst, &request).get("pending"), Some(&Json::Bool(false)));
    // The next one may begin, and an answer without an id ends it.
    assert_eq!(handle(&mut inst, &request).disposition, GroupDisposition::Queued);
    assert_eq!(
        on_collection_response(&mut inst, &answer("POST", url, doc(r#"{ "data": [] }"#))),
        Some(Vec::new())
    );
    assert_eq!(
        status(&inst, &request).get("problem"),
        Some(&Json::text("Hue did not identify the scene it created"))
    );
}

#[test]
fn a_scene_that_comes_back_without_its_markers_is_not_ours() {
    let url = "https://192.0.2.10/clip/v2/resource/scene";
    let finish = |listed: &str| {
        let mut inst = bridge();
        with_zone(&mut inst);
        let request = owned(SceneOperation::Synchronize, "fire");
        handle(&mut inst, &request);
        let created = answer("POST", url, doc(r#"{ "data": [{ "rid": "s", "rtype": "scene" }] }"#));
        assert_eq!(on_collection_response(&mut inst, &created).unwrap().len(), 1);
        assert_eq!(
            on_collection_response(&mut inst, &answer("PUT", url, Json::Null)).unwrap().len(),
            1
        );
        on_collection_response(&mut inst, &answer("GET", url, doc(listed)));
        assert_eq!(scene_link(&inst, 8), None);
        status(&inst, &request).get("problem").cloned()
    };
    assert_eq!(
        finish(r#"{ "data": [] }"#),
        Some(Json::text("Hue did not return the scene after writing it"))
    );
    assert_eq!(
        finish(r#"{ "data": [{ "id": "s", "metadata": { "name": "Fireside" } }] }"#),
        Some(Json::text("Hue returned a scene without Juno's ownership markers"))
    );
}

#[test]
fn a_zone_is_checked_before_a_scene_goes_into_it() {
    let url = "https://192.0.2.10/clip/v2/resource/zone";
    let begin = || {
        let mut inst = bridge();
        let request = owned(SceneOperation::Synchronize, "fire");
        assert_eq!(handle(&mut inst, &request).disposition, GroupDisposition::Queued);
        (inst, request)
    };
    let problem = |inst: &Instance, request: &SceneRequest| {
        assert!(!zone_write_pending(inst));
        status(inst, request).get("problem").cloned()
    };
    let (mut inst, request) = begin();
    let rejected = answer("POST", url, Json::Null).with("status", Json::integer(400));
    assert!(on_zone_response(&mut inst, &rejected).is_empty());
    assert_eq!(
        problem(&inst, &request),
        Some(Json::text("Hue rejected the scene zone write with HTTP 400"))
    );
    let (mut inst, request) = begin();
    assert!(on_zone_response(&mut inst, &answer("post", url, doc(r#"{ "data": [] }"#))).is_empty());
    assert_eq!(
        problem(&inst, &request),
        Some(Json::text("Hue did not identify the scene zone it created"))
    );
    let created = || answer("POST", url, doc(r#"{ "data": [{ "id": "z", "type": "zone" }] }"#));
    let (mut inst, request) = begin();
    assert_eq!(on_zone_response(&mut inst, &created()).len(), 1);
    assert!(on_zone_response(&mut inst, &answer("GET", url, doc(r#"{ "data": [] }"#))).is_empty());
    assert_eq!(
        problem(&inst, &request),
        Some(Json::text("Hue did not return the scene zone after creating it"))
    );
    let (mut inst, request) = begin();
    on_zone_response(&mut inst, &created());
    let other = doc(
        r#"{ "data": [{ "id": "z", "metadata": { "name": "Fireside [Juno 00000008]" },
                        "children": [{ "rid": "light-7", "rtype": "light" }] }] }"#,
    );
    assert!(on_zone_response(&mut inst, &answer("GET", url, other)).is_empty());
    assert_eq!(
        problem(&inst, &request),
        Some(Json::text(
            "Hue returned a scene zone that did not match Juno's requested name and lights"
        ))
    );
}

#[test]
fn other_collections_are_remembered_or_left_alone() {
    let mut inst = bridge();
    let base = "https://192.0.2.10/clip/v2/resource/";
    let data = || doc(r#"{ "data": [{ "id": "x" }] }"#);
    let light = answer("GET", &format!("{base}light"), data());
    assert_eq!(on_collection_response(&mut inst, &light), Some(Vec::new()));
    assert_eq!(inst.scratch.get(HUE_LIGHTS), Some(&doc(r#"[{ "id": "x" }]"#)));
    let room = answer("get", &format!("{base}room"), data());
    assert_eq!(on_collection_response(&mut inst, &room), Some(Vec::new()));
    assert_eq!(inst.scratch.get(HUE_ROOMS), Some(&doc(r#"[{ "id": "x" }]"#)));
    let motion = answer("GET", &format!("{base}motion"), data());
    assert_eq!(on_collection_response(&mut inst, &motion), None);
    let scenes = answer(
        "GET",
        &format!("{base}scene"),
        doc(
            r#"{ "data": [{ "id": "s", "actions": [{ "target": { "rid": "l" }, "action": {} }] }] }"#,
        ),
    );
    match &on_collection_response(&mut inst, &scenes).unwrap()[0] {
        HostCall::BorrowedScenes { scenes } => {
            assert_eq!(scenes[0].title, "Unnamed Hue scene");
            assert!(!scenes[0].dynamic_palette);
        }
        _ => panic!("expected scenes"),
    }
}

#[test]
fn publishing_again_updates_the_scene_that_is_there() {
    let mut inst = bridge();
    with_zone(&mut inst);
    with_scene(&mut inst);
    set_scene_link(&mut inst, 8, link("juno:00000008"));
    let response = handle(&mut inst, &owned(SceneOperation::Synchronize, "fire"));
    assert_eq!(response.disposition, GroupDisposition::Queued);
    assert_eq!(http(&response).method, "PUT");
    assert_eq!(http(&response).url, "https://192.0.2.10/clip/v2/resource/scene/scene-owned");
    assert_eq!(
        body_of(http(&response)),
        doc(
            r#"{ "metadata": { "name": "Fireside [Juno 00000008]", "appdata": "juno:00000008" },
                 "group": { "rid": "zone-1", "rtype": "zone" },
                 "actions": [{ "target": { "rid": "light-1", "rtype": "light" },
                               "action": { "on": { "on": true }, "dimming": { "brightness": 35.0 },
                                           "effects": { "effect": "fire" } } }],
                 "palette": { "color": [{ "color": { "xy": { "x": 0.62, "y": 0.34 } },
                                          "dimming": { "brightness": 35.0 } }],
                              "effects": [{ "effect": "fire" }] },
                 "speed": 0.4, "auto_dynamic": true }"#
        )
    );
}

#[test]
fn members_come_in_any_order_and_lights_in_one() {
    let with = |ids: &[&str]| {
        let mut request = owned(SceneOperation::Status, "fire");
        request.members.clear();
        for id in ids {
            let mut m = member();
            m.instance.properties.insert("Light id", Json::text(id));
            request.members.push(m);
        }
        member_light_ids(&request)
    };
    let sorted = Ok(vec!["a".to_string(), "b".to_string(), "c".to_string()]);
    assert_eq!(with(&["b", "c", "a"]), sorted);
    assert_eq!(with(&["c", "a", "b"]), sorted);
    assert!(with(&["b", "a", "b"]).is_err());
    assert!(with(&[]).is_err());
}
