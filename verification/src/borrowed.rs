//! Scenes that live on the bridge, read and never written.
//!
//! The stable light resource id is the join key the host can resolve against devices that are
//! already adopted. Animation is never turned into a loop of updates: a scene is recalled by its
//! id, and the steps here only describe what it looks like when it stands still.

use vstd::prelude::*;
use crate::host::{
    BorrowedSceneSnapshot, BorrowedSceneSnapshotView, BorrowedSceneStep, BorrowedSceneStepView,
};
use crate::json;
use crate::json::{JView, Json, Object};
use crate::number;
use crate::text;

verus! {

/// What a scene is called.
pub open spec fn scene_title(scene: JView) -> Seq<char> {
    json::str_or(json::as_str(scene.get2("metadata"@, "name"@)), "Unnamed Hue scene"@)
}

/// What a scene is called.
pub fn scene_name(scene: &Json) -> (r: &str)
    ensures
        r@ == scene_title(scene@),
{
    match json::str_of(scene.get2("metadata", "name")) {
        Some(s) => s,
        None => "Unnamed Hue scene",
    }
}

/// Whether a palette of a scene has something in it.
pub open spec fn palette_has(scene: JView, kind: Seq<char>) -> bool {
    match json::as_array(scene.get2("palette"@, kind)) {
        Some(items) => items.len() > 0,
        None => false,
    }
}

/// Whether a palette of a scene has something in it.
pub fn has_palette(scene: &Json, kind: &str) -> (r: bool)
    ensures
        r == palette_has(scene@, kind@),
{
    match json::array_of(scene.get2("palette", kind)) {
        Some(items) => items.len() > 0,
        None => false,
    }
}

/// Whether a scene can move: it has colours or effects in its palette.
pub open spec fn moves(scene: JView) -> bool {
    palette_has(scene, "color"@) || palette_has(scene, "effects"@)
}

/// Whether a scene can move: it has colours or effects in its palette.
pub fn has_dynamic_palette(scene: &Json) -> (r: bool)
    ensures
        r == moves(scene@),
{
    has_palette(scene, "color") || has_palette(scene, "effects")
}

/// Whether the state in a scene has the light on; it does unless it says otherwise.
pub open spec fn state_on(state: JView) -> bool {
    match json::as_bool(state.get2("on"@, "on"@)) {
        Some(on) => on,
        None => true,
    }
}

/// The level that a state in a scene gives its light. Off is a level of nothing.
pub open spec fn state_level(state: JView) -> u64 {
    if !state_on(state) {
        0
    } else {
        match number::brightness(state.get2("dimming"@, "brightness"@)) {
            Some(level) => level,
            None => 100,
        }
    }
}

/// The colour temperature, in kelvin, that a state in a scene gives a light that is on.
pub open spec fn state_kelvin(state: JView) -> Option<u64> {
    match json::as_u64(state.get2("color_temperature"@, "mirek"@)) {
        Some(mirek) => if state_on(state) && mirek > 0 {
            Some((1_000_000u64 / mirek) as u64)
        } else {
            None
        },
        None => None,
    }
}

/// Whether the state in a scene has the light on.
pub fn is_on(state: &Json) -> (r: bool)
    ensures
        r == state_on(state@),
{
    match json::bool_of(state.get2("on", "on")) {
        Some(on) => on,
        None => true,
    }
}

/// The level that a state in a scene gives its light.
pub fn level_in(state: &Json) -> (r: u64)
    ensures
        r == state_level(state@),
        r <= 100,
{
    if !is_on(state) {
        return 0;
    }
    match number::brightness_of(state.get2("dimming", "brightness")) {
        Some(level) => level,
        None => 100,
    }
}

/// The colour temperature, in kelvin, that a state in a scene gives a light that is on.
pub fn kelvin_in(state: &Json) -> (r: Option<u64>)
    ensures
        r == state_kelvin(state@),
{
    match json::u64_of(state.get2("color_temperature", "mirek")) {
        Some(mirek) => {
            if is_on(state) && mirek > 0 {
                Some(1_000_000 / mirek)
            } else {
                None
            }
        },
        None => None,
    }
}

/// One command to the light with this resource id.
pub open spec fn light_step(
    light: Seq<char>,
    command: Seq<char>,
    key: Seq<char>,
    value: u64,
) -> BorrowedSceneStepView {
    BorrowedSceneStepView {
        properties: json::one("Light id"@, JView::Str(light)),
        proxy: 1,
        command,
        args: json::one(key, json::int_value(value)),
    }
}

fn step(light: &str, command: &str, key: &str, value: u64) -> (r: BorrowedSceneStep)
    ensures
        r@ == light_step(light@, command@, key@, value),
{
    BorrowedSceneStep {
        properties: Object::new().with("Light id", Json::text(light)),
        proxy: 1,
        command: command.to_string(),
        args: Object::new().with(key, Json::integer(value)),
    }
}

/// The steps that one action of a scene comes to: a level, and a colour temperature where the
/// scene sets one. Nothing where the action names no light or has no state.
pub open spec fn action_steps(action: JView) -> Option<Seq<BorrowedSceneStepView>> {
    match (json::as_str(action.get2("target"@, "rid"@)), action.get("action"@)) {
        (Some(light), Some(state)) => {
            let level = light_step(light, "set_level"@, "level"@, state_level(state));
            match state_kelvin(state) {
                Some(kelvin) => Some(
                    seq![level, light_step(light, "set_cct"@, "kelvin"@, kelvin)],
                ),
                None => Some(seq![level]),
            }
        },
        _ => None,
    }
}

/// The steps that the first `n` actions of a scene come to; nothing where one of them has none.
pub open spec fn actions_steps(actions: Seq<JView>, n: nat) -> Option<Seq<BorrowedSceneStepView>>
    decreases n,
{
    if n == 0 {
        Some(seq![])
    } else {
        match (actions_steps(actions, (n - 1) as nat), action_steps(actions[n - 1])) {
            (Some(rest), Some(steps)) => Some(rest + steps),
            _ => None,
        }
    }
}

proof fn no_steps_stays(actions: Seq<JView>, n: nat, m: nat)
    requires
        n <= m,
        actions_steps(actions, n) is None,
    ensures
        actions_steps(actions, m) is None,
    decreases m,
{
    if n < m {
        no_steps_stays(actions, n, (m - 1) as nat);
    }
}

/// Whether a scene was published from here: it carries the marker that publishing leaves.
pub open spec fn is_ours(scene: JView) -> bool {
    match json::as_str(scene.get2("metadata"@, "appdata"@)) {
        Some(appdata) => text::begins(appdata, "juno:"@),
        None => false,
    }
}

/// What is offered of a scene on the bridge: nothing of one that was published from here, of one
/// without an id, of one with an action that cannot be read, and of one without actions.
pub open spec fn snapshot(scene: JView) -> Option<BorrowedSceneSnapshotView> {
    if is_ours(scene) {
        None
    } else {
        match (json::as_str(scene.get("id"@)), json::as_array(scene.get("actions"@))) {
            (Some(resource), Some(actions)) => match actions_steps(actions, actions.len()) {
                Some(steps) => if steps.len() == 0 {
                    None
                } else {
                    Some(
                        BorrowedSceneSnapshotView {
                            title: scene_title(scene),
                            resource,
                            dynamic_palette: moves(scene),
                            steps,
                        },
                    )
                },
                None => None,
            },
            _ => None,
        }
    }
}

/// What is offered of the first `n` scenes on the bridge.
pub open spec fn snapshots(scenes: Seq<JView>, n: nat) -> Seq<BorrowedSceneSnapshotView>
    decreases n,
{
    if n == 0 {
        seq![]
    } else {
        let rest = snapshots(scenes, (n - 1) as nat);
        match snapshot(scenes[n - 1]) {
            Some(s) => rest.push(s),
            None => rest,
        }
    }
}

fn steps_of(actions: &Vec<Json>) -> (r: Option<Vec<BorrowedSceneStep>>)
    ensures
        match r {
            Some(steps) => actions_steps(text::views(actions@), actions@.len()) == Some(
                text::views(steps@),
            ),
            None => actions_steps(text::views(actions@), actions@.len()) is None,
        },
{
    let mut out: Vec<BorrowedSceneStep> = Vec::new();
    assert(text::views(out@) =~= seq![]);
    let mut i: usize = 0;
    while i < actions.len()
        invariant
            i <= actions.len(),
            actions_steps(text::views(actions@), i as nat) == Some(text::views(out@)),
        decreases actions.len() - i,
    {
        broadcast use text::views_push;

        let action = &actions[i];
        let light = json::str_of(action.get2("target", "rid"));
        let state = action.get("action");
        match (light, state) {
            (Some(light), Some(state)) => {
                let ghost before = text::views(out@);
                out.push(step(light, "set_level", "level", level_in(state)));
                match kelvin_in(state) {
                    Some(kelvin) => {
                        out.push(step(light, "set_cct", "kelvin", kelvin));
                    },
                    None => {},
                }
                assert(text::views(out@) =~= before + action_steps(action@)->0);
            },
            _ => {
                proof {
                    no_steps_stays(text::views(actions@), (i + 1) as nat, actions@.len());
                }
                return None;
            },
        }
        i = i + 1;
    }
    Some(out)
}

fn snapshot_of(scene: &Json) -> (r: Option<BorrowedSceneSnapshot>)
    ensures
        text::view_of(r) == snapshot(scene@),
{
    let ours = match json::str_of(scene.get2("metadata", "appdata")) {
        Some(appdata) => text::starts_with(appdata, "juno:"),
        None => false,
    };
    if ours {
        return None;
    }
    let resource = match json::str_of(scene.get("id")) {
        Some(s) => s,
        None => {
            return None;
        },
    };
    match json::array_of(scene.get("actions")) {
        Some(actions) => match steps_of(actions) {
            Some(steps) => {
                if steps.len() == 0 {
                    None
                } else {
                    Some(
                        BorrowedSceneSnapshot {
                            title: scene_name(scene).to_string(),
                            resource: resource.to_string(),
                            dynamic_palette: has_dynamic_palette(scene),
                            steps,
                        },
                    )
                }
            },
            None => None,
        },
        None => None,
    }
}

/// What is offered of the scenes on the bridge, in their order.
pub fn borrowed_scene_snapshots(scenes: &Vec<Json>) -> (r: Vec<BorrowedSceneSnapshot>)
    ensures
        text::views(r@) == snapshots(text::views(scenes@), scenes@.len()),
{
    let mut out: Vec<BorrowedSceneSnapshot> = Vec::new();
    assert(text::views(out@) =~= seq![]);
    let mut i: usize = 0;
    while i < scenes.len()
        invariant
            i <= scenes.len(),
            text::views(out@) == snapshots(text::views(scenes@), i as nat),
        decreases scenes.len() - i,
    {
        broadcast use text::views_push;

        match snapshot_of(&scenes[i]) {
            Some(s) => out.push(s),
            None => {},
        }
        i = i + 1;
    }
    out
}

} // verus!
