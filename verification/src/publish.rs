//! What a scene becomes when it is published to the bridge.

use vstd::prelude::*;
use vstd::string::StringExecFns;
use crate::bridge;
use crate::host;
use crate::host::{
    Instance, InstanceView, SceneAction, SceneActionView, SceneAnimationView, SceneEffect,
    SceneEffectView, SceneMember, SceneMemberView, ScenePaletteColor, ScenePaletteColorView,
    SceneRequest, SceneRequestView,
};
use crate::json;
use crate::json::{JView, Json, Members, Number, Object};
use crate::number;
use crate::text;

verus! {

/// Where a light remembers the effects it can play.
pub const HUE_EFFECTS_V2: &'static str = "hue_effects_v2";

/// Where the bridge remembers its lights.
pub const HUE_LIGHTS: &'static str = "hue_lights";

/// Where the bridge remembers its rooms.
pub const HUE_ROOMS: &'static str = "hue_rooms";

/// The visible marker in the name of a published scene.
pub open spec fn token_of(scene: u32) -> Seq<char> {
    "[Juno "@ + text::hex(scene as nat, 8) + "]"@
}

/// The marker in the application data of a published scene.
pub open spec fn appdata_of(scene: u32) -> Seq<char> {
    "juno:"@ + text::hex(scene as nat, 8)
}

/// The name of a published scene: as much of its own name as leaves room for the marker in 32
/// characters, and the marker.
pub open spec fn published_name(scene: u32, name: Seq<char>) -> Seq<char> {
    let token = token_of(scene);
    let room: nat = if token.len() + 1 <= 32 {
        (32 - (token.len() + 1)) as nat
    } else {
        0
    };
    text::first_chars(name, room) + " "@ + token
}

/// The name, the visible marker and the application data of a published scene.
pub fn owned_scene_name(scene: u32, name: &str) -> (r: (String, String, String))
    ensures
        r.0@ == published_name(scene, name@),
        r.1@ == token_of(scene),
        r.2@ == appdata_of(scene),
{
    let digits = text::hex_text(scene, 8);
    let mut token = "[Juno ".to_string();
    token.append(digits.as_str());
    token.append("]");
    let mut appdata = "juno:".to_string();
    appdata.append(digits.as_str());
    let len = text::chars(token.as_str()).len();
    let room: usize = if len < 32 {
        32 - (len + 1)
    } else {
        0
    };
    let mut full = text::prefix(name, room);
    full.append(" ");
    full.append(token.as_str());
    (full, token, appdata)
}

/// What is wrong with a member that has no light id.
pub open spec fn not_a_light(device: u32) -> Seq<char> {
    "device "@ + text::decimal(device as nat) + " is not a Hue light"@
}

/// What is wrong with a member that has an empty light id.
pub open spec fn no_light_id(device: u32) -> Seq<char> {
    "device "@ + text::decimal(device as nat) + " has no Hue light id"@
}

/// The light ids of the first `n` members, ascending, each once, or what is wrong with the first
/// of them that has none.
pub open spec fn light_ids(members: Seq<SceneMemberView>, n: nat) -> Result<
    Seq<Seq<char>>,
    Seq<char>,
>
    decreases n,
{
    if n == 0 {
        Ok(seq![])
    } else {
        match light_ids(members, (n - 1) as nat) {
            Ok(rest) => match host::property(members[n - 1].instance, "Light id"@) {
                Some(id) => if id.len() == 0 {
                    Err(no_light_id(members[n - 1].device))
                } else {
                    Ok(text::with_one(rest, id))
                },
                None => Err(not_a_light(members[n - 1].device)),
            },
            Err(e) => Err(e),
        }
    }
}

proof fn light_ids_error_stays(members: Seq<SceneMemberView>, n: nat, m: nat)
    requires
        n <= m,
        light_ids(members, n) is Err,
    ensures
        light_ids(members, m) == light_ids(members, n),
    decreases m,
{
    if n < m {
        light_ids_error_stays(members, n, (m - 1) as nat);
    }
}

/// The lights of a scene, ascending. Refused where a member is no light, where two members are
/// the same light, and where there is none.
pub open spec fn member_lights(request: SceneRequestView) -> Result<Seq<Seq<char>>, Seq<char>> {
    match light_ids(request.members, request.members.len()) {
        Ok(ids) => if ids.len() != request.members.len() {
            Err("the scene contains the same Hue light more than once"@)
        } else if ids.len() == 0 {
            Err("the scene has no Hue lights"@)
        } else {
            Ok(ids)
        },
        Err(e) => Err(e),
    }
}

/// The lights of a scene, ascending.
pub fn member_light_ids(request: &SceneRequest) -> (r: Result<Vec<String>, String>)
    ensures
        match r {
            Ok(ids) => member_lights(request@) == Ok::<Seq<Seq<char>>, Seq<char>>(
                text::views(ids@),
            ),
            Err(e) => member_lights(request@) == Err::<Seq<Seq<char>>, Seq<char>>(e@),
        },
{
    let members = &request.members;
    let mut ids: Vec<String> = Vec::new();
    assert(text::views(ids@) =~= seq![]);
    let mut i: usize = 0;
    while i < members.len()
        invariant
            i <= members.len(),
            members == request.members,
            light_ids(request@.members, i as nat) == Ok::<Seq<Seq<char>>, Seq<char>>(
                text::views(ids@),
            ),
        decreases members.len() - i,
    {
        let member = &members[i];
        match member.instance.property("Light id") {
            Some(id) => {
                if id.is_empty() {
                    proof {
                        light_ids_error_stays(
                            request@.members,
                            (i + 1) as nat,
                            request@.members.len(),
                        );
                    }
                    return Err(device_message(member.device, " has no Hue light id"));
                }
                text::add_one(&mut ids, id);
            },
            None => {
                proof {
                    light_ids_error_stays(request@.members, (i + 1) as nat, request@.members.len());
                }
                return Err(device_message(member.device, " is not a Hue light"));
            },
        }
        i = i + 1;
    }
    assert(text::views(ids@).len() == ids.len());
    if ids.len() != members.len() {
        return Err("the scene contains the same Hue light more than once".to_string());
    }
    if ids.len() == 0 {
        return Err("the scene has no Hue lights".to_string());
    }
    Ok(ids)
}

fn device_message(device: u32, what: &str) -> (r: String)
    ensures
        r@ == "device "@ + text::decimal(device as nat) + what@,
{
    let mut r = "device ".to_string();
    let digits = text::decimal_text(device as u64);
    r.append(digits.as_str());
    r.append(what);
    r
}

/// The effects that a light has said it can play, ascending, each once.
pub open spec fn effects_of(member: SceneMemberView) -> Seq<Seq<char>> {
    let list = json::strings(bridge::cached_items(member.instance, HUE_EFFECTS_V2@));
    text::ascending(list, list.len())
}

/// The effects that a light has said it can play, ascending, each once.
pub fn capabilities(member: &SceneMember) -> (r: Vec<String>)
    ensures
        text::views(r@) == effects_of(member@),
{
    ascending_strings(&json::strings_of(member.instance.scratch.get(HUE_EFFECTS_V2)))
}

fn ascending_strings(list: &Vec<String>) -> (r: Vec<String>)
    ensures
        text::views(r@) == text::ascending(text::views(list@), list@.len()),
{
    let mut out: Vec<String> = Vec::new();
    assert(text::views(out@) =~= seq![]);
    let mut i: usize = 0;
    while i < list.len()
        invariant
            i <= list.len(),
            text::views(out@) == text::ascending(text::views(list@), i as nat),
        decreases list.len() - i,
    {
        text::add_one(&mut out, list[i].as_str());
        i = i + 1;
    }
    out
}

/// The names of some effects, in their order.
pub open spec fn effect_names(effects: Seq<SceneEffectView>) -> Seq<Seq<char>> {
    effects.map_values(|e: SceneEffectView| e.effect)
}

/// The names of some effects, ascending, each once.
pub open spec fn distinct_effects(effects: Seq<SceneEffectView>) -> Seq<Seq<char>> {
    text::ascending(effect_names(effects), effects.len())
}

fn distinct_names(effects: &Vec<SceneEffect>) -> (r: Vec<String>)
    ensures
        text::views(r@) == distinct_effects(text::views(effects@)),
{
    let mut out: Vec<String> = Vec::new();
    assert(text::views(out@) =~= seq![]);
    let mut i: usize = 0;
    while i < effects.len()
        invariant
            i <= effects.len(),
            text::views(out@) == text::ascending(
                effect_names(text::views(effects@)),
                i as nat,
            ),
        decreases effects.len() - i,
    {
        text::add_one(&mut out, effects[i].effect.as_str());
        i = i + 1;
    }
    out
}

/// The first of the first `n` members that is this device.
pub open spec fn member_of(members: Seq<SceneMemberView>, n: nat, device: u32) -> Option<
    SceneMemberView,
>
    decreases n,
{
    if n == 0 {
        None
    } else {
        match member_of(members, (n - 1) as nat, device) {
            Some(m) => Some(m),
            None => if members[n - 1].device == device {
                Some(members[n - 1])
            } else {
                None
            },
        }
    }
}

proof fn member_of_stays(members: Seq<SceneMemberView>, n: nat, m: nat, device: u32)
    requires
        n <= m,
        member_of(members, n, device) is Some,
    ensures
        member_of(members, m, device) == member_of(members, n, device),
    decreases m,
{
    if n < m {
        member_of_stays(members, n, (m - 1) as nat, device);
    }
}

fn find_member<'a>(members: &'a Vec<SceneMember>, device: u32) -> (r: Option<&'a SceneMember>)
    ensures
        text::view_of(r) == member_of(text::views(members@), members@.len(), device),
{
    let mut i: usize = 0;
    while i < members.len()
        invariant
            i <= members.len(),
            member_of(text::views(members@), i as nat, device) is None,
        decreases members.len() - i,
    {
        if members[i].device == device {
            proof {
                member_of_stays(text::views(members@), (i + 1) as nat, members@.len(), device);
            }
            return Some(&members[i]);
        }
        i = i + 1;
    }
    None
}

/// What is wrong with an effect: it is for a light outside the scene, or its light cannot play it.
pub open spec fn effect_problem(
    members: Seq<SceneMemberView>,
    requested: SceneEffectView,
) -> Option<Seq<char>> {
    match member_of(members, members.len(), requested.device) {
        Some(member) => if effects_of(member).contains(requested.effect) {
            None
        } else {
            Some(
                "device "@ + text::decimal(requested.device as nat) + " did not report `"@
                    + requested.effect + "` in effects_v2.status.effect_values"@,
            )
        },
        None => Some("effect `"@ + requested.effect + "` targets a light outside this scene"@),
    }
}

/// What is wrong with the first of the first `n` effects that has something wrong.
pub open spec fn effects_problem(
    members: Seq<SceneMemberView>,
    effects: Seq<SceneEffectView>,
    n: nat,
) -> Option<Seq<char>>
    decreases n,
{
    if n == 0 {
        None
    } else {
        match effects_problem(members, effects, (n - 1) as nat) {
            Some(p) => Some(p),
            None => effect_problem(members, effects[n - 1]),
        }
    }
}

proof fn effects_problem_stays(
    members: Seq<SceneMemberView>,
    effects: Seq<SceneEffectView>,
    n: nat,
    m: nat,
)
    requires
        n <= m,
        effects_problem(members, effects, n) is Some,
    ensures
        effects_problem(members, effects, m) == effects_problem(members, effects, n),
    decreases m,
{
    if n < m {
        effects_problem_stays(members, effects, n, (m - 1) as nat);
    }
}

/// Whether a speed is one: between 0 and 1.
pub open spec fn is_speed(n: crate::json::NumberView) -> bool {
    match number::decimal_of(n) {
        Some(d) => number::within_unit(d),
        None => false,
    }
}

/// What the bridge could not play in the animation of a scene.
pub open spec fn animation_problem(request: SceneRequestView) -> Option<Seq<char>> {
    let animation = request.animation;
    if animation.palette.len() > 9 {
        Some("Hue dynamic palettes support at most 9 colors"@)
    } else if animation.speed is Some && !is_speed(animation.speed->0) {
        Some("Hue scene speed must be between 0 and 1"@)
    } else if distinct_effects(animation.effects).len() > 3 {
        Some("Hue scene palettes support at most 3 effects"@)
    } else {
        effects_problem(request.members, animation.effects, animation.effects.len())
    }
}

fn problem_of(members: &Vec<SceneMember>, requested: &SceneEffect) -> (r: Option<String>)
    ensures
        text::view_of(r) == effect_problem(text::views(members@), requested@),
{
    match find_member(members, requested.device) {
        Some(member) => {
            if text::has(&capabilities(member), requested.effect.as_str()) {
                None
            } else {
                let mut r = device_message(requested.device, " did not report `");
                r.append(requested.effect.as_str());
                r.append("` in effects_v2.status.effect_values");
                Some(r)
            }
        },
        None => {
            let mut r = "effect `".to_string();
            r.append(requested.effect.as_str());
            r.append("` targets a light outside this scene");
            Some(r)
        },
    }
}

/// Refuses an animation that the bridge could not play.
pub fn validate_animation(request: &SceneRequest) -> (r: Result<(), String>)
    ensures
        match r {
            Ok(_) => animation_problem(request@) is None,
            Err(e) => animation_problem(request@) == Some(e@),
        },
{
    let animation = &request.animation;
    assert(request@.animation.palette.len() == animation.palette@.len());
    if animation.palette.len() > 9 {
        return Err("Hue dynamic palettes support at most 9 colors".to_string());
    }
    match &animation.speed {
        Some(speed) => {
            let fine = match number::as_decimal(speed) {
                Some(d) => number::is_within_unit(d),
                None => false,
            };
            if !fine {
                return Err("Hue scene speed must be between 0 and 1".to_string());
            }
        },
        None => {},
    }
    let names = distinct_names(&animation.effects);
    assert(text::views(names@).len() == names@.len());
    if names.len() > 3 {
        return Err("Hue scene palettes support at most 3 effects".to_string());
    }
    let effects = &animation.effects;
    let mut i: usize = 0;
    while i < effects.len()
        invariant
            i <= effects.len(),
            effects == request.animation.effects,
            effects_problem(
                text::views(request.members@),
                text::views(effects@),
                i as nat,
            ) is None,
            animation_problem(request@) == effects_problem(
                text::views(request.members@),
                text::views(effects@),
                effects@.len(),
            ),
        decreases effects.len() - i,
    {
        match problem_of(&request.members, &effects[i]) {
            Some(e) => {
                proof {
                    effects_problem_stays(
                        text::views(request.members@),
                        text::views(effects@),
                        (i + 1) as nat,
                        effects@.len(),
                    );
                }
                return Err(e);
            },
            None => {},
        }
        i = i + 1;
    }
    Ok(())
}

/// A light switched on or off.
pub open spec fn switched(on: bool) -> JView {
    JView::Obj(json::one("on"@, JView::Bool(on)))
}

/// A light switched on or off.
pub fn switch(on: bool) -> (r: Json)
    ensures
        r@ == switched(on),
{
    Json::object(Object::new().with("on", Json::Bool(on)))
}

/// A brightness.
pub open spec fn dimmed(level: u8) -> JView {
    JView::Obj(json::one("brightness"@, number::whole(level)))
}

/// A brightness.
pub fn dim(level: u8) -> (r: Json)
    ensures
        r@ == dimmed(level),
{
    Json::object(Object::new().with("brightness", number::whole_float(level)))
}

/// A point of the gamut.
pub open spec fn gamut_point(x: crate::json::NumberView, y: crate::json::NumberView) -> JView {
    JView::Obj(
        json::one(
            "xy"@,
            JView::Obj(json::put(json::one("x"@, JView::Num(x)), "y"@, JView::Num(y))),
        ),
    )
}

/// A point of the gamut.
pub fn point(x: &Number, y: &Number) -> (r: Json)
    ensures
        r@ == gamut_point(x@, y@),
{
    let xy = Object::new().with("x", Json::Num(x.clone())).with("y", Json::Num(y.clone()));
    Json::object(Object::new().with("xy", Json::object(xy)))
}

/// A colour temperature.
pub open spec fn tempered(kelvin: u64) -> JView {
    JView::Obj(json::one("mirek"@, json::int_value(number::mirek_of(kelvin))))
}

/// A colour temperature.
pub fn temper(kelvin: u64) -> (r: Json)
    ensures
        r@ == tempered(kelvin),
{
    Json::object(Object::new().with("mirek", Json::integer(number::mirek(kelvin))))
}

/// The level that a stored command sets.
pub open spec fn stored_level(args: Members) -> u8 {
    match json::as_u64(json::lookup(args, "level"@)) {
        Some(n) => if n > 100 {
            100
        } else {
            n as u8
        },
        None => 0,
    }
}

/// The colour temperature that a command sets.
pub open spec fn kelvin_arg(args: Members) -> u64 {
    match json::as_u64(json::lookup(args, "kelvin"@)) {
        Some(n) => n,
        None => 2700,
    }
}

/// What a light is to do, with one stored command more.
pub open spec fn commanded(action: Members, stored: SceneActionView) -> Members {
    if stored.command == "on"@ {
        json::put(action, "on"@, switched(true))
    } else if stored.command == "off"@ {
        json::put(action, "on"@, switched(false))
    } else if stored.command == "set_level"@ {
        let level = stored_level(stored.args);
        let lit = json::put(action, "on"@, switched(level > 0));
        if level > 0 {
            json::put(lit, "dimming"@, dimmed(level))
        } else {
            lit
        }
    } else if stored.command == "set_cct"@ {
        json::put(action, "color_temperature"@, tempered(kelvin_arg(stored.args)))
    } else if stored.command == "set_color"@ {
        json::put(action, "color"@, gamut_point(stored.x, stored.y))
    } else {
        action
    }
}

/// What a light is to do by its first `n` stored commands.
pub open spec fn commanded_upto(stored: Seq<SceneActionView>, n: nat) -> Members
    decreases n,
{
    if n == 0 {
        seq![]
    } else {
        commanded(commanded_upto(stored, (n - 1) as nat), stored[n - 1])
    }
}

/// What a light of a scene is to do: its stored commands and its effect.
pub open spec fn light_state(member: SceneMemberView, effect: Option<Seq<char>>) -> Members {
    let state = commanded_upto(member.actions, member.actions.len());
    match effect {
        Some(name) => json::put(
            state,
            "effects"@,
            JView::Obj(json::one("effect"@, JView::Str(name))),
        ),
        None => state,
    }
}

/// The action of a light in a scene; nothing where it has nothing to do.
pub open spec fn light_action(member: SceneMemberView, effect: Option<Seq<char>>) -> Option<JView> {
    let state = light_state(member, effect);
    if state.len() == 0 {
        None
    } else {
        let rid = json::str_or(host::property(member.instance, "Light id"@), ""@);
        Some(
            JView::Obj(
                json::put(
                    json::one("target"@, bridge::reference(rid, "light"@)),
                    "action"@,
                    JView::Obj(state),
                ),
            ),
        )
    }
}

fn command(action: Object, stored: &SceneAction) -> (r: Object)
    ensures
        r@ == commanded(action@, stored@),
{
    let name = stored.command.as_str();
    if text::same(name, "on") {
        action.with("on", switch(true))
    } else if text::same(name, "off") {
        action.with("on", switch(false))
    } else if text::same(name, "set_level") {
        let level: u8 = match json::u64_of(stored.args.get("level")) {
            Some(n) => if n > 100 {
                100
            } else {
                n as u8
            },
            None => 0,
        };
        let lit = action.with("on", switch(level > 0));
        if level > 0 {
            lit.with("dimming", dim(level))
        } else {
            lit
        }
    } else if text::same(name, "set_cct") {
        let kelvin: u64 = match json::u64_of(stored.args.get("kelvin")) {
            Some(n) => n,
            None => 2700,
        };
        action.with("color_temperature", temper(kelvin))
    } else if text::same(name, "set_color") {
        action.with("color", point(&stored.x, &stored.y))
    } else {
        action
    }
}

/// The action of a light in a scene; nothing where it has nothing to do.
pub fn hue_action(member: &SceneMember, effect: Option<&str>) -> (r: Option<Json>)
    ensures
        text::view_of(r) == light_action(member@, text::view_of(effect)),
{
    let mut action = Object::new();
    let stored = &member.actions;
    let mut i: usize = 0;
    while i < stored.len()
        invariant
            i <= stored.len(),
            stored == member.actions,
            action@ == commanded_upto(text::views(stored@), i as nat),
        decreases stored.len() - i,
    {
        action = command(action, &stored[i]);
        i = i + 1;
    }
    match effect {
        Some(name) => {
            action.insert(
                "effects",
                Json::object(Object::new().with("effect", Json::text(name))),
            );
        },
        None => {},
    }
    assert(action@.len() == action.entries@.len());
    if action.entries.len() == 0 {
        return None;
    }
    let rid = match member.instance.property("Light id") {
        Some(s) => s,
        None => "",
    };
    Some(
        Json::object(
            Object::new().with("target", bridge::refer(rid, "light")).with(
                "action",
                Json::object(action),
            ),
        ),
    )
}

/// The effect that the last of the first `n` requests for a device asks for.
pub open spec fn effect_for(effects: Seq<SceneEffectView>, n: nat, device: u32) -> Option<Seq<char>>
    decreases n,
{
    if n == 0 {
        None
    } else if effects[n - 1].device == device {
        Some(effects[n - 1].effect)
    } else {
        effect_for(effects, (n - 1) as nat, device)
    }
}

fn find_effect<'a>(effects: &'a Vec<SceneEffect>, device: u32) -> (r: Option<&'a str>)
    ensures
        text::view_of(r) == effect_for(text::views(effects@), effects@.len(), device),
{
    let mut i: usize = effects.len();
    while i > 0
        invariant
            i <= effects.len(),
            effect_for(text::views(effects@), effects@.len(), device) == effect_for(
                text::views(effects@),
                i as nat,
                device,
            ),
        decreases i,
    {
        if effects[i - 1].device == device {
            return Some(effects[i - 1].effect.as_str());
        }
        i = i - 1;
    }
    None
}

/// The actions of the first `n` members.
pub open spec fn member_actions(
    members: Seq<SceneMemberView>,
    effects: Seq<SceneEffectView>,
    n: nat,
) -> Seq<JView>
    decreases n,
{
    if n == 0 {
        seq![]
    } else {
        let rest = member_actions(members, effects, (n - 1) as nat);
        let member = members[n - 1];
        match light_action(member, effect_for(effects, effects.len(), member.device)) {
            Some(action) => rest.push(action),
            None => rest,
        }
    }
}

fn actions_of(request: &SceneRequest) -> (r: Vec<Json>)
    ensures
        text::views(r@) == member_actions(
            request@.members,
            request@.animation.effects,
            request@.members.len(),
        ),
{
    let members = &request.members;
    let mut out: Vec<Json> = Vec::new();
    assert(text::views(out@) =~= seq![]);
    let mut i: usize = 0;
    while i < members.len()
        invariant
            i <= members.len(),
            members == request.members,
            text::views(out@) == member_actions(
                request@.members,
                request@.animation.effects,
                i as nat,
            ),
        decreases members.len() - i,
    {
        broadcast use text::views_push;

        let effect = find_effect(&request.animation.effects, members[i].device);
        match hue_action(&members[i], effect) {
            Some(action) => out.push(action),
            None => {},
        }
        i = i + 1;
    }
    out
}

/// One colour of a palette.
pub open spec fn palette_color(color: ScenePaletteColorView) -> JView {
    let plain = json::one("color"@, gamut_point(color.x, color.y));
    match color.brightness {
        Some(b) => JView::Obj(
            json::put(
                plain,
                "dimming"@,
                JView::Obj(json::one("brightness"@, JView::Num(number::percent(b)))),
            ),
        ),
        None => JView::Obj(plain),
    }
}

fn color_item(color: &ScenePaletteColor) -> (r: Json)
    ensures
        r@ == palette_color(color@),
{
    let plain = Object::new().with("color", point(&color.x, &color.y));
    match &color.brightness {
        Some(b) => Json::object(
            plain.with(
                "dimming",
                Json::object(
                    Object::new().with("brightness", Json::Num(number::as_percent(b))),
                ),
            ),
        ),
        None => Json::object(plain),
    }
}

/// The palette of an animation: its colours, and its effects, ascending, each once.
pub open spec fn palette_of(animation: SceneAnimationView) -> JView {
    JView::Obj(
        json::put(
            json::one(
                "color"@,
                JView::Arr(animation.palette.map_values(|c: ScenePaletteColorView| palette_color(c))),
            ),
            "effects"@,
            JView::Arr(
                distinct_effects(animation.effects).map_values(
                    |e: Seq<char>| JView::Obj(json::one("effect"@, JView::Str(e))),
                ),
            ),
        ),
    )
}

fn palette(animation: &host::SceneAnimation) -> (r: Json)
    ensures
        r@ == palette_of(animation@),
{
    let mut colors: Vec<Json> = Vec::new();
    let mut i: usize = 0;
    while i < animation.palette.len()
        invariant
            i <= animation.palette.len(),
            colors.len() == i,
            forall|k: int|
                0 <= k < i ==> colors@[k]@ == palette_color(animation.palette@[k]@),
        decreases animation.palette.len() - i,
    {
        colors.push(color_item(&animation.palette[i]));
        i = i + 1;
    }
    assert(text::views(colors@) =~= animation@.palette.map_values(
        |c: ScenePaletteColorView| palette_color(c),
    ));
    let names = distinct_names(&animation.effects);
    let mut effects: Vec<Json> = Vec::new();
    let mut j: usize = 0;
    while j < names.len()
        invariant
            j <= names.len(),
            effects.len() == j,
            forall|k: int|
                0 <= k < j ==> effects@[k]@ == JView::Obj(
                    json::one("effect"@, JView::Str(names@[k]@)),
                ),
        decreases names.len() - j,
    {
        effects.push(
            Json::object(Object::new().with("effect", Json::text(names[j].as_str()))),
        );
        j = j + 1;
    }
    assert(text::views(effects@) =~= text::views(names@).map_values(
        |e: Seq<char>| JView::Obj(json::one("effect"@, JView::Str(e))),
    ));
    Json::object(
        Object::new().with("color", Json::array(colors)).with("effects", Json::array(effects)),
    )
}

/// The body that publishes a scene to a group.
pub open spec fn body_of(request: SceneRequestView, group: JView) -> Members {
    let metadata = json::put(
        json::one("name"@, JView::Str(published_name(request.scene, request.name))),
        "appdata"@,
        JView::Str(appdata_of(request.scene)),
    );
    let actions = member_actions(
        request.members,
        request.animation.effects,
        request.members.len(),
    );
    let plain = json::put(
        json::put(json::one("metadata"@, JView::Obj(metadata)), "group"@, group),
        "actions"@,
        JView::Arr(actions),
    );
    if request.animation.enabled {
        let colored = json::put(plain, "palette"@, palette_of(request.animation));
        let sped = match request.animation.speed {
            Some(speed) => json::put(colored, "speed"@, JView::Num(speed)),
            None => colored,
        };
        json::put(sped, "auto_dynamic"@, JView::Bool(request.animation.auto_dynamic))
    } else {
        plain
    }
}

/// Why a scene cannot be published: the bridge could not play its animation, or no light of it has
/// anything to do.
pub open spec fn publish_problem(request: SceneRequestView) -> Option<Seq<char>> {
    match animation_problem(request) {
        Some(p) => Some(p),
        None => if member_actions(
            request.members,
            request.animation.effects,
            request.members.len(),
        ).len() == 0 {
            Some("the scene has no Hue-compatible light actions"@)
        } else {
            None
        },
    }
}

/// The body that publishes a scene to a group, with the markers it carries.
pub fn scene_body(request: &SceneRequest, group: Json) -> (r: Result<
    (Json, String, String),
    String,
>)
    ensures
        match r {
            Ok((body, token, appdata)) => publish_problem(request@) is None && body@ == JView::Obj(
                body_of(request@, group@),
            ) && token@ == token_of(request.scene) && appdata@ == appdata_of(request.scene),
            Err(e) => publish_problem(request@) == Some(e@),
        },
{
    match validate_animation(request) {
        Ok(_) => {},
        Err(e) => {
            return Err(e);
        },
    }
    let (name, token, appdata) = owned_scene_name(request.scene, request.name.as_str());
    let actions = actions_of(request);
    assert(text::views(actions@).len() == actions@.len());
    if actions.len() == 0 {
        return Err("the scene has no Hue-compatible light actions".to_string());
    }
    let metadata = Object::new().with("name", Json::Str(name)).with(
        "appdata",
        Json::text(appdata.as_str()),
    );
    let mut body = Object::new().with("metadata", Json::object(metadata)).with(
        "group",
        group,
    ).with("actions", Json::array(actions));
    if request.animation.enabled {
        body.insert("palette", palette(&request.animation));
        match &request.animation.speed {
            Some(speed) => {
                body.insert("speed", Json::Num(speed.clone()));
            },
            None => {},
        }
        body.insert("auto_dynamic", Json::Bool(request.animation.auto_dynamic));
    }
    Ok((Json::object(body), token, appdata))
}

/// The ids of the first `n` lights that belong to one of these devices, ascending, each once.
pub open spec fn owned_lights(lights: Seq<JView>, n: nat, devices: Seq<Seq<char>>) -> Seq<Seq<char>>
    decreases n,
{
    if n == 0 {
        seq![]
    } else {
        let rest = owned_lights(lights, (n - 1) as nat, devices);
        let light = lights[n - 1];
        match (json::as_str(light.get2("owner"@, "rid"@)), json::as_str(light.get("id"@))) {
            (Some(owner), Some(id)) => if devices.contains(owner) {
                text::with_one(rest, id)
            } else {
                rest
            },
            _ => rest,
        }
    }
}

/// The lights of a room: those of the devices in it, ascending, each once.
pub open spec fn room_lights(inst: InstanceView, room: JView) -> Seq<Seq<char>> {
    let lights = bridge::cached_items(inst, HUE_LIGHTS@);
    owned_lights(lights, lights.len(), bridge::children_of(room, "device"@))
}

/// The lights of a room: those of the devices in it, ascending, each once.
pub fn room_light_ids(inst: &Instance, room: &Json) -> (r: Vec<String>)
    ensures
        text::views(r@) == room_lights(inst@, room@),
{
    let devices = bridge::children_ids(room, "device");
    let lights = bridge::cached(inst, HUE_LIGHTS);
    let mut out: Vec<String> = Vec::new();
    assert(text::views(out@) =~= seq![]);
    let mut i: usize = 0;
    while i < lights.len()
        invariant
            i <= lights.len(),
            text::views(out@) == owned_lights(
                text::views(lights@),
                i as nat,
                text::views(devices@),
            ),
        decreases lights.len() - i,
    {
        let owner = json::str_of(lights[i].get2("owner", "rid"));
        let id = json::str_of(lights[i].get("id"));
        match (owner, id) {
            (Some(owner), Some(id)) => {
                if text::has(&devices, owner) {
                    text::add_one(&mut out, id);
                }
            },
            _ => {},
        }
        i = i + 1;
    }
    out
}

/// The first of the first `n` zones that has exactly these lights.
pub open spec fn zone_with(zones: Seq<JView>, n: nat, ids: Seq<Seq<char>>) -> Option<JView>
    decreases n,
{
    if n == 0 {
        None
    } else {
        match zone_with(zones, (n - 1) as nat, ids) {
            Some(z) => Some(z),
            None => if bridge::children_of(zones[n - 1], "light"@) == ids {
                Some(zones[n - 1])
            } else {
                None
            },
        }
    }
}

/// The first of the first `n` rooms that has exactly these lights.
pub open spec fn room_with(
    inst: InstanceView,
    rooms: Seq<JView>,
    n: nat,
    ids: Seq<Seq<char>>,
) -> Option<JView>
    decreases n,
{
    if n == 0 {
        None
    } else {
        match room_with(inst, rooms, (n - 1) as nat, ids) {
            Some(z) => Some(z),
            None => if room_lights(inst, rooms[n - 1]) == ids {
                Some(rooms[n - 1])
            } else {
                None
            },
        }
    }
}

proof fn zone_with_stays(zones: Seq<JView>, n: nat, m: nat, ids: Seq<Seq<char>>)
    requires
        n <= m,
        zone_with(zones, n, ids) is Some,
    ensures
        zone_with(zones, m, ids) == zone_with(zones, n, ids),
    decreases m,
{
    if n < m {
        zone_with_stays(zones, n, (m - 1) as nat, ids);
    }
}

proof fn room_with_stays(
    inst: InstanceView,
    rooms: Seq<JView>,
    n: nat,
    m: nat,
    ids: Seq<Seq<char>>,
)
    requires
        n <= m,
        room_with(inst, rooms, n, ids) is Some,
    ensures
        room_with(inst, rooms, m, ids) == room_with(inst, rooms, n, ids),
    decreases m,
{
    if n < m {
        room_with_stays(inst, rooms, n, (m - 1) as nat, ids);
    }
}

/// A reference to a group, where it has an id.
pub open spec fn group_reference(group: JView, kind: Seq<char>) -> Option<JView> {
    match json::as_str(group.get("id"@)) {
        Some(id) => Some(bridge::reference(id, kind)),
        None => None,
    }
}

/// The group that has exactly these lights: a zone where there is one, and a room otherwise.
pub open spec fn group_with(inst: InstanceView, ids: Seq<Seq<char>>) -> Option<JView> {
    let zones = bridge::cached_items(inst, bridge::HUE_ZONES@);
    let rooms = bridge::cached_items(inst, HUE_ROOMS@);
    match zone_with(zones, zones.len(), ids) {
        Some(zone) => group_reference(zone, "zone"@),
        None => match room_with(inst, rooms, rooms.len(), ids) {
            Some(room) => group_reference(room, "room"@),
            None => None,
        },
    }
}

fn refer_to(group: &Json, kind: &str) -> (r: Option<Json>)
    ensures
        text::view_of(r) == group_reference(group@, kind@),
{
    match json::str_of(group.get("id")) {
        Some(id) => Some(bridge::refer(id, kind)),
        None => None,
    }
}

/// Whether two lists have the same strings in the same order.
pub fn same_list(a: &Vec<String>, b: &Vec<String>) -> (r: bool)
    ensures
        r == (text::views(a@) == text::views(b@)),
{
    if a.len() != b.len() {
        assert(text::views(a@).len() != text::views(b@).len());
        return false;
    }
    let mut i: usize = 0;
    while i < a.len()
        invariant
            i <= a.len(),
            a.len() == b.len(),
            forall|k: int| 0 <= k < i ==> a@[k]@ == b@[k]@,
        decreases a.len() - i,
    {
        if !text::same(a[i].as_str(), b[i].as_str()) {
            assert(text::views(a@)[i as int] != text::views(b@)[i as int]);
            return false;
        }
        i = i + 1;
    }
    assert(text::views(a@) =~= text::views(b@));
    true
}

/// The group that has exactly these lights: a zone where there is one, and a room otherwise.
pub fn exact_group(inst: &Instance, light_ids: &Vec<String>) -> (r: Option<Json>)
    ensures
        text::view_of(r) == group_with(inst@, text::views(light_ids@)),
{
    let ghost ids = text::views(light_ids@);
    let zones = bridge::cached_zones(inst);
    let mut i: usize = 0;
    while i < zones.len()
        invariant
            i <= zones.len(),
            ids == text::views(light_ids@),
            text::views(zones@) == bridge::cached_items(inst@, bridge::HUE_ZONES@),
            zone_with(text::views(zones@), i as nat, ids) is None,
        decreases zones.len() - i,
    {
        if same_list(&bridge::zone_light_ids(zones[i]), light_ids) {
            proof {
                zone_with_stays(text::views(zones@), (i + 1) as nat, zones@.len(), ids);
            }
            return refer_to(zones[i], "zone");
        }
        i = i + 1;
    }
    let rooms = bridge::cached(inst, HUE_ROOMS);
    let mut j: usize = 0;
    while j < rooms.len()
        invariant
            j <= rooms.len(),
            ids == text::views(light_ids@),
            text::views(zones@) == bridge::cached_items(inst@, bridge::HUE_ZONES@),
            zone_with(text::views(zones@), zones@.len(), ids) is None,
            text::views(rooms@) == bridge::cached_items(inst@, HUE_ROOMS@),
            room_with(inst@, text::views(rooms@), j as nat, ids) is None,
        decreases rooms.len() - j,
    {
        if same_list(&room_light_ids(inst, rooms[j]), light_ids) {
            proof {
                room_with_stays(inst@, text::views(rooms@), (j + 1) as nat, rooms@.len(), ids);
            }
            return refer_to(rooms[j], "room");
        }
        j = j + 1;
    }
    None
}

/// What a light says it can play.
pub open spec fn effect_values(light: JView) -> Option<Seq<JView>> {
    json::as_array(light.get3("effects_v2"@, "status"@, "effect_values"@))
}

/// Remembers what a light says it can play, and nothing where it says nothing of it.
pub fn cache_effects_v2(inst: &mut Instance, light: &Json)
    ensures
        final(inst)@ == match effect_values(light@) {
            Some(values) => host::remember(
                old(inst)@,
                HUE_EFFECTS_V2@,
                json::string_array(json::strings(values)),
            ),
            None => old(inst)@,
        },
{
    let values = light.get3("effects_v2", "status", "effect_values");
    match json::array_of(values) {
        Some(_) => {
            let list = json::strings_of(values);
            inst.remember(HUE_EFFECTS_V2, Json::texts(&list));
        },
        None => {},
    }
}

} // verus!
